use cms_data::database::Database;
use cms_data::errors::DbError;
use cms_data::models::Model;
use cms_data::page_models::{MutPage, Page};

fn mp(name: &str, url: &str, title: &str) -> MutPage {
    MutPage {
        page_name: name.to_string(),
        page_url: url.to_string(),
        page_title: title.to_string(),
    }
}

#[test]
fn page_lifecycle() {
    let mut db = Database::new();
    db.set_clock(1234567);

    assert_eq!(Page::create(&mp("home", "/", "Home"), &mut db), Ok(1));

    let read = Page::read_one("home".to_string(), &db).unwrap();
    assert_eq!(
        read,
        Page {
            page_name: "home".to_string(),
            page_url: "/".to_string(),
            page_title: "Home".to_string(),
            time_created: 1234567,
        }
    );

    db.set_clock(9999999);
    assert_eq!(
        Page::update("home".to_string(), &mp("home", "/index", "Home Page"), &mut db),
        Ok(1)
    );
    let read = Page::read_one("home".to_string(), &db).unwrap();
    assert_eq!(read.page_url, "/index".to_string());
    assert_eq!(read.page_title, "Home Page".to_string());
    assert_eq!(read.time_created, 1234567);

    assert_eq!(Page::delete("home".to_string(), &mut db), Ok(1));
    assert_eq!(Page::read_one("home".to_string(), &db), Err(DbError::NotFound));
}

#[test]
fn create_is_idempotent_under_collision() {
    let mut db = Database::new();
    db.set_clock(100);
    assert_eq!(Page::create(&mp("home", "/", "Home"), &mut db), Ok(1));

    db.set_clock(200);
    assert_eq!(Page::create(&mp("home", "/other", "Other"), &mut db), Ok(0));

    let read = Page::read_one("home".to_string(), &db).unwrap();
    assert_eq!(read.page_url, "/".to_string());
    assert_eq!(read.page_title, "Home".to_string());
    assert_eq!(read.time_created, 100);
}

#[test]
fn update_and_delete_absent_id_report_zero_rows() {
    let mut db = Database::new();
    assert_eq!(Page::update("ghost".to_string(), &mp("ghost", "/g", "G"), &mut db), Ok(0));
    assert_eq!(Page::delete("ghost".to_string(), &mut db), Ok(0));
    assert_eq!(Page::read_all(&db).unwrap().len(), 0);
}

#[test]
fn update_may_rename_onto_a_free_key_only() {
    let mut db = Database::new();
    db.set_clock(5);
    assert_eq!(Page::create(&mp("a", "/a", "A"), &mut db), Ok(1));
    assert_eq!(Page::create(&mp("b", "/b", "B"), &mut db), Ok(1));

    assert_eq!(
        Page::update("a".to_string(), &mp("b", "/a2", "A2"), &mut db),
        Err(DbError::UniqueViolation)
    );
    assert_eq!(Page::read_one("a".to_string(), &db).unwrap().page_url, "/a".to_string());

    assert_eq!(Page::update("a".to_string(), &mp("c", "/c", "C"), &mut db), Ok(1));
    assert_eq!(Page::read_one("a".to_string(), &db), Err(DbError::NotFound));
    let moved = Page::read_one("c".to_string(), &db).unwrap();
    assert_eq!(moved.page_url, "/c".to_string());
    assert_eq!(moved.time_created, 5);
}

#[test]
fn read_all_returns_one_record_per_distinct_key() {
    let mut db = Database::new();
    assert_eq!(Page::read_all(&db).unwrap().len(), 0);

    db.set_clock(1);
    assert_eq!(Page::create(&mp("a", "/a", "A"), &mut db), Ok(1));
    assert_eq!(Page::create(&mp("b", "/b", "B"), &mut db), Ok(1));
    assert_eq!(Page::create(&mp("c", "/c", "C"), &mut db), Ok(1));
    assert_eq!(Page::create(&mp("b", "/b2", "B2"), &mut db), Ok(0));

    let all = Page::read_all(&db).unwrap();
    assert_eq!(all.len(), 3);
    let names: Vec<String> = all.iter().map(|p| p.page_name.clone()).collect();
    assert!(names.contains(&"a".to_string()));
    assert!(names.contains(&"b".to_string()));
    assert!(names.contains(&"c".to_string()));
}
