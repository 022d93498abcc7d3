use cms_data::database::Database;
use cms_data::models::{Joinable, Model};
use cms_data::page_models::{Module, MutPage, Page, PageModuleRelation};

fn mp(name: &str, url: &str, title: &str) -> MutPage {
    MutPage {
        page_name: name.to_string(),
        page_url: url.to_string(),
        page_title: title.to_string(),
    }
}

fn module(title: &str, page: &str, content: &str) -> Module {
    Module {
        title: title.to_string(),
        page_name: page.to_string(),
        content: content.to_string(),
    }
}

#[test]
fn join_on_page_without_modules_is_empty() {
    let mut db = Database::new();
    assert_eq!(Page::create(&mp("home", "/", "Home"), &mut db), Ok(1));
    let rows = Page::read_one_join_on("home".to_string(), &db).unwrap();
    assert_eq!(rows.len(), 0);
}

#[test]
fn join_on_missing_page_is_empty() {
    let mut db = Database::new();
    db.add_module(module("header", "home", "<h1>"));
    let rows = Page::read_one_join_on("home".to_string(), &db).unwrap();
    assert_eq!(rows.len(), 0);
}

#[test]
fn join_fans_out_one_tuple_per_module() {
    let mut db = Database::new();
    db.set_clock(42);
    assert_eq!(Page::create(&mp("home", "/", "Home"), &mut db), Ok(1));
    assert_eq!(Page::create(&mp("blog", "/blog", "Blog"), &mut db), Ok(1));
    db.add_module(module("header", "home", "<h1>"));
    db.add_module(module("sidebar", "blog", "<nav>"));
    db.add_module(module("footer", "home", "<p>"));

    let rows = Page::read_one_join_on("home".to_string(), &db).unwrap();
    assert_eq!(rows.len(), 2);
    for (page, _) in &rows {
        assert_eq!(page.page_name, "home".to_string());
        assert_eq!(page.page_url, "/".to_string());
        assert_eq!(page.page_title, "Home".to_string());
        assert_eq!(page.time_created, 42);
    }
    assert_eq!(rows[0].1, module("header", "home", "<h1>"));
    assert_eq!(rows[1].1, module("footer", "home", "<p>"));
}

#[test]
fn aggregate_of_empty_join_is_none() {
    let rows: Vec<(Page, Module)> = Vec::new();
    assert!(PageModuleRelation::build(&rows).is_none());
}

#[test]
fn aggregate_keys_modules_by_title() {
    let mut db = Database::new();
    db.set_clock(7);
    assert_eq!(Page::create(&mp("home", "/", "Home"), &mut db), Ok(1));
    db.add_module(module("header", "home", "<h1>"));
    db.add_module(module("footer", "home", "<p>"));

    let rows = Page::read_one_join_on("home".to_string(), &db).unwrap();
    let rel = PageModuleRelation::build(&rows).unwrap();
    assert_eq!(rel.page_name, "home".to_string());
    assert_eq!(rel.page_url, "/".to_string());
    assert_eq!(rel.page_title, "Home".to_string());
    assert_eq!(rel.time_created, 7);
    assert_eq!(rel.fields.len(), 2);
    assert_eq!(
        rel.fields.get(&"header".to_string()),
        Some(&module("header", "home", "<h1>"))
    );
    assert_eq!(
        rel.fields.get(&"footer".to_string()),
        Some(&module("footer", "home", "<p>"))
    );
    assert_eq!(rel.fields.get(&"sidebar".to_string()), None);
}

#[test]
fn aggregate_duplicate_titles_last_write_wins() {
    let mut db = Database::new();
    assert_eq!(Page::create(&mp("home", "/", "Home"), &mut db), Ok(1));
    db.add_module(module("header", "home", "first"));
    db.add_module(module("header", "home", "second"));

    let rows = Page::read_one_join_on("home".to_string(), &db).unwrap();
    assert_eq!(rows.len(), 2);
    let rel = PageModuleRelation::build(&rows).unwrap();
    assert_eq!(rel.fields.len(), 1);
    assert_eq!(
        rel.fields.get(&"header".to_string()),
        Some(&module("header", "home", "second"))
    );
}
