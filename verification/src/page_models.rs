//! The Page record, its writable payload, the related Module record, and
//! the composed page+module aggregate view.

use vstd::prelude::*;

use crate::database::Database;
use crate::errors::DbError;
use crate::models::{Joinable, Model};
use crate::views::{
    has_page, join_rows, lemma_page_index_unique, page_of_mut, sp_create_count,
    sp_create_db, sp_delete_count, sp_delete_db, sp_join, sp_read_one, sp_update_clashes,
    sp_update_db, sp_update_result, DbView, MutPageView, ModuleView, PageView,
};

verus! {

/// A uniquely named content unit: one row of the page table.
///
/// `page_name` is the primary key and must match an external content
/// identifier; `page_url` is the routing path (not required unique by this
/// layer); `time_created` is stamped by the backend on insert and is never
/// user-mutable thereafter.
#[derive(Debug, PartialEq)]
pub struct Page {
    /// This should match the name of the HTML file.
    pub page_name: String,
    /// This should be the path which the program matches on.
    pub page_url: String,
    pub page_title: String,
    pub time_created: i64,
}

/// The writable projection of `Page`, used for both insert and update.
///
/// It excludes `time_created` because creation time is backend-assigned.
/// Any update through a `MutPage` overwrites all three fields
/// unconditionally: there is no partial-field update.
#[derive(Debug, PartialEq)]
pub struct MutPage {
    pub page_name: String,
    pub page_url: String,
    pub page_title: String,
}

/// A related content fragment: one row of the module table, carrying a
/// distinguishing `title` and a foreign key into the page table.
#[derive(Debug, PartialEq)]
pub struct Module {
    pub title: String,
    /// Foreign key: the `page_name` of the owning page.
    pub page_name: String,
    pub content: String,
}

impl View for Page {
    type V = PageView;

    open spec fn view(&self) -> PageView {
        PageView {
            page_name: self.page_name@,
            page_url: self.page_url@,
            page_title: self.page_title@,
            time_created: self.time_created,
        }
    }
}

impl View for MutPage {
    type V = MutPageView;

    open spec fn view(&self) -> MutPageView {
        MutPageView {
            page_name: self.page_name@,
            page_url: self.page_url@,
            page_title: self.page_title@,
        }
    }
}

impl View for Module {
    type V = ModuleView;

    open spec fn view(&self) -> ModuleView {
        ModuleView {
            title: self.title@,
            page_name: self.page_name@,
            content: self.content@,
        }
    }
}

impl Page {
    /// A fresh `Page` value with the same view as `self`.
    pub fn duplicate(&self) -> (r: Page)
        ensures
            r@ == self@,
    {
        let r = Page {
            page_name: self.page_name.clone(),
            page_url: self.page_url.clone(),
            page_title: self.page_title.clone(),
            time_created: self.time_created,
        };
        proof {
            assert(r@ =~= self@);
        }
        r
    }
}

impl Module {
    /// A fresh `Module` value with the same view as `self`.
    pub fn duplicate(&self) -> (r: Module)
        ensures
            r@ == self@,
    {
        let r = Module {
            title: self.title.clone(),
            page_name: self.page_name.clone(),
            content: self.content.clone(),
        };
        proof {
            assert(r@ =~= self@);
        }
        r
    }
}

/// The views of a joined result row by row.
pub open spec fn row_views(rows: Seq<(Page, Module)>) -> Seq<(PageView, ModuleView)> {
    rows.map_values(|pm: (Page, Module)| (pm.0@, pm.1@))
}

/// The mapping a list of keyed entries denotes, later entries overwriting
/// earlier ones with the same key.
pub open spec fn map_of(entries: Seq<(String, Module)>) -> Map<Seq<char>, ModuleView>
    decreases entries.len(),
{
    if entries.len() == 0 {
        Map::empty()
    } else {
        map_of(entries.drop_last()).insert(entries.last().0@, entries.last().1@)
    }
}

/// A mapping from a module's distinguishing attribute (its title) to the
/// full module record, with unique keys.
///
/// Inserting an already-present key overwrites its module: the
/// deliberate last-write-wins simplification of the aggregate view.
#[derive(Debug, PartialEq)]
pub struct FieldMap {
    pub entries: Vec<(String, Module)>,
}

impl View for FieldMap {
    type V = Map<Seq<char>, ModuleView>;

    open spec fn view(&self) -> Map<Seq<char>, ModuleView> {
        map_of(self.entries@)
    }
}

/// A key denoted by some entry is in the denoted mapping, and no other key
/// is.
proof fn lemma_map_of_contains(entries: Seq<(String, Module)>, key: Seq<char>)
    ensures
        map_of(entries).contains_key(key) <==> exists|i: int|
            0 <= i < entries.len() && entries[i].0@ == key,
    decreases entries.len(),
{
    if entries.len() > 0 {
        lemma_map_of_contains(entries.drop_last(), key);
        if entries.last().0@ == key {
            assert(entries[entries.len() - 1].0@ == key);
        } else if map_of(entries).contains_key(key) {
            let i = choose|i: int| 0 <= i < entries.drop_last().len() && entries.drop_last()[i].0@
                == key;
            assert(entries[i].0@ == key);
        } else if exists|i: int| 0 <= i < entries.len() && entries[i].0@ == key {
            let i = choose|i: int| 0 <= i < entries.len() && entries[i].0@ == key;
            assert(entries.drop_last()[i].0@ == key);
        }
    }
}

/// With distinct keys, the denoted mapping sends each entry's key to that
/// entry's module.
proof fn lemma_map_of_index(entries: Seq<(String, Module)>, i: int)
    requires
        forall|a: int, b: int| 0 <= a < b < entries.len() ==> entries[a].0@ != entries[b].0@,
        0 <= i < entries.len(),
    ensures
        map_of(entries).contains_key(entries[i].0@),
        map_of(entries)[entries[i].0@] == entries[i].1@,
    decreases entries.len(),
{
    if i < entries.len() - 1 {
        lemma_map_of_index(entries.drop_last(), i);
        assert(entries.drop_last()[i] == entries[i]);
        assert(entries[i].0@ != entries.last().0@);
    }
}

/// Overwriting the entry that holds `key` denotes the same mapping as
/// inserting into the denoted mapping.
proof fn lemma_map_of_update(entries: Seq<(String, Module)>, i: int, p: (String, Module))
    requires
        forall|a: int, b: int| 0 <= a < b < entries.len() ==> entries[a].0@ != entries[b].0@,
        0 <= i < entries.len(),
        entries[i].0@ == p.0@,
    ensures
        map_of(entries.update(i, p)) =~= map_of(entries).insert(p.0@, p.1@),
    decreases entries.len(),
{
    let e1 = entries.update(i, p);
    if i == entries.len() - 1 {
        assert(e1.drop_last() =~= entries.drop_last());
        assert(e1.last() == p);
    } else {
        assert(e1.drop_last() =~= entries.drop_last().update(i, p));
        assert(e1.last() == entries.last());
        lemma_map_of_update(entries.drop_last(), i, p);
        assert(entries[i].0@ != entries.last().0@);
    }
}

/// With distinct keys, the denoted mapping has exactly one key per entry.
proof fn lemma_map_of_dom_len(entries: Seq<(String, Module)>)
    requires
        forall|a: int, b: int| 0 <= a < b < entries.len() ==> entries[a].0@ != entries[b].0@,
    ensures
        map_of(entries).dom().finite(),
        map_of(entries).dom().len() == entries.len(),
    decreases entries.len(),
{
    if entries.len() == 0 {
        assert(map_of(entries).dom() =~= Set::<Seq<char>>::empty());
    } else {
        lemma_map_of_dom_len(entries.drop_last());
        lemma_map_of_contains(entries.drop_last(), entries.last().0@);
        assert(forall|i: int|
            0 <= i < entries.drop_last().len() ==> entries.drop_last()[i].0@
                != entries.last().0@);
        assert(!map_of(entries.drop_last()).contains_key(entries.last().0@));
        assert(map_of(entries).dom() =~= map_of(entries.drop_last()).dom().insert(
            entries.last().0@,
        ));
    }
}

impl FieldMap {
    /// Keys are pairwise distinct across the entry list.
    pub open spec fn wf(&self) -> bool {
        forall|a: int, b: int|
            0 <= a < b < self.entries@.len() ==> self.entries@[a].0@ != self.entries@[b].0@
    }

    /// An empty mapping.
    pub fn new() -> (r: FieldMap)
        ensures
            r.wf(),
            r@ == Map::<Seq<char>, ModuleView>::empty(),
    {
        FieldMap { entries: Vec::new() }
    }

    /// Map `key` to `m`, overwriting whatever module `key` held before.
    pub fn insert(&mut self, key: String, m: Module)
        requires
            old(self).wf(),
        ensures
            final(self).wf(),
            final(self)@ == old(self)@.insert(key@, m@),
    {
        let mut i: usize = 0;
        while i < self.entries.len()
            invariant
                old(self).wf(),
                i <= self.entries@.len(),
                forall|k: int| 0 <= k < i ==> self.entries@[k].0@ != key@,
                *self == *old(self),
            decreases self.entries@.len() - i,
        {
            if self.entries[i].0 == key {
                proof {
                    lemma_map_of_update(self.entries@, i as int, (key, m));
                }
                self.entries.set(i, (key, m));
                proof {
                    assert forall|a: int, b: int|
                        0 <= a < b < self.entries@.len() implies self.entries@[a].0@
                        != self.entries@[b].0@ by {
                        assert(old(self).entries@[a].0@ != old(self).entries@[b].0@);
                    }
                }
                return ;
            }
            i += 1;
        }
        self.entries.push((key, m));
        proof {
            assert(self.entries@.drop_last() =~= old(self).entries@);
            assert forall|a: int, b: int|
                0 <= a < b < self.entries@.len() implies self.entries@[a].0@
                != self.entries@[b].0@ by {
                if b < old(self).entries@.len() {
                    assert(old(self).entries@[a].0@ != old(self).entries@[b].0@);
                } else {
                    assert(old(self).entries@[a].0@ != key@);
                }
            }
        }
    }

    /// The module that `key` maps to, if any.
    pub fn get(&self, key: &String) -> (r: Option<&Module>)
        requires
            self.wf(),
        ensures
            match r {
                Some(m) => self@.contains_key(key@) && m@ == self@[key@],
                None => !self@.contains_key(key@),
            },
    {
        let mut i: usize = 0;
        while i < self.entries.len()
            invariant
                self.wf(),
                i <= self.entries@.len(),
                forall|k: int| 0 <= k < i ==> self.entries@[k].0@ != key@,
            decreases self.entries@.len() - i,
        {
            if self.entries[i].0 == *key {
                proof {
                    lemma_map_of_index(self.entries@, i as int);
                }
                return Some(&self.entries[i].1);
            }
            i += 1;
        }
        proof {
            lemma_map_of_contains(self.entries@, key@);
        }
        None
    }

    /// How many modules the mapping holds.
    pub fn len(&self) -> (n: usize)
        requires
            self.wf(),
        ensures
            n == self@.dom().len(),
    {
        proof {
            lemma_map_of_dom_len(self.entries@);
        }
        self.entries.len()
    }
}

/// The `fields` mapping that folding a joined result produces: each
/// module lands under its title, a later row overwriting an earlier one
/// with the same title.
pub open spec fn sp_fields(rows: Seq<(PageView, ModuleView)>) -> Map<Seq<char>, ModuleView>
    decreases rows.len(),
{
    if rows.len() == 0 {
        Map::empty()
    } else {
        sp_fields(rows.drop_last()).insert(rows.last().1.title, rows.last().1)
    }
}

/// The aggregate, read-only view of a page together with its modules:
/// all page attributes plus a mapping from each module's title to the
/// full module record.
#[derive(Debug, PartialEq)]
pub struct PageModuleRelation {
    pub page_name: String,
    pub page_url: String,
    pub page_title: String,
    pub time_created: i64,
    /// The key of the mapping is the `title` of the module, and the rest
    /// is the module.
    pub fields: FieldMap,
}

impl PageModuleRelation {
    /// Reshape a flat join result into one aggregate view: the page fields
    /// come from the first tuple (every tuple of a join result shares the
    /// same left side) and every right side is folded into `fields` keyed
    /// by its title. An empty result yields no aggregate: the caller alone
    /// can tell a missing page from a page with zero modules.
    pub fn build(rows: &Vec<(Page, Module)>) -> (r: Option<PageModuleRelation>)
        ensures
            match r {
                None => rows@.len() == 0,
                Some(rel) => {
                    &&& rows@.len() > 0
                    &&& rel.page_name@ == rows@[0].0@.page_name
                    &&& rel.page_url@ == rows@[0].0@.page_url
                    &&& rel.page_title@ == rows@[0].0@.page_title
                    &&& rel.time_created == rows@[0].0@.time_created
                    &&& rel.fields.wf()
                    &&& rel.fields@ == sp_fields(row_views(rows@))
                },
            },
    {
        if rows.len() == 0 {
            return None;
        }
        let mut fields = FieldMap::new();
        let mut k: usize = 0;
        proof {
            assert(fields@ =~= sp_fields(row_views(rows@).take(0)));
        }
        while k < rows.len()
            invariant
                k <= rows@.len(),
                fields.wf(),
                fields@ == sp_fields(row_views(rows@).take(k as int)),
            decreases rows@.len() - k,
        {
            let key = rows[k].1.title.clone();
            let m = rows[k].1.duplicate();
            fields.insert(key, m);
            proof {
                let t1 = row_views(rows@).take(k as int + 1);
                assert(t1.drop_last() =~= row_views(rows@).take(k as int));
                assert(t1.last() == row_views(rows@)[k as int]);
                assert(fields@ =~= sp_fields(t1));
            }
            k += 1;
        }
        proof {
            assert(row_views(rows@).take(rows@.len() as int) =~= row_views(rows@));
        }
        let first = &rows[0].0;
        Some(
            PageModuleRelation {
                page_name: first.page_name.clone(),
                page_url: first.page_url.clone(),
                page_title: first.page_title.clone(),
                time_created: first.time_created,
                fields,
            },
        )
    }
}

/// The index of the first page row whose primary key equals `name`, if
/// any row matches.
fn find_page(pages: &Vec<Page>, name: &String) -> (r: Option<usize>)
    ensures
        match r {
            Some(i) => i < pages@.len() && pages@[i as int]@.page_name == name@,
            None => forall|k: int| 0 <= k < pages@.len() ==> pages@[k]@.page_name != name@,
        },
{
    let mut i: usize = 0;
    while i < pages.len()
        invariant
            i <= pages@.len(),
            forall|k: int| 0 <= k < i ==> pages@[k]@.page_name != name@,
        decreases pages@.len() - i,
    {
        if pages[i].page_name == *name {
            return Some(i);
        }
        i += 1;
    }
    None
}

impl Model<Page, MutPage, String> for Page {
    open spec fn create_post(new: MutPage, db0: DbView, db1: DbView, r: Result<usize, DbError>) -> bool {
        &&& db1 == sp_create_db(db0, new@)
        &&& match r {
            Ok(n) => n == sp_create_count(db0, new@),
            Err(_) => false,
        }
    }

    open spec fn read_one_post(id: String, db: DbView, r: Result<Page, DbError>) -> bool {
        match sp_read_one(db, id@) {
            Some(pv) => match r {
                Ok(p) => p@ == pv,
                Err(_) => false,
            },
            None => match r {
                Ok(_) => false,
                Err(e) => e == DbError::NotFound,
            },
        }
    }

    open spec fn read_all_post(db: DbView, r: Result<Vec<Page>, DbError>) -> bool {
        match r {
            Ok(v) => {
                &&& v@.len() == db.pages.len()
                &&& forall|k: int| 0 <= k < v@.len() ==> (#[trigger] v@[k])@ == db.pages[k]
            },
            Err(_) => false,
        }
    }

    open spec fn update_post(
        id: String,
        new: MutPage,
        db0: DbView,
        db1: DbView,
        r: Result<usize, DbError>,
    ) -> bool {
        &&& db1 == sp_update_db(db0, id@, new@)
        &&& match (r, sp_update_result(db0, id@, new@)) {
            (Ok(n), Ok(m)) => n == m,
            (Err(e), Err(f)) => e == f,
            _ => false,
        }
    }

    open spec fn delete_post(id: String, db0: DbView, db1: DbView, r: Result<usize, DbError>) -> bool {
        &&& db1 == sp_delete_db(db0, id@)
        &&& match r {
            Ok(n) => n == sp_delete_count(db0, id@),
            Err(_) => false,
        }
    }

    fn create(new_page: &MutPage, db: &mut Database) -> (r: Result<usize, DbError>) {
        match find_page(&db.pages, &new_page.page_name) {
            Some(i) => {
                proof {
                    assert(db@.pages[i as int].page_name == new_page@.page_name);
                    assert(has_page(db@.pages, new_page@.page_name));
                }
                Ok(0)
            },
            None => {
                proof {
                    assert forall|k: int|
                        0 <= k < db@.pages.len() implies #[trigger] db@.pages[k].page_name
                        != new_page@.page_name by {
                        assert(db@.pages[k] == db.pages@[k]@);
                    }
                    assert(!has_page(db@.pages, new_page@.page_name));
                }
                let page = Page {
                    page_name: new_page.page_name.clone(),
                    page_url: new_page.page_url.clone(),
                    page_title: new_page.page_title.clone(),
                    time_created: db.clock,
                };
                proof {
                    assert(page@ =~= page_of_mut(new_page@, old(db)@.clock));
                }
                db.pages.push(page);
                proof {
                    assert(db@.pages =~= old(db)@.pages.push(page_of_mut(
                        new_page@,
                        old(db)@.clock,
                    )));
                    assert(db@ =~= sp_create_db(old(db)@, new_page@));
                    assert forall|a: int, b: int|
                        0 <= a < b < db@.pages.len() implies db@.pages[a].page_name
                        != db@.pages[b].page_name by {
                        if b < old(db)@.pages.len() {
                            assert(old(db)@.pages[a].page_name != old(db)@.pages[b].page_name);
                        } else {
                            assert(db@.pages[b].page_name == new_page@.page_name);
                            assert(old(db)@.pages[a].page_name != new_page@.page_name);
                        }
                    }
                }
                Ok(1)
            },
        }
    }

    fn read_one(id: String, db: &Database) -> (r: Result<Page, DbError>) {
        match find_page(&db.pages, &id) {
            Some(i) => {
                let p = db.pages[i].duplicate();
                proof {
                    assert(db@.pages[i as int].page_name == id@);
                    lemma_page_index_unique(db@.pages, id@, i as int);
                }
                Ok(p)
            },
            None => {
                proof {
                    assert forall|k: int|
                        0 <= k < db@.pages.len() implies #[trigger] db@.pages[k].page_name != id@ by {
                        assert(db@.pages[k] == db.pages@[k]@);
                    }
                    assert(!has_page(db@.pages, id@));
                }
                Err(DbError::NotFound)
            },
        }
    }

    fn read_all(db: &Database) -> (r: Result<Vec<Page>, DbError>) {
        let mut out: Vec<Page> = Vec::new();
        let mut i: usize = 0;
        while i < db.pages.len()
            invariant
                i <= db.pages@.len(),
                out@.len() == i,
                forall|k: int| 0 <= k < i ==> (#[trigger] out@[k])@ == db@.pages[k],
            decreases db.pages@.len() - i,
        {
            let p = db.pages[i].duplicate();
            out.push(p);
            i += 1;
        }
        Ok(out)
    }

    fn update(id: String, new_page: &MutPage, db: &mut Database) -> (r: Result<usize, DbError>) {
        match find_page(&db.pages, &id) {
            None => {
                proof {
                    assert forall|k: int|
                        0 <= k < db@.pages.len() implies #[trigger] db@.pages[k].page_name != id@ by {
                        assert(db@.pages[k] == db.pages@[k]@);
                    }
                    assert(!has_page(db@.pages, id@));
                }
                Ok(0)
            },
            Some(i) => {
                proof {
                    assert(db@.pages[i as int].page_name == id@);
                    lemma_page_index_unique(db@.pages, id@, i as int);
                }
                if new_page.page_name == id {
                    proof {
                        assert(!sp_update_clashes(old(db)@, id@, new_page@));
                    }
                } else {
                    match find_page(&db.pages, &new_page.page_name) {
                        Some(j) => {
                            proof {
                                assert(db@.pages[j as int].page_name == new_page@.page_name);
                                assert(has_page(db@.pages, new_page@.page_name));
                            }
                            return Err(DbError::UniqueViolation);
                        },
                        None => {
                            proof {
                                assert forall|k: int|
                                    0 <= k < db@.pages.len() implies #[trigger] db@.pages[k].page_name
                                    != new_page@.page_name by {
                                    assert(db@.pages[k] == db.pages@[k]@);
                                }
                                assert(!has_page(db@.pages, new_page@.page_name));
                                assert(!sp_update_clashes(old(db)@, id@, new_page@));
                            }
                        },
                    }
                }
                let created = db.pages[i].time_created;
                let page = Page {
                    page_name: new_page.page_name.clone(),
                    page_url: new_page.page_url.clone(),
                    page_title: new_page.page_title.clone(),
                    time_created: created,
                };
                proof {
                    assert(page@ =~= page_of_mut(new_page@, old(db)@.pages[i as int].time_created));
                }
                db.pages.set(i, page);
                proof {
                    assert(db@.pages =~= old(db)@.pages.update(
                        i as int,
                        page_of_mut(new_page@, old(db)@.pages[i as int].time_created),
                    ));
                    assert(db@ =~= sp_update_db(old(db)@, id@, new_page@));
                    assert forall|a: int, b: int|
                        0 <= a < b < db@.pages.len() implies db@.pages[a].page_name
                        != db@.pages[b].page_name by {
                        if a != i as int && b != i as int {
                            assert(old(db)@.pages[a].page_name != old(db)@.pages[b].page_name);
                        } else if a == i as int {
                            assert(db@.pages[a].page_name == new_page@.page_name);
                            assert(old(db)@.pages[b].page_name != new_page@.page_name);
                        } else {
                            assert(db@.pages[b].page_name == new_page@.page_name);
                            assert(old(db)@.pages[a].page_name != new_page@.page_name);
                        }
                    }
                }
                Ok(1)
            },
        }
    }

    fn delete(id: String, db: &mut Database) -> (r: Result<usize, DbError>) {
        match find_page(&db.pages, &id) {
            None => {
                proof {
                    assert forall|k: int|
                        0 <= k < db@.pages.len() implies #[trigger] db@.pages[k].page_name != id@ by {
                        assert(db@.pages[k] == db.pages@[k]@);
                    }
                    assert(!has_page(db@.pages, id@));
                }
                Ok(0)
            },
            Some(i) => {
                proof {
                    assert(db@.pages[i as int].page_name == id@);
                    lemma_page_index_unique(db@.pages, id@, i as int);
                }
                db.pages.remove(i);
                proof {
                    assert(db@.pages =~= old(db)@.pages.remove(i as int));
                    assert(db@ =~= sp_delete_db(old(db)@, id@));
                    assert forall|a: int, b: int|
                        0 <= a < b < db@.pages.len() implies db@.pages[a].page_name
                        != db@.pages[b].page_name by {
                        let oa: int = if a < i as int { a } else { a + 1 };
                        let ob: int = if b < i as int { b } else { b + 1 };
                        assert(db@.pages[a] == old(db)@.pages[oa]);
                        assert(db@.pages[b] == old(db)@.pages[ob]);
                        assert(old(db)@.pages[oa].page_name != old(db)@.pages[ob].page_name);
                    }
                }
                Ok(1)
            },
        }
    }
}

/// Separate implementation for the joinable trait: a Page joined against
/// its Modules through the foreign key on the module table.
impl Joinable<Page, Module, String> for Page {
    open spec fn join_post(id: String, db: DbView, r: Result<Vec<(Page, Module)>, DbError>) -> bool {
        match r {
            Ok(v) => row_views(v@) == sp_join(db, id@),
            Err(_) => false,
        }
    }

    fn read_one_join_on(id: String, db: &Database) -> (r: Result<Vec<(Page, Module)>, DbError>) {
        match find_page(&db.pages, &id) {
            None => {
                proof {
                    assert forall|k: int|
                        0 <= k < db@.pages.len() implies #[trigger] db@.pages[k].page_name != id@ by {
                        assert(db@.pages[k] == db.pages@[k]@);
                    }
                    assert(!has_page(db@.pages, id@));
                }
                let out: Vec<(Page, Module)> = Vec::new();
                proof {
                    assert(row_views(out@) =~= sp_join(db@, id@));
                }
                Ok(out)
            },
            Some(pi) => {
                proof {
                    assert(db@.pages[pi as int].page_name == id@);
                    lemma_page_index_unique(db@.pages, id@, pi as int);
                }
                let mut out: Vec<(Page, Module)> = Vec::new();
                let mut k: usize = 0;
                proof {
                    assert(row_views(out@) =~= join_rows(
                        db@.pages[pi as int],
                        db@.modules.take(0),
                        id@,
                    ));
                }
                while k < db.modules.len()
                    invariant
                        k <= db.modules@.len(),
                        pi < db.pages@.len(),
                        row_views(out@) == join_rows(
                            db@.pages[pi as int],
                            db@.modules.take(k as int),
                            id@,
                        ),
                    decreases db.modules@.len() - k,
                {
                    if db.modules[k].page_name == id {
                        let p = db.pages[pi].duplicate();
                        let m = db.modules[k].duplicate();
                        out.push((p, m));
                    }
                    proof {
                        let t1 = db@.modules.take(k as int + 1);
                        assert(t1.drop_last() =~= db@.modules.take(k as int));
                        assert(t1.last() == db@.modules[k as int]);
                        assert(row_views(out@) =~= join_rows(db@.pages[pi as int], t1, id@));
                    }
                    k += 1;
                }
                proof {
                    assert(db@.modules.take(db.modules@.len() as int) =~= db@.modules);
                    assert(row_views(out@) == sp_join(db@, id@));
                }
                Ok(out)
            },
        }
    }
}

} // verus!
