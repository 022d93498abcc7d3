//! Mathematical views of the domain records and of the store.
//!
//! Every executable record type has a ghost counterpart over `Seq<char>`
//! and plain integers; contracts are stated over these views so that they
//! speak the language of sequences and maps rather than of heap values.

use vstd::prelude::*;

use crate::errors::DbError;

verus! {

/// View of a stored `Page` row.
#[verifier::ext_equal]
pub ghost struct PageView {
    pub page_name: Seq<char>,
    pub page_url: Seq<char>,
    pub page_title: Seq<char>,
    pub time_created: i64,
}

/// View of a `MutPage` payload: the three writable columns.
#[verifier::ext_equal]
pub ghost struct MutPageView {
    pub page_name: Seq<char>,
    pub page_url: Seq<char>,
    pub page_title: Seq<char>,
}

/// View of a `Module` row.
#[verifier::ext_equal]
pub ghost struct ModuleView {
    pub title: Seq<char>,
    pub page_name: Seq<char>,
    pub content: Seq<char>,
}

/// View of the whole relational store: the two tables and the backend
/// clock whose value is stamped onto freshly inserted pages.
#[verifier::ext_equal]
pub ghost struct DbView {
    pub pages: Seq<PageView>,
    pub modules: Seq<ModuleView>,
    pub clock: i64,
}

/// The page row that inserting payload `m` at backend time `created`
/// produces.
pub open spec fn page_of_mut(m: MutPageView, created: i64) -> PageView {
    PageView {
        page_name: m.page_name,
        page_url: m.page_url,
        page_title: m.page_title,
        time_created: created,
    }
}

/// Whether some page row carries primary key `name`.
pub open spec fn has_page(pages: Seq<PageView>, name: Seq<char>) -> bool {
    exists|i: int| 0 <= i < pages.len() && pages[i].page_name == name
}

/// The index of the page row carrying primary key `name`; meaningful only
/// under `has_page` and key uniqueness.
pub open spec fn page_index(pages: Seq<PageView>, name: Seq<char>) -> int {
    choose|i: int| 0 <= i < pages.len() && pages[i].page_name == name
}

/// Primary keys are pairwise distinct across the page table.
pub open spec fn distinct_page_names(pages: Seq<PageView>) -> bool {
    forall|i: int, j: int|
        0 <= i < j < pages.len() ==> pages[i].page_name != pages[j].page_name
}

impl DbView {
    /// Store well-formedness: the page table never holds two rows with the
    /// same primary key.
    pub open spec fn wf(self) -> bool {
        distinct_page_names(self.pages)
    }
}

/// The store after inserting payload `m` with insert-or-ignore semantics:
/// a primary-key collision leaves the store untouched, otherwise the new
/// row is appended, stamped with the backend clock.
pub open spec fn sp_create_db(db: DbView, m: MutPageView) -> DbView {
    if has_page(db.pages, m.page_name) {
        db
    } else {
        DbView { pages: db.pages.push(page_of_mut(m, db.clock)), ..db }
    }
}

/// The row count reported by an insert-or-ignore of payload `m`.
pub open spec fn sp_create_count(db: DbView, m: MutPageView) -> int {
    if has_page(db.pages, m.page_name) {
        0
    } else {
        1
    }
}

/// The single row matching primary key `id`, if any.
pub open spec fn sp_read_one(db: DbView, id: Seq<char>) -> Option<PageView> {
    if has_page(db.pages, id) {
        Some(db.pages[page_index(db.pages, id)])
    } else {
        None
    }
}

/// The snapshot returned by a whole-table read.
pub open spec fn sp_read_all(db: DbView) -> Seq<PageView> {
    db.pages
}

/// Whether updating the row at `id` with payload `m` would move it onto a
/// primary key that another row already holds.
pub open spec fn sp_update_clashes(db: DbView, id: Seq<char>, m: MutPageView) -> bool {
    m.page_name != id && has_page(db.pages, m.page_name)
}

/// The store after `update(id, m)`: all three writable fields of the
/// matching row are overwritten and its creation time is kept; a missing
/// id or a key clash leaves the store untouched.
pub open spec fn sp_update_db(db: DbView, id: Seq<char>, m: MutPageView) -> DbView {
    if !has_page(db.pages, id) || sp_update_clashes(db, id, m) {
        db
    } else {
        let i = page_index(db.pages, id);
        DbView { pages: db.pages.update(i, page_of_mut(m, db.pages[i].time_created)), ..db }
    }
}

/// The outcome reported by `update(id, m)`: zero rows for a missing id
/// (no error), the store's native constraint error for a key clash, one
/// row otherwise.
pub open spec fn sp_update_result(db: DbView, id: Seq<char>, m: MutPageView) -> Result<
    int,
    DbError,
> {
    if !has_page(db.pages, id) {
        Ok(0)
    } else if sp_update_clashes(db, id, m) {
        Err(DbError::UniqueViolation)
    } else {
        Ok(1)
    }
}

/// The store after `delete(id)`: the matching row is removed; a missing id
/// leaves the store untouched.
pub open spec fn sp_delete_db(db: DbView, id: Seq<char>) -> DbView {
    if has_page(db.pages, id) {
        DbView { pages: db.pages.remove(page_index(db.pages, id)), ..db }
    } else {
        db
    }
}

/// The row count reported by `delete(id)`: zero signals absence, without
/// an error.
pub open spec fn sp_delete_count(db: DbView, id: Seq<char>) -> int {
    if has_page(db.pages, id) {
        1
    } else {
        0
    }
}

/// The tuples produced by joining `page` against the module rows whose
/// foreign key equals `id`, in table order: one tuple per matching module,
/// all sharing the same left side.
pub open spec fn join_rows(page: PageView, modules: Seq<ModuleView>, id: Seq<char>) -> Seq<
    (PageView, ModuleView),
>
    decreases modules.len(),
{
    if modules.len() == 0 {
        Seq::empty()
    } else {
        let rest = join_rows(page, modules.drop_last(), id);
        if modules.last().page_name == id {
            rest.push((page, modules.last()))
        } else {
            rest
        }
    }
}

/// How many module rows carry `id` as their foreign key.
pub open spec fn count_matching(modules: Seq<ModuleView>, id: Seq<char>) -> int
    decreases modules.len(),
{
    if modules.len() == 0 {
        0
    } else {
        count_matching(modules.drop_last(), id) + if modules.last().page_name == id {
            1int
        } else {
            0int
        }
    }
}

/// The result of the inner join filtered to primary key `id`: empty when
/// no page row carries `id` (an inner join needs both sides), otherwise
/// one tuple per module row referencing `id`.
pub open spec fn sp_join(db: DbView, id: Seq<char>) -> Seq<(PageView, ModuleView)> {
    if has_page(db.pages, id) {
        join_rows(db.pages[page_index(db.pages, id)], db.modules, id)
    } else {
        Seq::empty()
    }
}

/// Under key uniqueness, any in-range row carrying `name` stands at
/// `page_index(pages, name)`.
pub proof fn lemma_page_index_unique(pages: Seq<PageView>, name: Seq<char>, i: int)
    requires
        distinct_page_names(pages),
        0 <= i < pages.len(),
        pages[i].page_name == name,
    ensures
        has_page(pages, name),
        page_index(pages, name) == i,
{
    assert(has_page(pages, name));
    let j = page_index(pages, name);
    if i < j {
        assert(pages[i].page_name != pages[j].page_name);
    } else if j < i {
        assert(pages[j].page_name != pages[i].page_name);
    }
}

} // verus!
