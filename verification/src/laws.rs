//! Laws of the persistence layer: how create, read, update, delete, the
//! join composer and the aggregate builder relate across calls, proved
//! once for every input over the same spec functions that the executable
//! operations are verified against.

use vstd::prelude::*;

use crate::errors::DbError;
use crate::page_models::sp_fields;
use crate::views::{
    count_matching, has_page, join_rows, lemma_page_index_unique, page_index, page_of_mut,
    sp_create_count, sp_create_db, sp_delete_count, sp_delete_db, sp_read_one, sp_update_clashes,
    sp_update_db, sp_update_result, DbView, ModuleView, MutPageView, PageView,
};

verus! {

/// Law: insert-or-ignore keeps primary keys unique.
pub proof fn lemma_create_wf(db: DbView, m: MutPageView)
    requires
        db.wf(),
    ensures
        sp_create_db(db, m).wf(),
{
    if !has_page(db.pages, m.page_name) {
        let p1 = db.pages.push(page_of_mut(m, db.clock));
        assert forall|a: int, b: int|
            0 <= a < b < p1.len() implies p1[a].page_name != p1[b].page_name by {
            if b < db.pages.len() {
                assert(db.pages[a].page_name != db.pages[b].page_name);
            } else {
                assert(p1[b].page_name == m.page_name);
                assert(db.pages[a].page_name != m.page_name);
            }
        }
    }
}

/// Law: an update keeps primary keys unique.
pub proof fn lemma_update_wf(db: DbView, id: Seq<char>, m: MutPageView)
    requires
        db.wf(),
    ensures
        sp_update_db(db, id, m).wf(),
{
    if has_page(db.pages, id) && !sp_update_clashes(db, id, m) {
        let i = page_index(db.pages, id);
        assert(0 <= i < db.pages.len() && db.pages[i].page_name == id);
        let p1 = db.pages.update(i, page_of_mut(m, db.pages[i].time_created));
        assert forall|a: int, b: int|
            0 <= a < b < p1.len() implies p1[a].page_name != p1[b].page_name by {
            if a != i && b != i {
                assert(db.pages[a].page_name != db.pages[b].page_name);
            } else if a == i {
                assert(p1[a].page_name == m.page_name);
                if m.page_name == id {
                    assert(db.pages[b].page_name != id);
                } else {
                    assert(db.pages[b].page_name != m.page_name);
                }
            } else {
                assert(p1[b].page_name == m.page_name);
                if m.page_name == id {
                    assert(db.pages[a].page_name != id);
                } else {
                    assert(db.pages[a].page_name != m.page_name);
                }
            }
        }
    }
}

/// Law: a delete keeps primary keys unique.
pub proof fn lemma_delete_wf(db: DbView, id: Seq<char>)
    requires
        db.wf(),
    ensures
        sp_delete_db(db, id).wf(),
{
    if has_page(db.pages, id) {
        let i = page_index(db.pages, id);
        assert(0 <= i < db.pages.len() && db.pages[i].page_name == id);
        let p1 = db.pages.remove(i);
        assert forall|a: int, b: int|
            0 <= a < b < p1.len() implies p1[a].page_name != p1[b].page_name by {
            let oa: int = if a < i {
                a
            } else {
                a + 1
            };
            let ob: int = if b < i {
                b
            } else {
                b + 1
            };
            assert(p1[a] == db.pages[oa]);
            assert(p1[b] == db.pages[ob]);
            assert(db.pages[oa].page_name != db.pages[ob].page_name);
        }
    }
}

/// Law: creating a page under a fresh primary key reports one row, and a
/// following single-row read of that key returns the payload's writable
/// fields with the backend clock as its creation time.
pub proof fn lemma_create_then_read_one(db: DbView, m: MutPageView)
    requires
        db.wf(),
        !has_page(db.pages, m.page_name),
    ensures
        sp_create_count(db, m) == 1,
        sp_read_one(sp_create_db(db, m), m.page_name) == Some(page_of_mut(m, db.clock)),
{
    lemma_create_wf(db, m);
    let db1 = sp_create_db(db, m);
    let i = db.pages.len() as int;
    assert(db1.pages[i].page_name == m.page_name);
    lemma_page_index_unique(db1.pages, m.page_name, i);
}

/// Law: create is idempotent under primary-key collision. A second create
/// with the same primary key leaves the store exactly as the first left
/// it and reports zero rows, never an error.
pub proof fn lemma_create_idempotent(db: DbView, p: MutPageView, q: MutPageView)
    requires
        db.wf(),
        q.page_name == p.page_name,
    ensures
        sp_create_db(sp_create_db(db, p), q) == sp_create_db(db, p),
        sp_create_count(sp_create_db(db, p), q) == 0,
{
    let db1 = sp_create_db(db, p);
    if has_page(db.pages, p.page_name) {
        assert(has_page(db1.pages, q.page_name));
    } else {
        let i = db.pages.len() as int;
        assert(db1.pages[i].page_name == q.page_name);
        assert(has_page(db1.pages, q.page_name));
    }
}

/// Law: an update on an existing id reports one row and overwrites all
/// writable fields, so that a following single-row read of that id
/// returns exactly the payload's fields unioned with the original
/// creation time; in particular, no update ever changes `time_created`.
pub proof fn lemma_update_then_read_one(db: DbView, id: Seq<char>, m: MutPageView)
    requires
        db.wf(),
        has_page(db.pages, id),
        m.page_name == id,
    ensures
        sp_update_result(db, id, m) == Ok::<int, DbError>(1),
        sp_read_one(sp_update_db(db, id, m), id) == Some(
            page_of_mut(m, db.pages[page_index(db.pages, id)].time_created),
        ),
{
    lemma_update_wf(db, id, m);
    let i = page_index(db.pages, id);
    assert(0 <= i < db.pages.len() && db.pages[i].page_name == id);
    let db1 = sp_update_db(db, id, m);
    assert(db1.pages[i].page_name == id);
    lemma_page_index_unique(db1.pages, id, i);
}

/// Law: update and delete on a non-existent id report zero rows, raise no
/// error, and leave the store untouched.
pub proof fn lemma_update_delete_absent(db: DbView, id: Seq<char>, m: MutPageView)
    requires
        !has_page(db.pages, id),
    ensures
        sp_update_db(db, id, m) == db,
        sp_update_result(db, id, m) == Ok::<int, DbError>(0),
        sp_delete_db(db, id) == db,
        sp_delete_count(db, id) == 0,
{
}

/// The store after creating every payload of `ps` in order.
pub open spec fn sp_create_all(db: DbView, ps: Seq<MutPageView>) -> DbView
    decreases ps.len(),
{
    if ps.len() == 0 {
        db
    } else {
        sp_create_db(sp_create_all(db, ps.drop_last()), ps.last())
    }
}

/// Law: after creating N payloads with pairwise distinct, fresh primary
/// keys, the whole-table snapshot holds exactly N more records than
/// before, one per distinct primary key, and a key is present afterwards
/// exactly when it was present before or is one of the N.
pub proof fn lemma_read_all_after_creates(db: DbView, ps: Seq<MutPageView>)
    requires
        db.wf(),
        forall|a: int, b: int| 0 <= a < b < ps.len() ==> ps[a].page_name != ps[b].page_name,
        forall|k: int| 0 <= k < ps.len() ==> !has_page(db.pages, #[trigger] ps[k].page_name),
    ensures
        sp_create_all(db, ps).wf(),
        sp_create_all(db, ps).pages.len() == db.pages.len() + ps.len(),
        forall|nm: Seq<char>|
            #[trigger] has_page(sp_create_all(db, ps).pages, nm) <==> (has_page(db.pages, nm)
                || exists|k: int| 0 <= k < ps.len() && ps[k].page_name == nm),
    decreases ps.len(),
{
    if ps.len() == 0 {
        assert forall|nm: Seq<char>|
            #[trigger] has_page(sp_create_all(db, ps).pages, nm) <==> (has_page(db.pages, nm)
                || exists|k: int| 0 <= k < ps.len() && ps[k].page_name == nm) by {
            assert(sp_create_all(db, ps) == db);
        }
    } else {
        let ps0 = ps.drop_last();
        let last = ps.last();
        assert(forall|k: int| 0 <= k < ps0.len() ==> ps0[k] == ps[k]);
        lemma_read_all_after_creates(db, ps0);
        let dbn = sp_create_all(db, ps0);
        assert(!has_page(dbn.pages, last.page_name)) by {
            if exists|k: int| 0 <= k < ps0.len() && ps0[k].page_name == last.page_name {
                let k = choose|k: int| 0 <= k < ps0.len() && ps0[k].page_name == last.page_name;
                assert(ps[k].page_name != ps[ps.len() - 1].page_name);
            }
        }
        lemma_create_wf(dbn, last);
        assert(sp_create_all(db, ps) == sp_create_db(dbn, last));
        let db1 = sp_create_db(dbn, last);
        assert(db1.pages == dbn.pages.push(page_of_mut(last, dbn.clock)));
        assert forall|nm: Seq<char>|
            #[trigger] has_page(db1.pages, nm) <==> (has_page(db.pages, nm) || exists|k: int|
                0 <= k < ps.len() && ps[k].page_name == nm) by {
            if has_page(db1.pages, nm) {
                let i = choose|i: int| 0 <= i < db1.pages.len() && db1.pages[i].page_name == nm;
                if i < dbn.pages.len() {
                    assert(dbn.pages[i].page_name == nm);
                    assert(has_page(dbn.pages, nm));
                    if !has_page(db.pages, nm) {
                        let k = choose|k: int| 0 <= k < ps0.len() && ps0[k].page_name == nm;
                        assert(ps[k].page_name == nm);
                    }
                } else {
                    assert(db1.pages[i] == page_of_mut(last, dbn.clock));
                    assert(ps[ps.len() - 1].page_name == nm);
                }
            }
            if has_page(db.pages, nm) {
                assert(has_page(dbn.pages, nm));
                let i = choose|i: int| 0 <= i < dbn.pages.len() && dbn.pages[i].page_name == nm;
                assert(db1.pages[i].page_name == nm);
                assert(has_page(db1.pages, nm));
            }
            if exists|k: int| 0 <= k < ps.len() && ps[k].page_name == nm {
                let k = choose|k: int| 0 <= k < ps.len() && ps[k].page_name == nm;
                if k < ps0.len() {
                    assert(ps0[k].page_name == nm);
                    assert(has_page(dbn.pages, nm));
                    let i = choose|i: int|
                        0 <= i < dbn.pages.len() && dbn.pages[i].page_name == nm;
                    assert(db1.pages[i].page_name == nm);
                    assert(has_page(db1.pages, nm));
                } else {
                    let i = dbn.pages.len() as int;
                    assert(db1.pages[i].page_name == nm);
                    assert(has_page(db1.pages, nm));
                }
            }
        }
    }
}

/// Law: a join result has one tuple per module row whose foreign key
/// matches the filtered id, and every tuple carries the same page as its
/// left side.
pub proof fn lemma_join_rows_shape(page: PageView, modules: Seq<ModuleView>, id: Seq<char>)
    ensures
        join_rows(page, modules, id).len() == count_matching(modules, id),
        forall|k: int|
            0 <= k < join_rows(page, modules, id).len() ==> (#[trigger] join_rows(
                page,
                modules,
                id,
            )[k]).0 == page,
    decreases modules.len(),
{
    if modules.len() > 0 {
        lemma_join_rows_shape(page, modules.drop_last(), id);
    }
}

/// Law: a page with zero associated modules joins to the empty sequence.
pub proof fn lemma_join_rows_no_match(page: PageView, modules: Seq<ModuleView>, id: Seq<char>)
    requires
        forall|k: int| 0 <= k < modules.len() ==> (#[trigger] modules[k]).page_name != id,
    ensures
        join_rows(page, modules, id).len() == 0,
    decreases modules.len(),
{
    if modules.len() > 0 {
        assert(modules.last() == modules[modules.len() - 1]);
        lemma_join_rows_no_match(page, modules.drop_last(), id);
    }
}

/// Law: folding a two-tuple join result whose modules carry distinct
/// titles yields a `fields` mapping with exactly two entries, keyed by
/// the two titles and holding the full module records.
pub proof fn lemma_aggregate_two_modules(page: PageView, a: ModuleView, b: ModuleView)
    requires
        a.title != b.title,
    ensures
        sp_fields(seq![(page, a), (page, b)]).dom() == set![a.title, b.title],
        sp_fields(seq![(page, a), (page, b)]).dom().len() == 2,
        sp_fields(seq![(page, a), (page, b)])[a.title] == a,
        sp_fields(seq![(page, a), (page, b)])[b.title] == b,
{
    let rows = seq![(page, a), (page, b)];
    let s1 = seq![(page, a)];
    assert(s1.drop_last() =~= Seq::<(PageView, ModuleView)>::empty());
    assert(sp_fields(s1.drop_last()) == Map::<Seq<char>, ModuleView>::empty());
    assert(s1.last() == (page, a));
    assert(sp_fields(s1) == Map::<Seq<char>, ModuleView>::empty().insert(a.title, a));
    assert(rows.drop_last() =~= s1);
    assert(rows.last() == (page, b));
    let m = sp_fields(rows);
    assert(m == Map::<Seq<char>, ModuleView>::empty().insert(a.title, a).insert(b.title, b));
    assert(m.dom() =~= set![a.title, b.title]);
    assert(set![a.title, b.title] =~= Set::<Seq<char>>::empty().insert(a.title).insert(b.title));
    assert(m.dom().len() == 2);
}

} // verus!
