//! The uniform persistence contracts: CRUD, column selection, and joins.
//!
//! New record kinds opt in by supplying the type parameters and an
//! implementation; calling code stays untouched. Each implementation pins
//! its behaviour down through the trait's spec functions, so a caller that
//! works through the trait still gets the implementor's exact semantics.

use vstd::prelude::*;

use crate::database::Database;
use crate::errors::DbError;
use crate::views::DbView;

verus! {

/// CRUD implementation.
///
/// Each operation takes the store handle the way a handler passes a
/// checked-out connection through. The implementor defines the `..._post`
/// spec functions, which pin down exactly what each operation returns and
/// how it changes the store; the executable methods are verified against
/// them. Store well-formedness (unique primary keys) is preserved by every
/// operation.
pub trait Model<TQueryable, TMutable, TPrimary, TDto = TQueryable>: Sized {
    /// What `create` returns and does to the store.
    spec fn create_post(new: TMutable, db0: DbView, db1: DbView, r: Result<usize, DbError>) -> bool;

    /// What `read_one` returns.
    spec fn read_one_post(id: TPrimary, db: DbView, r: Result<TDto, DbError>) -> bool;

    /// What `read_all` returns.
    spec fn read_all_post(db: DbView, r: Result<Vec<TDto>, DbError>) -> bool;

    /// What `update` returns and does to the store.
    spec fn update_post(
        id: TPrimary,
        new: TMutable,
        db0: DbView,
        db1: DbView,
        r: Result<usize, DbError>,
    ) -> bool;

    /// What `delete` returns and does to the store.
    spec fn delete_post(id: TPrimary, db0: DbView, db1: DbView, r: Result<usize, DbError>) -> bool;

    /// Insert one new record; a primary-key collision is silently ignored
    /// (insert-or-ignore), reported only through a zero row count.
    fn create(new: &TMutable, db: &mut Database) -> (r: Result<usize, DbError>)
        requires
            old(db).wf(),
        ensures
            final(db).wf(),
            Self::create_post(*new, old(db)@, final(db)@, r),
    ;

    /// Fetch exactly one record by primary key; zero matches are a
    /// `NotFound` error.
    fn read_one(id: TPrimary, db: &Database) -> (r: Result<TDto, DbError>)
        requires
            db.wf(),
        ensures
            Self::read_one_post(id, db@, r),
    ;

    /// Return every record in the table: a finite snapshot taken at call
    /// time.
    fn read_all(db: &Database) -> (r: Result<Vec<TDto>, DbError>)
        requires
            db.wf(),
        ensures
            Self::read_all_post(db@, r),
    ;

    /// Overwrite all writable fields of the record identified by primary
    /// key; a zero row count signals "no such id" without an error.
    fn update(id: TPrimary, new: &TMutable, db: &mut Database) -> (r: Result<usize, DbError>)
        requires
            old(db).wf(),
        ensures
            final(db).wf(),
            Self::update_post(id, *new, old(db)@, final(db)@, r),
    ;

    /// Remove the record by primary key; the same zero-count-means-absent
    /// convention as `update`.
    fn delete(id: TPrimary, db: &mut Database) -> (r: Result<usize, DbError>)
        requires
            old(db).wf(),
        ensures
            final(db).wf(),
            Self::delete_post(id, old(db)@, final(db)@, r),
    ;
}

/// Column selection for read-heavy paths: a record type names the columns
/// its operations reference, so an operation can take only what it needs
/// instead of the full row shape.
pub trait DTO<TColumns> {
    fn columns() -> TColumns;
}

/// Trait that enforces a Model to be joinable if that is desired.
///
/// The implementor declares the association between the left and the right
/// record type; `read_one_join_on` traverses it in one direction through a
/// single inner join.
pub trait Joinable<TLeft, TRight, TPrimary> {
    /// What `read_one_join_on` returns.
    spec fn join_post(id: TPrimary, db: DbView, r: Result<Vec<(TLeft, TRight)>, DbError>) -> bool;

    /// One inner join between the primary entity's table and the related
    /// entity's table, filtered to the given primary-entity id: one tuple
    /// per matching related row. A primary entity with zero related rows
    /// yields an empty sequence.
    fn read_one_join_on(id: TPrimary, db: &Database) -> (r: Result<Vec<(TLeft, TRight)>, DbError>)
        requires
            db.wf(),
        ensures
            Self::join_post(id, db@, r),
    ;
}

} // verus!
