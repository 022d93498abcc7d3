//! The relational store, modelled as the two tables this layer touches
//! plus the backend clock that stamps `time_created` on inserted pages.
//!
//! Record-model operations receive the store the way a request handler
//! passes a checked-out connection through: as the single handle by which
//! rows are read and written.

use vstd::prelude::*;

use crate::page_models::{Module, Page};
use crate::views::{DbView, PageView};

verus! {

/// The relational store: a page table keyed by `page_name`, a module table
/// holding a foreign key into it, and the backend clock.
pub struct Database {
    pub pages: Vec<Page>,
    pub modules: Vec<Module>,
    /// The backend's current time, stamped onto pages on insert.
    pub clock: i64,
}

impl View for Database {
    type V = DbView;

    open spec fn view(&self) -> DbView {
        DbView {
            pages: self.pages@.map_values(|p: Page| p@),
            modules: self.modules@.map_values(|m: Module| m@),
            clock: self.clock,
        }
    }
}

impl Database {
    /// Store well-formedness: page primary keys are pairwise distinct.
    pub open spec fn wf(&self) -> bool {
        self@.wf()
    }

    /// An empty store at backend time zero.
    pub fn new() -> (db: Database)
        ensures
            db.wf(),
            db@.pages == Seq::<PageView>::empty(),
            db@.modules.len() == 0,
            db@.clock == 0,
    {
        let db = Database { pages: Vec::new(), modules: Vec::new(), clock: 0 };
        proof {
            assert(db@.pages =~= Seq::<PageView>::empty());
        }
        db
    }

    /// Advance the backend clock to `t`; tables are untouched.
    pub fn set_clock(&mut self, t: i64)
        ensures
            final(self)@ == (DbView { clock: t, ..old(self)@ }),
            final(self).wf() == old(self).wf(),
    {
        self.clock = t;
        proof {
            assert(self@ =~= (DbView { clock: t, ..old(self)@ }));
        }
    }

    /// Append a module row. The module table carries no uniqueness
    /// constraint of its own, so the row is appended unconditionally; a
    /// row whose foreign key matches no page simply never appears in any
    /// join result.
    pub fn add_module(&mut self, m: Module)
        ensures
            final(self)@ == (DbView { modules: old(self)@.modules.push(m@), ..old(self)@ }),
            final(self).wf() == old(self).wf(),
    {
        self.modules.push(m);
        proof {
            assert(self@ =~= (DbView { modules: old(self)@.modules.push(m@), ..old(self)@ }));
        }
    }
}

} // verus!
