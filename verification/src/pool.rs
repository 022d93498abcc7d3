//! Connection-pool lifecycle: construction from a connection URI, bounded
//! checkout, and release.
//!
//! The pool is constructed once at service startup and handed to request
//! handlers as a shared resource; a checked-out connection slot is owned
//! exclusively by one caller for the duration of one operation and is
//! returned on release. Checkout failure is collapsed into the single
//! opaque error kind at the handler boundary, discarding the cause.

use vstd::prelude::*;

use crate::config::{
    lemma_connection_string_scheme, mysql_scheme, spec_connection_string, format_connection_string,
    LocalConfig,
};
use crate::errors::{CustomHttpError, PoolError};

verus! {

/// The fixed maximum of concurrently checked-out connections: deliberately
/// small, suited to a low-traffic service.
pub const MAX_POOL_SIZE: u32 = 2;

/// Whether `s` starts with the backend's URI scheme; a connection string
/// without it is malformed and is rejected at pool construction.
pub open spec fn has_mysql_scheme(s: Seq<char>) -> bool {
    s.len() >= 8 && s.subrange(0, 8) == mysql_scheme()
}

/// The connection manager a pool is built over: it remembers the URI the
/// backend is reached under.
#[derive(Debug, PartialEq)]
pub struct ConnectionManager {
    pub db_url: String,
}

/// One live connection slot checked out of the pool.
#[derive(Debug)]
pub struct Connection {}

/// A bounded pool of reusable connections to the relational backend.
#[derive(Debug)]
pub struct MySQLPool {
    pub manager: ConnectionManager,
    /// The fixed bound on concurrently checked-out connections.
    pub max_size: u32,
    /// How many connections are checked out right now.
    pub in_use: u32,
}

impl MySQLPool {
    /// Pool well-formedness: never more connections out than the bound.
    pub open spec fn wf(&self) -> bool {
        self.in_use <= self.max_size
    }

    /// Request a connection slot; fails exactly when the pool is
    /// exhausted, leaving the pool unchanged.
    pub fn get(&mut self) -> (r: Result<Connection, PoolError>)
        requires
            old(self).wf(),
        ensures
            final(self).wf(),
            final(self).max_size == old(self).max_size,
            final(self).manager == old(self).manager,
            match r {
                Ok(_) => old(self).in_use < old(self).max_size && final(self).in_use == old(
                    self,
                ).in_use + 1,
                Err(e) => {
                    &&& old(self).in_use >= old(self).max_size
                    &&& e == PoolError::Exhausted
                    &&& final(self).in_use == old(self).in_use
                },
            },
    {
        if self.in_use < self.max_size {
            self.in_use = self.in_use + 1;
            Ok(Connection {  })
        } else {
            Err(PoolError::Exhausted)
        }
    }

    /// Return a checked-out connection slot to the pool.
    pub fn release(&mut self, _conn: Connection)
        requires
            old(self).wf(),
            old(self).in_use >= 1,
        ensures
            final(self).wf(),
            final(self).max_size == old(self).max_size,
            final(self).manager == old(self).manager,
            final(self).in_use == old(self).in_use - 1,
    {
        self.in_use = self.in_use - 1;
    }
}

/// A connection manager for the backend behind `db_url`.
pub fn init_connection(db_url: &str) -> (r: ConnectionManager)
    ensures
        r.db_url@ == db_url@,
{
    ConnectionManager { db_url: db_url.to_owned() }
}

/// The character the backend's URI scheme carries at position `i`.
fn scheme_char(i: usize) -> (c: char)
    requires
        i < 8,
    ensures
        c == mysql_scheme()[i as int],
{
    match i {
        0 => 'm',
        1 => 'y',
        2 => 's',
        3 => 'q',
        4 => 'l',
        5 => ':',
        _ => '/',
    }
}

/// Construct a bounded pool against the given URI.
///
/// Fails with `PoolError` exactly when the URI is malformed (it does not
/// carry the backend's scheme); such a failure is treated as fatal to
/// service startup, with no retry.
pub fn init_pool(db_url: &str) -> (r: Result<MySQLPool, PoolError>)
    ensures
        match r {
            Ok(p) => {
                &&& has_mysql_scheme(db_url@)
                &&& p.manager.db_url@ == db_url@
                &&& p.max_size == MAX_POOL_SIZE
                &&& p.in_use == 0
                &&& p.wf()
            },
            Err(e) => !has_mysql_scheme(db_url@) && e == PoolError::MalformedUri,
        },
{
    let manager = init_connection(db_url);
    let n = db_url.unicode_len();
    if n < 8 {
        return Err(PoolError::MalformedUri);
    }
    let mut i: usize = 0;
    while i < 8
        invariant
            i <= 8,
            db_url@.len() >= 8,
            forall|k: int| 0 <= k < i ==> db_url@[k] == mysql_scheme()[k],
        decreases 8 - i,
    {
        if db_url.get_char(i) != scheme_char(i) {
            proof {
                assert(db_url@.subrange(0, 8)[i as int] != mysql_scheme()[i as int]);
            }
            return Err(PoolError::MalformedUri);
        }
        i += 1;
    }
    proof {
        assert(db_url@.subrange(0, 8) =~= mysql_scheme());
    }
    Ok(MySQLPool { manager, max_size: MAX_POOL_SIZE, in_use: 0 })
}

/// Build the connection URI for `conf` and construct the startup pool
/// against it. A formatted URI always carries the backend's scheme, so
/// construction cannot fail here.
pub fn establish_database_connection(conf: LocalConfig) -> (r: Option<MySQLPool>)
    ensures
        match r {
            Some(p) => {
                &&& p.manager.db_url@ == spec_connection_string(conf)
                &&& p.max_size == MAX_POOL_SIZE
                &&& p.in_use == 0
                &&& p.wf()
            },
            None => false,
        },
{
    proof {
        lemma_connection_string_scheme(conf);
    }
    let db_url = format_connection_string(conf);
    match init_pool(db_url.as_str()) {
        Ok(p) => Some(p),
        Err(_) => {
            proof {
                assert(false);
            }
            None
        },
    }
}

/// Check a connection out of the shared pool for one request, collapsing
/// any checkout failure into the single opaque error kind.
pub fn pool_handler(pool: &mut MySQLPool) -> (r: Result<Connection, CustomHttpError>)
    requires
        old(pool).wf(),
    ensures
        final(pool).wf(),
        final(pool).max_size == old(pool).max_size,
        final(pool).manager == old(pool).manager,
        match r {
            Ok(_) => old(pool).in_use < old(pool).max_size && final(pool).in_use == old(
                pool,
            ).in_use + 1,
            Err(e) => {
                &&& old(pool).in_use >= old(pool).max_size
                &&& e == CustomHttpError::Unknown
                &&& final(pool).in_use == old(pool).in_use
            },
        },
{
    match pool.get() {
        Ok(c) => Ok(c),
        Err(_) => Err(CustomHttpError::Unknown),
    }
}

} // verus!
