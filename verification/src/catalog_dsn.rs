//! Catalog connection configuration.
//!
//! The data source name selects which catalog backend a process
//! talks to: the in-memory catalog meant for internal testing, or
//! the networked, transactional backend. The connection itself is
//! made outside; this module holds the selection rule.

use vstd::prelude::*;
use crate::text::str_eq;

verus! {

/// Configuration of the catalog data source name.
#[derive(Clone, Debug)]
pub struct CatalogDsnConfig {
    /// Connection string; the value naming the in-memory backend is
    /// reserved.
    pub dsn: String,
}

/// Which catalog backend a data source name selects. The two are
/// chosen at startup and never mixed at runtime.
#[derive(Clone, Copy, Debug, PartialEq, Eq, Structural)]
pub enum CatalogBackend {
    /// The in-memory catalog, for internal testing.
    Memory,
    /// The networked, transactional catalog.
    Postgres,
}

impl CatalogDsnConfig {
    /// Wrap a connection string.
    pub fn new(dsn: String) -> (r: CatalogDsnConfig)
        ensures
            r.dsn == dsn,
    {
        CatalogDsnConfig { dsn }
    }

    /// The backend this configuration selects: the in-memory catalog
    /// exactly when the connection string is the reserved word, else
    /// the networked backend.
    pub fn backend(&self) -> (r: CatalogBackend)
        ensures
            r == CatalogBackend::Memory <==> self.dsn@ == "mem"@,
            r == CatalogBackend::Memory || r == CatalogBackend::Postgres,
    {
        if str_eq(self.dsn.as_str(), "mem") {
            CatalogBackend::Memory
        } else {
            CatalogBackend::Postgres
        }
    }
}

} // verus!
