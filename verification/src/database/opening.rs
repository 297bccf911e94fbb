//! Opening the store.

use vstd::prelude::*;

verus! {

/// The version of the tables that a new store is created with.
pub const SCHEMA_VERSION: u32 = 7;

/// What is done to a store when it is opened.
#[derive(Debug, Clone, Copy, PartialEq, Eq, Structural)]
pub struct OpenPlan {
    /// Create all tables, and note their version, in one transaction.
    pub create_schema: bool,
    /// Make sure that the first tables are there; the others come by migration.
    pub ensure_base_tables: bool,
    pub run_migrations: bool,
}

/// What is done to a store when it is opened. `sessions_tables` counts its tables of
/// sessions, and is absent where that cannot be told: a store without one is new. A store
/// that this process has migrated is not migrated again.
pub fn plan_open(sessions_tables: Option<i64>, migrated: bool) -> (r: OpenPlan)
    ensures
        r == (OpenPlan {
            create_schema: !(sessions_tables matches Some(n) && n > 0),
            ensure_base_tables: sessions_tables matches Some(n) && n > 0,
            run_migrations: !migrated,
        }),
{
    let known = match sessions_tables {
        Some(n) => n > 0,
        None => false,
    };
    OpenPlan { create_schema: !known, ensure_base_tables: known, run_migrations: !migrated }
}

} // verus!
