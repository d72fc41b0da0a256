//! A foreign-table adapter core for a ClickHouse-style analytical store.
//!
//! The crate verifies the protocol bridge between a pull-based query
//! engine and the remote store: the scan/modify state machine, the
//! predicate-to-query deparser, and the bidirectional cell/type mapping.
//! Network transport, the async runtime and the host engine's plumbing
//! live outside the library and exchange plain values with it.

use vstd::prelude::*;

pub mod cell;
pub mod deparse;
pub mod fdw;
pub mod text;

verus! {

} // verus!
