//! The boundary to the export sinks.

use vstd::prelude::*;

use crate::archive::Archive;

verus! {

/// An export sink: one operation, exporting one archive's worth of
/// entries, reporting success per archive. The decoder depends only on
/// this interface, never on how a sink persists data; concrete sinks
/// live with the caller.
pub trait Registry {
    fn export_archive(&mut self, archive: &Archive) -> bool;
}

} // verus!
