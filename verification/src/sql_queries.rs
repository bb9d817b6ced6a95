//! The canned query entry point of the table-reading front end.

use vstd::prelude::*;

use crate::errors::SqlError;

verus! {

/// Confirms that the table-reading front end can be dispatched. It has
/// nothing of its own to prepare, so it always succeeds.
pub fn table() -> (r: Result<(), SqlError>)
    ensures
        r is Ok,
{
    Ok(())
}

} // verus!
