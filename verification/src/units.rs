//! The catalogue of units that the roster search offers.

use vstd::prelude::*;

verus! {

/// The `<option>` entries of the unit catalogue shown on the board. This
/// crate ships no catalogue: the roster search then offers no suggestions,
/// and units are typed by hand.
pub const UNIT_DATALIST_HTML: &'static str = "";

} // verus!
