//! From where a player connects to the flag that the player flies.

use crate::protocol::{flag_of, flag_from_str};
use crate::types::FlagCode;
use vstd::prelude::*;

verus! {

/// The flag of the country whose two-letter code a lookup of the player's
/// address gave; no flag where the lookup gave nothing, or gave a code
/// that names no flag.
pub fn locate(country: Option<&str>) -> (r: Option<FlagCode>)
    ensures
        r == match country {
            Some(code) => flag_of(code@),
            None => None,
        },
{
    match country {
        Some(code) => flag_from_str(code),
        None => None,
    }
}

} // verus!
