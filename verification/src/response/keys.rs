//! Shapes shared with the profile listing command. Only the affix record is
//! free of floating point; the profile and recent-run records carry a float
//! score and stay in the unverified shell.

use vstd::prelude::*;

verus! {

/// One seasonal affix as the remote API reports it.
pub struct Affix {
    pub id: i64,
    pub name: String,
    pub description: String,
    pub icon: String,
    pub icon_url: String,
    pub wowhead_url: String,
}

} // verus!
