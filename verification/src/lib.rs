//! Verified core of a personal-productivity store: referential-integrity
//! coordination for goal and habit deletion, streak computation over ordered
//! completion histories, and atomic whole-store export/import.

pub mod auth;
pub mod coordinator;
pub mod dates;
pub mod linked_goals;
pub mod records;
pub mod settings;
pub mod store;
pub mod streak;
pub mod text;
pub mod transfer;

use vstd::prelude::*;

verus! {

/// Names the build flavour, which selects the database file the surrounding
/// application opens.
pub fn get_environment(debug_build: bool) -> (r: String)
    ensures
        debug_build ==> r@ == "dev"@,
        !debug_build ==> r@ == "prod"@,
{
    if debug_build {
        "dev".to_owned()
    } else {
        "prod".to_owned()
    }
}

} // verus!
