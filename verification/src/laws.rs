//! What the library is for, stated on what goes in and what comes out.
use vstd::prelude::*;

pub mod cleanup;
pub mod history;
pub mod plans;
pub mod registry;
pub mod remotes;
pub mod reports;
pub mod schedules;
pub mod settings;
pub mod talks;
pub mod texts;

verus! {

} // verus!
