//! Data shared by every command invocation.

use vstd::prelude::*;

verus! {

/// The user data of the command framework; the bot keeps none.
pub struct Data {}

} // verus!
