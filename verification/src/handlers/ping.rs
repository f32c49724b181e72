//! Ping: nothing to do.
use vstd::prelude::*;

verus! {

/// Does nothing; the dispatcher answers.
pub fn handle() {
}

} // verus!
