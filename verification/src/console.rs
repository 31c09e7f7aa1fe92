use vstd::prelude::*;

use crate::error::Error;

verus! {

/// Writing lines to the user: a capability the surrounding program
/// provides.
pub trait Console {
    /// Prints one piece of text.
    fn println(&self, s: &str) -> Result<(), Error>;
}

} // verus!
