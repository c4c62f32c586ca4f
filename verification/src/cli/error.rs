//! The error of a command-line operation.

use vstd::prelude::*;

verus! {

/// A failed command. Holds the message.
#[derive(Debug)]
pub struct CliError(pub String);

impl CliError {
    /// The message.
    pub fn message(&self) -> (res: String)
        ensures
            res@ == self.0@,
    {
        self.0.clone()
    }
}

} // verus!
