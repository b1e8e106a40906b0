//! Why a polling cycle came to nothing.

use vstd::prelude::*;

verus! {

/// A failure to obtain the proxy's configuration.
#[derive(Debug, Clone)]
pub enum Error {
    /// The endpoint could not be reached, or answered with a status that is
    /// not a success.
    IO(String),
    /// The endpoint answered with a body that is no configuration document.
    DeserializeError(String),
}

impl Error {
    /// What the failure says of itself.
    pub open spec fn text(&self) -> Seq<char> {
        match self {
            Error::IO(message) => message@,
            Error::DeserializeError(message) => message@,
        }
    }

    /// What the failure says of itself, for a log.
    pub fn message(&self) -> (message: String)
        ensures
            message@ == self.text(),
    {
        match self {
            Error::IO(message) => message.clone(),
            Error::DeserializeError(message) => message.clone(),
        }
    }
}

} // verus!
