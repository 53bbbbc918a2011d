use vstd::prelude::*;

verus! {

/// Every way in which one invocation can fail.
#[derive(Debug)]
pub enum CliError {
    /// The URL of a POST is not an absolute URL; holds the offending text.
    InvalidUrl(String),
    /// A body token holds no `=`; holds the offending token.
    InvalidPair(String),
    /// The request could not be sent or no response came back.
    Transport(String),
    /// The body of a GET response could not be read as text.
    BodyRead(String),
}

impl CliError {
    /// This is `InvalidUrl` holding exactly `s`.
    pub open spec fn is_invalid_url(&self, s: Seq<char>) -> bool {
        match self {
            CliError::InvalidUrl(t) => t@ == s,
            _ => false,
        }
    }

    /// This is `InvalidPair` holding exactly `s`.
    pub open spec fn is_invalid_pair(&self, s: Seq<char>) -> bool {
        match self {
            CliError::InvalidPair(t) => t@ == s,
            _ => false,
        }
    }
}

} // verus!
