//! The errors that cache operations report.

use vstd::prelude::*;

verus! {

/// Why a cache operation did not do its work.
#[derive(Debug, Clone, Copy, PartialEq, Eq, Structural)]
pub enum CacheError {
    /// The key is absent.
    NotFound,
    /// A flush was asked for while another one was in flight.  The caller
    /// may try again later.
    CannotSwitch,
    /// The write could not be accepted; the cache is unusable.
    CannotWrite,
}

impl CacheError {
    /// The name of the variant.
    pub open spec fn spec_name(self) -> Seq<char> {
        match self {
            CacheError::NotFound => "NotFound"@,
            CacheError::CannotSwitch => "CannotSwitch"@,
            CacheError::CannotWrite => "CannotWrite"@,
        }
    }

    /// The name of the variant, as text for a message.
    pub fn name(&self) -> (text: String)
        ensures
            text@ == self.spec_name(),
    {
        match self {
            CacheError::NotFound => "NotFound".to_owned(),
            CacheError::CannotSwitch => "CannotSwitch".to_owned(),
            CacheError::CannotWrite => "CannotWrite".to_owned(),
        }
    }
}

} // verus!
