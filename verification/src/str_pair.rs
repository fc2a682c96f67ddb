//! Two texts that can stand in a hash table together.

use vstd::prelude::*;

verus! {

/// A text under another.
#[derive(Debug, Clone, Copy, Hash, PartialEq, Eq)]
pub struct StrPair<'a> {
    pub key: &'a str,
    pub value: &'a str,
}

} // verus!
