//! The settings a scan runs under.

use vstd::prelude::*;

verus! {

/// The settings of a run. The engine only reads them.
#[derive(Debug, Clone, PartialEq, Eq)]
pub struct Config {
    /// Whether the driver narrates every entry.
    pub verbose: bool,
    /// The extension keys of the audio types, in lowercase.
    pub valid_extensions: Vec<String>,
    /// The directories to walk, in the order in which they are walked.
    pub scan_roots: Vec<String>,
}

/// The keys that occur in a list of extensions.
pub open spec fn key_set(extensions: Seq<String>) -> Set<Seq<char>> {
    Set::new(|key: Seq<char>| exists|i: int| 0 <= i < extensions.len() && extensions[i]@ == key)
}

impl Config {
    /// The extension keys that mark a file as audio.
    pub open spec fn valid_keys(&self) -> Set<Seq<char>> {
        key_set(self.valid_extensions@)
    }
}

} // verus!
