//! The figures that one pass over the collection gathers.

use crate::extension_counts::{enumerates, ExtensionCounts};
use vstd::multiset::*;
use vstd::prelude::*;

verus! {

/// How a visited file is counted.
#[derive(Debug, Clone, Copy, PartialEq, Eq, Structural)]
pub enum Verdict {
    /// Its extension is not one of the audio types.
    Other,
    /// An audio file that was accepted.
    Valid,
    /// An audio file whose tags could not be extracted.
    Failed,
}

/// The figures of a pass as mathematics: four numbers, and the bag of the
/// extension keys of all files counted.
pub struct Tally {
    pub directories: nat,
    pub other_files: nat,
    pub error_files: nat,
    pub valid_files: nat,
    pub found_types: Multiset<Seq<char>>,
}

impl Tally {
    /// The figures before anything was visited.
    pub open spec fn empty() -> Tally {
        Tally {
            directories: 0,
            other_files: 0,
            error_files: 0,
            valid_files: 0,
            found_types: Multiset::empty(),
        }
    }

    /// The number of files counted, whatever became of them.
    pub open spec fn files(self) -> nat {
        self.other_files + self.valid_files + self.error_files
    }

    /// The figures after one more directory.
    pub open spec fn with_directory(self) -> Tally {
        Tally { directories: self.directories + 1, ..self }
    }

    /// The figures after one more file with the extension key `key`, counted
    /// as `verdict` says.
    pub open spec fn with_file(self, key: Seq<char>, verdict: Verdict) -> Tally {
        let found_types = self.found_types.insert(key);
        match verdict {
            Verdict::Other => Tally { other_files: self.other_files + 1, found_types, ..self },
            Verdict::Valid => Tally { valid_files: self.valid_files + 1, found_types, ..self },
            Verdict::Failed => Tally { error_files: self.error_files + 1, found_types, ..self },
        }
    }

    /// Every file counted is counted under exactly one extension key.
    pub open spec fn balanced(self) -> bool {
        self.found_types.len() == self.files()
    }
}

/// Counting a file adds one to exactly one of the three file figures and one
/// to the count of its key, and leaves the directories alone.
pub proof fn lemma_file_counts_once(tally: Tally, key: Seq<char>, verdict: Verdict)
    ensures
        tally.with_file(key, verdict).files() == tally.files() + 1,
        tally.with_file(key, verdict).found_types.len() == tally.found_types.len() + 1,
        tally.with_file(key, verdict).found_types.count(key) == tally.found_types.count(key) + 1,
        tally.with_file(key, verdict).directories == tally.directories,
        tally.balanced() ==> tally.with_file(key, verdict).balanced(),
{
    broadcast use group_multiset_properties;

}

/// What a pass reports in the end.
#[derive(Debug, Clone, PartialEq, Eq)]
pub struct Report {
    /// The extension keys in ascending order, each with its count.
    pub extension_counts: Vec<(String, u32)>,
    pub directories: u32,
    pub other_files: u32,
    pub error_files: u32,
    pub valid_files: u32,
}

/// The statistics of one pass.
#[derive(Debug, Clone)]
pub struct ScanStats {
    other_files: u32,
    directories: u32,
    error_files: u32,
    valid_files: u32,
    found_types: ExtensionCounts,
}

impl View for ScanStats {
    type V = Tally;

    closed spec fn view(&self) -> Tally {
        Tally {
            directories: self.directories as nat,
            other_files: self.other_files as nat,
            error_files: self.error_files as nat,
            valid_files: self.valid_files as nat,
            found_types: self.found_types@,
        }
    }
}

impl ScanStats {
    /// The extension counts are in order, they add up to the files counted,
    /// and the number of files fits a counter.
    pub closed spec fn wf(&self) -> bool {
        &&& self.found_types.wf()
        &&& self@.balanced()
        &&& self@.files() <= u32::MAX
    }

    /// Well-formed statistics account for every file, once as a file and once
    /// under its extension key, and fit their counters.
    pub proof fn lemma_wf(&self)
        requires
            self.wf(),
        ensures
            self@.balanced(),
            self@.directories <= u32::MAX,
            self@.files() <= u32::MAX,
    {
    }

    /// The statistics of a pass that has visited nothing yet.
    pub fn new() -> (stats: ScanStats)
        ensures
            stats.wf(),
            stats@ == Tally::empty(),
    {
        broadcast use group_multiset_properties;

        ScanStats {
            other_files: 0,
            directories: 0,
            error_files: 0,
            valid_files: 0,
            found_types: ExtensionCounts::new(),
        }
    }

    /// The number of directories visited.
    pub fn directories(&self) -> (n: u32)
        ensures
            n == self@.directories,
    {
        self.directories
    }

    /// The number of files whose extension is not one of the audio types.
    pub fn other_files(&self) -> (n: u32)
        ensures
            n == self@.other_files,
    {
        self.other_files
    }

    /// The number of audio files whose tags could not be extracted.
    pub fn error_files(&self) -> (n: u32)
        ensures
            n == self@.error_files,
    {
        self.error_files
    }

    /// The number of audio files that were accepted.
    pub fn valid_files(&self) -> (n: u32)
        ensures
            n == self@.valid_files,
    {
        self.valid_files
    }

    /// The number of files visited.
    pub fn files(&self) -> (n: u32)
        requires
            self.wf(),
        ensures
            n == self@.files(),
            n == self@.found_types.len(),
    {
        proof {
            self.lemma_wf();
        }
        self.other_files + self.valid_files + self.error_files
    }

    /// The number of files visited that have the extension key `key`.
    pub fn extension_count(&self, key: &String) -> (n: u32)
        requires
            self.wf(),
        ensures
            n == self@.found_types.count(key@),
    {
        self.found_types.count(key)
    }

    /// Counts one directory.
    pub fn record_directory(&mut self)
        requires
            old(self).wf(),
            old(self)@.directories < u32::MAX,
        ensures
            final(self).wf(),
            final(self)@ == old(self)@.with_directory(),
    {
        self.directories = self.directories + 1;
    }

    /// Counts one file with the extension key `key`, as `verdict` says.
    pub fn record_file(&mut self, key: String, verdict: Verdict)
        requires
            old(self).wf(),
            old(self)@.files() < u32::MAX,
        ensures
            final(self).wf(),
            final(self)@ == old(self)@.with_file(key@, verdict),
    {
        broadcast use group_multiset_properties;

        self.found_types.bump(key);
        match verdict {
            Verdict::Other => {
                self.other_files = self.other_files + 1;
            },
            Verdict::Valid => {
                self.valid_files = self.valid_files + 1;
            },
            Verdict::Failed => {
                self.error_files = self.error_files + 1;
            },
        }
    }

    /// The extension keys in ascending order, each with the number of files
    /// visited that have it.
    pub fn extension_counts(&self) -> (list: Vec<(String, u32)>)
        requires
            self.wf(),
        ensures
            enumerates(list@, self@.found_types),
    {
        self.found_types.sorted()
    }

    /// Reads the statistics out: the extension counts in ascending order of
    /// the keys, and the four counters.
    pub fn report(&self) -> (report: Report)
        requires
            self.wf(),
        ensures
            enumerates(report.extension_counts@, self@.found_types),
            report.directories == self@.directories,
            report.other_files == self@.other_files,
            report.error_files == self@.error_files,
            report.valid_files == self@.valid_files,
    {
        Report {
            extension_counts: self.extension_counts(),
            directories: self.directories,
            other_files: self.other_files,
            error_files: self.error_files,
            valid_files: self.valid_files,
        }
    }
}

} // verus!
