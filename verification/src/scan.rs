//! One pass over the collection, entry by entry.
//!
//! A pass is either an estimate, which goes by the names of the files alone,
//! or a real scan, which also extracts the tags of every audio file. The
//! driver walks the directories and probes the files; what is counted, and
//! which file has to be probed, is decided here.

use crate::classifier::{classify, extension_key, is_valid};
use crate::config::Config;
use crate::metadata::{extracts, read_metadata, readable, Extraction, ExtractionError, Probed};
use crate::stats::{ScanStats, Tally, Verdict};
use vstd::prelude::*;

verus! {

/// Whether a pass has to extract the tags of a file: a real scan does, of
/// audio files.
pub open spec fn must_extract(audio: bool, estimate: bool) -> bool {
    audio && !estimate
}

/// How a file is counted whose tags the pass does not ask for.
pub open spec fn verdict_by_name(audio: bool) -> Verdict {
    if audio {
        Verdict::Valid
    } else {
        Verdict::Other
    }
}

/// How a file is counted once extraction was tried on it.
pub open spec fn verdict_by_tags(readable: bool) -> Verdict {
    if readable {
        Verdict::Valid
    } else {
        Verdict::Failed
    }
}

/// How a pass counts a file: by its tags where it has to extract them, by its
/// name otherwise.
pub open spec fn verdict_of(audio: bool, estimate: bool, readable: bool) -> Verdict {
    if must_extract(audio, estimate) {
        verdict_by_tags(readable)
    } else {
        verdict_by_name(audio)
    }
}

/// One entry of a walk: a directory, or a file with its name and with
/// whether its tags can be extracted.
pub enum Visit {
    Directory,
    File { name: Seq<char>, readable: bool },
}

/// The figures after a pass over audio types `valid` has visited one more
/// entry.
pub open spec fn after_visit(
    valid: Set<Seq<char>>,
    estimate: bool,
    tally: Tally,
    visit: Visit,
) -> Tally {
    match visit {
        Visit::Directory => tally.with_directory(),
        Visit::File { name, readable } => {
            let key = extension_key(name);
            tally.with_file(key, verdict_of(valid.contains(key), estimate, readable))
        },
    }
}

/// The figures of a whole pass over `visits`, taken in order.
pub open spec fn tally_of(valid: Set<Seq<char>>, estimate: bool, visits: Seq<Visit>) -> Tally
    decreases visits.len(),
{
    if visits.len() == 0 {
        Tally::empty()
    } else {
        after_visit(valid, estimate, tally_of(valid, estimate, visits.drop_last()), visits.last())
    }
}

/// The number of files among `visits`.
pub open spec fn file_count(visits: Seq<Visit>) -> nat
    decreases visits.len(),
{
    if visits.len() == 0 {
        0
    } else if visits.last() is File {
        file_count(visits.drop_last()) + 1
    } else {
        file_count(visits.drop_last())
    }
}

/// The number of directories among `visits`.
pub open spec fn directory_count(visits: Seq<Visit>) -> nat
    decreases visits.len(),
{
    if visits.len() == 0 {
        0
    } else if visits.last() is Directory {
        directory_count(visits.drop_last()) + 1
    } else {
        directory_count(visits.drop_last())
    }
}

/// Whether a real scan fails on `visit`: an audio file whose tags cannot be
/// extracted.
pub open spec fn fails(valid: Set<Seq<char>>, visit: Visit) -> bool {
    visit matches Visit::File { name, readable } && valid.contains(extension_key(name))
        && !readable
}

/// An audio file that a real scan has met and whose tags it waits for. The
/// file is counted when `Pass::extracted` gets the outcome of probing it.
#[derive(Debug)]
pub struct Pending {
    key: String,
}

impl Pending {
    /// The extension key of the file.
    pub closed spec fn key(&self) -> Seq<char> {
        self.key@
    }

    /// The extension key of the file.
    pub fn extension(&self) -> (key: &String)
        ensures
            key@ == self.key(),
    {
        &self.key
    }
}

/// A pass in progress: its mode, and the statistics so far.
#[derive(Debug)]
pub struct Pass {
    estimate: bool,
    stats: ScanStats,
}

impl View for Pass {
    type V = Tally;

    closed spec fn view(&self) -> Tally {
        self.stats@
    }
}

impl Pass {
    /// Whether the pass is an estimate.
    pub closed spec fn estimate(&self) -> bool {
        self.estimate
    }

    /// The statistics are well formed, and an estimate has met no failure.
    pub closed spec fn wf(&self) -> bool {
        &&& self.stats.wf()
        &&& self.estimate ==> self.stats@.error_files == 0
    }

    /// A well-formed pass has counted every file once, under one extension
    /// key, and an estimate has no failed file.
    pub proof fn lemma_wf(&self)
        requires
            self.wf(),
        ensures
            self@.balanced(),
            self@.files() <= u32::MAX,
            self@.directories <= u32::MAX,
            self.estimate() ==> self@.error_files == 0,
    {
        self.stats.lemma_wf();
    }

    /// Begins a pass.
    pub fn new(estimate: bool) -> (pass: Pass)
        ensures
            pass.wf(),
            pass.estimate() == estimate,
            pass@ == Tally::empty(),
    {
        Pass { estimate, stats: ScanStats::new() }
    }

    /// Whether the pass is an estimate.
    pub fn is_estimate(&self) -> (estimate: bool)
        ensures
            estimate == self.estimate(),
    {
        self.estimate
    }

    /// The statistics so far.
    pub fn stats(&self) -> (stats: &ScanStats)
        requires
            self.wf(),
        ensures
            stats.wf(),
            stats@ == self@,
    {
        &self.stats
    }

    /// The walk has met a directory: it is counted, and nothing else changes.
    pub fn directory(&mut self)
        requires
            old(self).wf(),
            old(self)@.directories < u32::MAX,
        ensures
            final(self).wf(),
            final(self).estimate() == old(self).estimate(),
            final(self)@ == old(self)@.with_directory(),
    {
        self.stats.record_directory();
    }

    /// The walk has met a file called `name`.
    ///
    /// Where the pass has to extract the file's tags, the file is handed
    /// back for the driver to probe, and nothing is counted yet. Any other
    /// file is counted at once, by its name.
    pub fn file(&mut self, config: &Config, name: &str) -> (pending: Option<Pending>)
        requires
            old(self).wf(),
            old(self)@.files() < u32::MAX,
        ensures
            final(self).wf(),
            final(self).estimate() == old(self).estimate(),
            pending is Some <==> must_extract(
                config.valid_keys().contains(extension_key(name@)),
                old(self).estimate(),
            ),
            match pending {
                Some(waiting) => waiting.key() == extension_key(name@) && final(self)@ == old(
                    self,
                )@,
                None => final(self)@ == old(self)@.with_file(
                    extension_key(name@),
                    verdict_by_name(config.valid_keys().contains(extension_key(name@))),
                ),
            },
    {
        let key = classify(name);
        let audio = is_valid(&key, &config.valid_extensions);
        if audio && !self.estimate {
            Some(Pending { key })
        } else {
            self.stats.record_file(
                key,
                if audio {
                    Verdict::Valid
                } else {
                    Verdict::Other
                },
            );
            None
        }
    }

    /// The driver has probed the file `pending`, with the outcome `probe`.
    ///
    /// The tags are extracted and the file is counted: as valid where that
    /// gave a track record, as failed where it did not. Either way the pass
    /// goes on. (An estimate asks for no probe; given one, it counts the file
    /// as valid whatever the outcome.)
    pub fn extracted(&mut self, pending: Pending, probe: &Result<Probed, String>) -> (outcome:
        Result<Extraction, ExtractionError>)
        requires
            old(self).wf(),
            old(self)@.files() < u32::MAX,
        ensures
            final(self).wf(),
            final(self).estimate() == old(self).estimate(),
            extracts(*probe, outcome),
            outcome is Ok <==> readable(*probe),
            final(self)@ == old(self)@.with_file(
                pending.key(),
                verdict_of(true, old(self).estimate(), readable(*probe)),
            ),
    {
        let outcome = read_metadata(probe);
        let verdict = if self.estimate || outcome.is_ok() {
            Verdict::Valid
        } else {
            Verdict::Failed
        };
        self.stats.record_file(pending.key, verdict);
        outcome
    }

    /// Ends the pass and hands out its statistics.
    pub fn finish(self) -> (stats: ScanStats)
        requires
            self.wf(),
        ensures
            stats.wf(),
            stats@ == self@,
            self.estimate() ==> stats@.error_files == 0,
    {
        self.stats
    }
}

/// One entry of a walk that has been made: a directory, or a file with its
/// name and with the outcome of probing it.
#[derive(Debug, PartialEq, Eq)]
pub enum Entry {
    Directory,
    File { name: String, probe: Result<Probed, String> },
}

impl View for Entry {
    type V = Visit;

    open spec fn view(&self) -> Visit {
        match self {
            Entry::Directory => Visit::Directory,
            Entry::File { name, probe } => Visit::File { name: name@, readable: readable(*probe) },
        }
    }
}

/// What a pass sees of a list of entries.
pub open spec fn visits_of(entries: Seq<Entry>) -> Seq<Visit> {
    entries.map_values(|entry: Entry| entry@)
}

/// Runs one pass over a walk that has been made.
///
/// The entries are taken in order. A directory is counted. A file is counted
/// under its extension key, and as other, valid or failed: an estimate goes
/// by the name alone and never looks at `probe`; a real scan extracts the
/// tags of every audio file, and a file that fails is counted as failed and
/// holds up nothing.
pub fn scan_dirs(config: &Config, estimate: bool, entries: &Vec<Entry>) -> (stats: ScanStats)
    requires
        entries.len() <= u32::MAX,
    ensures
        stats.wf(),
        stats@ == tally_of(config.valid_keys(), estimate, visits_of(entries@)),
{
    let ghost valid = config.valid_keys();
    let ghost visits = visits_of(entries@);
    let mut pass = Pass::new(estimate);
    let mut i: usize = 0;
    while i < entries.len()
        invariant
            i <= entries.len() <= u32::MAX,
            valid == config.valid_keys(),
            visits == visits_of(entries@),
            pass.wf(),
            pass.estimate() == estimate,
            pass@ == tally_of(valid, estimate, visits.take(i as int)),
        decreases entries.len() - i,
    {
        proof {
            lemma_entries_accounted(valid, estimate, visits.take(i as int));
            assert(visits.take(i + 1).drop_last() == visits.take(i as int));
            assert(visits.take(i + 1).last() == entries[i as int]@);
        }
        match &entries[i] {
            Entry::Directory => {
                pass.directory();
            },
            Entry::File { name, probe } => {
                match pass.file(config, name.as_str()) {
                    Some(pending) => {
                        let _ = pass.extracted(pending, probe);
                    },
                    None => {},
                }
            },
        }
        i = i + 1;
    }
    assert(visits.take(i as int) == visits);
    pass.finish()
}

/// A pass counts every entry once: each directory as a directory, each file
/// as other, valid or failed, and each file under one extension key.
pub proof fn lemma_entries_accounted(valid: Set<Seq<char>>, estimate: bool, visits: Seq<Visit>)
    ensures
        tally_of(valid, estimate, visits).directories == directory_count(visits),
        tally_of(valid, estimate, visits).files() == file_count(visits),
        tally_of(valid, estimate, visits).found_types.len() == file_count(visits),
        directory_count(visits) + file_count(visits) == visits.len(),
    decreases visits.len(),
{
    broadcast use vstd::multiset::group_multiset_properties;

    if visits.len() > 0 {
        lemma_entries_accounted(valid, estimate, visits.drop_last());
    }
}

} // verus!
