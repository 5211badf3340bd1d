//! What holds of every pass, whatever the walk brings.

use crate::classifier::extension_key;
use crate::scan::{fails, tally_of, Visit};
use vstd::multiset::*;
use vstd::prelude::*;

verus! {

/// The number of entries among `visits` on which a real scan fails.
pub open spec fn failure_count(valid: Set<Seq<char>>, visits: Seq<Visit>) -> nat
    decreases visits.len(),
{
    if visits.len() == 0 {
        0
    } else if fails(valid, visits.last()) {
        failure_count(valid, visits.drop_last()) + 1
    } else {
        failure_count(valid, visits.drop_last())
    }
}

/// The name of a file, and nothing for a directory.
pub open spec fn name_of(visit: Visit) -> Option<Seq<char>> {
    match visit {
        Visit::Directory => None,
        Visit::File { name, .. } => Some(name),
    }
}

/// Two walks that differ at most in which files can be read.
pub open spec fn same_names(a: Seq<Visit>, b: Seq<Visit>) -> bool {
    &&& a.len() == b.len()
    &&& forall|i: int| 0 <= i < a.len() ==> name_of(#[trigger] a[i]) == name_of(b[i])
}

/// No walk has failures if and only if their number is 0.
pub proof fn lemma_no_failures(valid: Set<Seq<char>>, visits: Seq<Visit>)
    ensures
        failure_count(valid, visits) == 0 <==> forall|i: int|
            0 <= i < visits.len() ==> !fails(valid, visits[i]),
    decreases visits.len(),
{
    if visits.len() > 0 {
        let front = visits.drop_last();
        lemma_no_failures(valid, front);
        if failure_count(valid, visits) == 0 {
            assert forall|i: int| 0 <= i < visits.len() implies !fails(valid, visits[i]) by {
                if i < front.len() {
                    assert(front[i] == visits[i]);
                }
            }
        } else if !fails(valid, visits.last()) {
            let i = choose|i: int| 0 <= i < front.len() && fails(valid, front[i]);
            assert(fails(valid, visits[i]));
        }
    }
}

/// An estimate counts no file as failed, whatever the files hold.
pub proof fn lemma_estimate_never_fails(valid: Set<Seq<char>>, visits: Seq<Visit>)
    ensures
        tally_of(valid, true, visits).error_files == 0,
    decreases visits.len(),
{
    if visits.len() > 0 {
        lemma_estimate_never_fails(valid, visits.drop_last());
    }
}

/// An estimate goes by the names alone: walks that differ only in which
/// files can be read give the same figures.
pub proof fn lemma_estimate_goes_by_names(valid: Set<Seq<char>>, a: Seq<Visit>, b: Seq<Visit>)
    requires
        same_names(a, b),
    ensures
        tally_of(valid, true, a) == tally_of(valid, true, b),
    decreases a.len(),
{
    if a.len() > 0 {
        assert(same_names(a.drop_last(), b.drop_last())) by {
            assert forall|i: int| 0 <= i < a.drop_last().len() implies name_of(
                #[trigger] a.drop_last()[i],
            ) == name_of(b.drop_last()[i]) by {
                assert(a.drop_last()[i] == a[i]);
                assert(b.drop_last()[i] == b[i]);
            }
        }
        lemma_estimate_goes_by_names(valid, a.drop_last(), b.drop_last());
        assert(name_of(a[a.len() - 1]) == name_of(b[a.len() - 1]));
    }
}

/// An estimate and a real scan of the same walk agree on the extension
/// counts, on the other files and on the directories. What the estimate
/// counts as valid, the real scan counts as valid or as failed: the two agree
/// on the valid files if and only if the real scan fails on no file.
pub proof fn lemma_passes_agree(valid: Set<Seq<char>>, visits: Seq<Visit>)
    ensures
        tally_of(valid, true, visits).found_types == tally_of(valid, false, visits).found_types,
        tally_of(valid, true, visits).other_files == tally_of(valid, false, visits).other_files,
        tally_of(valid, true, visits).directories == tally_of(valid, false, visits).directories,
        tally_of(valid, true, visits).valid_files == tally_of(valid, false, visits).valid_files
            + tally_of(valid, false, visits).error_files,
        tally_of(valid, false, visits).error_files == failure_count(valid, visits),
        tally_of(valid, true, visits).valid_files == tally_of(valid, false, visits).valid_files
            <==> forall|i: int| 0 <= i < visits.len() ==> !fails(valid, visits[i]),
    decreases visits.len(),
{
    lemma_no_failures(valid, visits);
    if visits.len() > 0 {
        lemma_passes_agree(valid, visits.drop_last());
    }
}

/// A directory counts as a directory and as nothing else. With one more
/// directory in the walk, anywhere, a pass counts one directory more, and
/// every figure of the files is what it is without it.
pub proof fn lemma_directory_counts_alone(
    valid: Set<Seq<char>>,
    estimate: bool,
    before: Seq<Visit>,
    after: Seq<Visit>,
)
    ensures
        tally_of(valid, estimate, before.push(Visit::Directory) + after) == tally_of(
            valid,
            estimate,
            before + after,
        ).with_directory(),
    decreases after.len(),
{
    let with = before.push(Visit::Directory) + after;
    let without = before + after;
    if after.len() == 0 {
        assert(with == before.push(Visit::Directory));
        assert(without == before);
        assert(with.drop_last() == before);
    } else {
        lemma_directory_counts_alone(valid, estimate, before, after.drop_last());
        assert(with.drop_last() == before.push(Visit::Directory) + after.drop_last());
        assert(without.drop_last() == before + after.drop_last());
        assert(with.last() == after.last());
        assert(without.last() == after.last());
    }
}

/// A failure is contained in the file it befalls. With the failing file in
/// the walk, a real scan counts one failed file more and the file's
/// extension key once more; every other figure is what it is without the
/// file, whatever comes before it and after it.
pub proof fn lemma_failure_is_isolated(
    valid: Set<Seq<char>>,
    before: Seq<Visit>,
    failing: Visit,
    after: Seq<Visit>,
)
    requires
        fails(valid, failing),
    ensures
        tally_of(valid, false, before.push(failing) + after).error_files == tally_of(
            valid,
            false,
            before + after,
        ).error_files + 1,
        tally_of(valid, false, before.push(failing) + after).valid_files == tally_of(
            valid,
            false,
            before + after,
        ).valid_files,
        tally_of(valid, false, before.push(failing) + after).other_files == tally_of(
            valid,
            false,
            before + after,
        ).other_files,
        tally_of(valid, false, before.push(failing) + after).directories == tally_of(
            valid,
            false,
            before + after,
        ).directories,
        tally_of(valid, false, before.push(failing) + after).found_types == tally_of(
            valid,
            false,
            before + after,
        ).found_types.insert(extension_key(failing->name)),
    decreases after.len(),
{
    broadcast use group_multiset_properties;

    let with = before.push(failing) + after;
    let without = before + after;
    if after.len() == 0 {
        assert(with == before.push(failing));
        assert(without == before);
        assert(with.drop_last() == before);
    } else {
        lemma_failure_is_isolated(valid, before, failing, after.drop_last());
        assert(with.drop_last() == before.push(failing) + after.drop_last());
        assert(without.drop_last() == before + after.drop_last());
        assert(with.last() == after.last());
        assert(without.last() == after.last());
        let key = extension_key(failing->name);
        let found = tally_of(valid, false, without.drop_last()).found_types;
        match after.last() {
            Visit::Directory => {},
            Visit::File { name, .. } => {
                assert(found.insert(key).insert(extension_key(name)) =~= found.insert(
                    extension_key(name),
                ).insert(key));
            },
        }
    }
}

} // verus!
