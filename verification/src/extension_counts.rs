//! How often each extension key was seen.

use itertools::Itertools;
use vstd::multiset::*;
use vstd::prelude::*;

verus! {

/// The character sequences of a list of texts.
pub open spec fn texts(list: Seq<String>) -> Seq<Seq<char>> {
    list.map_values(|text: String| text@)
}

/// `a` comes no later than `b` in the order of strings: the first character
/// in which they differ decides, by its code point, and a prefix comes first.
pub open spec fn lex_le(a: Seq<char>, b: Seq<char>) -> bool
    decreases a.len(),
{
    if a.len() == 0 {
        true
    } else if b.len() == 0 {
        false
    } else if a[0] == b[0] {
        lex_le(a.drop_first(), b.drop_first())
    } else {
        (a[0] as u32) < (b[0] as u32)
    }
}

/// `a` comes before `b` in the order of strings.
pub open spec fn lex_lt(a: Seq<char>, b: Seq<char>) -> bool {
    lex_le(a, b) && a != b
}

/// `list` holds the extension keys of `bag` in ascending order, each once and
/// with the number of times it is in the bag, and no other key.
pub open spec fn enumerates(list: Seq<(String, u32)>, bag: Multiset<Seq<char>>) -> bool {
    &&& forall|i: int|
        0 <= i < list.len() ==> list[i].1 >= 1 && list[i].1 == bag.count(list[i].0@)
    &&& forall|key: Seq<char>|
        bag.count(key) > 0 ==> exists|i: int| 0 <= i < list.len() && list[i].0@ == key
    &&& forall|i: int, j: int| 0 <= i < j < list.len() ==> lex_lt(list[i].0@, list[j].0@)
}

/// `Itertools::sorted` on a copy of `keys`. It sorts with `slice::sort` by
/// the order of `String`, so what comes back holds the same strings, each as
/// often as `keys` does, in ascending order.
#[verifier::external_body]
fn sorted_keys(keys: &Vec<String>) -> (sorted: Vec<String>)
    ensures
        texts(sorted@).to_multiset() == texts(keys@).to_multiset(),
        forall|i: int, j: int| 0 <= i <= j < sorted.len() ==> lex_le(sorted[i]@, sorted[j]@),
{
    keys.iter().cloned().sorted().collect()
}

/// The bag that the first `n` keys make, each with its count.
spec fn bag_of(keys: Seq<String>, counts: Seq<u32>, n: nat) -> Multiset<Seq<char>>
    decreases n,
{
    if n == 0 {
        Multiset::empty()
    } else {
        bag_of(keys, counts, (n - 1) as nat).update(keys[n - 1]@, counts[n - 1] as nat)
    }
}

proof fn lemma_bag_absent(keys: Seq<String>, counts: Seq<u32>, n: nat, key: Seq<char>)
    requires
        n <= keys.len(),
        forall|i: int| 0 <= i < n ==> keys[i]@ != key,
    ensures
        bag_of(keys, counts, n).count(key) == 0,
    decreases n,
{
    broadcast use group_multiset_properties;

    if n > 0 {
        lemma_bag_absent(keys, counts, (n - 1) as nat, key);
        lemma_update_different(
            bag_of(keys, counts, (n - 1) as nat),
            keys[n - 1]@,
            counts[n - 1] as nat,
            key,
        );
    }
}

proof fn lemma_bag_present(keys: Seq<String>, counts: Seq<u32>, n: nat, i: int)
    requires
        n <= keys.len(),
        texts(keys).no_duplicates(),
        0 <= i < n,
    ensures
        bag_of(keys, counts, n).count(keys[i]@) == counts[i],
    decreases n,
{
    let rest = bag_of(keys, counts, (n - 1) as nat);
    if i == n - 1 {
        lemma_update_same(rest, keys[i]@, counts[i] as nat);
    } else {
        lemma_bag_present(keys, counts, (n - 1) as nat, i);
        assert(texts(keys)[i] != texts(keys)[n - 1]);
        lemma_update_different(rest, keys[n - 1]@, counts[n - 1] as nat, keys[i]@);
    }
}

/// The count of every extension key seen so far.
///
/// Its view is the bag of the keys: a key is in it once for every file that
/// was counted under it.
#[derive(Debug, Clone)]
pub struct ExtensionCounts {
    keys: Vec<String>,
    counts: Vec<u32>,
}

impl View for ExtensionCounts {
    type V = Multiset<Seq<char>>;

    closed spec fn view(&self) -> Multiset<Seq<char>> {
        bag_of(self.keys@, self.counts@, self.keys@.len())
    }
}

impl ExtensionCounts {
    /// No key is held twice, and none with the count 0.
    pub closed spec fn wf(&self) -> bool {
        &&& self.keys.len() == self.counts.len()
        &&& texts(self.keys@).no_duplicates()
        &&& forall|i: int| 0 <= i < self.counts.len() ==> self.counts[i] >= 1
    }

    /// Counts without any key.
    pub fn new() -> (counts: ExtensionCounts)
        ensures
            counts.wf(),
            counts@ == Multiset::<Seq<char>>::empty(),
    {
        ExtensionCounts { keys: Vec::new(), counts: Vec::new() }
    }

    fn position(&self, key: &String) -> (found: Option<usize>)
        requires
            self.wf(),
        ensures
            match found {
                Some(i) => i < self.keys.len() && self.keys[i as int]@ == key@,
                None => forall|i: int| 0 <= i < self.keys.len() ==> self.keys[i]@ != key@,
            },
    {
        let mut i: usize = 0;
        while i < self.keys.len()
            invariant
                i <= self.keys.len(),
                forall|j: int| 0 <= j < i ==> self.keys[j]@ != key@,
            decreases self.keys.len() - i,
        {
            if self.keys[i] == *key {
                return Some(i);
            }
            i = i + 1;
        }
        None
    }

    /// How many files were counted under `key`.
    pub fn count(&self, key: &String) -> (n: u32)
        requires
            self.wf(),
        ensures
            n == self@.count(key@),
    {
        match self.position(key) {
            Some(i) => {
                proof {
                    lemma_bag_present(self.keys@, self.counts@, self.keys@.len(), i as int);
                }
                self.counts[i]
            },
            None => {
                proof {
                    lemma_bag_absent(self.keys@, self.counts@, self.keys@.len(), key@);
                }
                0
            },
        }
    }

    /// Counts one more file under `key`.
    pub fn bump(&mut self, key: String)
        requires
            old(self).wf(),
            old(self)@.len() < u32::MAX,
        ensures
            final(self).wf(),
            final(self)@ == old(self)@.insert(key@),
    {
        broadcast use group_multiset_properties;

        let ghost before = *self;
        let ghost n = self.keys@.len();
        match self.position(&key) {
            Some(i) => {
                let seen: u32 = self.counts[i];
                proof {
                    lemma_bag_present(before.keys@, before.counts@, n, i as int);
                    axiom_count_le_len(before@, key@);
                }
                self.counts.set(i, seen + 1);
                assert forall|other: Seq<char>| self@.count(other) == before@.insert(key@).count(
                    other,
                ) by {
                    if exists|j: int| 0 <= j < n && before.keys[j]@ == other {
                        let j = choose|j: int| 0 <= j < n && before.keys[j]@ == other;
                        lemma_bag_present(before.keys@, before.counts@, n, j);
                        lemma_bag_present(self.keys@, self.counts@, n, j);
                        assert(texts(before.keys@)[j] == other);
                        assert(texts(before.keys@)[i as int] == key@);
                    } else {
                        lemma_bag_absent(before.keys@, before.counts@, n, other);
                        lemma_bag_absent(self.keys@, self.counts@, n, other);
                    }
                }
                assert(self@ =~= before@.insert(key@));
            },
            None => {
                let ghost text = key@;
                self.keys.push(key);
                self.counts.push(1);
                assert(texts(self.keys@).no_duplicates()) by {
                    assert forall|a: int, b: int|
                        0 <= a < self.keys@.len() && 0 <= b < self.keys@.len() && a != b implies texts(
                        self.keys@,
                    )[a] != texts(self.keys@)[b] by {
                        if a < n && b < n {
                            assert(texts(before.keys@)[a] != texts(before.keys@)[b]);
                        }
                    }
                }
                assert forall|other: Seq<char>| self@.count(other) == before@.insert(text).count(
                    other,
                ) by {
                    if exists|j: int| 0 <= j < n && before.keys[j]@ == other {
                        let j = choose|j: int| 0 <= j < n && before.keys[j]@ == other;
                        lemma_bag_present(before.keys@, before.counts@, n, j);
                        lemma_bag_present(self.keys@, self.counts@, n + 1, j);
                    } else {
                        lemma_bag_absent(before.keys@, before.counts@, n, other);
                        if other == text {
                            lemma_bag_present(self.keys@, self.counts@, n + 1, n as int);
                        } else {
                            lemma_bag_absent(self.keys@, self.counts@, n + 1, other);
                        }
                    }
                }
                assert(self@ =~= before@.insert(text));
            },
        }
    }

    /// The keys with their counts, in ascending order of the keys.
    pub fn sorted(&self) -> (list: Vec<(String, u32)>)
        requires
            self.wf(),
        ensures
            enumerates(list@, self@),
    {
        let ordered = sorted_keys(&self.keys);
        let ghost held = texts(self.keys@);
        let ghost given = texts(ordered@);
        proof {
            held.to_multiset_ensures();
            given.to_multiset_ensures();
            held.lemma_multiset_has_no_duplicates();
            given.lemma_multiset_has_no_duplicates_conv();
            assert forall|key: Seq<char>| given.contains(key) <==> held.contains(key) by {
                vstd::seq_lib::to_multiset_contains(given, key);
                vstd::seq_lib::to_multiset_contains(held, key);
            }
        }
        let mut list: Vec<(String, u32)> = Vec::new();
        let mut i: usize = 0;
        while i < ordered.len()
            invariant
                self.wf(),
                i <= ordered.len(),
                list.len() == i,
                held == texts(self.keys@),
                given == texts(ordered@),
                given.len() == ordered.len(),
                forall|key: Seq<char>| given.contains(key) <==> held.contains(key),
                forall|j: int|
                    0 <= j < i ==> list[j].0@ == ordered[j]@ && list[j].1 >= 1 && list[j].1
                        == self@.count(list[j].0@),
            decreases ordered.len() - i,
        {
            let key = ordered[i].clone();
            proof {
                assert(given[i as int] == key@);
                assert(given.contains(key@));
                assert(held.contains(key@));
                let at = choose|at: int| 0 <= at < held.len() && held[at] == key@;
                lemma_bag_present(self.keys@, self.counts@, self.keys@.len(), at);
            }
            let n = self.count(&key);
            list.push((key, n));
            i = i + 1;
        }
        proof {
            assert forall|key: Seq<char>| self@.count(key) > 0 implies exists|i: int|
                0 <= i < list.len() && list[i].0@ == key by {
                if !held.contains(key) {
                    assert forall|at: int| 0 <= at < self.keys@.len() implies self.keys[at]@
                        != key by {
                        assert(held[at] == self.keys[at]@);
                    }
                    lemma_bag_absent(self.keys@, self.counts@, self.keys@.len(), key);
                }
                assert(given.contains(key));
                let at = choose|at: int| 0 <= at < given.len() && given[at] == key;
                assert(list[at].0@ == key);
            }
            assert forall|i: int, j: int| 0 <= i < j < list.len() implies lex_lt(
                list[i].0@,
                list[j].0@,
            ) by {
                assert(given[i] != given[j]);
            }
        }
        list
    }
}

} // verus!
