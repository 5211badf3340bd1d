//! Extension keys: what a file is counted under, and whether that makes it an
//! audio file worth reading.

use vstd::prelude::*;
use vstd::string::*;
use crate::config::key_set;

verus! {

/// The lowercase form of `text` under the Unicode case mapping of the standard
/// library.
pub uninterp spec fn lowercase_of(text: Seq<char>) -> Seq<char>;

/// `str::to_lowercase`: the result is the lowercase form of the receiver. The
/// mapping is Unicode's and is not spelled out here; `lowercase_of` names it.
pub assume_specification[ str::to_lowercase ](s: &str) -> (lower: String)
    ensures
        lower@ == lowercase_of(s@),
;

/// The key of a file name that has no `.` in it.
pub open spec fn no_extension() -> Seq<char> {
    "none"@
}

/// `i` is the position of the last `.` of `name`.
pub open spec fn is_last_dot(name: Seq<char>, i: int) -> bool {
    &&& 0 <= i < name.len()
    &&& name[i] == '.'
    &&& forall|j: int| i < j < name.len() ==> name[j] != '.'
}

/// The position of the last `.` of a name that has one.
pub open spec fn last_dot(name: Seq<char>) -> int {
    choose|i: int| is_last_dot(name, i)
}

/// The extension key of a file name.
///
/// A name without a `.` has the key `none`. A name whose only `.` is its first
/// character has the empty key. Any other name has the lowercase form of what
/// follows its last `.`.
pub open spec fn extension_key(name: Seq<char>) -> Seq<char> {
    if !name.contains('.') {
        no_extension()
    } else if last_dot(name) == 0 {
        Seq::empty()
    } else {
        lowercase_of(name.skip(last_dot(name) + 1))
    }
}

/// A name has at most one last `.`.
pub proof fn lemma_last_dot_unique(name: Seq<char>, i: int)
    requires
        is_last_dot(name, i),
    ensures
        name.contains('.'),
        last_dot(name) == i,
{
    let k = last_dot(name);
    assert(is_last_dot(name, k));
    if k < i {
        assert(name[i] != '.');
    } else if i < k {
        assert(name[k] != '.');
    }
}

/// Derives the extension key of a file name.
pub fn classify(file_name: &str) -> (key: String)
    ensures
        key@ == extension_key(file_name@),
{
    let len: usize = file_name.unicode_len();
    let mut last: Option<usize> = None;
    let mut seen: usize = 0;
    for c in it: file_name.chars()
        invariant
            it.seq() == file_name@,
            len == file_name@.len(),
            seen == it.index(),
            match last {
                Some(i) => is_last_dot(file_name@.take(seen as int), i as int),
                None => !file_name@.take(seen as int).contains('.'),
            },
    {
        if c == '.' {
            last = Some(seen);
        }
        seen = seen + 1;
    }
    assert(file_name@.take(seen as int) == file_name@);
    match last {
        None => "none".to_owned(),
        Some(dot) => {
            proof {
                lemma_last_dot_unique(file_name@, dot as int);
            }
            if dot == 0 {
                String::new()
            } else {
                file_name.substring_char(dot + 1, len).to_lowercase()
            }
        },
    }
}

/// Tells whether `key` is one of the `valid` extensions.
pub fn is_valid(key: &String, valid: &Vec<String>) -> (found: bool)
    ensures
        found == key_set(valid@).contains(key@),
{
    let mut i: usize = 0;
    while i < valid.len()
        invariant
            i <= valid.len(),
            forall|j: int| 0 <= j < i ==> valid[j]@ != key@,
        decreases valid.len() - i,
    {
        if valid[i] == *key {
            return true;
        }
        i = i + 1;
    }
    false
}

} // verus!
