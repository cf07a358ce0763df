//! Decoding of the compound name encodings used by installer tables.
//!
//! A filename field may read `SHORT|Long Name`: everything after the first
//! `|` is the preferred form; without a `|` the whole field is used.  A
//! default-directory field may additionally read `target:source`: the part
//! before the first `:` is the target-context name, and the `|` decoding is
//! applied to that part.

use vstd::prelude::*;
use vstd::string::StrSliceExecFns;

verus! {

/// Index of the first occurrence of `c` in `s`, if any.
pub open spec fn find_char(s: Seq<char>, c: char) -> Option<int>
    decreases s.len(),
{
    if s.len() == 0 {
        None
    } else if s[0] == c {
        Some(0)
    } else {
        match find_char(s.subrange(1, s.len() as int), c) {
            Some(i) => Some(i + 1),
            None => None,
        }
    }
}

/// What `find_char` returns is the first occurrence: in bounds, equal to `c`,
/// with nothing equal to `c` before it; `None` means `c` does not occur.
pub proof fn lemma_find_char(s: Seq<char>, c: char)
    ensures
        match find_char(s, c) {
            Some(i) => 0 <= i < s.len() && s[i] == c && (forall|j: int| 0 <= j < i ==> s[j] != c),
            None => forall|j: int| 0 <= j < s.len() ==> s[j] != c,
        },
    decreases s.len(),
{
    if s.len() == 0 {
    } else if s[0] == c {
    } else {
        let t = s.subrange(1, s.len() as int);
        lemma_find_char(t, c);
        assert(forall|j: int| 0 <= j < t.len() ==> t[j] == s[j + 1]);
        match find_char(t, c) {
            Some(i) => {
                assert(s[i + 1] == c);
                assert forall|j: int| 0 <= j < i + 1 implies s[j] != c by {
                    if j >= 1 {
                        assert(t[j - 1] != c);
                    }
                }
            },
            None => {
                assert forall|j: int| 0 <= j < s.len() implies s[j] != c by {
                    if j >= 1 {
                        assert(t[j - 1] != c);
                    }
                }
            },
        }
    }
}

/// A position that is `c` with nothing equal to `c` before it is what
/// `find_char` returns.
pub proof fn lemma_find_char_at(s: Seq<char>, c: char, i: int)
    requires
        0 <= i < s.len(),
        s[i] == c,
        forall|j: int| 0 <= j < i ==> s[j] != c,
    ensures
        find_char(s, c) == Some(i),
    decreases i,
{
    if i == 0 {
    } else {
        let t = s.subrange(1, s.len() as int);
        assert(forall|j: int| 0 <= j < t.len() ==> t[j] == s[j + 1]);
        lemma_find_char_at(t, c, i - 1);
    }
}

/// If `c` occurs nowhere in `s`, `find_char` returns `None`.
pub proof fn lemma_find_char_none(s: Seq<char>, c: char)
    requires
        forall|j: int| 0 <= j < s.len() ==> s[j] != c,
    ensures
        find_char(s, c) is None,
{
    lemma_find_char(s, c);
    if find_char(s, c) is Some {
        let i = find_char(s, c)->Some_0;
        assert(s[i] != c);
    }
}

/// The part after the first `|`, or the whole string without one.
pub open spec fn after_pipe(s: Seq<char>) -> Seq<char> {
    match find_char(s, '|') {
        Some(i) => s.subrange(i + 1, s.len() as int),
        None => s,
    }
}

/// The part before the first `:`, or the whole string without one.
pub open spec fn before_colon(s: Seq<char>) -> Seq<char> {
    match find_char(s, ':') {
        Some(i) => s.subrange(0, i),
        None => s,
    }
}

/// A default-directory field decodes in two layers: first the target side of
/// `target:source`, then the long side of `SHORT|Long`.
pub open spec fn decode_dir_name(s: Seq<char>) -> Seq<char> {
    after_pipe(before_colon(s))
}

/// Index of the first occurrence of `c` in `s`, or `None`.
pub fn find_char_at(s: &str, c: char) -> (r: Option<usize>)
    ensures
        match r {
            Some(i) => find_char(s@, c) == Some(i as int),
            None => find_char(s@, c) is None,
        },
{
    let n = s.unicode_len();
    let mut i: usize = 0;
    while i < n
        invariant
            n == s@.len(),
            0 <= i <= n,
            forall|j: int| 0 <= j < i ==> s@[j] != c,
        decreases n - i,
    {
        if s.get_char(i) == c {
            proof {
                lemma_find_char_at(s@, c, i as int);
            }
            return Some(i);
        }
        i = i + 1;
    }
    proof {
        lemma_find_char_none(s@, c);
    }
    None
}

/// Decodes a `SHORT|Long` filename field: the part after the first `|` if
/// one is present, else the whole field.
pub fn decode_filename(s: &str) -> (r: String)
    ensures
        r@ == after_pipe(s@),
{
    match find_char_at(s, '|') {
        Some(i) => {
            proof {
                lemma_find_char(s@, '|');
            }
            let n = s.unicode_len();
            s.substring_char(i + 1, n).to_owned()
        },
        None => s.to_owned(),
    }
}

/// Decodes a default-directory field: the target side of `target:source`,
/// then the long side of `SHORT|Long` within it.
pub fn decode_default_dir(s: &str) -> (r: String)
    ensures
        r@ == decode_dir_name(s@),
{
    match find_char_at(s, ':') {
        Some(i) => {
            proof {
                lemma_find_char(s@, ':');
            }
            let pre = s.substring_char(0, i);
            decode_filename(pre)
        },
        None => decode_filename(s),
    }
}

/// Character-wise string equality.
pub fn str_eq(a: &str, b: &str) -> (r: bool)
    ensures
        r == (a@ == b@),
{
    let n = a.unicode_len();
    let m = b.unicode_len();
    if n != m {
        return false;
    }
    let mut i: usize = 0;
    while i < n
        invariant
            n == a@.len(),
            n == b@.len(),
            0 <= i <= n,
            forall|j: int| 0 <= j < i ==> a@[j] == b@[j],
        decreases n - i,
    {
        if a.get_char(i) != b.get_char(i) {
            return false;
        }
        i = i + 1;
    }
    proof {
        assert(a@ =~= b@);
    }
    true
}

} // verus!
