//! Character-level helpers for the identifier matching: equality,
//! case folding, and the final dot-separated segment of an identifier.

use vstd::prelude::*;

verus! {

/// The Unicode lowercase folding of a character sequence, as
/// `str::to_lowercase` computes it.
pub uninterp spec fn lower_of(s: Seq<char>) -> Seq<char>;

/// Relies on str::to_lowercase: the result depends on the characters
/// alone, and an empty string stays empty.
#[verifier::external_body]
pub(crate) fn lowercase(s: &str) -> (r: String)
    ensures
        r@ == lower_of(s@),
        s@.len() == 0 ==> r@.len() == 0,
{
    s.to_lowercase()
}

/// Character-by-character string equality.
pub fn str_eq(a: &str, b: &str) -> (r: bool)
    ensures
        r == (a@ == b@),
{
    let a_len = a.unicode_len();
    let b_len = b.unicode_len();
    if a_len != b_len {
        proof {
            assert(a@ != b@) by {
                if a@ == b@ {
                    assert(a@.len() == b@.len());
                }
            }
        }
        return false;
    }
    let mut i: usize = 0;
    while i < a_len
        invariant
            i <= a_len,
            a_len == a@.len(),
            b_len == b@.len(),
            a_len == b_len,
            forall|j: int| 0 <= j < i ==> a@[j] == b@[j],
        decreases a_len - i,
    {
        if a.get_char(i) != b.get_char(i) {
            return false;
        }
        i = i + 1;
    }
    proof {
        assert(a@ =~= b@);
    }
    true
}

/// Whether `s` holds the character `c` anywhere.
pub open spec fn contains_char(s: Seq<char>, c: char) -> bool {
    exists|i: int| 0 <= i < s.len() && s[i] == c
}

/// The index of the last occurrence of `c` in `s`, if any.
pub fn find_last_char(s: &str, c: char) -> (r: Option<usize>)
    ensures
        match r {
            Some(p) => {
                &&& p < s@.len()
                &&& s@[p as int] == c
                &&& forall|j: int| p < j < s@.len() ==> s@[j] != c
            },
            None => !contains_char(s@, c),
        },
{
    let len = s.unicode_len();
    let mut i: usize = len;
    while i > 0
        invariant
            i <= len,
            len == s@.len(),
            forall|j: int| i <= j < s@.len() ==> s@[j] != c,
        decreases i,
    {
        i = i - 1;
        if s.get_char(i) == c {
            return Some(i);
        }
    }
    assert(!contains_char(s@, c));
    None
}

/// The segment of `s` after its last dot: the whole of `s` when no
/// dot occurs, and empty when `s` ends with a dot.
pub open spec fn dot_suffix(s: Seq<char>) -> Seq<char>
    decreases s.len(),
{
    if s.len() == 0 {
        s
    } else if s.last() == '.' {
        Seq::empty()
    } else {
        dot_suffix(s.drop_last()).push(s.last())
    }
}

proof fn lemma_dot_suffix_no_dot(s: Seq<char>)
    requires
        !contains_char(s, '.'),
    ensures
        dot_suffix(s) == s,
    decreases s.len(),
{
    if s.len() > 0 {
        assert(s.last() != '.') by {
            assert(s[s.len() - 1] == s.last());
        }
        assert(!contains_char(s.drop_last(), '.')) by {
            if contains_char(s.drop_last(), '.') {
                let i = choose|i: int| 0 <= i < s.drop_last().len() && s.drop_last()[i] == '.';
                assert(s[i] == '.');
            }
        }
        lemma_dot_suffix_no_dot(s.drop_last());
        assert(dot_suffix(s) =~= s);
    }
}

proof fn lemma_dot_suffix_after(s: Seq<char>, p: int)
    requires
        0 <= p < s.len(),
        s[p] == '.',
        forall|j: int| p < j < s.len() ==> s[j] != '.',
    ensures
        dot_suffix(s) == s.subrange(p + 1, s.len() as int),
    decreases s.len(),
{
    if p == s.len() - 1 {
        assert(s.last() == '.');
        assert(dot_suffix(s) =~= s.subrange(p + 1, s.len() as int));
    } else {
        assert(s.last() != '.') by {
            assert(s[s.len() - 1] == s.last());
        }
        lemma_dot_suffix_after(s.drop_last(), p);
        assert(dot_suffix(s) =~= s.subrange(p + 1, s.len() as int)) by {
            assert(s.drop_last().subrange(p + 1, s.drop_last().len() as int) =~= s.subrange(
                p + 1,
                s.len() - 1,
            ));
        }
    }
}

/// The text after the last dot of `s`, owned.
pub fn dot_suffix_of(s: &str) -> (r: String)
    ensures
        r@ == dot_suffix(s@),
{
    match find_last_char(s, '.') {
        Some(p) => {
            let len = s.unicode_len();
            let seg = s.substring_char(p + 1, len);
            proof {
                lemma_dot_suffix_after(s@, p as int);
            }
            seg.to_owned()
        },
        None => {
            proof {
                lemma_dot_suffix_no_dot(s@);
            }
            s.to_owned()
        },
    }
}

/// Whether `s` holds a dot, executably.
pub fn has_dot(s: &str) -> (r: bool)
    ensures
        r == contains_char(s@, '.'),
{
    match find_last_char(s, '.') {
        Some(_) => true,
        None => false,
    }
}

} // verus!
