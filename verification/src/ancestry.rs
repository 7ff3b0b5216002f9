//! The process-ancestry resolver's parsing half: a per-process textual
//! record holds whitespace-separated fields, the fourth of which is the
//! parent process id. Reading the record is the caller's concern; this
//! module extracts and validates the field, normalizing a parent id of
//! zero to "no parent". Any failure means "stop walking the chain",
//! never a fatal error.

use vstd::prelude::*;

verus! {

/// One step of the parent-chain resolution: the parent process id, or
/// none for a root or reaped process.
pub struct ProcessInfo {
    /// The parent process id; absent when the record reports zero.
    pub parent_id: Option<i64>,
}

/// Why a process record yielded no parent.
pub enum ProcessError {
    /// The record holds fewer fields than the parent-id position.
    MalformedRecord { pid: i64 },
    /// The parent-id field is not a valid integer.
    InvalidParentId { pid: i64, value: String },
    /// The record could not be opened or read at all.
    RecordUnavailable { pid: i64 },
}

/// Whether `c` separates fields in a process record.
pub open spec fn is_field_space(c: char) -> bool {
    c == ' ' || c == '\t' || c == '\n' || c == '\r' || c == '\x0b' || c == '\x0c'
}

/// The whitespace-separated fields of `s`: the maximal runs of
/// non-whitespace characters, in order. A run of whitespace is one
/// separator; no field is empty.
pub open spec fn split_fields(s: Seq<char>) -> Seq<Seq<char>>
    decreases s.len(),
{
    if s.len() == 0 {
        Seq::empty()
    } else if is_field_space(s[0]) {
        split_fields(s.drop_first())
    } else {
        let rest = split_fields(s.drop_first());
        if s.len() > 1 && !is_field_space(s[1]) {
            rest.update(0, seq![s[0]] + rest[0])
        } else {
            seq![seq![s[0]]] + rest
        }
    }
}

/// The parent-id field of a record: the fourth whitespace-separated
/// field, when the record has one.
pub open spec fn stat_ppid_field(s: Seq<char>) -> Option<Seq<char>> {
    if split_fields(s).len() >= 4 {
        Some(split_fields(s)[3])
    } else {
        None
    }
}

/// Whether `c` is a decimal digit.
pub open spec fn is_digit(c: char) -> bool {
    '0' <= c && c <= '9'
}

/// The value of the digit `c`.
pub open spec fn digit_val(c: char) -> int {
    (c as u32) - 48
}

/// Whether every character of `s` is a decimal digit.
pub open spec fn all_digits(s: Seq<char>) -> bool {
    forall|i: int| 0 <= i < s.len() ==> is_digit(#[trigger] s[i])
}

/// The number the digit string `s` denotes.
pub open spec fn digits_val(s: Seq<char>) -> int
    decreases s.len(),
{
    if s.len() == 0 {
        0
    } else {
        digits_val(s.drop_last()) * 10 + digit_val(s.last())
    }
}

/// What `str::parse::<i64>` accepts and returns: an optional sign, then
/// one or more digits, denoting a value in the type's range.
pub open spec fn spec_parse_i64(s: Seq<char>) -> Option<int> {
    let signed = s.len() > 0 && (s[0] == '-' || s[0] == '+');
    let neg = s.len() > 0 && s[0] == '-';
    let ds = if signed {
        s.drop_first()
    } else {
        s
    };
    if ds.len() == 0 || !all_digits(ds) {
        None
    } else {
        let v = if neg {
            -digits_val(ds)
        } else {
            digits_val(ds)
        };
        if -9223372036854775808 <= v && v <= 9223372036854775807 {
            Some(v)
        } else {
            None
        }
    }
}

proof fn lemma_split_first_field(s: Seq<char>)
    requires
        s.len() > 0,
        !is_field_space(s[0]),
    ensures
        split_fields(s).len() >= 1,
    decreases s.len(),
{
    if s.len() > 1 && !is_field_space(s[1]) {
        lemma_split_first_field(s.drop_first());
    }
}

proof fn lemma_split_skip_leading(s: Seq<char>, q: int)
    requires
        0 <= q <= s.len(),
        forall|j: int| 0 <= j < q ==> is_field_space(s[j]),
    ensures
        split_fields(s) == split_fields(s.skip(q)),
    decreases q,
{
    if q == 0 {
        assert(s.skip(0) =~= s);
    } else {
        assert(is_field_space(s[0]));
        lemma_split_skip_leading(s.drop_first(), q - 1);
        assert(s.drop_first().skip(q - 1) =~= s.skip(q));
    }
}

proof fn lemma_split_all_space(s: Seq<char>)
    requires
        forall|j: int| 0 <= j < s.len() ==> is_field_space(s[j]),
    ensures
        split_fields(s) == Seq::<Seq<char>>::empty(),
{
    lemma_split_skip_leading(s, s.len() as int);
    assert(s.skip(s.len() as int) =~= Seq::<char>::empty());
}

proof fn lemma_split_token(s: Seq<char>, e: int)
    requires
        0 < e <= s.len(),
        forall|j: int| 0 <= j < e ==> !is_field_space(s[j]),
        e == s.len() || is_field_space(s[e]),
    ensures
        split_fields(s) == seq![s.take(e)] + split_fields(s.skip(e)),
    decreases e,
{
    let d = s.drop_first();
    if e == 1 {
        assert(s.take(1) =~= seq![s[0]]);
        assert(s.skip(1) =~= d);
        if s.len() == 1 {
            assert(split_fields(s) =~= seq![s.take(1)] + split_fields(s.skip(1)));
        } else {
            assert(is_field_space(s[1]));
            assert(split_fields(s) =~= seq![s.take(1)] + split_fields(s.skip(1)));
        }
    } else {
        assert(!is_field_space(s[1]));
        assert(forall|j: int| 0 <= j < e - 1 ==> !is_field_space(d[j]));
        assert(e - 1 == d.len() || is_field_space(d[e - 1]));
        lemma_split_token(d, e - 1);
        let rest = split_fields(d);
        assert(rest == seq![d.take(e - 1)] + split_fields(d.skip(e - 1)));
        assert(rest[0] == d.take(e - 1));
        assert(split_fields(s) == rest.update(0, seq![s[0]] + rest[0]));
        assert(seq![s[0]] + d.take(e - 1) =~= s.take(e));
        assert(d.skip(e - 1) =~= s.skip(e));
        assert(rest.update(0, s.take(e)) =~= seq![s.take(e)] + split_fields(d.skip(e - 1)));
    }
}

proof fn lemma_field_step(s: Seq<char>, q: int, e: int)
    requires
        0 <= q < e <= s.len(),
        forall|j: int| 0 <= j < q ==> is_field_space(s[j]),
        forall|j: int| q <= j < e ==> !is_field_space(s[j]),
        e == s.len() || is_field_space(s[e]),
    ensures
        split_fields(s).len() == 1 + split_fields(s.skip(e)).len(),
        split_fields(s)[0] == s.subrange(q, e),
        forall|k: int|
            0 <= k < split_fields(s.skip(e)).len() ==> split_fields(s)[k + 1] == #[trigger]
            split_fields(s.skip(e))[k],
{
    lemma_split_skip_leading(s, q);
    let t = s.skip(q);
    assert(forall|j: int| 0 <= j < e - q ==> !is_field_space(t[j]));
    assert(e - q == t.len() || is_field_space(t[e - q]));
    lemma_split_token(t, e - q);
    assert(t.take(e - q) =~= s.subrange(q, e));
    assert(t.skip(e - q) =~= s.skip(e));
}

proof fn lemma_digits_val_bounds(s: Seq<char>)
    requires
        all_digits(s),
    ensures
        digits_val(s) >= 0,
        s.len() > 0 ==> digits_val(s) >= digits_val(s.drop_last()),
    decreases s.len(),
{
    if s.len() > 0 {
        assert(is_digit(s[s.len() - 1]));
        assert(forall|i: int| 0 <= i < s.drop_last().len() ==> is_digit(#[trigger] s.drop_last()[i]));
        lemma_digits_val_bounds(s.drop_last());
    }
}

proof fn lemma_digits_val_prefix(s: Seq<char>, k: int)
    requires
        all_digits(s),
        0 <= k <= s.len(),
    ensures
        digits_val(s) >= digits_val(s.take(k)),
    decreases s.len() - k,
{
    if k == s.len() {
        assert(s.take(k) =~= s);
    } else {
        lemma_digits_val_prefix(s, k + 1);
        assert(s.take(k + 1).drop_last() =~= s.take(k));
        assert(s.take(k + 1).last() == s[k]);
        assert(forall|i: int| 0 <= i < s.take(k + 1).len() ==> is_digit(#[trigger] s.take(k + 1)[i]));
        lemma_digits_val_bounds(s.take(k + 1));
    }
}

/// Whether `c` separates fields, executably.
fn is_space_char(c: char) -> (r: bool)
    ensures
        r == is_field_space(c),
{
    c == ' ' || c == '\t' || c == '\n' || c == '\r' || c == '\x0b' || c == '\x0c'
}

/// The first non-whitespace position at or after `start`, or the
/// record's length.
fn skip_spaces_from(s: &str, start: usize) -> (r: usize)
    requires
        start <= s@.len(),
    ensures
        start <= r <= s@.len(),
        forall|j: int| start <= j < r ==> is_field_space(s@[j]),
        r < s@.len() ==> !is_field_space(s@[r as int]),
{
    let len = s.unicode_len();
    let mut i: usize = start;
    while i < len
        invariant
            start <= i <= len,
            len == s@.len(),
            forall|j: int| start <= j < i ==> is_field_space(s@[j]),
        decreases len - i,
    {
        if !is_space_char(s.get_char(i)) {
            return i;
        }
        i = i + 1;
    }
    len
}

/// The first whitespace position at or after `start`, or the record's
/// length.
fn token_end_from(s: &str, start: usize) -> (r: usize)
    requires
        start <= s@.len(),
    ensures
        start <= r <= s@.len(),
        forall|j: int| start <= j < r ==> !is_field_space(s@[j]),
        r < s@.len() ==> is_field_space(s@[r as int]),
{
    let len = s.unicode_len();
    let mut i: usize = start;
    while i < len
        invariant
            start <= i <= len,
            len == s@.len(),
            forall|j: int| start <= j < i ==> !is_field_space(s@[j]),
        decreases len - i,
    {
        if is_space_char(s.get_char(i)) {
            return i;
        }
        i = i + 1;
    }
    len
}

/// Parse a decimal integer exactly as `str::parse::<i64>` does: an
/// optional sign, then one or more digits, rejecting anything else and
/// values out of range.
fn parse_i64(s: &str) -> (r: Option<i64>)
    ensures
        match spec_parse_i64(s@) {
            Some(v) => r == Some(v as i64),
            None => r is None,
        },
{
    let len = s.unicode_len();
    if len == 0 {
        return None;
    }
    let first = s.get_char(0);
    let neg = first == '-';
    let signed = first == '-' || first == '+';
    let start: usize = if signed {
        1
    } else {
        0
    };
    let ghost ds = if signed {
        s@.drop_first()
    } else {
        s@
    };
    proof {
        if signed {
            assert(ds =~= s@.skip(1));
        } else {
            assert(ds =~= s@.skip(0));
        }
    }
    if start >= len {
        return None;
    }
    let limit: u64 = if neg {
        9223372036854775808
    } else {
        9223372036854775807
    };
    let mut mag: u64 = 0;
    let mut i: usize = start;
    proof {
        if ds.len() > 0 && all_digits(ds) {
            lemma_digits_val_bounds(ds);
        }
        assert(ds.take(0) =~= Seq::<char>::empty());
    }
    while i < len
        invariant
            start <= i <= len,
            len == s@.len(),
            start < len,
            ds == s@.skip(start as int),
            neg ==> limit == 9223372036854775808u64,
            !neg ==> limit == 9223372036854775807u64,
            forall|j: int| 0 <= j < i - start ==> is_digit(#[trigger] ds[j]),
            mag == digits_val(ds.take(i - start)),
            mag <= limit,
            spec_parse_i64(s@) == (if ds.len() == 0 || !all_digits(ds) {
                None::<int>
            } else {
                if neg {
                    if -9223372036854775808 <= -digits_val(ds) {
                        Some(-digits_val(ds))
                    } else {
                        None::<int>
                    }
                } else {
                    if digits_val(ds) <= 9223372036854775807 {
                        Some(digits_val(ds))
                    } else {
                        None::<int>
                    }
                }
            }),
        decreases len - i,
    {
        let c = s.get_char(i);
        if c < '0' || c > '9' {
            proof {
                assert(ds[i - start] == s@[i as int]);
                assert(!is_digit(ds[i - start]));
            }
            return None;
        }
        let d: u64 = (c as u32 - 48) as u64;
        proof {
            assert(ds[i - start] == s@[i as int]);
            assert(is_digit(ds[i - start]));
            assert(d == digit_val(ds[i - start]));
        }
        if mag > (limit - d) / 10 {
            proof {
                assert(ds.take(i - start + 1).drop_last() =~= ds.take(i - start));
                assert(ds.take(i - start + 1).last() == ds[i - start]);
                assert(forall|j: int|
                    0 <= j < ds.take(i - start + 1).len() ==> is_digit(#[trigger] ds.take(
                        i - start + 1,
                    )[j]));
                assert(digits_val(ds.take(i - start + 1)) == mag * 10 + d);
                assert(mag * 10 + d > limit) by {
                    assert(mag >= (limit - d) / 10 + 1);
                    assert((limit - d) == 10 * ((limit - d) / 10) + (limit - d) % 10);
                };
                if all_digits(ds) {
                    lemma_digits_val_prefix(ds, i - start + 1);
                    assert(digits_val(ds) > limit);
                }
            }
            return None;
        }
        proof {
            assert(mag * 10 + d <= limit) by {
                assert(mag <= (limit - d) / 10);
                assert((limit - d) == 10 * ((limit - d) / 10) + (limit - d) % 10);
            };
            assert(ds.take(i - start + 1).drop_last() =~= ds.take(i - start));
            assert(ds.take(i - start + 1).last() == ds[i - start]);
        }
        mag = mag * 10 + d;
        i = i + 1;
    }
    proof {
        assert(ds.take(len - start) =~= ds);
        assert(all_digits(ds));
        assert(ds.len() > 0);
    }
    if neg {
        if mag == 9223372036854775808 {
            Some(i64::MIN)
        } else {
            Some(-(mag as i64))
        }
    } else {
        Some(mag as i64)
    }
}

impl ProcessInfo {
    /// Extract the parent process id from a process record: the fourth
    /// whitespace-separated field, parsed as an integer, with zero
    /// meaning "no parent". `pid` only labels the errors.
    pub fn parse_record(pid: i64, content: &str) -> (r: Result<ProcessInfo, ProcessError>)
        ensures
            match r {
                Ok(info) => stat_ppid_field(content@) matches Some(f) && (spec_parse_i64(f)
                    matches Some(v) && info.parent_id == (if v == 0 {
                    None::<i64>
                } else {
                    Some(v as i64)
                })),
                Err(e) => match e {
                    ProcessError::MalformedRecord { pid: p } => p == pid && stat_ppid_field(
                        content@,
                    ) is None,
                    ProcessError::InvalidParentId { pid: p, value } => p == pid && (stat_ppid_field(
                        content@,
                    ) matches Some(f) && value@ == f && spec_parse_i64(f) is None),
                    ProcessError::RecordUnavailable { .. } => false,
                },
            },
    {
        let len = content.unicode_len();
        let q0 = skip_spaces_from(content, 0);
        if q0 == len {
            proof {
                lemma_split_all_space(content@);
            }
            return Err(ProcessError::MalformedRecord { pid });
        }
        let e0 = token_end_from(content, q0);
        proof {
            lemma_field_step(content@, q0 as int, e0 as int);
        }
        let ghost t1 = content@.skip(e0 as int);
        let q1 = skip_spaces_from(content, e0);
        if q1 == len {
            proof {
                assert(forall|j: int| 0 <= j < t1.len() ==> is_field_space(t1[j]));
                lemma_split_all_space(t1);
            }
            return Err(ProcessError::MalformedRecord { pid });
        }
        let e1 = token_end_from(content, q1);
        proof {
            assert(forall|j: int| 0 <= j < q1 - e0 ==> is_field_space(t1[j]));
            assert(forall|j: int| q1 - e0 <= j < e1 - e0 ==> !is_field_space(t1[j]));
            assert(e1 - e0 == t1.len() || is_field_space(t1[e1 - e0]));
            lemma_field_step(t1, q1 - e0, e1 - e0);
            assert(t1.skip(e1 - e0) =~= content@.skip(e1 as int));
        }
        let ghost t2 = content@.skip(e1 as int);
        let q2 = skip_spaces_from(content, e1);
        if q2 == len {
            proof {
                assert(forall|j: int| 0 <= j < t2.len() ==> is_field_space(t2[j]));
                lemma_split_all_space(t2);
            }
            return Err(ProcessError::MalformedRecord { pid });
        }
        let e2 = token_end_from(content, q2);
        proof {
            assert(forall|j: int| 0 <= j < q2 - e1 ==> is_field_space(t2[j]));
            assert(forall|j: int| q2 - e1 <= j < e2 - e1 ==> !is_field_space(t2[j]));
            assert(e2 - e1 == t2.len() || is_field_space(t2[e2 - e1]));
            lemma_field_step(t2, q2 - e1, e2 - e1);
            assert(t2.skip(e2 - e1) =~= content@.skip(e2 as int));
        }
        let ghost t3 = content@.skip(e2 as int);
        let q3 = skip_spaces_from(content, e2);
        if q3 == len {
            proof {
                assert(forall|j: int| 0 <= j < t3.len() ==> is_field_space(t3[j]));
                lemma_split_all_space(t3);
            }
            return Err(ProcessError::MalformedRecord { pid });
        }
        let e3 = token_end_from(content, q3);
        proof {
            assert(forall|j: int| 0 <= j < q3 - e2 ==> is_field_space(t3[j]));
            assert(forall|j: int| q3 - e2 <= j < e3 - e2 ==> !is_field_space(t3[j]));
            assert(e3 - e2 == t3.len() || is_field_space(t3[e3 - e2]));
            lemma_field_step(t3, q3 - e2, e3 - e2);
            assert(t3.subrange(q3 - e2, e3 - e2) =~= content@.subrange(q3 as int, e3 as int));
            assert(split_fields(content@).len() == 1 + split_fields(t1).len());
            assert(split_fields(t1).len() == 1 + split_fields(t2).len());
            assert(split_fields(t2).len() == 1 + split_fields(t3).len());
            assert(split_fields(content@).len() >= 4);
            assert(split_fields(t2)[1] == split_fields(t3)[0]);
            assert(split_fields(t1)[2] == split_fields(t2)[1]);
            assert(split_fields(content@)[3] == split_fields(t1)[2]);
            assert(split_fields(content@)[3] == content@.subrange(q3 as int, e3 as int));
        }
        let field = content.substring_char(q3, e3);
        match parse_i64(field) {
            Some(v) => Ok(
                ProcessInfo {
                    parent_id: if v == 0 {
                        None
                    } else {
                        Some(v)
                    },
                },
            ),
            None => Err(
                ProcessError::InvalidParentId { pid, value: field.to_owned() },
            ),
        }
    }
}

} // verus!
