use crate::error::ReaderError;
use vstd::prelude::*;

verus! {

/// The characters with the Unicode `White_Space` property.
pub open spec fn is_white_space(c: char) -> bool {
    let u = c as u32;
    (0x9 <= u <= 0xd) || u == 0x20 || u == 0x85 || u == 0xa0 || u == 0x1680 || (0x2000 <= u
        <= 0x200a) || u == 0x2028 || u == 0x2029 || u == 0x202f || u == 0x205f || u == 0x3000
}

/// `s` without its leading white space.
pub open spec fn trim_start(s: Seq<char>) -> Seq<char>
    decreases s.len(),
{
    if s.len() > 0 && is_white_space(s[0]) {
        trim_start(s.skip(1))
    } else {
        s
    }
}

/// `s` without its trailing white space.
pub open spec fn trim_end(s: Seq<char>) -> Seq<char>
    decreases s.len(),
{
    if s.len() > 0 && is_white_space(s.last()) {
        trim_end(s.drop_last())
    } else {
        s
    }
}

/// `s` without white space at either end.
pub open spec fn trimmed(s: Seq<char>) -> Seq<char> {
    trim_end(trim_start(s))
}

pub open spec fn is_digit(c: char) -> bool {
    '0' <= c <= '9'
}

/// The number that a run of decimal digits writes.
pub open spec fn decimal_value(ds: Seq<char>) -> int
    decreases ds.len(),
{
    if ds.len() == 0 {
        0
    } else {
        10 * decimal_value(ds.drop_last()) + (ds.last() as u32 - '0' as u32)
    }
}

/// The digits of an unsigned decimal number: an optional `+`, then at least
/// one digit and nothing else.
pub open spec fn digits_of(t: Seq<char>) -> Seq<char> {
    if t.len() > 0 && t[0] == '+' {
        t.skip(1)
    } else {
        t
    }
}

/// The number a console line gives, once trimmed, or `None` where it is no
/// unsigned decimal number.
pub open spec fn selection_value(line: Seq<char>) -> Option<int> {
    let ds = digits_of(trimmed(line));
    if ds.len() > 0 && forall|i: int| 0 <= i < ds.len() ==> is_digit(#[trigger] ds[i]) {
        Some(decimal_value(ds))
    } else {
        None
    }
}

proof fn lemma_trim_start(s: Seq<char>, a: int)
    requires
        0 <= a <= s.len(),
        forall|k: int| 0 <= k < a ==> is_white_space(#[trigger] s[k]),
        a == s.len() || !is_white_space(s[a]),
    ensures
        trim_start(s) == s.skip(a),
    decreases a,
{
    if a == 0 {
        assert(s.skip(0) =~= s);
    } else {
        assert forall|k: int| 0 <= k < a - 1 implies is_white_space(#[trigger] s.skip(1)[k]) by {
            assert(s.skip(1)[k] == s[k + 1]);
        }
        lemma_trim_start(s.skip(1), a - 1);
        assert(s.skip(1).skip(a - 1) =~= s.skip(a));
    }
}

proof fn lemma_trim_end(t: Seq<char>, b: int)
    requires
        0 <= b <= t.len(),
        forall|k: int| b <= k < t.len() ==> is_white_space(#[trigger] t[k]),
        b == 0 || !is_white_space(t[b - 1]),
    ensures
        trim_end(t) == t.take(b),
    decreases t.len() - b,
{
    if b == t.len() {
        assert(t.take(b) =~= t);
    } else {
        lemma_trim_end(t.drop_last(), b);
        assert(t.drop_last().take(b) =~= t.take(b));
    }
}

/// Reads a category selection from a console line: surrounding white space
/// is ignored, and the rest must be an unsigned decimal number that fits in
/// 32 bits, with an optional leading `+`.
pub fn parse_selection(line: &str) -> (r: Result<u32, ReaderError>)
    ensures
        match selection_value(line@) {
            Some(v) => if v <= u32::MAX {
                r == Ok::<u32, ReaderError>(v as u32)
            } else {
                r == Err::<u32, ReaderError>(ReaderError::InvalidSelection)
            },
            None => r == Err::<u32, ReaderError>(ReaderError::InvalidSelection),
        },
        r matches Ok(id) ==> selection_value(line@) == Some(id as int),
{
    let n = line.unicode_len();
    let mut a: usize = 0;
    while a < n && is_space(line.get_char(a))
        invariant
            a <= n == line@.len(),
            forall|k: int| 0 <= k < a ==> is_white_space(#[trigger] line@[k]),
        decreases n - a,
    {
        a = a + 1;
    }
    let mut b: usize = n;
    while b > a && is_space(line.get_char(b - 1))
        invariant
            a <= b <= n == line@.len(),
            forall|k: int| b <= k < n ==> is_white_space(#[trigger] line@[k]),
        decreases b,
    {
        b = b - 1;
    }
    let ghost t = line@.subrange(a as int, b as int);
    proof {
        lemma_trim_start(line@, a as int);
        let rest = line@.skip(a as int);
        assert forall|k: int| b - a <= k < rest.len() implies is_white_space(#[trigger] rest[k]) by {
            assert(rest[k] == line@[k + a]);
        }
        lemma_trim_end(rest, b - a);
        assert(rest.take(b - a) =~= t);
    }
    let mut p: usize = a;
    if p < b && line.get_char(p) == '+' {
        p = p + 1;
    }
    let ghost ds = digits_of(t);
    assert(ds =~= line@.subrange(p as int, b as int));
    if p == b {
        return Err(ReaderError::InvalidSelection);
    }
    let mut acc: u64 = 0;
    let mut i: usize = p;
    while i < b
        invariant
            a <= p <= i <= b <= n == line@.len(),
            ds == line@.subrange(p as int, b as int),
            ds == digits_of(trimmed(line@)),
            forall|k: int| p <= k < i ==> is_digit(#[trigger] line@[k]),
            acc <= u32::MAX as u64 + 1,
            acc <= u32::MAX ==> acc == decimal_value(ds.take(i - p)),
            acc > u32::MAX ==> decimal_value(ds.take(i - p)) > u32::MAX,
            decimal_value(ds.take(i - p)) >= 0,
        decreases b - i,
    {
        let c = line.get_char(i);
        if !('0' <= c && c <= '9') {
            assert(!is_digit(ds[i - p]));
            return Err(ReaderError::InvalidSelection);
        }
        let d = (c as u32 - '0' as u32) as u64;
        proof {
            assert(ds.take(i - p + 1).drop_last() =~= ds.take(i - p));
            assert(ds.take(i - p + 1).last() == c);
        }
        if acc <= u32::MAX as u64 {
            acc = acc * 10 + d;
        }
        if acc > u32::MAX as u64 {
            acc = u32::MAX as u64 + 1;
        }
        i = i + 1;
    }
    assert(ds.take(b - p) =~= ds);
    assert forall|k: int| 0 <= k < ds.len() implies is_digit(#[trigger] ds[k]) by {
        assert(ds[k] == line@[k + p]);
    }
    if acc > u32::MAX as u64 {
        Err(ReaderError::InvalidSelection)
    } else {
        Ok(acc as u32)
    }
}

/// Whether `c` has the Unicode `White_Space` property.
fn is_space(c: char) -> (r: bool)
    ensures
        r == is_white_space(c),
{
    let u = c as u32;
    (0x9 <= u && u <= 0xd) || u == 0x20 || u == 0x85 || u == 0xa0 || u == 0x1680 || (0x2000 <= u
        && u <= 0x200a) || u == 0x2028 || u == 0x2029 || u == 0x202f || u == 0x205f || u == 0x3000
}

} // verus!
