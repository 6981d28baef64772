//! The text form of a cipher string.
//!
//! A cipher string is written as `<scheme>.<iv>|<ciphertext>|<tag>`: a decimal
//! scheme number, then three base64 segments. Text from before scheme numbers
//! were introduced holds the three segments alone and is read as scheme 2.
//! This module states that grammar over bytes and holds the scanning
//! functions that read it.

use crate::error::Error;
use crate::error::Segment;
use crate::primitives::spec_base64_decode;
use vstd::prelude::*;

verus! {

/// The byte `.`, which ends the scheme number.
pub const DOT: u8 = 0x2e;

/// The byte `|`, which separates the base64 segments.
pub const BAR: u8 = 0x7c;

/// Whether `i` is where the first `sep` of `s` stands, or the length of `s`
/// if it holds none.
pub open spec fn is_cut(s: Seq<u8>, sep: u8, i: int) -> bool {
    &&& 0 <= i <= s.len()
    &&& forall|j: int| 0 <= j < i ==> s[j] != sep
    &&& i < s.len() ==> s[i] == sep
}

/// Where the first `sep` of `s` stands, or the length of `s` if it holds
/// none.
pub open spec fn cut(s: Seq<u8>, sep: u8) -> int {
    choose|i: int| is_cut(s, sep, i)
}

/// The part of `s` before its first `sep`; all of `s` if it holds none.
pub open spec fn before(s: Seq<u8>, sep: u8) -> Seq<u8> {
    s.take(cut(s, sep))
}

/// The part of `s` behind its first `sep`, or `None` if it holds none.
pub open spec fn after(s: Seq<u8>, sep: u8) -> Option<Seq<u8>> {
    if cut(s, sep) < s.len() {
        Some(s.skip(cut(s, sep) + 1))
    } else {
        None
    }
}

/// There is exactly one cut, so any index that meets `is_cut` is it.
pub proof fn lemma_cut_unique(s: Seq<u8>, sep: u8, i: int)
    requires
        is_cut(s, sep, i),
    ensures
        cut(s, sep) == i,
{
    let c = cut(s, sep);
    assert(is_cut(s, sep, c));
    if c < i {
        assert(s[c] != sep);
    }
    if i < c {
        assert(s[i] != sep);
    }
}

/// Where `head` holds no `sep`, the first `sep` of `head`, `sep` and `rest`
/// put together is the one in the middle.
pub proof fn lemma_split_at_separator(head: Seq<u8>, sep: u8, rest: Seq<u8>)
    requires
        forall|i: int| 0 <= i < head.len() ==> head[i] != sep,
    ensures
        before(head + seq![sep] + rest, sep) == head,
        after(head + seq![sep] + rest, sep) == Some(rest),
{
    let whole = head + seq![sep] + rest;
    assert(is_cut(whole, sep, head.len() as int)) by {
        assert forall|j: int| 0 <= j < head.len() implies whole[j] != sep by {
            assert(whole[j] == head[j]);
        }
        assert(whole[head.len() as int] == sep);
    }
    lemma_cut_unique(whole, sep, head.len() as int);
    assert(whole.take(head.len() as int) =~= head);
    assert(whole.skip(head.len() as int + 1) =~= rest);
}

/// A string that holds no `sep` is not split.
pub proof fn lemma_no_separator(s: Seq<u8>, sep: u8)
    requires
        forall|i: int| 0 <= i < s.len() ==> s[i] != sep,
    ensures
        before(s, sep) == s,
        after(s, sep) is None,
{
    assert(is_cut(s, sep, s.len() as int));
    lemma_cut_unique(s, sep, s.len() as int);
    assert(s.take(s.len() as int) =~= s);
}

/// Whether `b` is an ASCII decimal digit.
pub open spec fn is_digit(b: u8) -> bool {
    0x30 <= b <= 0x39
}

/// Whether `s` holds decimal digits only.
pub open spec fn all_digits(s: Seq<u8>) -> bool {
    forall|i: int| 0 <= i < s.len() ==> is_digit(#[trigger] s[i])
}

/// The number that a string of decimal digits denotes.
pub open spec fn digits_value(s: Seq<u8>) -> nat
    decreases s.len(),
{
    if s.len() == 0 {
        0
    } else {
        digits_value(s.drop_last()) * 10 + (s.last() - 0x30) as nat
    }
}

/// The 32-bit signed integer that `s` denotes in decimal: an optional sign,
/// then at least one digit, and a value in range. `None` otherwise.
pub open spec fn spec_parse_i32(s: Seq<u8>) -> Option<int> {
    let signed = s.len() > 0 && (s[0] == 0x2d || s[0] == 0x2b);
    let digits = if signed {
        s.skip(1)
    } else {
        s
    };
    let magnitude = digits_value(digits) as int;
    let value = if s.len() > 0 && s[0] == 0x2d {
        -magnitude
    } else {
        magnitude
    };
    if digits.len() == 0 || !all_digits(digits) {
        None
    } else if -0x8000_0000 <= value <= 0x7fff_ffff {
        Some(value)
    } else {
        None
    }
}

/// The fields of a cipher string as its text gives them.
pub struct Fields {
    pub enc_type: int,
    pub iv: Seq<u8>,
    pub data: Seq<u8>,
    pub mac: Seq<u8>,
}

/// The scheme number that the text of a cipher string gives. Text that
/// holds no `.` carries no scheme number and is of scheme 2. In any other
/// text the scheme number stands before the first `.`; where what stands
/// there is not a number, scheme 2 is taken.
pub open spec fn spec_scheme(text: Seq<u8>) -> int {
    match after(text, DOT) {
        None => 2,
        Some(_) => match spec_parse_i32(before(text, DOT)) {
            Some(n) => n,
            None => 2,
        },
    }
}

/// The part of the text of a cipher string that holds its segments: all of
/// a text that holds no `.`, else what stands between the first `.` and the
/// second.
pub open spec fn spec_composite(text: Seq<u8>) -> Seq<u8> {
    match after(text, DOT) {
        None => text,
        Some(rest) => before(rest, DOT),
    }
}

/// What the text of a cipher string parses to.
///
/// The segments are separated by `|`; what follows a third segment is
/// ignored. They are taken in order, so a malformed earlier segment is
/// reported before a missing later one.
pub open spec fn spec_parse(text: Seq<u8>) -> Result<Fields, Error> {
    let enc_type = spec_scheme(text);
    let composite = spec_composite(text);
    match spec_base64_decode(before(composite, BAR)) {
        None => Err(Error::Encoding(Segment::Iv)),
        Some(iv) => match after(composite, BAR) {
            None => Err(Error::Format(Segment::Data)),
            Some(rest) => match spec_base64_decode(before(rest, BAR)) {
                None => Err(Error::Encoding(Segment::Data)),
                Some(data) => match after(rest, BAR) {
                    None => Err(Error::Format(Segment::Mac)),
                    Some(rest) => match spec_base64_decode(before(rest, BAR)) {
                        None => Err(Error::Encoding(Segment::Mac)),
                        Some(mac) => Ok(Fields { enc_type, iv, data, mac }),
                    },
                },
            },
        },
    }
}

/// Finds the first `sep` in `s`, or the end of `s`.
pub fn find(s: &[u8], sep: u8) -> (i: usize)
    ensures
        i == cut(s@, sep),
        is_cut(s@, sep, i as int),
{
    let mut i: usize = 0;
    while i < s.len()
        invariant
            i <= s.len(),
            forall|j: int| 0 <= j < i ==> s@[j] != sep,
        decreases s.len() - i,
    {
        if s[i] == sep {
            proof {
                lemma_cut_unique(s@, sep, i as int);
            }
            return i;
        }
        i = i + 1;
    }
    proof {
        lemma_cut_unique(s@, sep, i as int);
    }
    i
}

/// Splits `s` at its first `sep`: what stands before it, and what stands
/// behind it if there is one.
pub fn split_once(s: &[u8], sep: u8) -> (parts: (&[u8], Option<&[u8]>))
    ensures
        parts.0@ == before(s@, sep),
        match parts.1 {
            Some(rest) => after(s@, sep) == Some(rest@),
            None => after(s@, sep) is None,
        },
{
    let i = find(s, sep);
    let head = vstd::slice::slice_subrange(s, 0, i);
    if i < s.len() {
        let rest = vstd::slice::slice_subrange(s, i + 1, s.len());
        (head, Some(rest))
    } else {
        (head, None)
    }
}

/// Reads a non-empty string of decimal digits whose value is at most
/// `limit`.
fn parse_digits(s: &[u8], limit: u64) -> (r: Option<u64>)
    requires
        limit <= 0xffff_ffff,
    ensures
        match r {
            Some(n) => s@.len() > 0 && all_digits(s@) && n == digits_value(s@) && n <= limit,
            None => s@.len() == 0 || !all_digits(s@) || digits_value(s@) > limit,
        },
{
    let len = s.len();
    if len == 0 {
        return None;
    }
    let mut acc: u64 = 0;
    let mut overflow = false;
    let mut i: usize = 0;
    assert(s@.take(0) =~= Seq::<u8>::empty());
    while i < len
        invariant
            i <= len,
            len == s@.len(),
            limit <= 0xffff_ffff,
            all_digits(s@.take(i as int)),
            !overflow ==> acc == digits_value(s@.take(i as int)) && acc <= limit,
            overflow ==> digits_value(s@.take(i as int)) > limit,
        decreases len - i,
    {
        let b = s[i];
        if b < 0x30 || b > 0x39 {
            assert(!is_digit(s@[i as int]));
            return None;
        }
        let ghost prefix = s@.take(i as int);
        let ghost next = s@.take(i + 1);
        assert(next.drop_last() =~= prefix);
        assert(next.last() == b);
        assert(all_digits(next)) by {
            assert forall|j: int| 0 <= j < next.len() implies is_digit(#[trigger] next[j]) by {
                if j < prefix.len() {
                    assert(next[j] == prefix[j]);
                }
            }
        }
        if !overflow {
            let d: u64 = (b - 0x30) as u64;
            acc = acc * 10 + d;
            if acc > limit {
                overflow = true;
            }
        }
        i = i + 1;
    }
    assert(s@.take(len as int) =~= s@);
    if overflow {
        None
    } else {
        Some(acc)
    }
}

/// Reads a decimal 32-bit signed integer: an optional sign, then digits.
pub fn parse_i32(s: &[u8]) -> (r: Option<i32>)
    ensures
        match r {
            Some(n) => spec_parse_i32(s@) == Some(n as int),
            None => spec_parse_i32(s@) is None,
        },
{
    let len = s.len();
    let negative = len > 0 && s[0] == 0x2d;
    let signed = len > 0 && (s[0] == 0x2d || s[0] == 0x2b);
    assert(s@.skip(0) =~= s@);
    let digits = if signed {
        vstd::slice::slice_subrange(s, 1, len)
    } else {
        s
    };
    if negative {
        match parse_digits(digits, 0x8000_0000) {
            Some(n) => {
                let value: i64 = -(n as i64);
                Some(value as i32)
            },
            None => None,
        }
    } else {
        match parse_digits(digits, 0x7fff_ffff) {
            Some(n) => Some(n as i32),
            None => None,
        }
    }
}

/// The 32-bit unsigned integer that `s` denotes in decimal: an optional `+`,
/// then at least one digit, and a value in range. `None` otherwise.
pub open spec fn spec_parse_u32(s: Seq<u8>) -> Option<int> {
    let digits = if s.len() > 0 && s[0] == 0x2b {
        s.skip(1)
    } else {
        s
    };
    if digits.len() == 0 || !all_digits(digits) || digits_value(digits) > 0xffff_ffff {
        None
    } else {
        Some(digits_value(digits) as int)
    }
}

/// Reads a decimal 32-bit unsigned integer: an optional `+`, then digits.
pub fn parse_u32(s: &[u8]) -> (r: Option<u32>)
    ensures
        match r {
            Some(n) => spec_parse_u32(s@) == Some(n as int),
            None => spec_parse_u32(s@) is None,
        },
{
    let len = s.len();
    assert(s@.skip(0) =~= s@);
    let digits = if len > 0 && s[0] == 0x2b {
        vstd::slice::slice_subrange(s, 1, len)
    } else {
        s
    };
    match parse_digits(digits, 0xffff_ffff) {
        Some(n) => Some(n as u32),
        None => None,
    }
}

} // verus!
