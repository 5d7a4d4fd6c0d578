//! A look at the header block of a buffer before it goes to the record
//! reader.
//!
//! The reader takes the body length from the first Content-Length line of
//! the header block, adds four to it and reads that many bytes. A declared
//! length within three of the largest `usize` makes that sum overflow, so a
//! buffer that declares one is not handed over: no buffer can hold a body of
//! that length, and the reader could only fail on it.

use crate::scan::{
    find, find_from, lemma_find_from, lemma_find_from_bounds, lemma_find_from_hit,
};
use vstd::prelude::*;
use vstd::slice::slice_subrange;

verus! {

/// Whether `b` is an ASCII digit.
pub open spec fn is_digit_byte(b: u8) -> bool {
    0x30 <= b <= 0x39
}

/// Whether `s` holds ASCII digits only.
pub open spec fn all_digit_bytes(s: Seq<u8>) -> bool {
    forall|i: int| 0 <= i < s.len() ==> is_digit_byte(#[trigger] s[i])
}

/// The number that the digit bytes `s` write in base ten; 0 for none.
pub open spec fn number_value(s: Seq<u8>) -> int
    decreases s.len(),
{
    if s.len() == 0 {
        0
    } else {
        10 * number_value(s.drop_last()) + (s.last() as int - 0x30)
    }
}

/// Whether `b` is a space or a tab.
pub open spec fn is_blank(b: u8) -> bool {
    b == 0x20 || b == 0x09
}

/// `s` without its leading spaces and tabs.
pub open spec fn skip_blanks(s: Seq<u8>) -> Seq<u8>
    decreases s.len(),
{
    if s.len() > 0 && is_blank(s.first()) {
        skip_blanks(s.drop_first())
    } else {
        s
    }
}

/// What is left of a header value once its leading blanks and one plus sign
/// are taken away.
pub open spec fn unsigned_digits(value: Seq<u8>) -> Seq<u8> {
    let v = skip_blanks(value);
    if v.len() > 0 && v[0] == 0x2b {
        v.skip(1)
    } else {
        v
    }
}

/// Whether a header value is a number within three of the largest `usize`,
/// or above it: blanks, then an optional plus sign, then one or more digits
/// and nothing else.
pub open spec fn is_overlong_number(value: Seq<u8>) -> bool {
    let d = unsigned_digits(value);
    d.len() > 0 && all_digit_bytes(d) && number_value(d) + 3 >= usize::MAX
}

/// The lower-case form of an ASCII letter; any other byte as it is.
pub open spec fn ascii_lower(b: u8) -> u8 {
    if 0x41 <= b <= 0x5a {
        (b + 0x20) as u8
    } else {
        b
    }
}

/// The bytes of `content-length`.
pub open spec fn length_name() -> Seq<u8> {
    seq![
        0x63u8, 0x6fu8, 0x6eu8, 0x74u8, 0x65u8, 0x6eu8, 0x74u8, 0x2du8, 0x6cu8, 0x65u8, 0x6eu8,
        0x67u8, 0x74u8, 0x68u8,
    ]
}

/// Whether `name` is `content-length` in any mix of upper and lower case,
/// with nothing before it and nothing but blanks behind it.
pub open spec fn names_length(name: Seq<u8>) -> bool {
    &&& name.len() >= 14
    &&& forall|k: int| 0 <= k < 14 ==> ascii_lower(#[trigger] name[k]) == length_name()[k]
    &&& forall|k: int| 14 <= k < name.len() ==> is_blank(#[trigger] name[k])
}

/// Whether a header line, taken without its line end, is a Content-Length
/// line: it has a colon, and what stands before the first one names the
/// length.
pub open spec fn is_length_line(line: Seq<u8>) -> bool {
    find(line, 0x3au8) < line.len() && names_length(line.take(find(line, 0x3au8)))
}

/// What stands behind the first colon of a line.
pub open spec fn line_value(line: Seq<u8>) -> Seq<u8> {
    line.skip(find(line, 0x3au8) + 1)
}

/// `line` without one trailing carriage return, if it has one.
pub open spec fn without_cr(line: Seq<u8>) -> Seq<u8> {
    if line.len() > 0 && line.last() == 0x0d {
        line.drop_last()
    } else {
        line
    }
}

/// Whether the lines of `data` from the line start `start` on declare an
/// overlong body. Lines end at a line feed. The first Content-Length line
/// decides, by its value; a line that holds CR LF only ends the header block,
/// and so does the end of the buffer.
pub open spec fn overlong_from(data: Seq<u8>, start: int) -> bool
    decreases data.len() - start,
    via overlong_from_decreases
{
    let end = find_from(data, 0x0au8, start);
    if start < 0 || end >= data.len() {
        false
    } else if end == start + 1 && data[start] == 0x0d {
        false
    } else {
        let line = without_cr(data.subrange(start, end));
        if is_length_line(line) {
            is_overlong_number(line_value(line))
        } else {
            overlong_from(data, end + 1)
        }
    }
}

#[via_fn]
proof fn overlong_from_decreases(data: Seq<u8>, start: int) {
    if 0 <= start <= data.len() {
        lemma_find_from_bounds(data, 0x0au8, start);
    }
}

/// Whether the header block of `data` declares a body too long to read: its
/// first Content-Length line gives a number within three of the largest
/// `usize`, or above it. No other header line counts, whatever it holds.
pub open spec fn declares_overlong_body(data: Seq<u8>) -> bool {
    overlong_from(data, 0)
}

/// Whether the line of `data` that starts at `start` and ends with the line
/// feed at `end` is a Content-Length line with an overlong number.
pub open spec fn overlong_line_at(data: Seq<u8>, start: int, end: int) -> bool {
    &&& 0 <= start <= end < data.len()
    &&& data[end] == 0x0a
    &&& is_length_line(without_cr(data.subrange(start, end)))
    &&& is_overlong_number(line_value(without_cr(data.subrange(start, end))))
}

/// Only a Content-Length line makes a buffer declare an overlong body: where
/// one is declared, some line of the buffer names the length and holds an
/// overlong number.
pub proof fn lemma_overlong_needs_a_length_line(data: Seq<u8>, start: int)
    requires
        0 <= start <= data.len(),
        overlong_from(data, start),
    ensures
        exists|a: int, b: int| start <= a && #[trigger] overlong_line_at(data, a, b),
    decreases data.len() - start,
{
    let end = find_from(data, 0x0au8, start);
    lemma_find_from_bounds(data, 0x0au8, start);
    lemma_find_from_hit(data, 0x0au8, start);
    let line = without_cr(data.subrange(start, end));
    if is_length_line(line) {
        assert(overlong_line_at(data, start, end));
    } else {
        lemma_overlong_needs_a_length_line(data, end + 1);
    }
}

/// Cutting off a prefix of blanks that ends before another byte, or at the
/// end, is `skip_blanks`.
pub proof fn lemma_skip_blanks(s: Seq<u8>, i: int)
    requires
        0 <= i <= s.len(),
        forall|j: int| 0 <= j < i ==> is_blank(s[j]),
        i == s.len() || !is_blank(s[i]),
    ensures
        skip_blanks(s) == s.skip(i),
    decreases i,
{
    if i == 0 {
        assert(s.skip(0) =~= s);
    } else {
        let t = s.drop_first();
        assert forall|j: int| 0 <= j < i - 1 implies is_blank(t[j]) by {
            assert(t[j] == s[j + 1]);
        }
        lemma_skip_blanks(t, i - 1);
        assert(t.skip(i - 1) =~= s.skip(i));
    }
}

/// The index of the first `b` in `s` at or after `start`, or the length of
/// `s`.
fn find_byte(s: &[u8], b: u8, start: usize) -> (i: usize)
    requires
        start <= s@.len(),
    ensures
        i == find_from(s@, b, start as int),
        start <= i <= s@.len(),
{
    let n = s.len();
    let mut i: usize = start;
    while i < n && s[i] != b
        invariant
            start <= i <= n,
            n == s@.len(),
            forall|j: int| start <= j < i ==> s@[j] != b,
        decreases n - i,
    {
        i += 1;
    }
    proof {
        lemma_find_from(s@, b, start as int, i as int);
    }
    i
}

/// Whether `name` names the length, as `names_length` defines it.
pub fn is_length_name(name: &[u8]) -> (r: bool)
    ensures
        r == names_length(name@),
{
    let expected: [u8; 14] = [
        0x63, 0x6f, 0x6e, 0x74, 0x65, 0x6e, 0x74, 0x2d, 0x6c, 0x65, 0x6e, 0x67, 0x74, 0x68,
    ];
    proof {
        assert(expected@ =~= length_name());
    }
    let n = name.len();
    if n < 14 {
        return false;
    }
    let mut k: usize = 0;
    while k < 14
        invariant
            k <= 14 <= n,
            n == name@.len(),
            expected@ == length_name(),
            forall|j: int| 0 <= j < k ==> ascii_lower(#[trigger] name@[j]) == length_name()[j],
        decreases 14 - k,
    {
        let b = name[k];
        let lower = if 0x41 <= b && b <= 0x5a {
            b + 0x20
        } else {
            b
        };
        if lower != expected[k] {
            return false;
        }
        k += 1;
    }
    while k < n
        invariant
            14 <= k <= n,
            n == name@.len(),
            forall|j: int| 0 <= j < 14 ==> ascii_lower(#[trigger] name@[j]) == length_name()[j],
            forall|j: int| 14 <= j < k ==> is_blank(#[trigger] name@[j]),
        decreases n - k,
    {
        if name[k] != 0x20 && name[k] != 0x09 {
            return false;
        }
        k += 1;
    }
    true
}

/// Whether `value` is an overlong number, as `is_overlong_number` defines
/// it.
pub fn is_overlong_value(value: &[u8]) -> (r: bool)
    ensures
        r == is_overlong_number(value@),
{
    let n = value.len();
    let mut i: usize = 0;
    while i < n && (value[i] == 0x20 || value[i] == 0x09)
        invariant
            i <= n,
            n == value@.len(),
            forall|j: int| 0 <= j < i ==> is_blank(value@[j]),
        decreases n - i,
    {
        i += 1;
    }
    proof {
        lemma_skip_blanks(value@, i as int);
    }
    if i < n && value[i] == 0x2b {
        proof {
            assert(value@.skip(i as int).skip(1) =~= value@.skip(i + 1));
        }
        i += 1;
    }
    let first = i;
    let ghost d = unsigned_digits(value@);
    if first >= n {
        return false;
    }
    let mut acc: usize = 0;
    let mut big = false;
    proof {
        assert(d.take(0) =~= Seq::<u8>::empty());
    }
    while i < n
        invariant
            first <= i <= n,
            n == value@.len(),
            d == unsigned_digits(value@),
            d == value@.skip(first as int),
            all_digit_bytes(d.take(i - first)),
            number_value(d.take(i - first)) >= 0,
            big <==> number_value(d.take(i - first)) + 3 >= usize::MAX,
            !big ==> acc == number_value(d.take(i - first)),
        decreases n - i,
    {
        let c = value[i];
        if c < 0x30 || c > 0x39 {
            proof {
                assert(d[i - first] == c);
                assert(!is_digit_byte(d[i - first]));
            }
            return false;
        }
        proof {
            let t = d.take(i + 1 - first);
            assert(t.drop_last() =~= d.take(i - first));
            assert(t.last() == c);
            assert forall|j: int| 0 <= j < t.len() implies is_digit_byte(#[trigger] t[j]) by {
                if j < t.len() - 1 {
                    assert(t[j] == d.take(i - first)[j]);
                }
            }
        }
        if !big {
            let wide: u128 = (acc as u128) * 10 + (c - 0x30) as u128;
            if wide + 3 >= usize::MAX as u128 {
                big = true;
            } else {
                acc = wide as usize;
            }
        }
        i += 1;
    }
    proof {
        assert(d.take(i - first) =~= d);
    }
    big
}

/// Whether the header block of `data` declares a body too long to read, as
/// `declares_overlong_body` defines it.
pub fn has_overlong_length(data: &[u8]) -> (r: bool)
    ensures
        r == declares_overlong_body(data@),
{
    let n = data.len();
    let mut start: usize = 0;
    while start < n
        invariant
            start <= n,
            n == data@.len(),
            declares_overlong_body(data@) == overlong_from(data@, start as int),
        decreases n - start,
    {
        let end = find_byte(data, 0x0a, start);
        if end >= n {
            return false;
        }
        if end == start + 1 && data[start] == 0x0d {
            return false;
        }
        let stop = if end > start && data[end - 1] == 0x0d {
            end - 1
        } else {
            end
        };
        let line = slice_subrange(data, start, stop);
        proof {
            let whole = data@.subrange(start as int, end as int);
            if stop < end {
                assert(whole.drop_last() =~= data@.subrange(start as int, stop as int));
            }
            assert(line@ == without_cr(whole));
        }
        let colon = find_byte(line, 0x3a, 0);
        if colon < line.len() && is_length_name(slice_subrange(line, 0, colon)) {
            return is_overlong_value(slice_subrange(line, colon + 1, line.len()));
        }
        start = end + 1;
    }
    false
}

} // verus!
