//! Byte-level helpers: the ASCII bytes that identifiers are built from, searching a range of
//! bytes, reading decimal numbers and comparing texts.

use vstd::prelude::*;
use vstd::string::StringSliceAdditionalSpecFns;
use vstd::utf8::{encode_utf8, encode_utf8_decode_utf8};

verus! {

// ASCII codes of the characters that the grammar names.
pub const DIGIT_ZERO: u8 = 0x30;
pub const DIGIT_NINE: u8 = 0x39;
pub const UPPER_A: u8 = 0x41;
pub const UPPER_F: u8 = 0x46;
pub const UPPER_Z: u8 = 0x5a;
pub const LOWER_A: u8 = 0x61;
pub const LOWER_F: u8 = 0x66;
pub const LOWER_Z: u8 = 0x7a;
pub const HYPHEN: u8 = 0x2d;
pub const DOT: u8 = 0x2e;
pub const COLON: u8 = 0x3a;
pub const OPEN_BRACKET: u8 = 0x5b;
pub const CLOSE_BRACKET: u8 = 0x5d;

/// Index of the first `c` in `b`, or `b.len()` when `b` holds none.
pub open spec fn index_of(b: Seq<u8>, c: u8) -> int
    decreases b.len(),
{
    if b.len() == 0 {
        0
    } else if b[0] == c {
        0
    } else {
        1 + index_of(b.drop_first(), c)
    }
}

/// `index_of` lies within `b`, no `c` comes before it, and `c` stands at it unless it is the
/// end.
pub proof fn lemma_index_of(b: Seq<u8>, c: u8)
    ensures
        0 <= index_of(b, c) <= b.len(),
        forall|k: int| 0 <= k < index_of(b, c) ==> b[k] != c,
        index_of(b, c) < b.len() ==> b[index_of(b, c)] == c,
    decreases b.len(),
{
    if b.len() > 0 && b[0] != c {
        lemma_index_of(b.drop_first(), c);
        assert forall|k: int| 0 <= k < index_of(b, c) implies b[k] != c by {
            if k > 0 {
                assert(b[k] == b.drop_first()[k - 1]);
            }
        }
    }
}

/// `index_of` is the one position before which no `c` occurs and at which `c` (or the end) is.
pub proof fn lemma_index_of_unique(b: Seq<u8>, c: u8, i: int)
    requires
        0 <= i <= b.len(),
        forall|k: int| 0 <= k < i ==> b[k] != c,
        i < b.len() ==> b[i] == c,
    ensures
        index_of(b, c) == i,
{
    lemma_index_of(b, c);
}

pub open spec fn is_digit(c: u8) -> bool {
    DIGIT_ZERO <= c <= DIGIT_NINE
}

/// The value of a string of decimal digits.
pub open spec fn decimal_value(s: Seq<u8>) -> nat
    decreases s.len(),
{
    if s.len() == 0 {
        0
    } else {
        decimal_value(s.drop_last()) * 10 + (s.last() - DIGIT_ZERO) as nat
    }
}

/// The position of the first `c` in `b[from..to]`, or `to` when there is none.
pub fn find_byte(b: &[u8], c: u8, from: usize, to: usize) -> (r: usize)
    requires
        from <= to <= b@.len(),
    ensures
        from <= r <= to,
        r == from + index_of(b@.subrange(from as int, to as int), c),
        forall|k: int| from <= k < r ==> b@[k] != c,
        r < to ==> b@[r as int] == c,
{
    let mut i: usize = from;
    while i < to && b[i] != c
        invariant
            from <= i <= to <= b@.len(),
            forall|k: int| from <= k < i ==> b@[k] != c,
        decreases to - i,
    {
        i = i + 1;
    }
    proof {
        let s = b@.subrange(from as int, to as int);
        lemma_index_of_unique(s, c, i - from);
    }
    i
}

/// The value of the decimal digits `b[from..to]`, of which there are at most five.
pub fn decimal(b: &[u8], from: usize, to: usize) -> (r: u32)
    requires
        from <= to <= b@.len(),
        to - from <= 5,
        forall|k: int| from <= k < to ==> is_digit(b@[k]),
    ensures
        r == decimal_value(b@.subrange(from as int, to as int)),
        r <= 99999,
{
    let mut v: u32 = 0;
    let mut i: usize = from;
    while i < to
        invariant
            from <= i <= to <= b@.len(),
            to - from <= 5,
            forall|k: int| from <= k < to ==> is_digit(b@[k]),
            v == decimal_value(b@.subrange(from as int, i as int)),
            v <= 99999,
            i - from <= 4 ==> v <= 9999,
            i - from <= 3 ==> v <= 999,
            i - from <= 2 ==> v <= 99,
            i - from <= 1 ==> v <= 9,
            i - from == 0 ==> v == 0,
        decreases to - i,
    {
        proof {
            let s = b@.subrange(from as int, i as int + 1);
            assert(s.drop_last() =~= b@.subrange(from as int, i as int));
        }
        v = v * 10 + (b[i] - DIGIT_ZERO) as u32;
        i = i + 1;
    }
    v
}

/// Whether two strings hold the same text.
pub fn same_text(a: &str, b: &str) -> (r: bool)
    ensures
        r == (a@ == b@),
{
    let x = a.as_bytes();
    let y = b.as_bytes();
    proof {
        encode_utf8_decode_utf8(a@);
        encode_utf8_decode_utf8(b@);
    }
    if x.len() != y.len() {
        return false;
    }
    let mut i: usize = 0;
    while i < x.len()
        invariant
            x@ == encode_utf8(a@),
            y@ == encode_utf8(b@),
            x@.len() == y@.len(),
            i <= x@.len(),
            forall|k: int| 0 <= k < i ==> x@[k] == y@[k],
        decreases x.len() - i,
    {
        if x[i] != y[i] {
            return false;
        }
        i = i + 1;
    }
    proof {
        assert(x@ =~= y@);
    }
    true
}

} // verus!
