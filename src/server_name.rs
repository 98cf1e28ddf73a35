//! Validation of server names: a DNS hostname, an IPv4 address or a bracketed IPv6 address,
//! each with an optional `:port`.

use vstd::prelude::*;
use vstd::string::StringSliceAdditionalSpecFns;
use vstd::utf8::encode_utf8;

use crate::bytes::{
    decimal, decimal_value, find_byte, index_of, is_digit, lemma_index_of, CLOSE_BRACKET, COLON,
    DIGIT_NINE, DIGIT_ZERO, DOT, HYPHEN, LOWER_A, LOWER_F, LOWER_Z, OPEN_BRACKET, UPPER_A, UPPER_F,
    UPPER_Z,
};
use crate::error::Error;

verus! {

/// The classes of bytes that the parts of a server name are made of.
#[derive(Clone, Copy, PartialEq, Eq, Structural)]
pub enum ByteClass {
    Digit,
    Hex,
    Label,
}

pub open spec fn in_class(class: ByteClass, c: u8) -> bool {
    match class {
        ByteClass::Digit => is_digit(c),
        ByteClass::Hex => is_digit(c) || (LOWER_A <= c <= LOWER_F) || (UPPER_A <= c <= UPPER_F),
        ByteClass::Label => is_digit(c) || (LOWER_A <= c <= LOWER_Z) || (UPPER_A <= c <= UPPER_Z) || c
            == HYPHEN,
    }
}

pub open spec fn all_in_class(s: Seq<u8>, class: ByteClass) -> bool {
    forall|k: int| 0 <= k < s.len() ==> #[trigger] in_class(class, s[k])
}

/// A decimal number of one to `max_len` digits, with no leading zero unless it is `0`.
pub open spec fn valid_decimal(s: Seq<u8>, max_len: nat) -> bool {
    &&& 1 <= s.len() <= max_len
    &&& all_in_class(s, ByteClass::Digit)
    &&& s[0] == DIGIT_ZERO ==> s.len() == 1
}

/// The kinds of field that a separator splits a host into.
#[derive(Clone, Copy, PartialEq, Eq, Structural)]
pub enum FieldKind {
    /// A DNS label, between dots.
    Label,
    /// A decimal octet of an IPv4 address.
    Octet,
    /// A group of hex digits of an IPv6 address.
    HexGroup,
}

pub open spec fn valid_field(kind: FieldKind, f: Seq<u8>) -> bool {
    match kind {
        FieldKind::Label => {
            &&& 1 <= f.len() <= 63
            &&& all_in_class(f, ByteClass::Label)
            &&& f[0] != HYPHEN
            &&& f.last() != HYPHEN
        },
        FieldKind::Octet => valid_decimal(f, 3) && decimal_value(f) <= 255,
        FieldKind::HexGroup => 1 <= f.len() <= 4 && all_in_class(f, ByteClass::Hex),
    }
}

/// The number of fields that `sep` splits `s` into, if every one of them is a valid field of
/// `kind`; `None` otherwise.
pub open spec fn field_count(s: Seq<u8>, sep: u8, kind: FieldKind) -> Option<nat>
    decreases s.len(),
    via field_count_decreases
{
    let d = index_of(s, sep);
    if !valid_field(kind, s.subrange(0, d)) {
        None
    } else if d >= s.len() {
        Some(1)
    } else {
        match field_count(s.subrange(d + 1, s.len() as int), sep, kind) {
            Some(n) => Some(n + 1),
            None => None,
        }
    }
}

#[via_fn]
pub proof fn field_count_decreases(s: Seq<u8>, sep: u8, kind: FieldKind) {
    lemma_index_of(s, sep);
}

/// Four decimal octets, each at most 255, separated by dots.
pub open spec fn valid_ipv4(h: Seq<u8>) -> bool {
    field_count(h, DOT, FieldKind::Octet) == Some(4nat)
}

/// Dot-separated DNS labels, at most 253 bytes in all.
pub open spec fn valid_hostname(h: Seq<u8>) -> bool {
    h.len() <= 253 && field_count(h, DOT, FieldKind::Label) is Some
}

pub open spec fn valid_host(h: Seq<u8>) -> bool {
    valid_ipv4(h) || valid_hostname(h)
}

/// Index of the first `::` in `s`, or `s.len()` when there is none.
pub open spec fn index_of_double_colon(s: Seq<u8>) -> int
    decreases s.len(),
{
    if s.len() < 2 {
        s.len() as int
    } else if s[0] == COLON && s[1] == COLON {
        0
    } else {
        1 + index_of_double_colon(s.drop_first())
    }
}

pub proof fn lemma_index_of_double_colon(s: Seq<u8>)
    ensures
        0 <= index_of_double_colon(s) <= s.len(),
        index_of_double_colon(s) < s.len() ==> index_of_double_colon(s) + 1 < s.len() && s[index_of_double_colon(s)] == COLON
            && s[index_of_double_colon(s) + 1] == COLON,
        forall|k: int|
            0 <= k < index_of_double_colon(s) && k + 1 < s.len() ==> !(#[trigger] s[k] == COLON && s[k + 1]
                == COLON),
    decreases s.len(),
{
    if s.len() >= 2 && !(s[0] == COLON && s[1] == COLON) {
        let t = s.drop_first();
        lemma_index_of_double_colon(t);
        assert forall|k: int|
            0 <= k < index_of_double_colon(s) && k + 1 < s.len() implies !(#[trigger] s[k] == COLON
                && s[k + 1] == COLON) by {
            if k > 0 {
                assert(s[k] == t[k - 1] && s[k + 1] == t[k]);
            }
        }
    }
}

/// The number of colon-separated hex groups in `s`; an empty `s` has none.
pub open spec fn group_count(s: Seq<u8>) -> Option<nat> {
    if s.len() == 0 {
        Some(0)
    } else {
        field_count(s, COLON, FieldKind::HexGroup)
    }
}

/// Eight colon-separated hex groups, or fewer with one `::` standing for those left out.
pub open spec fn valid_ipv6(a: Seq<u8>) -> bool {
    let p = index_of_double_colon(a);
    if p >= a.len() {
        field_count(a, COLON, FieldKind::HexGroup) == Some(8nat)
    } else {
        match (group_count(a.subrange(0, p)), group_count(a.subrange(p + 2, a.len() as int))) {
            (Some(m), Some(k)) => m + k <= 7,
            _ => false,
        }
    }
}

/// A port: a decimal number up to 65535, with no leading zero unless it is `0`.
pub open spec fn valid_port(p: Seq<u8>) -> bool {
    valid_decimal(p, 5) && decimal_value(p) <= 65535
}

/// What may follow a host: nothing, or a colon and a port.
pub open spec fn valid_port_suffix(r: Seq<u8>) -> bool {
    r.len() == 0 || (r[0] == COLON && valid_port(r.drop_first()))
}

/// Whether `s` is a valid server name: a bracketed IPv6 address, or a host that is an IPv4
/// address or a DNS hostname; either with an optional `:port`.
pub open spec fn valid_server_name(s: Seq<u8>) -> bool {
    if s.len() > 0 && s[0] == OPEN_BRACKET {
        let j = index_of(s, CLOSE_BRACKET);
        &&& j < s.len()
        &&& valid_ipv6(s.subrange(1, j))
        &&& valid_port_suffix(s.subrange(j + 1, s.len() as int))
    } else {
        let c = index_of(s, COLON);
        valid_host(s.subrange(0, c)) && valid_port_suffix(s.subrange(c, s.len() as int))
    }
}

/// Index of the last `c` in `b`, or -1 when `b` holds none.
pub open spec fn last_index_of(b: Seq<u8>, c: u8) -> int
    decreases b.len(),
{
    if b.len() == 0 {
        -1
    } else if b.last() == c {
        b.len() - 1
    } else {
        last_index_of(b.drop_last(), c)
    }
}

proof fn lemma_last_index_of(b: Seq<u8>, c: u8)
    ensures
        -1 <= last_index_of(b, c) < b.len(),
        last_index_of(b, c) >= 0 ==> b[last_index_of(b, c)] == c,
        forall|k: int| last_index_of(b, c) < k < b.len() ==> b[k] != c,
    decreases b.len(),
{
    if b.len() > 0 && b.last() != c {
        lemma_last_index_of(b.drop_last(), c);
        assert forall|k: int| last_index_of(b, c) < k < b.len() implies b[k] != c by {
            if k < b.len() - 1 {
                assert(b[k] == b.drop_last()[k]);
            }
        }
    }
}

/// An unbracketed server name read the other way round: the port is split off at the last
/// colon when only digits follow it, and what stands before is the host.
pub open spec fn valid_split_at_last_colon(s: Seq<u8>) -> bool {
    let c = last_index_of(s, COLON);
    if c >= 0 && all_in_class(s.subrange(c + 1, s.len() as int), ByteClass::Digit) {
        valid_host(s.subrange(0, c)) && valid_port(s.subrange(c + 1, s.len() as int))
    } else {
        valid_host(s)
    }
}

proof fn lemma_fields_hold_no_colon(s: Seq<u8>, kind: FieldKind)
    requires
        kind != FieldKind::HexGroup,
        field_count(s, DOT, kind) is Some,
    ensures
        forall|k: int| 0 <= k < s.len() ==> s[k] != COLON,
    decreases s.len(),
{
    let d = index_of(s, DOT);
    lemma_index_of(s, DOT);
    let f = s.subrange(0, d);
    assert forall|k: int| 0 <= k < d implies s[k] != COLON by {
        assert(f[k] == s[k]);
        match kind {
            FieldKind::Label => assert(in_class(ByteClass::Label, f[k])),
            _ => assert(in_class(ByteClass::Digit, f[k])),
        }
    }
    if d < s.len() {
        let rest = s.subrange(d + 1, s.len() as int);
        lemma_fields_hold_no_colon(rest, kind);
        assert forall|k: int| d < k < s.len() implies s[k] != COLON by {
            assert(rest[k - d - 1] == s[k]);
        }
    }
}

/// A host holds no colon.
pub proof fn lemma_host_holds_no_colon(h: Seq<u8>)
    requires
        valid_host(h),
    ensures
        forall|k: int| 0 <= k < h.len() ==> h[k] != COLON,
{
    if valid_ipv4(h) {
        lemma_fields_hold_no_colon(h, FieldKind::Octet);
    } else {
        lemma_fields_hold_no_colon(h, FieldKind::Label);
    }
}

/// Neither a host nor a port holds a colon, so the colon before the port of an unbracketed
/// server name is its first colon and its last: splitting at the first colon, as
/// `valid_server_name` does, accepts exactly the names that splitting at the last colon
/// followed by digits alone accepts.
pub proof fn lemma_port_split_at_last_colon(s: Seq<u8>)
    requires
        !(s.len() > 0 && s[0] == OPEN_BRACKET),
    ensures
        valid_server_name(s) == valid_split_at_last_colon(s),
{
    let n = s.len() as int;
    let c1 = index_of(s, COLON);
    let cl = last_index_of(s, COLON);
    lemma_index_of(s, COLON);
    lemma_last_index_of(s, COLON);
    if valid_host(s) {
        lemma_host_holds_no_colon(s);
    }
    if c1 == n {
        assert(s.subrange(0, n) =~= s);
        assert(cl < 0);
    } else {
        assert(cl >= c1);
        assert(s.subrange(c1, n).drop_first() =~= s.subrange(c1 + 1, n));
        if c1 < cl {
            let p = s.subrange(c1 + 1, n);
            if valid_port(p) {
                assert(in_class(ByteClass::Digit, p[cl - c1 - 1]));
            }
            let h = s.subrange(0, cl);
            if valid_host(h) {
                lemma_host_holds_no_colon(h);
                assert(h[c1] == s[c1]);
            }
        }
    }
}

/// What follows the host in a server name: empty, or a colon and the port.
pub open spec fn port_suffix_of(s: Seq<u8>) -> Seq<u8> {
    if s.len() > 0 && s[0] == OPEN_BRACKET {
        s.subrange(index_of(s, CLOSE_BRACKET) + 1, s.len() as int)
    } else {
        s.subrange(index_of(s, COLON), s.len() as int)
    }
}

/// The port of a server name, if it has one.
pub open spec fn port_of(s: Seq<u8>) -> Option<nat> {
    let r = port_suffix_of(s);
    if r.len() == 0 {
        None
    } else {
        Some(decimal_value(r.drop_first()))
    }
}

fn byte_in_class(c: u8, class: ByteClass) -> (r: bool)
    ensures
        r == in_class(class, c),
{
    match class {
        ByteClass::Digit => DIGIT_ZERO <= c && c <= DIGIT_NINE,
        ByteClass::Hex => (DIGIT_ZERO <= c && c <= DIGIT_NINE) || (LOWER_A <= c && c <= LOWER_F) || (UPPER_A <= c
            && c <= UPPER_F),
        ByteClass::Label => (DIGIT_ZERO <= c && c <= DIGIT_NINE) || (LOWER_A <= c && c <= LOWER_Z) || (UPPER_A <= c
            && c <= UPPER_Z) || c == HYPHEN,
    }
}

fn all_bytes_in_class(b: &[u8], from: usize, to: usize, class: ByteClass) -> (r: bool)
    requires
        from <= to <= b@.len(),
    ensures
        r == all_in_class(b@.subrange(from as int, to as int), class),
{
    let ghost s = b@.subrange(from as int, to as int);
    let mut i: usize = from;
    while i < to
        invariant
            from <= i <= to <= b@.len(),
            s == b@.subrange(from as int, to as int),
            forall|k: int| 0 <= k < i - from ==> #[trigger] in_class(class, s[k]),
        decreases to - i,
    {
        if !byte_in_class(b[i], class) {
            assert(s[i - from] == b@[i as int]);
            return false;
        }
        assert(s[i - from] == b@[i as int]);
        i = i + 1;
    }
    true
}

fn decimal_ok(b: &[u8], from: usize, to: usize, max_len: usize) -> (r: bool)
    requires
        from <= to <= b@.len(),
    ensures
        r == valid_decimal(b@.subrange(from as int, to as int), max_len as nat),
{
    let n = to - from;
    if n < 1 || n > max_len {
        return false;
    }
    if b[from] == DIGIT_ZERO && n != 1 {
        return false;
    }
    all_bytes_in_class(b, from, to, ByteClass::Digit)
}

/// The value of the decimal number `b[from..to]`, once `decimal_ok` has accepted it.
fn decimal_of(b: &[u8], from: usize, to: usize, max_len: usize) -> (r: u32)
    requires
        from <= to <= b@.len(),
        max_len <= 5,
        valid_decimal(b@.subrange(from as int, to as int), max_len as nat),
    ensures
        r == decimal_value(b@.subrange(from as int, to as int)),
{
    let ghost s = b@.subrange(from as int, to as int);
    assert forall|k: int| from <= k < to implies is_digit(b@[k]) by {
        assert(s[k - from] == b@[k]);
        assert(in_class(ByteClass::Digit, s[k - from]));
    }
    decimal(b, from, to)
}

fn field_ok(b: &[u8], from: usize, to: usize, kind: FieldKind) -> (r: bool)
    requires
        from <= to <= b@.len(),
    ensures
        r == valid_field(kind, b@.subrange(from as int, to as int)),
{
    let n = to - from;
    match kind {
        FieldKind::Label => {
            if n < 1 || n > 63 || b[from] == HYPHEN || b[to - 1] == HYPHEN {
                return false;
            }
            all_bytes_in_class(b, from, to, ByteClass::Label)
        },
        FieldKind::Octet => decimal_ok(b, from, to, 3) && decimal_of(b, from, to, 3) <= 255,
        FieldKind::HexGroup => n >= 1 && n <= 4 && all_bytes_in_class(
            b,
            from,
            to,
            ByteClass::Hex,
        ),
    }
}

pub open spec fn add_fields(o: Option<nat>, n: nat) -> Option<nat> {
    match o {
        Some(m) => Some(m + n),
        None => None,
    }
}

fn count_fields(b: &[u8], from: usize, to: usize, sep: u8, kind: FieldKind) -> (r: Option<usize>)
    requires
        from <= to <= b@.len(),
    ensures
        match r {
            Some(n) => field_count(b@.subrange(from as int, to as int), sep, kind) == Some(
                n as nat,
            ) && n <= to - from,
            None => field_count(b@.subrange(from as int, to as int), sep, kind) is None,
        },
{
    let mut start: usize = from;
    let mut n: usize = 0;
    loop
        invariant
            from <= start <= to <= b@.len(),
            n <= start - from,
            field_count(b@.subrange(from as int, to as int), sep, kind) == add_fields(
                field_count(b@.subrange(start as int, to as int), sep, kind),
                n as nat,
            ),
        decreases to - start,
    {
        let d = find_byte(b, sep, start, to);
        let ghost s = b@.subrange(start as int, to as int);
        proof {
            assert(s.subrange(0, d - start) =~= b@.subrange(start as int, d as int));
            if d < to {
                assert(s.subrange(d - start + 1, s.len() as int) =~= b@.subrange(
                    d + 1,
                    to as int,
                ));
            }
        }
        if !field_ok(b, start, d, kind) {
            return None;
        }
        if d == to {
            return Some(n + 1);
        }
        start = d + 1;
        n = n + 1;
    }
}

fn find_double_colon(b: &[u8], from: usize, to: usize) -> (r: usize)
    requires
        from <= to <= b@.len(),
    ensures
        r == from + index_of_double_colon(b@.subrange(from as int, to as int)),
{
    let ghost s = b@.subrange(from as int, to as int);
    let mut i: usize = from;
    while to - i > 1 && !(b[i] == COLON && b[i + 1] == COLON)
        invariant
            from <= i <= to <= b@.len(),
            forall|k: int| from <= k < i && k + 1 < to ==> !(#[trigger] b@[k] == COLON && b@[k + 1] == COLON),
        decreases to - i,
    {
        i = i + 1;
    }
    proof {
        lemma_index_of_double_colon(s);
        let p = index_of_double_colon(s);
        if p < s.len() {
            assert(s[p] == b@[from + p] && s[p + 1] == b@[from + p + 1]);
        }
        if i + 1 < to {
            assert(s[i - from] == b@[i as int] && s[i - from + 1] == b@[i + 1]);
        }
        assert forall|k: int| 0 <= k < i - from && k + 1 < s.len() implies !(#[trigger] s[k] == COLON && s[k
            + 1] == COLON) by {
            assert(s[k] == b@[from + k] && s[k + 1] == b@[from + k + 1]);
        }
    }
    if to - i > 1 {
        i
    } else {
        to
    }
}

fn groups(b: &[u8], from: usize, to: usize) -> (r: Option<usize>)
    requires
        from <= to <= b@.len(),
    ensures
        match r {
            Some(n) => group_count(b@.subrange(from as int, to as int)) == Some(n as nat) && n
                <= to - from,
            None => group_count(b@.subrange(from as int, to as int)) is None,
        },
{
    if from == to {
        Some(0)
    } else {
        count_fields(b, from, to, COLON, FieldKind::HexGroup)
    }
}

fn ipv6_ok(b: &[u8], from: usize, to: usize) -> (r: bool)
    requires
        from <= to <= b@.len(),
    ensures
        r == valid_ipv6(b@.subrange(from as int, to as int)),
{
    let ghost s = b@.subrange(from as int, to as int);
    let p = find_double_colon(b, from, to);
    proof {
        lemma_index_of_double_colon(s);
    }
    if p == to {
        match count_fields(b, from, to, COLON, FieldKind::HexGroup) {
            Some(n) => n == 8,
            None => false,
        }
    } else {
        proof {
            assert(s.subrange(0, p - from) =~= b@.subrange(from as int, p as int));
            assert(s.subrange(p - from + 2, s.len() as int) =~= b@.subrange(p + 2, to as int));
        }
        match (groups(b, from, p), groups(b, p + 2, to)) {
            (Some(m), Some(k)) => m + k <= 7,
            _ => false,
        }
    }
}

fn port_suffix_ok(b: &[u8], from: usize, to: usize) -> (r: bool)
    requires
        from <= to <= b@.len(),
    ensures
        r == valid_port_suffix(b@.subrange(from as int, to as int)),
{
    if from == to {
        return true;
    }
    proof {
        assert(b@.subrange(from as int, to as int).drop_first() =~= b@.subrange(
            from + 1,
            to as int,
        ));
    }
    b[from] == COLON && decimal_ok(b, from + 1, to, 5) && decimal_of(b, from + 1, to, 5) <= 65535
}

fn host_ok(b: &[u8], from: usize, to: usize) -> (r: bool)
    requires
        from <= to <= b@.len(),
    ensures
        r == valid_host(b@.subrange(from as int, to as int)),
{
    let ipv4 = match count_fields(b, from, to, DOT, FieldKind::Octet) {
        Some(n) => n == 4,
        None => false,
    };
    ipv4 || (to - from <= 253 && count_fields(b, from, to, DOT, FieldKind::Label).is_some())
}

/// Whether `b[from..to]` is a valid server name.
pub(crate) fn server_name_ok(b: &[u8], from: usize, to: usize) -> (r: bool)
    requires
        from <= to <= b@.len(),
    ensures
        r == valid_server_name(b@.subrange(from as int, to as int)),
{
    let ghost s = b@.subrange(from as int, to as int);
    if from < to && b[from] == OPEN_BRACKET {
        let j = find_byte(b, CLOSE_BRACKET, from, to);
        if j == to {
            return false;
        }
        proof {
            assert(s.subrange(1, j - from) =~= b@.subrange(from + 1, j as int));
            assert(s.subrange(j - from + 1, s.len() as int) =~= b@.subrange(j + 1, to as int));
        }
        ipv6_ok(b, from + 1, j) && port_suffix_ok(b, j + 1, to)
    } else {
        let c = find_byte(b, COLON, from, to);
        proof {
            assert(s.subrange(0, c - from) =~= b@.subrange(from as int, c as int));
            assert(s.subrange(c - from, s.len() as int) =~= b@.subrange(c as int, to as int));
        }
        host_ok(b, from, c) && port_suffix_ok(b, c, to)
    }
}

/// Whether `s` is a valid server name.
pub fn is_valid_server_name(s: &str) -> (r: bool)
    ensures
        r == valid_server_name(s.spec_bytes()),
{
    let b = s.as_bytes();
    proof {
        assert(b@.subrange(0, b@.len() as int) =~= b@);
    }
    server_name_ok(b, 0, b.len())
}


/// The port of the valid server name `s`, if it has one.
pub fn server_name_port(s: &str) -> (r: Option<u16>)
    requires
        valid_server_name(s.spec_bytes()),
    ensures
        match r {
            Some(p) => port_of(s.spec_bytes()) == Some(p as nat),
            None => port_of(s.spec_bytes()) is None,
        },
{
    let b = s.as_bytes();
    let n = b.len();
    proof {
        assert(b@.subrange(0, n as int) =~= b@);
    }
    let start = if n > 0 && b[0] == OPEN_BRACKET {
        find_byte(b, CLOSE_BRACKET, 0, n) + 1
    } else {
        find_byte(b, COLON, 0, n)
    };
    if start == n {
        return None;
    }
    proof {
        assert(b@.subrange(start as int, n as int).drop_first() =~= b@.subrange(
            start + 1,
            n as int,
        ));
    }
    Some(decimal_of(b, start + 1, n, 5) as u16)
}

/// A validated server name, such as `example.com`, `1.2.3.4:8448` or `[::1]:8448`.
#[derive(Debug, Hash, PartialOrd, Ord)]
pub struct ServerName {
    name: String,
}

impl View for ServerName {
    type V = Seq<char>;

    /// The text of the server name.
    closed spec fn view(&self) -> Seq<char> {
        self.name@
    }
}

impl ServerName {
    #[verifier::type_invariant]
    spec fn well_formed(&self) -> bool {
        valid_server_name(encode_utf8(self.name@))
    }

    /// The UTF-8 encoding of the server name's text.
    pub open spec fn bytes(&self) -> Seq<u8> {
        encode_utf8(self@)
    }

    /// Parses `s` as a server name.
    pub fn try_from(s: &str) -> (r: Result<ServerName, Error>)
        ensures
            match r {
                Ok(n) => valid_server_name(s.spec_bytes()) && n@ == s@,
                Err(e) => !valid_server_name(s.spec_bytes()) && e == Error::InvalidServerName,
            },
    {
        if is_valid_server_name(s) {
            Ok(ServerName { name: s.to_owned() })
        } else {
            Err(Error::InvalidServerName)
        }
    }

    /// The server name's text, exactly as it was parsed.
    pub fn as_str(&self) -> (r: &str)
        ensures
            r@ == self@,
            valid_server_name(r.spec_bytes()),
    {
        proof {
            use_type_invariant(self);
        }
        self.name.as_str()
    }

    /// The port, if the server name has one.
    pub fn port(&self) -> (r: Option<u16>)
        ensures
            match r {
                Some(p) => port_of(self.bytes()) == Some(p as nat),
                None => port_of(self.bytes()) is None,
            },
    {
        server_name_port(self.as_str())
    }
}

impl Clone for ServerName {
    fn clone(&self) -> (r: ServerName)
        ensures
            r@ == self@,
    {
        proof {
            use_type_invariant(self);
        }
        ServerName { name: self.name.clone() }
    }
}

impl AsRef<str> for ServerName {
    fn as_ref(&self) -> &str {
        self.as_str()
    }
}

impl PartialEq for ServerName {
    fn eq(&self, other: &ServerName) -> bool {
        self.name == other.name
    }
}

impl vstd::std_specs::cmp::PartialEqSpecImpl for ServerName {
    open spec fn obeys_eq_spec() -> bool {
        true
    }

    /// Two server names are equal when their texts are: no case folding.
    open spec fn eq_spec(&self, other: &ServerName) -> bool {
        self@ == other@
    }
}

impl Eq for ServerName {
}

} // verus!
