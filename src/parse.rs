//! The parser shared by every identifier kind: `<sigil><localpart>:<server name>`.

use vstd::prelude::*;
use vstd::string::StringSliceAdditionalSpecFns;
use vstd::utf8::{
    encode_utf8, encode_utf8_valid_utf8, is_char_boundary,
    is_char_boundary_iff_not_is_continuation_byte,
};

use crate::bytes::{find_byte, index_of, lemma_index_of, lemma_index_of_unique, COLON};
use crate::error::Error;
use crate::server_name::{server_name_ok, valid_server_name};

verus! {

/// The largest byte offset that the delimiting colon may have: it is stored in one byte.
pub const MAX_DELIMITER_OFFSET: usize = 255;

/// Byte offset of the first colon after the sigil, or `b.len()` when there is none.
pub open spec fn delimiter_of(b: Seq<u8>) -> int {
    1 + index_of(b.drop_first(), COLON)
}

/// The bytes between the sigil and the delimiting colon.
pub open spec fn localpart_of(b: Seq<u8>) -> Seq<u8> {
    b.subrange(1, delimiter_of(b))
}

/// The bytes after the delimiting colon.
pub open spec fn server_part_of(b: Seq<u8>) -> Seq<u8> {
    b.subrange(delimiter_of(b) + 1, b.len() as int)
}

/// What parsing the bytes `b` as an identifier with one of `sigils` gives: the offset of the
/// delimiting colon, or the first check that fails.
pub open spec fn parse_spec(b: Seq<u8>, sigils: Seq<u8>) -> Result<int, Error> {
    if b.len() == 0 || !sigils.contains(b[0]) {
        Err(Error::MissingSigil)
    } else if delimiter_of(b) >= b.len() {
        Err(Error::MissingDelimiter)
    } else if delimiter_of(b) == 1 || delimiter_of(b) > MAX_DELIMITER_OFFSET {
        Err(Error::InvalidLocalPart)
    } else if !valid_server_name(server_part_of(b)) {
        Err(Error::InvalidServerName)
    } else {
        Ok(delimiter_of(b))
    }
}

/// The same outcome as `parse_spec`, on the text of an identifier: success gives the text
/// back unchanged.
pub open spec fn parse_text(s: Seq<char>, sigils: Seq<u8>) -> Result<Seq<char>, Error> {
    match parse_spec(encode_utf8(s), sigils) {
        Ok(_) => Ok(s),
        Err(e) => Err(e),
    }
}

/// Parsing keeps the text: a string that parses gives an identifier whose text is that
/// string, byte for byte.
pub proof fn lemma_parse_keeps_text(s: Seq<char>, sigils: Seq<u8>)
    requires
        parse_text(s, sigils) is Ok,
    ensures
        parse_text(s, sigils) == Ok::<Seq<char>, Error>(s),
        encode_utf8(parse_text(s, sigils)->Ok_0) == encode_utf8(s),
{
}

/// Parsing the text of a parsed identifier again gives an identifier equal to it.
pub proof fn lemma_parse_idempotent(s: Seq<char>, t: Seq<char>, sigils: Seq<u8>)
    requires
        parse_text(s, sigils) == Ok::<Seq<char>, Error>(t),
    ensures
        parse_text(t, sigils) == Ok::<Seq<char>, Error>(t),
{
}

/// A string that is empty, or whose first byte is not one of the sigils, fails with
/// `MissingSigil`.
pub proof fn lemma_missing_sigil(s: Seq<char>, sigils: Seq<u8>)
    requires
        encode_utf8(s).len() == 0 || !sigils.contains(encode_utf8(s)[0]),
    ensures
        parse_text(s, sigils) == Err::<Seq<char>, Error>(Error::MissingSigil),
{
}

/// A string that starts with a sigil and has no colon after it fails with
/// `MissingDelimiter`.
pub proof fn lemma_missing_delimiter(s: Seq<char>, sigils: Seq<u8>)
    requires
        encode_utf8(s).len() > 0,
        sigils.contains(encode_utf8(s)[0]),
        forall|k: int| 1 <= k < encode_utf8(s).len() ==> encode_utf8(s)[k] != COLON,
    ensures
        parse_text(s, sigils) == Err::<Seq<char>, Error>(Error::MissingDelimiter),
{
    let b = encode_utf8(s);
    lemma_index_of_unique(b.drop_first(), COLON, b.len() - 1);
}

/// When the first colon after the sigil is at byte `c`, the localpart is accepted exactly
/// when `2 <= c <= 255`: the sigil and the localpart take at most 255 bytes, and the
/// localpart at least one.
pub proof fn lemma_localpart_length(b: Seq<u8>, sigils: Seq<u8>, c: int)
    requires
        b.len() > 0,
        sigils.contains(b[0]),
        1 <= c < b.len(),
        b[c] == COLON,
        forall|k: int| 1 <= k < c ==> b[k] != COLON,
    ensures
        delimiter_of(b) == c,
        c == 1 || c > MAX_DELIMITER_OFFSET ==> parse_spec(b, sigils) == Err::<int, Error>(
            Error::InvalidLocalPart,
        ),
        2 <= c <= MAX_DELIMITER_OFFSET ==> (parse_spec(b, sigils) == Ok::<int, Error>(c)
            <==> valid_server_name(b.subrange(c + 1, b.len() as int))),
{
    lemma_index_of_unique(b.drop_first(), COLON, c - 1);
}

fn has_sigil(sigils: &[u8], c: u8) -> (r: bool)
    ensures
        r == sigils@.contains(c),
{
    let mut i: usize = 0;
    while i < sigils.len()
        invariant
            i <= sigils@.len(),
            forall|k: int| 0 <= k < i ==> sigils@[k] != c,
        decreases sigils.len() - i,
    {
        if sigils[i] == c {
            return true;
        }
        i = i + 1;
    }
    false
}

/// Checks that `id` is a sigil from `sigils`, a localpart, a colon and a server name, and
/// returns the byte offset of that colon.
pub fn parse_id(id: &str, sigils: &[u8]) -> (r: Result<u8, Error>)
    ensures
        match r {
            Ok(c) => parse_spec(id.spec_bytes(), sigils@) == Ok::<int, Error>(c as int),
            Err(e) => parse_spec(id.spec_bytes(), sigils@) == Err::<int, Error>(e),
        },
{
    let b = id.as_bytes();
    if b.len() == 0 || !has_sigil(sigils, b[0]) {
        return Err(Error::MissingSigil);
    }
    let c = find_byte(b, COLON, 1, b.len());
    proof {
        assert(b@.drop_first() =~= b@.subrange(1, b@.len() as int));
    }
    if c == b.len() {
        return Err(Error::MissingDelimiter);
    }
    if c == 1 || c > MAX_DELIMITER_OFFSET {
        return Err(Error::InvalidLocalPart);
    }
    if !server_name_ok(b, c + 1, b.len()) {
        return Err(Error::InvalidServerName);
    }
    Ok(c as u8)
}

/// The text of `s` after its first byte, which is a character of its own.
fn after_first_byte(s: &str) -> (r: &str)
    requires
        s.spec_bytes().len() > 0,
        s.spec_bytes()[0] < 0x80,
    ensures
        r.spec_bytes() == s.spec_bytes().drop_first(),
{
    proof {
        encode_utf8_valid_utf8(s@);
        reveal_with_fuel(is_char_boundary, 2);
    }
    let (_, rest) = s.split_at(1);
    proof {
        assert(rest.spec_bytes() =~= s.spec_bytes().drop_first());
    }
    rest
}

/// The localpart of an identifier `s` whose delimiting colon is at byte `c`.
pub(crate) fn localpart_slice(s: &str, c: u8) -> (r: &str)
    requires
        s.spec_bytes().len() > 0,
        s.spec_bytes()[0] < 0x80,
        delimiter_of(s.spec_bytes()) == c,
        c < s.spec_bytes().len(),
    ensures
        r.spec_bytes() == localpart_of(s.spec_bytes()),
{
    let ghost b = s.spec_bytes();
    proof {
        lemma_index_of(b.drop_first(), COLON);
        encode_utf8_valid_utf8(s@);
        is_char_boundary_iff_not_is_continuation_byte(b, c as int);
    }
    let (head, _) = s.split_at(c as usize);
    proof {
        assert(head.spec_bytes()[0] == b[0]);
    }
    let r = after_first_byte(head);
    proof {
        assert(r.spec_bytes() =~= localpart_of(b));
    }
    r
}

/// The server name of an identifier `s` whose delimiting colon is at byte `c`.
pub(crate) fn server_slice(s: &str, c: u8) -> (r: &str)
    requires
        delimiter_of(s.spec_bytes()) == c,
        c < s.spec_bytes().len(),
    ensures
        r.spec_bytes() == server_part_of(s.spec_bytes()),
{
    let ghost b = s.spec_bytes();
    proof {
        lemma_index_of(b.drop_first(), COLON);
        encode_utf8_valid_utf8(s@);
        is_char_boundary_iff_not_is_continuation_byte(b, c as int);
    }
    let (_, tail) = s.split_at(c as usize);
    proof {
        assert(tail.spec_bytes()[0] == b[c as int]);
    }
    let r = after_first_byte(tail);
    proof {
        assert(r.spec_bytes() =~= server_part_of(b));
    }
    r
}

} // verus!
