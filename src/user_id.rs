//! User identifiers, such as `@carl:example.com`.

use vstd::prelude::*;
use vstd::string::StringSliceAdditionalSpecFns;
use vstd::utf8::encode_utf8;

use crate::error::Error;
use crate::parse::{
    localpart_of, localpart_slice, parse_id, parse_spec, parse_text, server_part_of, server_slice,
};
use crate::server_name::valid_server_name;

verus! {

/// The sigil that starts every user ID: `@`.
pub const USER_SIGIL: u8 = 0x40;

/// A user ID: the identifier of an account, such as `@carl:example.com`.
///
/// It holds the text it was made from, unchanged, and the byte offset of the colon that ends
/// the localpart. Equality, ordering and hashing go by the text alone: the offset follows
/// from it.
#[derive(Debug, Hash, PartialOrd, Ord)]
pub struct UserId {
    full_id: String,
    colon_idx: u8,
}

impl View for UserId {
    type V = Seq<char>;

    /// The text of the identifier.
    closed spec fn view(&self) -> Seq<char> {
        self.full_id@
    }
}

impl UserId {
    #[verifier::type_invariant]
    spec fn well_formed(&self) -> bool {
        parse_spec(encode_utf8(self.full_id@), seq![USER_SIGIL]) == Ok::<int, Error>(
            self.colon_idx as int,
        )
    }

    /// The UTF-8 encoding of the identifier's text.
    pub open spec fn bytes(&self) -> Seq<u8> {
        encode_utf8(self@)
    }

    /// Parses `s` as a user ID: `@`, a localpart, a colon and a server name.
    pub fn try_from(s: &str) -> (r: Result<UserId, Error>)
        ensures
            match r {
                Ok(id) => parse_text(s@, seq![USER_SIGIL]) == Ok::<Seq<char>, Error>(id@),
                Err(e) => parse_text(s@, seq![USER_SIGIL]) == Err::<Seq<char>, Error>(e),
            },
    {
        let sigils: Vec<u8> = vec![USER_SIGIL];
        proof {
            assert(sigils@ =~= seq![USER_SIGIL]);
        }
        match parse_id(s, sigils.as_slice()) {
            Ok(c) => Ok(UserId { full_id: s.to_owned(), colon_idx: c }),
            Err(e) => Err(e),
        }
    }

    /// The identifier's text, exactly as it was parsed.
    pub fn as_str(&self) -> (r: &str)
        ensures
            r@ == self@,
            parse_text(r@, seq![USER_SIGIL]) == Ok::<Seq<char>, Error>(r@),
    {
        proof {
            use_type_invariant(self);
        }
        self.full_id.as_str()
    }

    /// The text between the sigil and the colon.
    pub fn localpart(&self) -> (r: &str)
        ensures
            r.spec_bytes() == localpart_of(self.bytes()),
    {
        proof {
            use_type_invariant(self);
        }
        localpart_slice(self.full_id.as_str(), self.colon_idx)
    }

    /// The server name after the colon.
    pub fn server_name(&self) -> (r: &str)
        ensures
            r.spec_bytes() == server_part_of(self.bytes()),
            valid_server_name(r.spec_bytes()),
    {
        proof {
            use_type_invariant(self);
        }
        server_slice(self.full_id.as_str(), self.colon_idx)
    }
}

impl Clone for UserId {
    fn clone(&self) -> (r: UserId)
        ensures
            r@ == self@,
    {
        proof {
            use_type_invariant(self);
        }
        UserId { full_id: self.full_id.clone(), colon_idx: self.colon_idx }
    }
}

impl AsRef<str> for UserId {
    fn as_ref(&self) -> &str {
        self.as_str()
    }
}

impl PartialEq for UserId {
    fn eq(&self, other: &UserId) -> bool {
        self.full_id == other.full_id
    }
}

impl vstd::std_specs::cmp::PartialEqSpecImpl for UserId {
    open spec fn obeys_eq_spec() -> bool {
        true
    }

    /// Two identifiers are equal when their texts are.
    open spec fn eq_spec(&self, other: &UserId) -> bool {
        self@ == other@
    }
}

impl Eq for UserId {
}

} // verus!
