//! The algorithms and methods that key verification negotiates.

use vstd::prelude::*;

use crate::bytes::same_text;

verus! {

/// A hash algorithm.
#[derive(Clone, Copy, Debug, PartialEq, Eq, Structural)]
#[non_exhaustive]
pub enum HashAlgorithm {
    /// The SHA256 hash algorithm.
    Sha256,
}

impl HashAlgorithm {
    /// The name by which the protocol knows this value.
    pub open spec fn spec_name(self) -> Seq<char> {
        match self {
            HashAlgorithm::Sha256 => "sha256"@,
        }
    }

    /// The name by which the protocol knows this value.
    pub fn as_str(&self) -> (r: &str)
        ensures
            r@ == self.spec_name(),
    {
        match self {
            HashAlgorithm::Sha256 => {
                proof {
                    reveal_strlit("sha256");
                }
                "sha256"
            },
        }
    }

    /// The value whose name is `s`, if there is one.
    pub fn from_name(s: &str) -> (r: Option<HashAlgorithm>)
        ensures
            match r {
                Some(v) => v.spec_name() == s@,
                None => forall|v: HashAlgorithm| v.spec_name() != s@,
            },
    {
        if same_text(s, "sha256") {
            Some(HashAlgorithm::Sha256)
        } else {
            None
        }
    }
}

/// A key agreement protocol.
#[derive(Clone, Copy, Debug, PartialEq, Eq, Structural)]
#[non_exhaustive]
pub enum KeyAgreementProtocol {
    /// The Curve25519 key agreement protocol.
    Curve25519,
    /// The Curve25519 key agreement protocol with check for public keys.
    Curve25519HkdfSha256,
}

impl KeyAgreementProtocol {
    /// The name by which the protocol knows this value.
    pub open spec fn spec_name(self) -> Seq<char> {
        match self {
            KeyAgreementProtocol::Curve25519 => "curve25519"@,
            KeyAgreementProtocol::Curve25519HkdfSha256 => "curve25519-hkdf-sha256"@,
        }
    }

    /// The name by which the protocol knows this value.
    pub fn as_str(&self) -> (r: &str)
        ensures
            r@ == self.spec_name(),
    {
        match self {
            KeyAgreementProtocol::Curve25519 => {
                proof {
                    reveal_strlit("curve25519");
                }
                "curve25519"
            },
            KeyAgreementProtocol::Curve25519HkdfSha256 => {
                proof {
                    reveal_strlit("curve25519-hkdf-sha256");
                }
                "curve25519-hkdf-sha256"
            },
        }
    }

    /// The value whose name is `s`, if there is one.
    pub fn from_name(s: &str) -> (r: Option<KeyAgreementProtocol>)
        ensures
            match r {
                Some(v) => v.spec_name() == s@,
                None => forall|v: KeyAgreementProtocol| v.spec_name() != s@,
            },
    {
        if same_text(s, "curve25519") {
            Some(KeyAgreementProtocol::Curve25519)
        } else if same_text(s, "curve25519-hkdf-sha256") {
            Some(KeyAgreementProtocol::Curve25519HkdfSha256)
        } else {
            None
        }
    }
}

/// A message authentication code algorithm.
#[derive(Clone, Copy, Debug, PartialEq, Eq, Structural)]
#[non_exhaustive]
pub enum MessageAuthenticationCode {
    /// The HKDF-HMAC-SHA256 MAC.
    HkdfHmacSha256,
}

impl MessageAuthenticationCode {
    /// The name by which the protocol knows this value.
    pub open spec fn spec_name(self) -> Seq<char> {
        match self {
            MessageAuthenticationCode::HkdfHmacSha256 => "hkdf-hmac-sha256"@,
        }
    }

    /// The name by which the protocol knows this value.
    pub fn as_str(&self) -> (r: &str)
        ensures
            r@ == self.spec_name(),
    {
        match self {
            MessageAuthenticationCode::HkdfHmacSha256 => {
                proof {
                    reveal_strlit("hkdf-hmac-sha256");
                }
                "hkdf-hmac-sha256"
            },
        }
    }

    /// The value whose name is `s`, if there is one.
    pub fn from_name(s: &str) -> (r: Option<MessageAuthenticationCode>)
        ensures
            match r {
                Some(v) => v.spec_name() == s@,
                None => forall|v: MessageAuthenticationCode| v.spec_name() != s@,
            },
    {
        if same_text(s, "hkdf-hmac-sha256") {
            Some(MessageAuthenticationCode::HkdfHmacSha256)
        } else {
            None
        }
    }
}

/// A Short Authentication String method.
#[derive(Clone, Copy, Debug, PartialEq, Eq, Structural)]
#[non_exhaustive]
pub enum ShortAuthenticationString {
    /// The decimal method.
    Decimal,
    /// The emoji method.
    Emoji,
}

impl ShortAuthenticationString {
    /// The name by which the protocol knows this value.
    pub open spec fn spec_name(self) -> Seq<char> {
        match self {
            ShortAuthenticationString::Decimal => "decimal"@,
            ShortAuthenticationString::Emoji => "emoji"@,
        }
    }

    /// The name by which the protocol knows this value.
    pub fn as_str(&self) -> (r: &str)
        ensures
            r@ == self.spec_name(),
    {
        match self {
            ShortAuthenticationString::Decimal => {
                proof {
                    reveal_strlit("decimal");
                }
                "decimal"
            },
            ShortAuthenticationString::Emoji => {
                proof {
                    reveal_strlit("emoji");
                }
                "emoji"
            },
        }
    }

    /// The value whose name is `s`, if there is one.
    pub fn from_name(s: &str) -> (r: Option<ShortAuthenticationString>)
        ensures
            match r {
                Some(v) => v.spec_name() == s@,
                None => forall|v: ShortAuthenticationString| v.spec_name() != s@,
            },
    {
        if same_text(s, "decimal") {
            Some(ShortAuthenticationString::Decimal)
        } else if same_text(s, "emoji") {
            Some(ShortAuthenticationString::Emoji)
        } else {
            None
        }
    }
}

/// A Short Authentication String (SAS) verification method.
#[derive(Clone, Copy, Debug, PartialEq, Eq, Structural)]
#[non_exhaustive]
pub enum VerificationMethod {
    /// The *m.sas.v1* verification method.
    MSasV1,
}

impl VerificationMethod {
    /// The name by which the protocol knows this value.
    pub open spec fn spec_name(self) -> Seq<char> {
        match self {
            VerificationMethod::MSasV1 => "m.sas.v1"@,
        }
    }

    /// The name by which the protocol knows this value.
    pub fn as_str(&self) -> (r: &str)
        ensures
            r@ == self.spec_name(),
    {
        match self {
            VerificationMethod::MSasV1 => {
                proof {
                    reveal_strlit("m.sas.v1");
                }
                "m.sas.v1"
            },
        }
    }

    /// The value whose name is `s`, if there is one.
    pub fn from_name(s: &str) -> (r: Option<VerificationMethod>)
        ensures
            match r {
                Some(v) => v.spec_name() == s@,
                None => forall|v: VerificationMethod| v.spec_name() != s@,
            },
    {
        if same_text(s, "m.sas.v1") {
            Some(VerificationMethod::MSasV1)
        } else {
            None
        }
    }
}

} // verus!
