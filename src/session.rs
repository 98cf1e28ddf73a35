//! Values that a login request carries.

use vstd::prelude::*;

use crate::bytes::same_text;

verus! {

/// The medium of a third party identifier.
#[derive(Clone, Copy, Debug, PartialEq, Eq, Structural)]
#[non_exhaustive]
pub enum Medium {
    /// An email address.
    Email,
}

impl Medium {
    /// The name by which the protocol knows this value.
    pub open spec fn spec_name(self) -> Seq<char> {
        match self {
            Medium::Email => "email"@,
        }
    }

    /// The name by which the protocol knows this value.
    pub fn as_str(&self) -> (r: &str)
        ensures
            r@ == self.spec_name(),
    {
        match self {
            Medium::Email => {
                proof {
                    reveal_strlit("email");
                }
                "email"
            },
        }
    }

    /// The value whose name is `s`, if there is one.
    pub fn from_name(s: &str) -> (r: Option<Medium>)
        ensures
            match r {
                Some(v) => v.spec_name() == s@,
                None => forall|v: Medium| v.spec_name() != s@,
            },
    {
        if same_text(s, "email") {
            Some(Medium::Email)
        } else {
            None
        }
    }
}

/// The authentication mechanism.
#[derive(Clone, Copy, Debug, PartialEq, Eq, Structural)]
#[non_exhaustive]
pub enum LoginType {
    /// A password is supplied to authenticate.
    Password,
}

impl LoginType {
    /// The name by which the protocol knows this value.
    pub open spec fn spec_name(self) -> Seq<char> {
        match self {
            LoginType::Password => "m.login.password"@,
        }
    }

    /// The name by which the protocol knows this value.
    pub fn as_str(&self) -> (r: &str)
        ensures
            r@ == self.spec_name(),
    {
        match self {
            LoginType::Password => {
                proof {
                    reveal_strlit("m.login.password");
                }
                "m.login.password"
            },
        }
    }

    /// The value whose name is `s`, if there is one.
    pub fn from_name(s: &str) -> (r: Option<LoginType>)
        ensures
            match r {
                Some(v) => v.spec_name() == s@,
                None => forall|v: LoginType| v.spec_name() != s@,
            },
    {
        if same_text(s, "m.login.password") {
            Some(LoginType::Password)
        } else {
            None
        }
    }
}

} // verus!
