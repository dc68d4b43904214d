//! Login credentials and the HTTP basic-authentication header built
//! from them.

use vstd::prelude::*;

verus! {

#[derive(Debug, Clone)]
pub struct Credentials {
    pub username: String,
    password: String,
}

/// What base64 standard-alphabet encoding (with padding) returns for
/// the UTF-8 bytes of a string: a pure function of the text.
pub uninterp spec fn base64_std(s: Seq<char>) -> Seq<char>;

/// Relies on base64's Engine::encode with the STANDARD engine: the
/// encoding is a pure function of the input bytes, and empty input
/// encodes to the empty string.
#[verifier::external_body]
fn b64_encode(s: &str) -> (r: String)
    ensures
        r@ == base64_std(s@),
        s@.len() == 0 ==> r@.len() == 0,
{
    base64::Engine::encode(&base64::engine::general_purpose::STANDARD, s.as_bytes())
}

impl Credentials {
    pub closed spec fn spec_username(&self) -> Seq<char> {
        self.username@
    }

    pub closed spec fn spec_password(&self) -> Seq<char> {
        self.password@
    }

    pub fn new(username: &str, password: &str) -> (r: Credentials)
        ensures
            r.spec_username() == username@,
            r.spec_password() == password@,
    {
        Credentials { username: username.to_owned(), password: password.to_owned() }
    }

    /// The `Basic` authorization header value: the base64 encoding of
    /// `username:password`.
    pub fn auth_header_value(&self) -> (r: String)
        ensures
            r@ == "Basic "@ + base64_std(self.spec_username() + ":"@ + self.spec_password()),
    {
        let mut raw = self.username.clone();
        raw.append(":");
        raw.append(self.password.as_str());
        let encoded = b64_encode(raw.as_str());
        let mut out = "Basic ".to_owned();
        out.append(encoded.as_str());
        out
    }
}

} // verus!
