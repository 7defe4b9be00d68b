//! Authentication: the credential grammar and the `Authorization` header
//! value each credential produces.

use vstd::prelude::*;

use crate::text::{find_char, has_prefix, lemma_find_char_props, str_find_char, str_has_prefix};

verus! {

/// A parsed credential.
#[derive(Debug, Clone, PartialEq, Eq)]
pub enum Auth {
    Basic { username: String, password: Option<String> },
    Bearer(String),
}

/// The mathematical model of an [`Auth`] value.
pub enum AuthModel {
    Basic { username: Seq<char>, password: Option<Seq<char>> },
    Bearer(Seq<char>),
}

impl View for Auth {
    type V = AuthModel;

    open spec fn view(&self) -> AuthModel {
        match self {
            Auth::Basic { username, password } => AuthModel::Basic {
                username: username@,
                password: password.deep_view(),
            },
            Auth::Bearer(t) => AuthModel::Bearer(t@),
        }
    }
}

impl DeepView for Auth {
    type V = AuthModel;

    open spec fn deep_view(&self) -> AuthModel {
        self.view()
    }
}

/// Why a credential string was rejected.
#[derive(Debug, Clone, PartialEq, Eq, Structural)]
pub enum AuthParseError {
    /// The username part was empty.
    EmptyUsername,
    /// An explicit `bearer:` prefix was followed by nothing.
    EmptyBearerToken,
}

impl AuthParseError {
    /// The user-facing description of the rejection.
    pub fn message(&self) -> (r: String)
        ensures
            self == AuthParseError::EmptyUsername ==> r@ == "Username cannot be empty"@,
            self == AuthParseError::EmptyBearerToken ==> r@ == "Bearer token cannot be empty."@,
    {
        match self {
            AuthParseError::EmptyUsername => "Username cannot be empty".to_owned(),
            AuthParseError::EmptyBearerToken => "Bearer token cannot be empty.".to_owned(),
        }
    }
}

/// The credential grammar: an explicit `bearer:`/`Bearer:` token, a
/// well-known token prefix taken as a bearer token, or `USERNAME[:PASSWORD]`
/// basic credentials (the password may itself contain `:`).
pub open spec fn parse_auth_spec(s: Seq<char>) -> Result<AuthModel, AuthParseError> {
    if has_prefix(s, "bearer:"@) || has_prefix(s, "Bearer:"@) {
        let token = s.subrange(7, s.len() as int);
        if token.len() == 0 {
            Err(AuthParseError::EmptyBearerToken)
        } else {
            Ok(AuthModel::Bearer(token))
        }
    } else if has_prefix(s, "ghp_"@) || has_prefix(s, "gho_"@) || has_prefix(s, "ghs_"@)
        || has_prefix(s, "ghu_"@) || has_prefix(s, "glpat-"@) || has_prefix(s, "sk_"@) {
        Ok(AuthModel::Bearer(s))
    } else {
        let colon = find_char(s, ':');
        if colon >= 0 {
            let username = s.subrange(0, colon);
            let password = s.subrange(colon + 1, s.len() as int);
            if username.len() == 0 {
                Err(AuthParseError::EmptyUsername)
            } else {
                Ok(AuthModel::Basic { username, password: Some(password) })
            }
        } else {
            if s.len() == 0 {
                Err(AuthParseError::EmptyUsername)
            } else {
                Ok(AuthModel::Basic { username: s, password: None })
            }
        }
    }
}

/// Parses a credential string.
pub fn parse_auth(s: &str) -> (r: Result<Auth, AuthParseError>)
    ensures
        match r {
            Ok(a) => parse_auth_spec(s@) == Ok::<AuthModel, AuthParseError>(a@),
            Err(e) => parse_auth_spec(s@) == Err::<AuthModel, AuthParseError>(e),
        },
{
    let n = s.unicode_len();
    if str_has_prefix(s, "bearer:") || str_has_prefix(s, "Bearer:") {
        proof {
            reveal_strlit("bearer:");
            reveal_strlit("Bearer:");
        }
        let token = s.substring_char(7, n);
        if token.is_empty() {
            return Err(AuthParseError::EmptyBearerToken);
        }
        return Ok(Auth::Bearer(token.to_owned()));
    }
    if str_has_prefix(s, "ghp_") || str_has_prefix(s, "gho_") || str_has_prefix(s, "ghs_")
        || str_has_prefix(s, "ghu_") || str_has_prefix(s, "glpat-") || str_has_prefix(s, "sk_") {
        return Ok(Auth::Bearer(s.to_owned()));
    }
    if let Some(pos) = str_find_char(s, ':') {
        proof {
            lemma_find_char_props(s@, ':');
        }
        let username = s.substring_char(0, pos).to_owned();
        let password = s.substring_char(pos + 1, n).to_owned();
        if username.as_str().is_empty() {
            return Err(AuthParseError::EmptyUsername);
        }
        return Ok(Auth::Basic { username, password: Some(password) });
    }
    if n == 0 {
        return Err(AuthParseError::EmptyUsername);
    }
    Ok(Auth::Basic { username: s.to_owned(), password: None })
}

impl core::str::FromStr for Auth {
    type Err = AuthParseError;

    fn from_str(s: &str) -> Result<Auth, AuthParseError> {
        parse_auth(s)
    }
}

/// What the standard base64 encoding of the UTF-8 bytes of a character
/// sequence is; stated only through the trusted item below.
pub uninterp spec fn base64_utf8_of(s: Seq<char>) -> Seq<char>;

/// Relies on base64's `STANDARD` engine: padded standard-alphabet encoding,
/// a function of the input bytes (the UTF-8 bytes of `s`) alone. The size
/// computation inside cannot overflow because a slice holds at most
/// `isize::MAX` bytes.
#[verifier::external_body]
fn base64_encode_utf8(s: &str) -> (r: String)
    ensures
        r@ == base64_utf8_of(s@),
{
    <base64::engine::GeneralPurpose as base64::Engine>::encode(
        &base64::engine::general_purpose::STANDARD,
        s.as_bytes(),
    )
}

/// The credential text that basic auth encodes: `username` alone, or
/// `username:password`.
pub open spec fn basic_credentials_spec(username: Seq<char>, password: Option<Seq<char>>) -> Seq<
    char,
> {
    match password {
        Some(p) => username + ":"@ + p,
        None => username,
    }
}

/// The full `Authorization` header value an [`Auth`] produces.
pub open spec fn auth_header_value_spec(a: AuthModel) -> Seq<char> {
    match a {
        AuthModel::Basic { username, password } => "Basic "@ + base64_utf8_of(
            basic_credentials_spec(username, password),
        ),
        AuthModel::Bearer(t) => "Bearer "@ + t,
    }
}

/// Renders the `Authorization` header value for a credential: basic auth
/// base64-encodes `username[:password]`, bearer auth passes the token
/// through verbatim.
pub fn auth_header_value(auth: &Auth) -> (r: String)
    ensures
        r@ == auth_header_value_spec(auth@),
{
    match auth {
        Auth::Basic { username, password } => {
            let mut credentials = username.clone();
            if let Some(p) = password {
                credentials.append(":");
                credentials.append(p.as_str());
            }
            let encoded = base64_encode_utf8(credentials.as_str());
            let mut r = "Basic ".to_owned();
            r.append(encoded.as_str());
            r
        },
        Auth::Bearer(t) => {
            let mut r = "Bearer ".to_owned();
            r.append(t.as_str());
            r
        },
    }
}

} // verus!
