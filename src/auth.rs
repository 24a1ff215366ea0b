use vstd::prelude::*;
use vstd::utf8::{decode_utf8, valid_utf8};

use crate::api_error::APIError;
use crate::credential::{base64_decoded, decode_base64, fits, utf8_text, MAX_INPUT_CHARS};
use crate::str_map::{find_char, str_eq};
use crate::user::User;

verus! {

/// The issuer named in every token.
pub const APP_NAME: &'static str = "masquerade";

/// How long a token stays valid, in seconds.
pub const TOKEN_LIFETIME: u64 = 86400;

/// Characters before the credentials in an authorization header
/// (`Basic ` or `Bearer`).
pub const SCHEME_LEN: usize = 6;

/// Separates the login handle from the secret in basic credentials.
pub const CRED_SEP: char = ':';

/// The claims of a session token: issuer, issue time, expiry and start of
/// validity (seconds), and the user's identifier.
#[derive(Debug)]
pub struct Claims {
    pub iss: String,
    pub iat: u64,
    pub exp: u64,
    pub nbf: u64,
    pub cid: String,
}

impl Claims {
    /// The token is for this application and `now` lies in its validity span.
    pub open spec fn spec_valid_at(&self, now: u64) -> bool {
        self.iss@ == APP_NAME@ && self.nbf <= now && now < self.exp
    }

    /// Claims for user `uuid` issued at `now`, valid for a day.
    pub fn issue(uuid: &str, now: u64) -> (r: Claims)
        requires
            now <= u64::MAX - TOKEN_LIFETIME,
        ensures
            r.iss@ == APP_NAME@,
            r.iat == now,
            r.nbf == now,
            r.exp == now + TOKEN_LIFETIME,
            r.cid@ == uuid@,
    {
        Claims {
            iss: APP_NAME.to_owned(),
            iat: now,
            exp: now + TOKEN_LIFETIME,
            nbf: now,
            cid: uuid.to_owned(),
        }
    }

    /// Whether the claims are accepted at `now`. The signature is checked
    /// where the token is decoded.
    pub fn valid_at(&self, now: u64) -> (r: bool)
        ensures
            r == self.spec_valid_at(now),
    {
        str_eq(self.iss.as_str(), APP_NAME) && self.nbf <= now && now < self.exp
    }
}

/// A token issued at `t` is accepted at every `t2` from `t` until a day later,
/// and at no time after that.
pub proof fn lemma_token_lifetime(c: Claims, t: u64, t2: u64)
    requires
        c.iss@ == APP_NAME@,
        c.nbf == t,
        c.exp == t + TOKEN_LIFETIME,
    ensures
        t <= t2 < t + TOKEN_LIFETIME ==> c.spec_valid_at(t2),
        t2 >= t + TOKEN_LIFETIME ==> !c.spec_valid_at(t2),
{
}

/// The text that basic credentials `s` stand for: base64 of UTF-8.
pub open spec fn basic_text(s: Seq<char>) -> Option<Seq<char>> {
    match base64_decoded(s) {
        Some(b) => if valid_utf8(b) {
            Some(decode_utf8(b))
        } else {
            None
        },
        None => None,
    }
}

/// Basic credentials that can be read: their text holds a separator.
pub open spec fn readable(s: Seq<char>) -> bool {
    basic_text(s) matches Some(t) && t.contains(CRED_SEP)
}

/// Login handle and secret read from basic credentials.
#[derive(Debug)]
pub struct AuthReq {
    pub key: String,
    pub secret: String,
}

/// `t` splits into handle and secret at its first separator: the handle holds
/// no separator, and the secret is all the text after it.
pub open spec fn split_at_first(t: Seq<char>, key: Seq<char>, secret: Seq<char>) -> bool {
    &&& !key.contains(CRED_SEP)
    &&& t == key + seq![CRED_SEP] + secret
}

impl AuthReq {
    /// Splits decoded credentials `key:secret` at the first separator; the
    /// secret may itself hold separators.
    pub fn from_text(t: &str) -> (r: Result<AuthReq, APIError>)
        ensures
            r is Ok <==> t@.contains(CRED_SEP),
            r matches Err(e) ==> e is FailedToParseAuth,
            r matches Ok(a) ==> split_at_first(t@, a.key@, a.secret@),
    {
        let n = t.unicode_len();
        let p1 = find_char(t, CRED_SEP, 0);
        if p1 == n {
            return Err(APIError::FailedToParseAuth);
        }
        let key = t.substring_char(0, p1).to_owned();
        let secret = t.substring_char(p1 + 1, n).to_owned();
        proof {
            assert(t@.contains(CRED_SEP)) by {
                assert(t@[p1 as int] == CRED_SEP);
            }
            assert(!key@.contains(CRED_SEP)) by {
                assert forall|j: int| 0 <= j < key@.len() implies key@[j] != CRED_SEP by {
                    assert(key@[j] == t@[j]);
                }
            }
            assert(t@ =~= key@ + seq![CRED_SEP] + secret@);
        }
        Ok(AuthReq { key: key, secret: secret })
    }

    /// Reads basic credentials: base64 of the UTF-8 text `key:secret`.
    pub fn parse(s: &str) -> (r: Result<AuthReq, APIError>)
        ensures
            r is Ok <==> readable(s@),
            r matches Err(e) ==> e is FailedToParseAuth,
            r matches Ok(a) ==> split_at_first(basic_text(s@).unwrap(), a.key@, a.secret@),
    {
        let bytes = match decode_base64(s) {
            Some(b) => b,
            None => return Err(APIError::FailedToParseAuth),
        };
        let text = match utf8_text(bytes) {
            Some(t) => t,
            None => return Err(APIError::FailedToParseAuth),
        };
        AuthReq::from_text(text.as_str())
    }
}

impl std::str::FromStr for AuthReq {
    type Err = APIError;

    fn from_str(s: &str) -> Result<AuthReq, APIError> {
        AuthReq::parse(s)
    }
}

/// The credentials after the scheme of an authorization header, if the header
/// is long enough to have them.
pub fn strip_scheme(header: &str) -> (r: Option<&str>)
    ensures
        r is Some <==> header@.len() >= SCHEME_LEN,
        r matches Some(c) ==> c@ == header@.subrange(SCHEME_LEN as int, header@.len() as int),
{
    let n = header.unicode_len();
    if n < SCHEME_LEN {
        None
    } else {
        Some(header.substring_char(SCHEME_LEN, n))
    }
}

/// The user that logs in: the stored user of the handle, when the secret
/// derives its credential. Which of the two failed is not told apart.
pub fn verify_auth(user: Option<User>, secret: &str) -> (r: Option<User>)
    ensures
        r is Some <==> (user matches Some(u) && fits(u.salt@) && fits(secret@) && u.accepts(secret@)),
        r matches Some(u) ==> user == Some(u),
{
    match user {
        Some(u) => {
            if u.salt.unicode_len() < MAX_INPUT_CHARS && secret.unicode_len() < MAX_INPUT_CHARS
                && u.verify_secret(secret) {
                Some(u)
            } else {
                None
            }
        },
        None => None,
    }
}

/// Position of the user with identifier `uuid`, the first if several.
pub fn find_by_uuid(users: &Vec<User>, uuid: &str) -> (r: Option<usize>)
    ensures
        r matches Some(i) ==> i < users@.len() && users@[i as int].uuid@ == uuid@,
        r is None ==> forall|i: int| 0 <= i < users@.len() ==> users@[i].uuid@ != uuid@,
{
    let mut i: usize = 0;
    while i < users.len()
        invariant
            i <= users@.len(),
            forall|j: int| 0 <= j < i ==> users@[j].uuid@ != uuid@,
        decreases users@.len() - i,
    {
        if str_eq(users[i].uuid.as_str(), uuid) {
            return Some(i);
        }
        i = i + 1;
    }
    None
}

/// Logs in with basic credentials from the authorization header.
#[derive(Debug)]
pub struct BasicAuth;

impl BasicAuth {
    /// The credentials to check: none when a user is already known, else those
    /// of the header, if they can be read.
    pub fn credentials(authenticated: bool, header: Option<&str>) -> (r: Option<AuthReq>)
        ensures
            r is Some <==> (!authenticated && (header matches Some(h) && h@.len() >= SCHEME_LEN
                && readable(h@.subrange(SCHEME_LEN as int, h@.len() as int)))),
    {
        if authenticated {
            return None;
        }
        match header {
            Some(h) => match strip_scheme(h) {
                Some(c) => AuthReq::parse(c).ok(),
                None => None,
            },
            None => None,
        }
    }
}

/// Logs in with basic credentials from the `auth` query parameter.
#[derive(Debug)]
pub struct UrlAuth;

impl UrlAuth {
    /// The credentials to check: none when a user is already known, else those
    /// of the parameter, if they can be read.
    pub fn credentials(authenticated: bool, param: Option<&str>) -> (r: Option<AuthReq>)
        ensures
            r is Some <==> (!authenticated && (param matches Some(p) && readable(p@))),
    {
        if authenticated {
            return None;
        }
        match param {
            Some(p) => AuthReq::parse(p).ok(),
            None => None,
        }
    }
}

/// Logs in with a signed token from the authorization header.
#[derive(Debug)]
pub struct JWTAuth;

impl JWTAuth {
    /// The token to decode: none when a user is already known.
    pub fn token(authenticated: bool, header: Option<&str>) -> (r: Option<&str>)
        ensures
            r is Some <==> (!authenticated && (header matches Some(h) && h@.len() >= SCHEME_LEN)),
            r matches Some(t) ==> (header matches Some(h) && t@ == h@.subrange(
                SCHEME_LEN as int,
                h@.len() as int,
            )),
    {
        if authenticated {
            return None;
        }
        match header {
            Some(h) => strip_scheme(h),
            None => None,
        }
    }

    /// The identifier of the user a decoded token stands for, if it is valid
    /// at `now`.
    pub fn subject(claims: &Claims, now: u64) -> (r: Option<&str>)
        ensures
            r is Some <==> claims.spec_valid_at(now),
            r matches Some(id) ==> id@ == claims.cid@,
    {
        if claims.valid_at(now) {
            Some(claims.cid.as_str())
        } else {
            None
        }
    }
}

/// Lets a request through only when a user is known.
#[derive(Debug)]
pub struct RequireUser;

impl RequireUser {
    pub fn start(user: Option<&User>) -> (r: Result<(), APIError>)
        ensures
            r is Ok <==> user is Some,
            r matches Err(e) ==> e is Unauthorized,
    {
        match user {
            Some(_) => Ok(()),
            None => Err(APIError::Unauthorized),
        }
    }
}

/// Lets a request through only for an administrator.
#[derive(Debug)]
pub struct Admin;

impl Admin {
    pub fn start(user: Option<&User>) -> (r: Result<(), APIError>)
        ensures
            r is Ok <==> (user matches Some(u) && u.is_admin),
            user is None ==> (r matches Err(e) && e is Unauthorized),
            user matches Some(u) && !u.is_admin ==> (r matches Err(e) && e is Forbidden),
    {
        match user {
            Some(u) => if u.is_admin() {
                Ok(())
            } else {
                Err(APIError::Forbidden)
            },
            None => Err(APIError::Unauthorized),
        }
    }
}

} // verus!
