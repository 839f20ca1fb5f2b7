//! What the session provider sends and receives.
//!
//! A session is opened in two steps: a captcha ticket is asked for, and with
//! it the login is made, which answers with the session token. Every later
//! request carries the token as a cookie.

use vstd::prelude::*;
use vstd::string::StringExecFns;

verus! {

/// The answer to the request for a captcha ticket.
#[derive(Clone, Debug, PartialEq, Eq)]
pub struct CaptchaTicket {
    pub rule: String,
    pub appid: String,
    pub ticket: String,
}

/// The part of the answer to a login that holds the session token.
#[derive(Clone, Debug, PartialEq, Eq)]
pub struct Auth {
    pub token: String,
}

/// The answer to a login.
#[derive(Clone, Debug, PartialEq, Eq)]
pub struct LoginResponse {
    pub auth: Auth,
}

/// What a login sends.
#[derive(Clone, Debug, PartialEq, Eq)]
pub struct LoginRequest {
    pub identity: String,
    pub password: String,
    pub pid: String,
}

impl CaptchaTicket {
    /// The ticket itself.
    pub fn into_ticket(self) -> (r: String)
        ensures
            r@ == self.ticket@,
    {
        self.ticket
    }
}

impl LoginResponse {
    /// The session token.
    pub fn into_token(self) -> (r: String)
        ensures
            r@ == self.auth.token@,
    {
        self.auth.token
    }
}

/// The identity that a login sends where none is configured.
pub open spec fn fallback_identity() -> Seq<char> {
    "114514"@
}

/// The password that a login sends where none is configured.
pub open spec fn fallback_password() -> Seq<char> {
    "r"@
}

/// The product identifier that every login sends.
pub open spec fn product_id() -> Seq<char> {
    "65edCTyg"@
}

/// The identity for which a captcha ticket is asked: the configured user
/// name, or the empty string where none is configured.
pub fn captcha_identity(username: Option<String>) -> (r: String)
    ensures
        r@ == (match username {
            Some(name) => name@,
            None => Seq::<char>::empty(),
        }),
{
    match username {
        Some(name) => name,
        None => String::new(),
    }
}

/// What a login sends for the configured user name and password, with the
/// fallback of each where it is not configured.
pub fn login_request(username: Option<String>, password: Option<String>) -> (r: LoginRequest)
    ensures
        r.identity@ == (match username {
            Some(name) => name@,
            None => fallback_identity(),
        }),
        r.password@ == (match password {
            Some(word) => word@,
            None => fallback_password(),
        }),
        r.pid@ == product_id(),
{
    let identity = match username {
        Some(name) => name,
        None => String::from_str("114514"),
    };
    let password = match password {
        Some(word) => word,
        None => String::from_str("r"),
    };
    LoginRequest { identity, password, pid: String::from_str("65edCTyg") }
}

/// What the session cookie says before the token.
pub open spec fn cookie_opening() -> Seq<char> {
    "authorization="@
}

/// The cookie that carries the session token.
pub fn session_cookie(token: &str) -> (r: String)
    ensures
        r@ == cookie_opening() + token@,
{
    let mut cookie = String::from_str("authorization=");
    cookie.append(token);
    cookie
}

} // verus!
