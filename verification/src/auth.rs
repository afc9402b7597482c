//! Accounts: how the authentication service's answers are read, and what the
//! login screen is told.
use vstd::prelude::*;

use crate::json::{member, JsonValue};
use crate::text::{
    chars_eq, chars_of, decimal, parse_i64, parse_i64_chars, str_eq, str_to_string, string_of,
    sub_chars, trim, trim_chars, trim_str, u64_to_string,
};

verus! {

/// Why talking to the authentication service failed.
#[derive(Debug)]
pub enum AuthError {
    Network(String),
    RateLimited,
    Unauthorized,
    AccountNotApproved,
    Banned(Option<i64>),
    UpgradeRequired,
    Maintenance,
    Client(u16),
    Server(u16),
    InvalidResponse(String),
}

/// What the login screen shows for a failed login.
#[derive(Debug)]
pub struct LoginError {
    pub code: String,
    pub message: String,
    pub expires_at: Option<i64>,
}

/// The service's answer to a successful login.
#[derive(Debug)]
pub struct LoginResponse {
    pub username: String,
    pub token: String,
}

impl LoginError {
    fn new(code: &str, message: String) -> (r: Self)
        ensures
            r.code@ == code@,
            r.message@ == message@,
            r.expires_at is None,
    {
        LoginError { code: str_to_string(code), message, expires_at: None }
    }

    fn banned(expires_at: Option<i64>) -> (r: Self)
        ensures
            r.code@ == "BANNED"@,
            r.message@ == "This account is banned."@,
            r.expires_at == expires_at,
    {
        LoginError {
            code: str_to_string("BANNED"),
            message: str_to_string("This account is banned."),
            expires_at,
        }
    }
}

/// The code, message and ban expiry that the login screen gets for `err`.
pub open spec fn login_error_of(err: AuthError) -> (Seq<char>, Seq<char>, Option<i64>) {
    match err {
        AuthError::RateLimited => (
            "RATE_LIMITED"@,
            "Too many requests. Please wait and try again."@,
            None,
        ),
        AuthError::Unauthorized => ("INVALID_CREDENTIALS"@, "Invalid username or password."@, None),
        AuthError::AccountNotApproved => (
            "ACCOUNT_NOT_APPROVED"@,
            "Your account has not been approved yet!"@,
            None,
        ),
        AuthError::Banned(expires_at) => ("BANNED"@, "This account is banned."@, expires_at),
        AuthError::UpgradeRequired => (
            "UPGRADE_REQUIRED"@,
            "Launcher is outdated. Please update to the latest version."@,
            None,
        ),
        AuthError::Maintenance => (
            "SERVICE_UNAVAILABLE"@,
            "Auth service is temporarily unavailable for maintenance."@,
            None,
        ),
        AuthError::Client(status) => (
            "AUTH_FAILED"@,
            "Auth failed: "@ + decimal(status as nat),
            None,
        ),
        AuthError::Server(status) => (
            "SERVER_ERROR"@,
            "Server error: "@ + decimal(status as nat),
            None,
        ),
        AuthError::Network(message) => ("NETWORK_ERROR"@, message@, None),
        AuthError::InvalidResponse(message) => ("BAD_RESPONSE"@, message@, None),
    }
}

fn with_number(prefix: &str, n: u16) -> (r: String)
    ensures
        r@ == prefix@ + decimal(n as nat),
{
    let mut r = str_to_string(prefix);
    let d = u64_to_string(n as u64);
    r.append(d.as_str());
    r
}

/// The login screen's error for an authentication failure.
pub fn login_error_from_auth_error(err: AuthError) -> (r: LoginError)
    ensures
        (r.code@, r.message@, r.expires_at) == login_error_of(err),
{
    match err {
        AuthError::RateLimited => LoginError::new(
            "RATE_LIMITED",
            str_to_string("Too many requests. Please wait and try again."),
        ),
        AuthError::Unauthorized => LoginError::new(
            "INVALID_CREDENTIALS",
            str_to_string("Invalid username or password."),
        ),
        AuthError::AccountNotApproved => LoginError::new(
            "ACCOUNT_NOT_APPROVED",
            str_to_string("Your account has not been approved yet!"),
        ),
        AuthError::Banned(expires_at) => LoginError::banned(expires_at),
        AuthError::UpgradeRequired => LoginError::new(
            "UPGRADE_REQUIRED",
            str_to_string("Launcher is outdated. Please update to the latest version."),
        ),
        AuthError::Maintenance => LoginError::new(
            "SERVICE_UNAVAILABLE",
            str_to_string("Auth service is temporarily unavailable for maintenance."),
        ),
        AuthError::Client(status) => LoginError::new(
            "AUTH_FAILED",
            with_number("Auth failed: ", status),
        ),
        AuthError::Server(status) => LoginError::new(
            "SERVER_ERROR",
            with_number("Server error: ", status),
        ),
        AuthError::Network(message) => LoginError::new("NETWORK_ERROR", message),
        AuthError::InvalidResponse(message) => LoginError::new("BAD_RESPONSE", message),
    }
}

/// The error for an unsuccessful HTTP status of the service.
pub open spec fn auth_error_of_status(status: u16) -> AuthError {
    if status == 429 {
        AuthError::RateLimited
    } else if status == 401 {
        AuthError::Unauthorized
    } else if status == 403 {
        AuthError::Banned(None)
    } else if status == 426 {
        AuthError::UpgradeRequired
    } else if status == 503 {
        AuthError::Maintenance
    } else if 400 <= status < 500 {
        AuthError::Client(status)
    } else {
        AuthError::Server(status)
    }
}

/// Reads an unsuccessful HTTP status of the authentication service.
pub fn map_auth_status(status: u16) -> (r: AuthError)
    ensures
        r == auth_error_of_status(status),
{
    if status == 429 {
        AuthError::RateLimited
    } else if status == 401 {
        AuthError::Unauthorized
    } else if status == 403 {
        AuthError::Banned(None)
    } else if status == 426 {
        AuthError::UpgradeRequired
    } else if status == 503 {
        AuthError::Maintenance
    } else if 400 <= status && status < 500 {
        AuthError::Client(status)
    } else {
        AuthError::Server(status)
    }
}

/// The text of the member named `key`, where there is one and it is a string.
pub open spec fn str_member(members: Seq<(String, JsonValue)>, key: Seq<char>) -> Option<Seq<char>> {
    match member(members, key) {
        Some(v) => v.str_view(),
        None => None,
    }
}

/// The text of the first of `message`, `error`, `detail` that is a string.
pub open spec fn first_message_member(members: Seq<(String, JsonValue)>) -> Option<Seq<char>> {
    if str_member(members, "message"@) is Some {
        str_member(members, "message"@)
    } else if str_member(members, "error"@) is Some {
        str_member(members, "error"@)
    } else {
        str_member(members, "detail"@)
    }
}

/// The message of a refusal: the body itself where it is a JSON string, the
/// first text member of a JSON object, else the trimmed raw body.
pub open spec fn refusal_message(body: Seq<char>, parsed: Option<JsonValue>) -> Seq<char> {
    match parsed {
        Some(JsonValue::Str(s)) => s@,
        Some(JsonValue::Object(members)) => match first_message_member(members@) {
            Some(m) => m,
            None => trim(body),
        },
        _ => trim(body),
    }
}

/// The member of a refusal's body that gives the ban's expiry:
/// `expires_at`, else `expiresAt`.
pub open spec fn expiry_key(parsed: Option<JsonValue>) -> Option<Seq<char>> {
    match parsed {
        Some(JsonValue::Object(m)) => if member(m@, "expires_at"@) is Some {
            Some("expires_at"@)
        } else if member(m@, "expiresAt"@) is Some {
            Some("expiresAt"@)
        } else {
            None
        },
        _ => None,
    }
}

/// The seconds an expiry value gives: an integer number, or text that trims
/// to an integer. Failing that, `float_epoch`: what the value gives read as
/// a float, which the caller computes. Any other value gives none.
pub open spec fn epoch_of(v: JsonValue, float_epoch: Option<i64>) -> Option<i64> {
    match v {
        JsonValue::Number(_, i) => match i {
            Some(n) => Some(n),
            None => float_epoch,
        },
        JsonValue::Str(s) => match parse_i64(trim(s@)) {
            Some(n) => Some(n),
            None => float_epoch,
        },
        _ => None,
    }
}

/// The ban's expiry a refusal's body gives, `float_epoch` being what its
/// expiry member gives read as a float.
pub open spec fn ban_expiry(parsed: Option<JsonValue>, float_epoch: Option<i64>) -> Option<i64> {
    match parsed {
        Some(JsonValue::Object(m)) => match expiry_key(parsed) {
            Some(k) => epoch_of(member(m@, k)->0, float_epoch),
            None => None,
        },
        _ => None,
    }
}

/// The error for an unsuccessful answer with `status`, raw `body`, the body
/// parsed as JSON where it parses, and what the body's expiry member gives
/// read as a float.
pub open spec fn auth_error_of_response(
    status: u16,
    body: Seq<char>,
    parsed: Option<JsonValue>,
    float_epoch: Option<i64>,
) -> AuthError {
    if status == 403 {
        if trim(refusal_message(body, parsed)) == "Account not yet created"@ {
            AuthError::AccountNotApproved
        } else {
            AuthError::Banned(ban_expiry(parsed, float_epoch))
        }
    } else {
        auth_error_of_status(status)
    }
}

/// A refusal (403) whose body is a JSON object is read by its first string
/// member among `message`, `error` and `detail`, in that order: the account
/// is not yet approved exactly when that member trims to "Account not yet
/// created"; if the object has none of them, the raw body decides; any
/// other refusal is a ban.
pub proof fn law_refusal_message_members(
    body: Seq<char>,
    members: Vec<(String, JsonValue)>,
    float_epoch: Option<i64>,
)
    ensures
        ({
            let r = auth_error_of_response(403, body, Some(JsonValue::Object(members)), float_epoch);
            let approved_text = |t: Seq<char>| trim(t) == "Account not yet created"@;
            let decided = |t: Seq<char>| if approved_text(t) {
                r == AuthError::AccountNotApproved
            } else {
                r is Banned
            };
            let no_message = !(member(members@, "message"@) matches Some(JsonValue::Str(_)));
            let no_error = !(member(members@, "error"@) matches Some(JsonValue::Str(_)));
            let no_detail = !(member(members@, "detail"@) matches Some(JsonValue::Str(_)));
            &&& (member(members@, "message"@) matches Some(JsonValue::Str(t)) ==> decided(t@))
            &&& no_message ==> (member(members@, "error"@) matches Some(JsonValue::Str(t)) ==> decided(t@))
            &&& (no_message && no_error) ==> (member(members@, "detail"@) matches Some(JsonValue::Str(t))
                ==> decided(t@))
            &&& (no_message && no_error && no_detail) ==> decided(trim(body))
        }),
{
    let m = members@;
    assert(str_member(m, "message"@) == match member(m, "message"@) {
        Some(v) => v.str_view(),
        None => None,
    });
    assert(str_member(m, "error"@) == match member(m, "error"@) {
        Some(v) => v.str_view(),
        None => None,
    });
    assert(str_member(m, "detail"@) == match member(m, "detail"@) {
        Some(v) => v.str_view(),
        None => None,
    });
}

/// A refusal (403) whose body is a JSON string is read by that string; one
/// whose body is neither a JSON string nor an object is read by its trimmed
/// raw text. Either way the account is not yet approved exactly when the
/// text trims to "Account not yet created", and is otherwise banned with no
/// expiry.
pub proof fn law_refusal_other_bodies(body: Seq<char>, parsed: Option<JsonValue>, float_epoch: Option<i64>)
    requires
        !(parsed matches Some(JsonValue::Object(_))),
    ensures
        ({
            let r = auth_error_of_response(403, body, parsed, float_epoch);
            let text = match parsed {
                Some(JsonValue::Str(s)) => s@,
                _ => trim(body),
            };
            if trim(text) == "Account not yet created"@ {
                r == AuthError::AccountNotApproved
            } else {
                r == AuthError::Banned(None)
            }
        }),
{
}

/// A ban's expiry comes from the body's `expires_at` member, or where there
/// is none from `expiresAt`: an integer there is the expiry as it stands, and
/// text holding an integer is read as that integer.
pub proof fn law_ban_expiry_members(
    body: Seq<char>,
    members: Vec<(String, JsonValue)>,
    float_epoch: Option<i64>,
    n: i64,
)
    requires
        trim(refusal_message(body, Some(JsonValue::Object(members)))) != "Account not yet created"@,
    ensures
        ({
            let r = auth_error_of_response(403, body, Some(JsonValue::Object(members)), float_epoch);
            let gives = |v: Option<JsonValue>| match v {
                Some(JsonValue::Number(_, Some(i))) => i == n,
                Some(JsonValue::Str(t)) => parse_i64(trim(t@)) == Some(n),
                _ => false,
            };
            &&& gives(member(members@, "expires_at"@)) ==> r == AuthError::Banned(Some(n))
            &&& member(members@, "expires_at"@) is None && gives(member(members@, "expiresAt"@)) ==> r
                == AuthError::Banned(Some(n))
            &&& member(members@, "expires_at"@) is None && member(members@, "expiresAt"@) is None ==> r
                == AuthError::Banned(None)
        }),
{
}

/// Every answer but a refusal (403) is read by its status alone, whatever
/// its body: 429 is a rate limit, 401 a wrong login, 426 an outdated
/// launcher, 503 maintenance, any other 4xx a client error and anything
/// else a server error, each carrying the status.
pub proof fn law_status_errors(status: u16, body: Seq<char>, parsed: Option<JsonValue>, float_epoch: Option<i64>)
    requires
        status != 403,
    ensures
        ({
            let r = auth_error_of_response(status, body, parsed, float_epoch);
            &&& status == 429 ==> r == AuthError::RateLimited
            &&& status == 401 ==> r == AuthError::Unauthorized
            &&& status == 426 ==> r == AuthError::UpgradeRequired
            &&& status == 503 ==> r == AuthError::Maintenance
            &&& (400 <= status < 500 && status != 401 && status != 426 && status != 429) ==> r
                == AuthError::Client(status)
            &&& !(400 <= status < 500) && status != 503 ==> r == AuthError::Server(status)
            &&& r == auth_error_of_response(status, Seq::empty(), None, None)
        }),
{
}

fn member_value<'a>(members: &'a Vec<(String, JsonValue)>, key: &str) -> (r: Option<&'a JsonValue>)
    ensures
        match r {
            Some(v) => member(members@, key@) == Some(*v),
            None => member(members@, key@) is None,
        },
{
    let mut i: usize = 0;
    assert(members@.skip(0) =~= members@);
    while i < members.len()
        invariant
            i <= members.len(),
            member(members@, key@) == member(members@.skip(i as int), key@),
        decreases members.len() - i,
    {
        assert(members@.skip(i as int)[0] == members@[i as int]);
        assert(members@.skip(i as int).drop_first() =~= members@.skip(i + 1));
        if str_eq(members[i].0.as_str(), key) {
            return Some(&members[i].1);
        }
        i = i + 1;
    }
    None
}

/// The key of the member of a refusal's body that gives the ban's expiry.
pub fn ban_expiry_key(parsed: &Option<JsonValue>) -> (r: Option<&'static str>)
    ensures
        match r {
            Some(k) => expiry_key(*parsed) == Some(k@),
            None => expiry_key(*parsed) is None,
        },
{
    match parsed {
        Some(JsonValue::Object(m)) => {
            if member_value(m, "expires_at").is_some() {
                Some("expires_at")
            } else if member_value(m, "expiresAt").is_some() {
                Some("expiresAt")
            } else {
                None
            }
        },
        _ => None,
    }
}

fn epoch_of_value(v: &JsonValue, float_epoch: Option<i64>) -> (r: Option<i64>)
    ensures
        r == epoch_of(*v, float_epoch),
{
    match v {
        JsonValue::Number(_, i) => match i {
            Some(n) => Some(*n),
            None => float_epoch,
        },
        JsonValue::Str(s) => {
            let t = trim_str(s.as_str());
            match parse_i64_chars(&t) {
                Some(n) => Some(n),
                None => float_epoch,
            }
        },
        _ => None,
    }
}

/// The ban's expiry a refusal's body gives.
pub fn ban_expiry_of(parsed: &Option<JsonValue>, float_epoch: Option<i64>) -> (r: Option<i64>)
    ensures
        r == ban_expiry(*parsed, float_epoch),
{
    match parsed {
        Some(JsonValue::Object(m)) => match ban_expiry_key(parsed) {
            Some(k) => match member_value(m, k) {
                Some(v) => epoch_of_value(v, float_epoch),
                None => None,
            },
            None => None,
        },
        _ => None,
    }
}

fn member_str(members: &Vec<(String, JsonValue)>, key: &str) -> (r: Option<Vec<char>>)
    ensures
        match r {
            Some(s) => str_member(members@, key@) == Some(s@),
            None => str_member(members@, key@) is None,
        },
{
    let mut i: usize = 0;
    assert(members@.skip(0) =~= members@);
    while i < members.len()
        invariant
            i <= members.len(),
            member(members@, key@) == member(members@.skip(i as int), key@),
        decreases members.len() - i,
    {
        assert(members@.skip(i as int)[0] == members@[i as int]);
        assert(members@.skip(i as int).drop_first() =~= members@.skip(i + 1));
        if str_eq(members[i].0.as_str(), key) {
            return match members[i].1.as_str() {
                Some(s) => Some(chars_of(s)),
                None => None,
            };
        }
        i = i + 1;
    }
    None
}

/// Reads an unsuccessful answer of the authentication service: a refusal
/// (403) whose message is "Account not yet created" means the account is
/// not approved yet, any other refusal is a ban until the expiry its body
/// gives (`ban_expiry`); other statuses go by `map_auth_status`.
/// `float_epoch` is what the body's expiry member (`ban_expiry_key`) gives
/// read as a float, which the caller computes.
pub fn map_auth_response(
    status: u16,
    body: &str,
    parsed_body: Option<JsonValue>,
    float_epoch: Option<i64>,
) -> (r: AuthError)
    ensures
        r == auth_error_of_response(status, body@, parsed_body, float_epoch),
{
    if status != 403 {
        return map_auth_status(status);
    }
    let message: Vec<char> = match &parsed_body {
        Some(JsonValue::Str(s)) => chars_of(s.as_str()),
        Some(JsonValue::Object(members)) => {
            match member_str(members, "message") {
                Some(m) => m,
                None => match member_str(members, "error") {
                    Some(m) => m,
                    None => match member_str(members, "detail") {
                        Some(m) => m,
                        None => trim_str(body),
                    },
                },
            }
        },
        _ => trim_str(body),
    };
    assert(message@ == refusal_message(body@, parsed_body));
    let trimmed = trim_chars(&message);
    let expected = chars_of("Account not yet created");
    if chars_eq(&trimmed, &expected) {
        AuthError::AccountNotApproved
    } else {
        AuthError::Banned(ban_expiry_of(&parsed_body, float_epoch))
    }
}

// ---------------------------------------------------------------------------
// Service addresses
// ---------------------------------------------------------------------------
/// `str::trim_end_matches` with one character.
pub open spec fn trim_end_char(s: Seq<char>, c: char) -> Seq<char>
    decreases s.len(),
{
    if s.len() > 0 && s.last() == c {
        trim_end_char(s.drop_last(), c)
    } else {
        s
    }
}

/// The address of a service: the forced one, trimmed and without trailing
/// slashes, where that leaves something; else the default.
pub open spec fn service_url(forced: Option<Seq<char>>, default: Seq<char>) -> Seq<char> {
    match forced {
        Some(f) => if trim_end_char(trim(f), '/').len() > 0 {
            trim_end_char(trim(f), '/')
        } else {
            default
        },
        None => default,
    }
}

pub(crate) fn service_url_exec(forced: Option<&str>, default: &str) -> (r: String)
    ensures
        r@ == service_url(
            match forced {
                Some(f) => Some(f@),
                None => None,
            },
            default@,
        ),
{
    match forced {
        Some(f) => {
            let t = trim_str(f);
            let mut n = t.len();
            assert(t@.take(n as int) =~= t@);
            while n > 0 && t[n - 1] == '/'
                invariant
                    n <= t.len(),
                    trim_end_char(t@, '/') == trim_end_char(t@.take(n as int), '/'),
                decreases n,
            {
                assert(t@.take(n as int).drop_last() =~= t@.take(n - 1));
                n = n - 1;
            }
            if n > 0 {
                let r = sub_chars(&t, 0, n);
                assert(r@ =~= t@.take(n as int));
                string_of(&r)
            } else {
                assert(t@.take(0).len() == 0);
                str_to_string(default)
            }
        },
        None => str_to_string(default),
    }
}

pub open spec fn default_auth_url() -> Seq<char> {
    "https://nf.blacksmith-ent.com/auth"@
}

/// The authentication service's address, given the `FORCE_AUTH_URL`
/// override where one is set.
pub fn auth_url(forced: Option<&str>) -> (r: String)
    ensures
        r@ == service_url(
            match forced {
                Some(f) => Some(f@),
                None => None,
            },
            default_auth_url(),
        ),
{
    service_url_exec(forced, "https://nf.blacksmith-ent.com/auth")
}

// ---------------------------------------------------------------------------
// Extending a session
// ---------------------------------------------------------------------------
/// How one request to extend a session ended.
#[derive(Debug)]
pub enum SendOutcome {
    /// An answer with this HTTP status.
    Status(u16),
    /// No connection, or no answer in time.
    Unreachable(String),
    /// Any other failure to send the request.
    Failed(String),
}

/// What to do after one request to extend a session.
#[derive(Debug)]
pub enum ExtendStep {
    Finished(Result<bool, AuthError>),
    /// The answer is an error: read its body and report `map_auth_response`.
    ReadErrorResponse,
    /// Wait a second and send the request again.
    Retry,
}

/// The number of requests made to extend a session before giving up.
pub open spec fn extend_attempts() -> u32 {
    3
}

pub open spec fn extend_step_of(attempt: u32, outcome: SendOutcome) -> ExtendStep {
    match outcome {
        SendOutcome::Status(s) => if 200 <= s < 300 {
            ExtendStep::Finished(Ok(true))
        } else if s == 401 || s == 404 {
            ExtendStep::Finished(Ok(false))
        } else {
            ExtendStep::ReadErrorResponse
        },
        SendOutcome::Unreachable(m) => if attempt >= extend_attempts() {
            ExtendStep::Finished(Err(AuthError::Network(m)))
        } else {
            ExtendStep::Retry
        },
        SendOutcome::Failed(m) => ExtendStep::Finished(Err(AuthError::InvalidResponse(m))),
    }
}

/// Decides, after request number `attempt` (from 1), whether extending the
/// session succeeded, failed, or is tried again: a success status extends
/// it, 401 and 404 mean the session is gone, an unreachable service is
/// tried again up to three requests in all.
pub fn extend_session_step(attempt: u32, outcome: SendOutcome) -> (r: ExtendStep)
    ensures
        r == extend_step_of(attempt, outcome),
{
    match outcome {
        SendOutcome::Status(s) => if 200 <= s && s < 300 {
            ExtendStep::Finished(Ok(true))
        } else if s == 401 || s == 404 {
            ExtendStep::Finished(Ok(false))
        } else {
            ExtendStep::ReadErrorResponse
        },
        SendOutcome::Unreachable(m) => if attempt >= 3 {
            ExtendStep::Finished(Err(AuthError::Network(m)))
        } else {
            ExtendStep::Retry
        },
        SendOutcome::Failed(m) => ExtendStep::Finished(Err(AuthError::InvalidResponse(m))),
    }
}

/// Extending a session never sends more than three requests: from the third
/// on, every outcome ends it.
pub proof fn law_extend_session_gives_up(attempt: u32, outcome: SendOutcome)
    requires
        attempt >= extend_attempts(),
    ensures
        !(extend_step_of(attempt, outcome) is Retry),
{
}

/// The session status that the launcher window is told after trying to
/// extend the session.
pub open spec fn session_status_of(extended: Result<bool, AuthError>) -> Seq<char> {
    match extended {
        Ok(true) => "valid"@,
        Ok(false) => "invalid"@,
        Err(AuthError::Network(_)) => "network-error"@,
        Err(_) => "invalid"@,
    }
}

pub fn session_status(extended: &Result<bool, AuthError>) -> (r: String)
    ensures
        r@ == session_status_of(*extended),
{
    match extended {
        Ok(true) => str_to_string("valid"),
        Ok(false) => str_to_string("invalid"),
        Err(AuthError::Network(_)) => str_to_string("network-error"),
        Err(_) => str_to_string("invalid"),
    }
}

} // verus!
