//! Signing in to GitHub: the device flow's answers and waits, and the token
//! a user pastes by hand.
use crate::text::{chars_of, string_of, trim_by, trim_chars, CharSet};
use vstd::prelude::*;
use vstd::string::*;

verus! {

/// Step one of the device flow: the code the user types in the browser.
#[derive(Clone, Debug)]
pub struct DeviceStart {
    pub user_code: String,
    pub verification_uri: String,
    pub device_code: String,
    pub interval: u64,
    pub expires_in: u64,
}

/// GitHub's answer to the request for a device code, field by field: a
/// field that is missing or not of the expected kind is `None`.
#[derive(Clone, Debug)]
pub struct DeviceCodeReply {
    pub device_code: Option<String>,
    pub user_code: Option<String>,
    pub verification_uri: Option<String>,
    pub interval: Option<u64>,
    pub expires_in: Option<u64>,
    /// The whole answer as compact JSON text.
    pub raw: String,
}

/// Seconds between two polls when GitHub names none.
pub const DEFAULT_POLL_INTERVAL_SECS: u64 = 5;

/// Seconds a device code lives when GitHub names none.
pub const DEFAULT_CODE_LIFETIME_SECS: u64 = 900;

/// The hourly request limit assumed when GitHub does not report one.
pub const DEFAULT_RATE_LIMIT: u64 = 5000;

/// A text field of a reply, empty when it is missing.
pub open spec fn text_or_empty(o: Option<String>) -> Seq<char> {
    match o {
        Some(s) => s@,
        None => Seq::empty(),
    }
}

/// A number field of a reply, `d` when it is missing.
pub open spec fn number_or(o: Option<u64>, d: u64) -> u64 {
    match o {
        Some(n) => n,
        None => d,
    }
}

fn text_field(o: Option<String>) -> (s: String)
    ensures
        s@ == text_or_empty(o),
{
    match o {
        Some(s) => s,
        None => String::new(),
    }
}

/// What the first step of the device flow gives: the codes of the reply,
/// or the reply itself in the error when it holds no device code.
pub fn device_start_from(reply: DeviceCodeReply) -> (r: Result<DeviceStart, String>)
    ensures
        text_or_empty(reply.device_code).len() == 0 ==> (r matches Err(e) && e@
            == "GitHub não iniciou o login: "@ + reply.raw@),
        text_or_empty(reply.device_code).len() > 0 ==> (r matches Ok(d) && d.device_code@
            == text_or_empty(reply.device_code) && d.user_code@ == text_or_empty(reply.user_code)
            && d.verification_uri@ == text_or_empty(reply.verification_uri) && d.interval
            == number_or(reply.interval, DEFAULT_POLL_INTERVAL_SECS) && d.expires_in == number_or(
            reply.expires_in,
            DEFAULT_CODE_LIFETIME_SECS,
        )),
{
    let device_code = text_field(reply.device_code);
    if device_code.as_str().unicode_len() == 0 {
        let mut e = String::from_str("GitHub não iniciou o login: ");
        e.append(reply.raw.as_str());
        return Err(e);
    }
    let interval = match reply.interval {
        Some(n) => n,
        None => DEFAULT_POLL_INTERVAL_SECS,
    };
    let expires_in = match reply.expires_in {
        Some(n) => n,
        None => DEFAULT_CODE_LIFETIME_SECS,
    };
    Ok(
        DeviceStart {
            user_code: text_field(reply.user_code),
            verification_uri: text_field(reply.verification_uri),
            device_code,
            interval,
            expires_in,
        },
    )
}

/// The state of the wait for the user's authorization: when it gives up,
/// and how long it sleeps before the next poll.
#[derive(Clone, Copy, Debug)]
pub struct DevicePoll {
    pub deadline: u64,
    pub wait: u64,
}

/// How long the wait may last: what GitHub said, kept between one minute
/// and half an hour.
pub open spec fn poll_lifetime(expires_in: u64) -> int {
    if expires_in < 60 {
        60
    } else if expires_in > 1800 {
        1800
    } else {
        expires_in as int
    }
}

/// The first wait: the interval GitHub asked for, and never under five
/// seconds.
pub open spec fn first_wait(interval: u64) -> u64 {
    if interval < 5 {
        5
    } else {
        interval
    }
}

/// Starts waiting at `now` (seconds since the epoch).
pub fn begin_device_poll(now: u64, interval: u64, expires_in: u64) -> (p: DevicePoll)
    requires
        now + poll_lifetime(expires_in) <= u64::MAX,
    ensures
        p.deadline == now + poll_lifetime(expires_in),
        p.wait == first_wait(interval),
{
    let life: u64 = if expires_in < 60 {
        60
    } else if expires_in > 1800 {
        1800
    } else {
        expires_in
    };
    let wait: u64 = if interval < 5 {
        5
    } else {
        interval
    };
    DevicePoll { deadline: now + life, wait }
}

/// Before each poll: past the deadline the wait ends with an error, else it
/// sleeps for the current wait.
pub fn poll_tick(p: &DevicePoll, now: u64) -> (r: Result<u64, String>)
    ensures
        now > p.deadline ==> (r matches Err(e) && e@ == "Tempo esgotado — tente de novo"@),
        now <= p.deadline ==> r == Ok::<u64, String>(p.wait),
{
    if now > p.deadline {
        Err(String::from_str("Tempo esgotado — tente de novo"))
    } else {
        Ok(p.wait)
    }
}

/// GitHub's answer to one poll, field by field.
#[derive(Clone, Debug)]
pub struct TokenReply {
    pub access_token: Option<String>,
    pub error: Option<String>,
}

/// Where one poll leaves the wait.
#[derive(Clone, Debug)]
pub enum PollOutcome {
    /// The user authorized: the token to keep.
    Authorized(String),
    /// Not yet: poll again from this state.
    Pending(DevicePoll),
    /// The wait is over without a token.
    Failed(String),
}

/// The message a poll error ends the wait with, or none when it only says
/// to keep waiting.
pub open spec fn poll_failure(err: Seq<char>) -> Option<Seq<char>> {
    if err == "authorization_pending"@ || err == "slow_down"@ {
        None
    } else if err == "expired_token"@ {
        Some("O código expirou — tente de novo"@)
    } else if err == "access_denied"@ {
        Some("Login cancelado no GitHub"@)
    } else {
        Some("GitHub: "@ + err)
    }
}

/// What one poll's answer does to the wait: a token ends it; no error, or
/// `authorization_pending`, keeps it as it is; `slow_down` adds five
/// seconds to the wait; any other error ends it with a message. The deadline
/// never moves.
pub fn after_poll_reply(p: DevicePoll, reply: TokenReply) -> (r: PollOutcome)
    requires
        reply.access_token is None ==> (reply.error matches Some(e) ==> (e@ == "slow_down"@
            ==> p.wait + 5 <= u64::MAX)),
    ensures
        match reply.access_token {
            Some(t) => r == PollOutcome::Authorized(t),
            None => match reply.error {
                None => r == PollOutcome::Pending(p),
                Some(e) => if e@ == "slow_down"@ {
                    r matches PollOutcome::Pending(q) && q.deadline == p.deadline && q.wait == p.wait + 5
                } else {
                    match poll_failure(e@) {
                        None => r == PollOutcome::Pending(p),
                        Some(m) => r matches PollOutcome::Failed(msg) && msg@ == m,
                    }
                },
            },
        },
{
    match reply.access_token {
        Some(t) => PollOutcome::Authorized(t),
        None => match reply.error {
            None => PollOutcome::Pending(p),
            Some(e) => {
                if crate::text::same_text(e.as_str(), "slow_down") {
                    PollOutcome::Pending(DevicePoll { deadline: p.deadline, wait: p.wait + 5 })
                } else if crate::text::same_text(e.as_str(), "authorization_pending") {
                    PollOutcome::Pending(p)
                } else if crate::text::same_text(e.as_str(), "expired_token") {
                    PollOutcome::Failed(String::from_str("O código expirou — tente de novo"))
                } else if crate::text::same_text(e.as_str(), "access_denied") {
                    PollOutcome::Failed(String::from_str("Login cancelado no GitHub"))
                } else {
                    let mut m = String::from_str("GitHub: ");
                    m.append(e.as_str());
                    PollOutcome::Failed(m)
                }
            },
        },
    }
}

/// The request limit a token grants: what GitHub reported, else the usual
/// limit of an authenticated user.
pub fn granted_limit(reported: Option<u64>) -> (n: u64)
    ensures
        n == number_or(reported, DEFAULT_RATE_LIMIT),
{
    match reported {
        Some(n) => n,
        None => DEFAULT_RATE_LIMIT,
    }
}

/// The token to keep from what the user pasted: trimmed, and none when
/// nothing is left (which removes the stored token).
pub fn token_to_store(pasted: &str) -> (r: Option<String>)
    ensures
        trim_by(pasted@, CharSet::Whitespace).len() == 0 ==> r is None,
        trim_by(pasted@, CharSet::Whitespace).len() > 0 ==> (r matches Some(t) && t@ == trim_by(
            pasted@,
            CharSet::Whitespace,
        )),
{
    let v = chars_of(pasted);
    let t = trim_chars(&v, CharSet::Whitespace);
    if t.len() == 0 {
        None
    } else {
        Some(string_of(&t))
    }
}

} // verus!
