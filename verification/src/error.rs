use vstd::prelude::*;
use vstd::string::*;

verus! {

/// Raised when a submitter comes back before its rate window has passed.
#[derive(Debug, Clone, Copy, PartialEq, Eq)]
pub struct RateLimitExceeded {
    /// Seconds the submitter still has to wait.
    pub wait_time: u64,
}

/// Why a submission was turned down.
#[derive(Debug, Clone, Copy, PartialEq, Eq)]
pub enum SubmitError {
    /// The text holds no origin of scheme, host and port: it is no absolute
    /// URL, or a URL without such an origin, or too long to be read.
    InvalidUrl,
    /// The submitter's latest pending submission is younger than the window.
    RateLimited(RateLimitExceeded),
    /// The origin is already queued.
    DuplicateUrl,
    /// The store cannot take the row.
    StorageError,
}

/// The ten decimal digits.
pub open spec fn digits() -> Seq<char> {
    seq!['0', '1', '2', '3', '4', '5', '6', '7', '8', '9']
}

/// `n` written in decimal, without leading zeros.
pub open spec fn decimal(n: nat) -> Seq<char>
    decreases n,
{
    if n < 10 {
        seq![digits()[n as int]]
    } else {
        decimal(n / 10).push(digits()[(n % 10) as int])
    }
}

/// What a rate-limited submitter is told.
pub open spec fn rate_limit_message(wait_time: u64) -> Seq<char> {
    "You have been rate limited. Please wait "@ + decimal(wait_time as nat) + " second(s)."@
}

/// Client error: the request itself is at fault.
pub const STATUS_BAD_REQUEST: u16 = 400;

/// Too many requests from one client.
pub const STATUS_TOO_MANY_REQUESTS: u16 = 429;

/// Server error: the store is at fault.
pub const STATUS_INTERNAL_SERVER_ERROR: u16 = 500;

fn digit_text(d: u64) -> (s: &'static str)
    requires
        d < 10,
    ensures
        s@ == seq![digits()[d as int]],
{
    proof {
        reveal_strlit("0");
        reveal_strlit("1");
        reveal_strlit("2");
        reveal_strlit("3");
        reveal_strlit("4");
        reveal_strlit("5");
        reveal_strlit("6");
        reveal_strlit("7");
        reveal_strlit("8");
        reveal_strlit("9");
    }
    let s = match d {
        0 => "0",
        1 => "1",
        2 => "2",
        3 => "3",
        4 => "4",
        5 => "5",
        6 => "6",
        7 => "7",
        8 => "8",
        _ => "9",
    };
    assert(s@ =~= seq![digits()[d as int]]);
    s
}

/// Writes `n` in decimal.
pub fn decimal_text(n: u64) -> (s: String)
    ensures
        s@ == decimal(n as nat),
    decreases n,
{
    if n < 10 {
        String::from_str(digit_text(n))
    } else {
        let mut s = decimal_text(n / 10);
        s.append(digit_text(n % 10));
        assert(s@ =~= decimal(n as nat));
        s
    }
}

impl RateLimitExceeded {
    /// The limit with this many seconds left to wait.
    pub fn new(wait_time: u64) -> (limit: RateLimitExceeded)
        ensures
            limit.wait_time == wait_time,
    {
        RateLimitExceeded { wait_time }
    }

    /// The sentence that tells the submitter how long to wait.
    pub fn message(&self) -> (text: String)
        ensures
            text@ == rate_limit_message(self.wait_time),
    {
        let mut text = String::from_str("You have been rate limited. Please wait ");
        let seconds = decimal_text(self.wait_time);
        text.append(seconds.as_str());
        text.append(" second(s).");
        text
    }
}

impl SubmitError {
    /// The HTTP status that answers this failure: 429 for a rate limit, 400
    /// for a text that is no URL and for an origin that is queued already,
    /// 500 for a failure of the store.
    pub fn http_status(&self) -> (status: u16)
        ensures
            status == match *self {
                SubmitError::InvalidUrl => STATUS_BAD_REQUEST,
                SubmitError::RateLimited(_) => STATUS_TOO_MANY_REQUESTS,
                SubmitError::DuplicateUrl => STATUS_BAD_REQUEST,
                SubmitError::StorageError => STATUS_INTERNAL_SERVER_ERROR,
            },
    {
        match self {
            SubmitError::InvalidUrl => STATUS_BAD_REQUEST,
            SubmitError::RateLimited(_) => STATUS_TOO_MANY_REQUESTS,
            SubmitError::DuplicateUrl => STATUS_BAD_REQUEST,
            SubmitError::StorageError => STATUS_INTERNAL_SERVER_ERROR,
        }
    }

    /// The seconds after which the same request may be sent again, where the
    /// failure is a rate limit.
    pub fn retry_after(&self) -> (seconds: Option<u64>)
        ensures
            seconds == match *self {
                SubmitError::RateLimited(limit) => Some(limit.wait_time),
                _ => None::<u64>,
            },
    {
        match self {
            SubmitError::RateLimited(limit) => Some(limit.wait_time),
            _ => None,
        }
    }
}

} // verus!
