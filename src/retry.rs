//! Decisions of the authenticated lookup client around one upstream request:
//! what to do after each response, how long to back off, and how to read a
//! `Retry-After` header.

use vstd::prelude::*;
use vstd::string::*;

verus! {

/// Number of doublings after which rate-limit backoff stops growing.
pub const MAX_BACKOFF_DOUBLINGS: u32 = 5;

/// What came back from one upstream request, as the client classifies it.
pub enum UpstreamResponse {
    /// Status 200; the body is handed to the decoder.
    Success,
    /// Status 429, with the `Retry-After` header in seconds when it parsed.
    TooManyRequests { retry_after_secs: Option<u64> },
    /// Status 401.
    Unauthorized,
    /// Status 400; `expired` tells whether the body names `ExpiredToken`.
    BadRequest { expired: bool },
    /// Any other status.
    OtherStatus { status: u16 },
    /// The request did not complete.
    NetworkError,
}

/// Why a request was given up.
pub enum FetchFailure {
    /// The session could not be refreshed.
    RefreshFailed,
    /// 401 persisted after the allowed retries.
    PermissionDenied,
    /// A 400 or another non-success status.
    InvalidResponse { status: u16 },
    /// Network errors persisted after the allowed retries.
    Transport,
}

/// What the client does next.
pub enum FetchAction {
    /// Decode the body and return it.
    Deliver,
    /// Sleep this many milliseconds, then send the request again.
    RetryAfter { wait_ms: u64 },
    /// Refresh the session, then report the outcome with `after_refresh`.
    Refresh,
    /// Send the request again at once, with the current token.
    RetryNow,
    /// Give up.
    Fail { failure: FetchFailure },
}

/// Retry bookkeeping of one request.
pub struct RetryState {
    pub attempt: u32,
    /// Consecutive 429 answers; each doubles the backoff, up to five times.
    pub throttled: u32,
    pub max_retries: u32,
    pub base_delay_ms: u64,
}

pub open spec fn pow2(k: nat) -> nat
    decreases k,
{
    if k == 0 { 1 } else { 2 * pow2((k - 1) as nat) }
}

pub open spec fn min_nat(a: nat, b: nat) -> nat {
    if a <= b { a } else { b }
}

/// Backoff for a 429 without a usable `Retry-After`: the base delay doubled
/// once per attempt, at most five times, saturating at `u64::MAX`.
pub open spec fn rate_limit_backoff_ms(base_ms: u64, attempt: u32) -> nat {
    min_nat(base_ms as nat * pow2(min_nat(attempt as nat, MAX_BACKOFF_DOUBLINGS as nat)), u64::MAX as nat)
}

/// Wait before retrying a 429: the header's seconds when present, else the backoff.
pub open spec fn rate_limit_wait_ms(base_ms: u64, attempt: u32, retry_after_secs: Option<u64>) -> nat {
    match retry_after_secs {
        Some(s) => min_nat(s as nat * 1000, u64::MAX as nat),
        None => rate_limit_backoff_ms(base_ms, attempt),
    }
}

/// Wait before retrying after the `attempt`-th network error.
pub open spec fn network_wait_ms(base_ms: u64, attempt: nat) -> nat {
    min_nat(base_ms as nat * attempt, u64::MAX as nat)
}

/// `a * b`, or `u64::MAX` where the product does not fit.
pub fn mul_saturating(a: u64, b: u64) -> (r: u64)
    ensures
        r as nat == min_nat(a as nat * b as nat, u64::MAX as nat),
{
    if b != 0 && a > u64::MAX / b {
        assert(a as nat * b as nat > u64::MAX as nat) by (nonlinear_arith)
            requires b != 0, a > u64::MAX / b;
        u64::MAX
    } else {
        assert(a as nat * b as nat <= u64::MAX as nat) by (nonlinear_arith)
            requires b == 0 || a <= u64::MAX / b;
        a * b
    }
}

/// How long to wait after a 429.
pub fn rate_limit_wait(base_ms: u64, attempt: u32, retry_after_secs: Option<u64>) -> (r: u64)
    ensures
        r as nat == rate_limit_wait_ms(base_ms, attempt, retry_after_secs),
{
    match retry_after_secs {
        Some(s) => mul_saturating(s, 1000),
        None => {
            let k: u32 = if attempt < MAX_BACKOFF_DOUBLINGS { attempt } else { MAX_BACKOFF_DOUBLINGS };
            let mut d: u64 = base_ms;
            let mut i: u32 = 0;
            assert(pow2(0nat) == 1);
            assert(base_ms as nat * pow2(0nat) == base_ms as nat);
            while i < k
                invariant
                    i <= k <= MAX_BACKOFF_DOUBLINGS,
                    k as nat == min_nat(attempt as nat, MAX_BACKOFF_DOUBLINGS as nat),
                    d as nat == min_nat(base_ms as nat * pow2(i as nat), u64::MAX as nat),
                decreases k - i,
            {
                proof {
                    assert(pow2((i + 1) as nat) == 2 * pow2(i as nat));
                    assert(base_ms as nat * pow2((i + 1) as nat) == 2 * (base_ms as nat * pow2(i as nat))) by (nonlinear_arith)
                        requires pow2((i + 1) as nat) == 2 * pow2(i as nat);
                }
                d = mul_saturating(d, 2);
                i = i + 1;
            }
            d
        }
    }
}

impl RetryState {
    pub fn new(max_retries: u32, base_delay_ms: u64) -> (r: RetryState)
        ensures
            r.attempt == 0,
            r.throttled == 0,
            r.max_retries == max_retries,
            r.base_delay_ms == base_delay_ms,
    {
        RetryState { attempt: 0, throttled: 0, max_retries, base_delay_ms }
    }

    /// The next step after `response`.
    pub fn on_response(&mut self, response: &UpstreamResponse) -> (action: FetchAction)
        ensures
            final(self).max_retries == old(self).max_retries,
            final(self).base_delay_ms == old(self).base_delay_ms,
            final(self).throttled == if response is TooManyRequests {
                if old(self).throttled < u32::MAX { old(self).throttled + 1 } else { old(self).throttled as int }
            } else {
                0
            },
            match *response {
                UpstreamResponse::Success => action is Deliver && final(self).attempt == old(self).attempt,
                UpstreamResponse::TooManyRequests { retry_after_secs } => {
                    &&& final(self).attempt == old(self).attempt
                    &&& action matches FetchAction::RetryAfter { wait_ms }
                    &&& wait_ms as nat == rate_limit_wait_ms(old(self).base_delay_ms, old(self).throttled, retry_after_secs)
                },
                UpstreamResponse::Unauthorized => action is Refresh && final(self).attempt == old(self).attempt,
                UpstreamResponse::BadRequest { expired } => {
                    &&& final(self).attempt == old(self).attempt
                    &&& if expired {
                        action is Refresh
                    } else {
                        action == (FetchAction::Fail { failure: FetchFailure::InvalidResponse { status: 400 } })
                    }
                },
                UpstreamResponse::OtherStatus { status } => {
                    &&& final(self).attempt == old(self).attempt
                    &&& action == (FetchAction::Fail { failure: FetchFailure::InvalidResponse { status } })
                },
                UpstreamResponse::NetworkError => if old(self).attempt >= old(self).max_retries {
                    &&& action == (FetchAction::Fail { failure: FetchFailure::Transport })
                    &&& final(self).attempt == old(self).attempt
                } else {
                    &&& final(self).attempt == old(self).attempt + 1
                    &&& action matches FetchAction::RetryAfter { wait_ms }
                    &&& wait_ms as nat == network_wait_ms(old(self).base_delay_ms, final(self).attempt as nat)
                },
            },
    {
        let throttled = self.throttled;
        self.throttled = 0;
        match response {
            UpstreamResponse::Success => FetchAction::Deliver,
            UpstreamResponse::TooManyRequests { retry_after_secs } => {
                self.throttled = if throttled < u32::MAX { throttled + 1 } else { throttled };
                FetchAction::RetryAfter { wait_ms: rate_limit_wait(self.base_delay_ms, throttled, *retry_after_secs) }
            },
            UpstreamResponse::Unauthorized => FetchAction::Refresh,
            UpstreamResponse::BadRequest { expired } => {
                if *expired {
                    FetchAction::Refresh
                } else {
                    FetchAction::Fail { failure: FetchFailure::InvalidResponse { status: 400 } }
                }
            },
            UpstreamResponse::OtherStatus { status } => {
                FetchAction::Fail { failure: FetchFailure::InvalidResponse { status: *status } }
            },
            UpstreamResponse::NetworkError => {
                if self.attempt >= self.max_retries {
                    FetchAction::Fail { failure: FetchFailure::Transport }
                } else {
                    self.attempt = self.attempt + 1;
                    FetchAction::RetryAfter {
                        wait_ms: mul_saturating(self.base_delay_ms, self.attempt as u64),
                    }
                }
            },
        }
    }

    /// The next step once the refresh asked for by a 401 (`unauthorized`) or
    /// by an expired-token 400 has finished, successfully or not.
    pub fn after_refresh(&mut self, unauthorized: bool, refreshed: bool) -> (action: FetchAction)
        ensures
            final(self).throttled == old(self).throttled,
            final(self).max_retries == old(self).max_retries,
            final(self).base_delay_ms == old(self).base_delay_ms,
            !refreshed ==> action == (FetchAction::Fail { failure: FetchFailure::RefreshFailed })
                && final(self).attempt == old(self).attempt,
            refreshed && old(self).attempt < old(self).max_retries ==> action is RetryNow
                && final(self).attempt == old(self).attempt + 1,
            refreshed && old(self).attempt >= old(self).max_retries ==> final(self).attempt
                == old(self).attempt && action == (if unauthorized {
                FetchAction::Fail { failure: FetchFailure::PermissionDenied }
            } else {
                FetchAction::Fail { failure: FetchFailure::InvalidResponse { status: 400 } }
            }),
    {
        if !refreshed {
            FetchAction::Fail { failure: FetchFailure::RefreshFailed }
        } else if self.attempt < self.max_retries {
            self.attempt = self.attempt + 1;
            FetchAction::RetryNow
        } else if unauthorized {
            FetchAction::Fail { failure: FetchFailure::PermissionDenied }
        } else {
            FetchAction::Fail { failure: FetchFailure::InvalidResponse { status: 400 } }
        }
    }
}

/// Whether `t` occurs in `s` at position `i`.
pub open spec fn occurs_at(s: Seq<char>, t: Seq<char>, i: int) -> bool {
    0 <= i && i + t.len() <= s.len() && s.subrange(i, i + t.len()) == t
}

pub open spec fn contains_seq(s: Seq<char>, t: Seq<char>) -> bool {
    exists|i: int| occurs_at(s, t, i)
}

/// Whether `t` occurs in `s`.
pub fn contains_str(s: &str, t: &str) -> (r: bool)
    ensures
        r == contains_seq(s@, t@),
{
    let n = s.unicode_len();
    let m = t.unicode_len();
    if m > n {
        assert forall|i: int| !occurs_at(s@, t@, i) by {}
        return false;
    }
    if m == 0 {
        assert(s@.subrange(0, 0) =~= t@);
        assert(occurs_at(s@, t@, 0));
        return true;
    }
    let mut i: usize = 0;
    while i <= n - m
        invariant
            n == s@.len(),
            m == t@.len(),
            1 <= m <= n,
            i <= n - m + 1,
            forall|k: int| 0 <= k < i ==> !occurs_at(s@, t@, k),
        decreases n - m + 1 - i,
    {
        let mut j: usize = 0;
        let mut same = true;
        while j < m
            invariant
                n == s@.len(),
                m == t@.len(),
                i + m <= n,
                j <= m,
                same ==> forall|k: int| 0 <= k < j ==> s@[i + k] == t@[k],
                !same ==> !occurs_at(s@, t@, i as int),
            decreases m - j,
        {
            if same && s.get_char(i + j) != t.get_char(j) {
                assert(s@.subrange(i as int, i + m)[j as int] != t@[j as int]);
                same = false;
            }
            j = j + 1;
        }
        if same {
            assert(s@.subrange(i as int, i + m) =~= t@);
            assert(occurs_at(s@, t@, i as int));
            return true;
        }
        i = i + 1;
    }
    assert forall|k: int| !occurs_at(s@, t@, k) by {
        if 0 <= k && k + m <= n {
            assert(k < i);
        }
    }
    false
}

/// Whether a 400 body reports an expired session token.
pub fn is_expired_token_body(body: &str) -> (r: bool)
    ensures
        r == contains_seq(body@, seq!['E', 'x', 'p', 'i', 'r', 'e', 'd', 'T', 'o', 'k', 'e', 'n']),
{
    proof {
        reveal_strlit("ExpiredToken");
        assert("ExpiredToken"@ =~= seq!['E', 'x', 'p', 'i', 'r', 'e', 'd', 'T', 'o', 'k', 'e', 'n']);
    }
    contains_str(body, "ExpiredToken")
}

pub open spec fn is_digit(c: char) -> bool {
    '0' <= c && c <= '9'
}

pub open spec fn digit_value(c: char) -> nat {
    (c as nat - '0' as nat) as nat
}

/// The number that the decimal digits `s` spell.
pub open spec fn decimal_value(s: Seq<char>) -> nat
    decreases s.len(),
{
    if s.len() == 0 {
        0
    } else {
        decimal_value(s.drop_last()) * 10 + digit_value(s.last())
    }
}

pub open spec fn all_digits(s: Seq<char>) -> bool {
    forall|i: int| 0 <= i < s.len() ==> is_digit(#[trigger] s[i])
}

/// What `u64`'s `FromStr` accepts: an optional `+` then at least one digit,
/// with a value that fits.
pub open spec fn parsed_u64(s: Seq<char>) -> Option<u64> {
    let body = if s.len() > 0 && s[0] == '+' { s.drop_first() } else { s };
    if body.len() > 0 && all_digits(body) && decimal_value(body) <= u64::MAX {
        Some(decimal_value(body) as u64)
    } else {
        None
    }
}

/// Reads a `Retry-After` header value given in whole seconds.
pub fn parse_retry_after(value: &str) -> (r: Option<u64>)
    ensures
        r == parsed_u64(value@),
{
    let n = value.unicode_len();
    let start: usize = if n > 0 && value.get_char(0) == '+' { 1 } else { 0 };
    let ghost body = if value@.len() > 0 && value@[0] == '+' { value@.drop_first() } else { value@ };
    assert(body =~= value@.subrange(start as int, n as int));
    if start >= n {
        return None;
    }
    let mut acc: u64 = 0;
    let mut i: usize = start;
    while i < n
        invariant
            n == value@.len(),
            start <= i <= n,
            body == value@.subrange(start as int, n as int),
            body == (if value@.len() > 0 && value@[0] == '+' { value@.drop_first() } else { value@ }),
            all_digits(value@.subrange(start as int, i as int)),
            acc as nat == decimal_value(value@.subrange(start as int, i as int)),
        decreases n - i,
    {
        let c = value.get_char(i);
        let ghost pre = value@.subrange(start as int, i as int);
        let ghost next = value@.subrange(start as int, i + 1);
        assert(next.drop_last() =~= pre);
        if !('0' <= c && c <= '9') {
            assert(!is_digit(body[i - start]));
            assert(!all_digits(body));
            return None;
        }
        let d: u64 = (c as u32 - '0' as u32) as u64;
        if acc > (u64::MAX - d) / 10 {
            proof {
                assert(decimal_value(next) == decimal_value(pre) * 10 + d);
                if all_digits(body) {
                    lemma_decimal_monotone(body, (i + 1 - start) as nat);
                    assert(body.subrange(0, (i + 1 - start) as int) =~= next);
                }
            }
            return None;
        }
        acc = acc * 10 + d;
        i = i + 1;
        assert(all_digits(next));
    }
    Some(acc)
}

/// The value of a prefix of a digit string never exceeds the whole's.
pub proof fn lemma_decimal_monotone(s: Seq<char>, k: nat)
    requires
        k <= s.len(),
        all_digits(s),
    ensures
        decimal_value(s.subrange(0, k as int)) <= decimal_value(s),
    decreases s.len() - k,
{
    if k < s.len() {
        lemma_decimal_monotone(s, k + 1);
        let a = s.subrange(0, k as int);
        let b = s.subrange(0, k + 1 as int);
        assert(b.drop_last() =~= a);
        assert(decimal_value(b) == decimal_value(a) * 10 + digit_value(b.last()));
    } else {
        assert(s.subrange(0, k as int) =~= s);
    }
}

} // verus!
