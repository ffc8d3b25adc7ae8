//! Classification of transport failures and the adaptive retry delay.
use vstd::prelude::*;
use vstd::arithmetic::div_mod::lemma_mod_bound;
use crate::clock::now_millis;
use crate::text::{contains_str, has_substring, lower_of, lowercase};

verus! {

/// The class of a transport failure, read from its error text.
#[derive(Clone, Copy, Debug, PartialEq, Eq, Structural)]
pub enum FailureKind {
    /// The server refuses more connections or logins.
    ServerRejection,
    /// The network dropped or timed out.
    Network,
    /// Anything else.
    Generic,
}

/// Lowercase text that marks a server rejection.
pub open spec fn rejection_signal(t: Seq<char>) -> bool {
    has_substring(t, "too many connections"@) || has_substring(t, "connection limit"@)
        || has_substring(t, "max connections"@) || has_substring(t, "server full"@)
        || has_substring(t, "connection refused"@) || has_substring(t, "service unavailable"@)
        || has_substring(t, "421"@) || has_substring(t, "530"@) || has_substring(t, "exceeded"@)
        || has_substring(t, "busy"@)
}

/// Lowercase text that marks a network failure.
pub open spec fn network_signal(t: Seq<char>) -> bool {
    has_substring(t, "timeout"@) || has_substring(t, "connection reset"@)
        || has_substring(t, "network unreachable"@) || has_substring(t, "connection lost"@)
        || has_substring(t, "broken pipe"@) || has_substring(t, "connection aborted"@)
}

/// The class of a failure whose lowercased error text is `t`.
pub open spec fn kind_of_lowered(t: Seq<char>) -> FailureKind {
    if rejection_signal(t) {
        FailureKind::ServerRejection
    } else if network_signal(t) {
        FailureKind::Network
    } else {
        FailureKind::Generic
    }
}

/// Retry intervals below this many milliseconds select the fast backoff mode.
pub const FAST_MODE_LIMIT_MS: i64 = 5000;

/// Longest delay in the normal backoff mode, in milliseconds.
pub const NORMAL_CAP_MS: u64 = 300000;

pub open spec fn is_fast_mode(sync_interval_ms: int) -> bool {
    sync_interval_ms < FAST_MODE_LIMIT_MS
}

/// Base delay of a failure class, in seconds.
pub open spec fn base_secs(kind: FailureKind, fast: bool) -> int {
    match kind {
        FailureKind::ServerRejection => if fast { 2 } else { 30 },
        FailureKind::Network => if fast { 1 } else { 5 },
        FailureKind::Generic => if fast { 1 } else { 10 },
    }
}

/// 1000 · 1.5^min(k, 3): the fast-mode growth factor, in thousandths.
pub open spec fn fast_factor_permille(k: int) -> int {
    if k <= 0 {
        1000
    } else if k == 1 {
        1500
    } else if k == 2 {
        2250
    } else {
        3375
    }
}

/// 2^min(k, 6): the normal-mode growth factor.
pub open spec fn normal_factor(k: int) -> int {
    if k <= 0 {
        1
    } else if k == 1 {
        2
    } else if k == 2 {
        4
    } else if k == 3 {
        8
    } else if k == 4 {
        16
    } else if k == 5 {
        32
    } else {
        64
    }
}

/// The delay before jitter after the `n`-th consecutive failure, in milliseconds.
pub open spec fn growth_ms(kind: FailureKind, sync_interval_ms: int, n: int) -> int {
    let fast = is_fast_mode(sync_interval_ms);
    if fast {
        base_secs(kind, fast) * fast_factor_permille(n - 1)
    } else {
        base_secs(kind, fast) * 1000 * normal_factor(n - 1)
    }
}

/// The longest delay of a mode, in milliseconds.
pub open spec fn cap_ms(sync_interval_ms: int) -> int {
    if is_fast_mode(sync_interval_ms) {
        if sync_interval_ms > 5000 { sync_interval_ms } else { 5000 }
    } else {
        NORMAL_CAP_MS as int
    }
}

/// The retry delay after the `n`-th consecutive failure, in milliseconds: the
/// growth delay plus a jitter in [0, growth / 4] drawn from `seed`, clamped to
/// the mode's cap.
pub open spec fn backoff_ms(kind: FailureKind, sync_interval_ms: int, n: int, seed: int) -> int {
    let g = growth_ms(kind, sync_interval_ms, n);
    let d = g + seed % (g / 4 + 1);
    let cap = cap_ms(sync_interval_ms);
    if d < cap { d } else { cap }
}

/// Last failure count at which the delay before jitter still grows: three in
/// the fast mode, six in the normal mode.
pub open spec fn growth_limit(sync_interval_ms: int) -> int {
    if is_fast_mode(sync_interval_ms) { 3 } else { 6 }
}

proof fn lemma_growth_step(kind: FailureKind, sync_interval_ms: int, n: int)
    requires
        n >= 1,
    ensures
        growth_ms(kind, sync_interval_ms, n) <= growth_ms(kind, sync_interval_ms, n + 1),
        n <= growth_limit(sync_interval_ms) ==> growth_ms(kind, sync_interval_ms, n) + growth_ms(
            kind,
            sync_interval_ms,
            n,
        ) / 4 <= growth_ms(kind, sync_interval_ms, n + 1),
        n > growth_limit(sync_interval_ms) ==> growth_ms(kind, sync_interval_ms, n) == growth_ms(
            kind,
            sync_interval_ms,
            n + 1,
        ),
{
}

/// Backoff monotonicity: within one class of failure and one mode, the delay
/// after a further consecutive failure is never shorter, for the same jitter
/// draw.
pub proof fn backoff_non_decreasing(kind: FailureKind, sync_interval_ms: int, n: int, seed: int)
    requires
        n >= 1,
    ensures
        backoff_ms(kind, sync_interval_ms, n, seed) <= backoff_ms(kind, sync_interval_ms, n + 1, seed),
{
    lemma_growth_step(kind, sync_interval_ms, n);
    let g1 = growth_ms(kind, sync_interval_ms, n);
    let g2 = growth_ms(kind, sync_interval_ms, n + 1);
    lemma_mod_bound(seed, g1 / 4 + 1);
    lemma_mod_bound(seed, g2 / 4 + 1);
}

/// While the delay before jitter still grows, the delay after a further
/// consecutive failure is never shorter, whatever the two jitter draws were.
pub proof fn backoff_grows_despite_jitter(
    kind: FailureKind,
    sync_interval_ms: int,
    n: int,
    seed1: int,
    seed2: int,
)
    requires
        1 <= n <= growth_limit(sync_interval_ms),
    ensures
        backoff_ms(kind, sync_interval_ms, n, seed1) <= backoff_ms(kind, sync_interval_ms, n + 1, seed2),
{
    lemma_growth_step(kind, sync_interval_ms, n);
    let g1 = growth_ms(kind, sync_interval_ms, n);
    let g2 = growth_ms(kind, sync_interval_ms, n + 1);
    lemma_mod_bound(seed1, g1 / 4 + 1);
    lemma_mod_bound(seed2, g2 / 4 + 1);
}

/// Consecutive-failure state shared by the workers of one agent.
#[derive(Clone, Copy, Debug, PartialEq, Eq, Structural)]
pub struct ConnectionManager {
    /// Failures since the last success.
    pub failed_attempts: u64,
    /// When the last failure was recorded, in milliseconds since the epoch.
    pub last_failure_ms: Option<i64>,
    /// Set by a server rejection, cleared by a success.
    pub server_limit_detected: bool,
}

/// The state after a failure with error text `text`, and what `record_failure`
/// returns: whether it was a server rejection, and the delay in milliseconds.
pub open spec fn after_failure(
    m: ConnectionManager,
    text: Seq<char>,
    sync_interval_ms: int,
    now_ms: i64,
    seed: int,
) -> (ConnectionManager, (bool, u64)) {
    let kind = kind_of_lowered(lower_of(text));
    let n = if m.failed_attempts == u64::MAX { u64::MAX } else { (m.failed_attempts + 1) as u64 };
    let rejected = kind == FailureKind::ServerRejection;
    (
        ConnectionManager {
            failed_attempts: n,
            last_failure_ms: Some(now_ms),
            server_limit_detected: m.server_limit_detected || rejected,
        },
        (rejected, backoff_ms(kind, sync_interval_ms, n as int, seed) as u64),
    )
}

impl ConnectionManager {
    /// A manager with no failures recorded.
    pub fn new() -> (r: ConnectionManager)
        ensures
            r.failed_attempts == 0,
            r.last_failure_ms is None,
            !r.server_limit_detected,
    {
        ConnectionManager { failed_attempts: 0, last_failure_ms: None, server_limit_detected: false }
    }

    /// Whether lowercase error text marks a server rejection.
    pub fn is_rejection_text(lowered: &str) -> (r: bool)
        ensures
            r == rejection_signal(lowered@),
    {
        contains_str(lowered, "too many connections") || contains_str(lowered, "connection limit")
            || contains_str(lowered, "max connections") || contains_str(lowered, "server full")
            || contains_str(lowered, "connection refused") || contains_str(
            lowered,
            "service unavailable",
        ) || contains_str(lowered, "421") || contains_str(lowered, "530") || contains_str(
            lowered,
            "exceeded",
        ) || contains_str(lowered, "busy")
    }

    /// Whether lowercase error text marks a network failure.
    pub fn is_network_text(lowered: &str) -> (r: bool)
        ensures
            r == network_signal(lowered@),
    {
        contains_str(lowered, "timeout") || contains_str(lowered, "connection reset")
            || contains_str(lowered, "network unreachable") || contains_str(
            lowered,
            "connection lost",
        ) || contains_str(lowered, "broken pipe") || contains_str(lowered, "connection aborted")
    }

    /// The class of a failure from its lowercase error text.
    pub fn classify_lowered(lowered: &str) -> (r: FailureKind)
        ensures
            r == kind_of_lowered(lowered@),
    {
        if Self::is_rejection_text(lowered) {
            FailureKind::ServerRejection
        } else if Self::is_network_text(lowered) {
            FailureKind::Network
        } else {
            FailureKind::Generic
        }
    }

    /// Whether an error text marks a server rejection, ignoring case.
    pub fn is_server_rejection_error(error_msg: &str) -> (r: bool)
        ensures
            r == rejection_signal(lower_of(error_msg@)),
    {
        let lowered = lowercase(error_msg);
        Self::is_rejection_text(lowered.as_str())
    }

    /// Whether an error text marks a network failure, ignoring case.
    pub fn is_network_error(error_msg: &str) -> (r: bool)
        ensures
            r == network_signal(lower_of(error_msg@)),
    {
        let lowered = lowercase(error_msg);
        Self::is_network_text(lowered.as_str())
    }

    /// The retry delay in milliseconds after the `n`-th consecutive failure of
    /// class `kind`, with jitter drawn from `seed`.
    pub fn backoff_delay_ms(kind: FailureKind, sync_interval_ms: i64, n: u64, seed: u64) -> (r: u64)
        ensures
            r == backoff_ms(kind, sync_interval_ms as int, n as int, seed as int),
    {
        let fast = sync_interval_ms < FAST_MODE_LIMIT_MS;
        let base: u64 = match kind {
            FailureKind::ServerRejection => if fast { 2 } else { 30 },
            FailureKind::Network => if fast { 1 } else { 5 },
            FailureKind::Generic => if fast { 1 } else { 10 },
        };
        let k: u64 = if n == 0 { 0 } else { n - 1 };
        let growth: u64 = if fast {
            let f: u64 = if k == 0 { 1000 } else if k == 1 { 1500 } else if k == 2 { 2250 } else { 3375 };
            base * f
        } else {
            let f: u64 = if k == 0 { 1 } else if k == 1 { 2 } else if k == 2 { 4 } else if k == 3 {
                8
            } else if k == 4 {
                16
            } else if k == 5 {
                32
            } else {
                64
            };
            base * 1000 * f
        };
        let delay = growth + seed % (growth / 4 + 1);
        let cap: u64 = if fast {
            if sync_interval_ms > 5000 { sync_interval_ms as u64 } else { 5000 }
        } else {
            NORMAL_CAP_MS
        };
        if delay < cap { delay } else { cap }
    }

    /// Records a failure with error text `error_msg`: counts it, remembers
    /// `now_ms`, sets the sticky flag on a server rejection, and returns whether
    /// it was one and how long to wait before retrying, in milliseconds.
    pub fn record_failure(&mut self, error_msg: &str, sync_interval_ms: i64, now_ms: i64, seed: u64) -> (r: (bool, u64))
        ensures
            (*final(self), r) == after_failure(*old(self), error_msg@, sync_interval_ms as int, now_ms, seed as int),
    {
        let lowered = lowercase(error_msg);
        let kind = Self::classify_lowered(lowered.as_str());
        let n: u64 = if self.failed_attempts == u64::MAX { u64::MAX } else { self.failed_attempts + 1 };
        self.failed_attempts = n;
        self.last_failure_ms = Some(now_ms);
        let rejected = kind == FailureKind::ServerRejection;
        if rejected {
            self.server_limit_detected = true;
        }
        let delay = Self::backoff_delay_ms(kind, sync_interval_ms, n, seed);
        (rejected, delay)
    }

    /// `record_failure` at the current time, with the jitter drawn from the clock.
    pub fn record_failure_now(&mut self, error_msg: &str, sync_interval_ms: i64) -> (r: (bool, u64))
        ensures
            exists|now: i64, seed: u64|
                (*final(self), r) == after_failure(*old(self), error_msg@, sync_interval_ms as int, now, seed as int),
    {
        let now = now_millis();
        let seed: u64 = if now >= 0 { now as u64 } else { 0 };
        self.record_failure(error_msg, sync_interval_ms, now, seed)
    }

    /// Clears the failure count, the last failure time and the sticky flag.
    pub fn record_success(&mut self)
        ensures
            final(self).failed_attempts == 0,
            final(self).last_failure_ms is None,
            !final(self).server_limit_detected,
    {
        self.failed_attempts = 0;
        self.last_failure_ms = None;
        self.server_limit_detected = false;
    }

    /// Whether a server rejection was seen since the last success.
    pub fn should_reduce_connections(&self) -> (r: bool)
        ensures
            r == self.server_limit_detected,
    {
        self.server_limit_detected
    }

    /// Failures since the last success.
    pub fn get_failure_count(&self) -> (r: u64)
        ensures
            r == self.failed_attempts,
    {
        self.failed_attempts
    }
}

} // verus!
