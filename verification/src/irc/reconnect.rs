//! IRC reconnect policy and exponential backoff.

use std::time::Duration;

use vstd::prelude::*;

use super::config::{bool_setting, parse_bool, parse_u64_env, seconds_setting};
use crate::text::{parse_u32, parse_unsigned, trim, trim_seq};

verus! {

/// Settings for automatic IRC transport reconnect after disconnect.
#[derive(Debug, Clone, PartialEq, Eq)]
pub struct IrcReconnectConfig {
    /// When true, retry connect/read failures with backoff instead of exiting.
    pub enabled: bool,
    /// First reconnect delay in seconds (doubled on each attempt until capped).
    pub initial_secs: u64,
    /// Maximum delay between reconnect attempts in seconds.
    pub max_secs: u64,
    /// Max reconnect attempts after a registered session ends (`0` = unlimited).
    pub max_attempts: u32,
}

impl Default for IrcReconnectConfig {
    fn default() -> (r: Self)
        ensures
            r.enabled,
            r.initial_secs == 5,
            r.max_secs == 300,
            r.max_attempts == 0,
    {
        IrcReconnectConfig { enabled: true, initial_secs: 5, max_secs: 300, max_attempts: 0 }
    }
}

impl IrcReconnectConfig {
    /// Whether to retry after `n` failed attempts: when enabled, without limit
    /// (`max_attempts == 0`) or while fewer than `max_attempts` have failed.
    pub open spec fn retries(&self, n: u32) -> bool {
        self.enabled && (self.max_attempts == 0 || n < self.max_attempts)
    }

    pub fn should_retry(&self, attempts_after_failure: u32) -> (r: bool)
        ensures
            r == self.retries(attempts_after_failure),
    {
        if !self.enabled {
            return false;
        }
        if self.max_attempts == 0 {
            return true;
        }
        attempts_after_failure < self.max_attempts
    }
}

/// The duration of a whole number of seconds.
pub uninterp spec fn seconds(secs: u64) -> Duration;

/// `Duration::from_secs`.
#[verifier::external_body]
fn duration_from_secs(secs: u64) -> (r: Duration)
    ensures
        r == seconds(secs),
{
    Duration::from_secs(secs)
}

/// Seconds of the reconnect delay after `attempt` earlier attempts:
/// `initial * 2^min(attempt, 31)`, saturating, capped at `max`.
pub open spec fn backoff_secs(initial: u64, max: u64, attempt: u32) -> u64 {
    let k: u64 = if attempt > 31 { 31 } else { attempt as u64 };
    let raw = initial * (1u64 << k);
    let sat: u64 = if raw > u64::MAX { u64::MAX } else { raw as u64 };
    if sat < max {
        sat
    } else {
        max
    }
}

/// The shift that `backoff_secs` multiplies by doubles from one attempt to the next.
proof fn lemma_shift_doubles(k: u64)
    requires
        k < 31,
    ensures
        (1u64 << (k + 1) as u64) == 2 * (1u64 << k),
        (1u64 << k) >= 1,
        (1u64 << k) <= 0x8000_0000,
{
    assert((1u64 << (k + 1) as u64) == 2 * (1u64 << k)) by (bit_vector)
        requires
            k < 31,
    ;
    assert((1u64 << k) >= 1 && (1u64 << k) <= 0x8000_0000) by (bit_vector)
        requires
            k < 31,
    ;
}

/// The reconnect delay never exceeds the configured maximum.
pub proof fn law_backoff_capped(initial: u64, max: u64, attempt: u32)
    ensures
        backoff_secs(initial, max, attempt) <= max,
{
}

/// Below the maximum, each attempt doubles the delay.
pub proof fn law_backoff_doubles(initial: u64, max: u64, attempt: u32)
    requires
        attempt < 31,
        2 * backoff_secs(initial, max, attempt) <= max,
    ensures
        backoff_secs(initial, max, (attempt + 1) as u32) == 2 * backoff_secs(initial, max, attempt),
{
    let k = attempt as u64;
    lemma_shift_doubles(k);
    let s = 1u64 << k;
    let s2 = 1u64 << (k + 1) as u64;
    assert(initial * s2 == 2 * (initial * s)) by (nonlinear_arith)
        requires
            s2 == 2 * s,
    ;
}

/// The delay never shrinks from one attempt to the next.
pub proof fn law_backoff_monotone(initial: u64, max: u64, attempt: u32)
    requires
        attempt < u32::MAX,
    ensures
        backoff_secs(initial, max, attempt) <= backoff_secs(initial, max, (attempt + 1) as u32),
{
    if attempt < 31 {
        let k = attempt as u64;
        lemma_shift_doubles(k);
        let s = 1u64 << k;
        let s2 = 1u64 << (k + 1) as u64;
        assert(initial * s <= initial * s2) by (nonlinear_arith)
            requires
                s2 == 2 * s,
        ;
    }
}

/// The first delay, and the first after a reset, is the initial delay capped at the maximum.
pub proof fn law_backoff_starts_at_initial(initial: u64, max: u64)
    ensures
        backoff_secs(initial, max, 0) == if initial < max {
            initial
        } else {
            max
        },
{
    let k: u64 = 0u32 as u64;
    assert((1u64 << k) == 1) by (bit_vector)
        requires
            k == 0,
    ;
    assert(initial * (1u64 << k) == initial);
}

/// With no attempt limit, an enabled reconnect retries forever; with a limit,
/// once it stops retrying it never starts again.
pub proof fn law_retry_limit(config: IrcReconnectConfig, n: u32, m: u32)
    ensures
        config.enabled && config.max_attempts == 0 ==> config.retries(n),
        n <= m && !config.retries(n) ==> !config.retries(m),
{
}

/// Exponential backoff for reconnect delays. Reset after a successful registration.
#[derive(Debug, Clone, PartialEq, Eq)]
pub struct ExponentialBackoff {
    initial_secs: u64,
    max_secs: u64,
    attempt: u32,
}

impl ExponentialBackoff {
    pub closed spec fn initial(&self) -> u64 {
        self.initial_secs
    }

    pub closed spec fn max(&self) -> u64 {
        self.max_secs
    }

    pub closed spec fn attempts(&self) -> u32 {
        self.attempt
    }

    pub fn new(config: &IrcReconnectConfig) -> (r: Self)
        ensures
            r.initial() == config.initial_secs,
            r.max() == config.max_secs,
            r.attempts() == 0,
    {
        ExponentialBackoff {
            initial_secs: config.initial_secs,
            max_secs: config.max_secs,
            attempt: 0,
        }
    }

    pub fn reset(&mut self)
        ensures
            final(self).attempts() == 0,
            final(self).initial() == old(self).initial(),
            final(self).max() == old(self).max(),
    {
        self.attempt = 0;
    }

    pub fn attempt(&self) -> (r: u32)
        ensures
            r == self.attempts(),
    {
        self.attempt
    }

    /// Seconds before the next reconnect attempt; counts the attempt.
    pub fn next_delay_secs(&mut self) -> (r: u64)
        ensures
            r == backoff_secs(old(self).initial(), old(self).max(), old(self).attempts()),
            final(self).attempts() == if old(self).attempts() == u32::MAX {
                u32::MAX
            } else {
                (old(self).attempts() + 1) as u32
            },
            final(self).initial() == old(self).initial(),
            final(self).max() == old(self).max(),
    {
        let k: u32 = if self.attempt < 31 {
            self.attempt
        } else {
            31
        };
        let multiplier: u64 = 1u64 << (k as u64);
        let delay = match self.initial_secs.checked_mul(multiplier) {
            Some(d) => d,
            None => u64::MAX,
        };
        self.attempt = self.attempt.saturating_add(1);
        if delay < self.max_secs {
            delay
        } else {
            self.max_secs
        }
    }

    /// Next delay before a reconnect attempt (also increments the attempt counter).
    pub fn next_delay(&mut self) -> (r: Duration)
        ensures
            r == seconds(backoff_secs(old(self).initial(), old(self).max(), old(self).attempts())),
            final(self).attempts() == if old(self).attempts() == u32::MAX {
                u32::MAX
            } else {
                (old(self).attempts() + 1) as u32
            },
            final(self).initial() == old(self).initial(),
            final(self).max() == old(self).max(),
    {
        let secs = self.next_delay_secs();
        duration_from_secs(secs)
    }
}

pub open spec fn opt_chars(o: Option<&str>) -> Option<Seq<char>> {
    match o {
        Some(s) => Some(s@),
        None => None,
    }
}

impl IrcReconnectConfig {
    /// The reconnect policy that the settings `IRC_RECONNECT`,
    /// `IRC_RECONNECT_INITIAL_SECS`, `IRC_RECONNECT_MAX_SECS` and
    /// `IRC_RECONNECT_MAX_ATTEMPTS` describe (each `None` when unset); the
    /// longest delay is never below the first.
    pub fn from_settings(
        enabled: Option<&str>,
        initial_secs: Option<&str>,
        max_secs: Option<&str>,
        max_attempts: Option<&str>,
    ) -> (r: Self)
        ensures
            r.enabled == match enabled {
                Some(s) => bool_setting(s@, true),
                None => true,
            },
            r.initial_secs == seconds_setting(opt_chars(initial_secs), 5),
            r.max_secs == if seconds_setting(opt_chars(max_secs), 300) < seconds_setting(
                opt_chars(initial_secs),
                5,
            ) {
                seconds_setting(opt_chars(initial_secs), 5)
            } else {
                seconds_setting(opt_chars(max_secs), 300)
            },
            r.max_attempts == match max_attempts {
                Some(s) => match parse_unsigned(trim_seq(s@), u32::MAX as nat) {
                    Some(n) => n as u32,
                    None => 0,
                },
                None => 0,
            },
            r.max_secs >= r.initial_secs,
    {
        let mut config = IrcReconnectConfig::default();
        if let Some(raw) = enabled {
            config.enabled = parse_bool(raw, true);
        }
        config.initial_secs = parse_u64_env(initial_secs, 5);
        config.max_secs = parse_u64_env(max_secs, 300);
        if let Some(raw) = max_attempts {
            if let Some(parsed) = parse_u32(trim(raw)) {
                config.max_attempts = parsed;
            }
        }
        if config.max_secs < config.initial_secs {
            config.max_secs = config.initial_secs;
        }
        config
    }
}

} // verus!
