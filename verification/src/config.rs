//! What the process is configured with, read from texts such as the
//! environment gives.

use crate::bucket::{Quota, QuotaModel};
use crate::codec::{all_digits, decode, value_of};
use vstd::prelude::*;
use vstd::string::*;

verus! {

/// The port to listen on where none is configured.
pub const DEFAULT_PORT: u16 = 8080;

/// The tokens a bucket holds where no capacity is configured.
pub const DEFAULT_CAPACITY: u32 = 2;

/// The tokens a bucket gains in one refill period where none are
/// configured.
pub const DEFAULT_REFILL_TOKENS: u32 = 1;

/// The milliseconds of a refill period where none are configured.
pub const DEFAULT_REFILL_MILLIS: u32 = 4000;

/// The seconds between two sweeps where none are configured.
pub const DEFAULT_SWEEP_SECS: u32 = 60;

/// The number that a text names, if it names one up to `max`: a run of
/// digits, with an optional plus sign in front.
pub open spec fn number_of(s: Seq<char>, max: nat) -> Option<nat> {
    let digits = if s.len() > 0 && s[0] == '+' {
        s.subrange(1, s.len() as int)
    } else {
        s
    };
    if digits.len() > 0 && all_digits(digits) && value_of(digits) <= max {
        Some(value_of(digits))
    } else {
        None
    }
}

/// Reads a number up to `max` from a text.
pub fn parse_number(text: &str, max: u32) -> (number: Option<u32>)
    ensures
        match number {
            Some(n) => number_of(text@, max as nat) == Some(n as nat),
            None => number_of(text@, max as nat) is None,
        },
{
    let n = text.unicode_len();
    if n == 0 {
        return None;
    }
    let first = text.get_char(0);
    if first == '-' {
        return None;
    }
    let digits = if first == '+' {
        text.substring_char(1, n)
    } else {
        text
    };
    if digits.unicode_len() == 0 {
        return None;
    }
    if digits.get_char(0) == '-' {
        return None;
    }
    match decode(digits) {
        Ok(number) => if 0 <= number && number <= max as i64 {
            Some(number as u32)
        } else {
            None
        },
        Err(_) => None,
    }
}

/// The port that a text names, if it names one.
pub open spec fn port_of(s: Seq<char>) -> Option<u16> {
    match number_of(s, u16::MAX as nat) {
        Some(n) => Some(n as u16),
        None => None,
    }
}

/// The port to listen on: the one that `text` names, or the default where
/// there is no text or it names no port.
pub fn port_or_default(text: Option<&str>) -> (port: u16)
    ensures
        port == match text {
            Some(t) => match port_of(t@) {
                Some(p) => p,
                None => DEFAULT_PORT,
            },
            None => DEFAULT_PORT,
        },
{
    match text {
        Some(t) => match parse_number(t, 65535) {
            Some(p) => p as u16,
            None => DEFAULT_PORT,
        },
        None => DEFAULT_PORT,
    }
}

/// The setting that a configuration fails on.
#[derive(Debug, Clone, Copy, PartialEq, Eq, Structural)]
pub enum ConfigError {
    /// The capacity is no number, or zero.
    Capacity,
    /// The tokens of a refill period are no number, or zero.
    RefillTokens,
    /// The milliseconds of a refill period are no number, or zero.
    RefillMillis,
    /// The seconds between two sweeps are no number, or zero.
    SweepSecs,
    /// The seconds of quiet after which a bucket is dropped are no number.
    IdleSecs,
}

/// How the limiter is set up.
#[derive(Debug, Clone, Copy, PartialEq, Eq, Structural)]
pub struct LimiterSettings {
    /// The tokens a bucket holds at most.
    pub capacity: u32,
    /// The tokens a bucket gains in one refill period.
    pub refill_tokens: u32,
    /// The milliseconds of a refill period.
    pub refill_millis: u32,
    /// The seconds between two sweeps.
    pub sweep_secs: u32,
    /// The seconds of quiet after which a sweep drops a bucket.
    pub idle_secs: u32,
}

/// What a setting is worth: the number that its text names, the default
/// where there is no text, and nothing where the text names no number.
pub open spec fn setting_of(text: Option<Seq<char>>, default: u32) -> Option<u32> {
    match text {
        Some(t) => match number_of(t, u32::MAX as nat) {
            Some(n) => Some(n as u32),
            None => None,
        },
        None => Some(default),
    }
}

/// The text of a setting, if it is set.
pub open spec fn setting_text(text: Option<&str>) -> Option<Seq<char>> {
    match text {
        Some(t) => Some(t@),
        None => None,
    }
}

/// The whole seconds in which an empty bucket fills.
pub open spec fn fill_secs(capacity: u32, refill_tokens: u32, refill_millis: u32) -> nat {
    let millis = capacity as nat * refill_millis as nat;
    let per_second = 1000 * refill_tokens as nat;
    ((millis + per_second - 1) / (per_second as int)) as nat
}

/// The settings that the five texts give.
///
/// A setting without a text takes its default; the default of the idle time
/// is the time in which an empty bucket fills.  A text that names no number
/// fails the configuration, and so does a zero for anything but the idle
/// time.  The first setting at fault, in the order of the parameters, is
/// the one named.
pub open spec fn settings_of(
    capacity: Option<Seq<char>>,
    refill_tokens: Option<Seq<char>>,
    refill_millis: Option<Seq<char>>,
    sweep_secs: Option<Seq<char>>,
    idle_secs: Option<Seq<char>>,
) -> Result<LimiterSettings, ConfigError> {
    let c = setting_of(capacity, DEFAULT_CAPACITY);
    let t = setting_of(refill_tokens, DEFAULT_REFILL_TOKENS);
    let m = setting_of(refill_millis, DEFAULT_REFILL_MILLIS);
    let s = setting_of(sweep_secs, DEFAULT_SWEEP_SECS);
    if c is None || c == Some(0u32) {
        Err(ConfigError::Capacity)
    } else if t is None || t == Some(0u32) {
        Err(ConfigError::RefillTokens)
    } else if m is None || m == Some(0u32) {
        Err(ConfigError::RefillMillis)
    } else if s is None || s == Some(0u32) {
        Err(ConfigError::SweepSecs)
    } else {
        let fill = fill_secs(c->0, t->0, m->0);
        let i = setting_of(
            idle_secs,
            if fill <= u32::MAX {
                fill as u32
            } else {
                u32::MAX
            },
        );
        if i is None {
            Err(ConfigError::IdleSecs)
        } else {
            Ok(
                LimiterSettings {
                    capacity: c->0,
                    refill_tokens: t->0,
                    refill_millis: m->0,
                    sweep_secs: s->0,
                    idle_secs: i->0,
                },
            )
        }
    }
}

/// Reads one setting.
fn setting(text: Option<&str>, default: u32) -> (value: Option<u32>)
    ensures
        value == setting_of(setting_text(text), default),
{
    match text {
        Some(t) => parse_number(t, u32::MAX),
        None => Some(default),
    }
}

impl LimiterSettings {
    /// Reads the settings of the limiter from the texts that set them.
    pub fn from_texts(
        capacity: Option<&str>,
        refill_tokens: Option<&str>,
        refill_millis: Option<&str>,
        sweep_secs: Option<&str>,
        idle_secs: Option<&str>,
    ) -> (r: Result<LimiterSettings, ConfigError>)
        ensures
            r == settings_of(
                setting_text(capacity),
                setting_text(refill_tokens),
                setting_text(refill_millis),
                setting_text(sweep_secs),
                setting_text(idle_secs),
            ),
            r matches Ok(s) ==> s.valid(),
    {
        let capacity = match setting(capacity, DEFAULT_CAPACITY) {
            Some(c) if c > 0 => c,
            _ => { return Err(ConfigError::Capacity); },
        };
        let refill_tokens = match setting(refill_tokens, DEFAULT_REFILL_TOKENS) {
            Some(t) if t > 0 => t,
            _ => { return Err(ConfigError::RefillTokens); },
        };
        let refill_millis = match setting(refill_millis, DEFAULT_REFILL_MILLIS) {
            Some(m) if m > 0 => m,
            _ => { return Err(ConfigError::RefillMillis); },
        };
        let sweep_secs = match setting(sweep_secs, DEFAULT_SWEEP_SECS) {
            Some(s) if s > 0 => s,
            _ => { return Err(ConfigError::SweepSecs); },
        };
        assert(capacity * refill_millis <= 0xFFFF_FFFF * 0xFFFF_FFFF) by (nonlinear_arith)
            requires
                capacity <= 0xFFFF_FFFF,
                refill_millis <= 0xFFFF_FFFF,
        ;
        let millis: u128 = capacity as u128 * refill_millis as u128;
        let per_second: u128 = 1000 * refill_tokens as u128;
        let fill: u128 = (millis + per_second - 1) / per_second;
        let fill_default: u32 = if fill <= u32::MAX as u128 {
            fill as u32
        } else {
            u32::MAX
        };
        let idle_secs = match setting(idle_secs, fill_default) {
            Some(i) => i,
            None => { return Err(ConfigError::IdleSecs); },
        };
        Ok(LimiterSettings { capacity, refill_tokens, refill_millis, sweep_secs, idle_secs })
    }

    /// The settings can be used: nothing but the idle time is zero.
    pub open spec fn valid(&self) -> bool {
        &&& self.capacity > 0
        &&& self.refill_tokens > 0
        &&& self.refill_millis > 0
        &&& self.sweep_secs > 0
    }

    /// The quota that the settings describe.
    pub open spec fn quota_model(&self) -> QuotaModel {
        QuotaModel {
            capacity: self.capacity as nat,
            refill_tokens: self.refill_tokens as nat,
            refill_nanos: self.refill_millis as nat * 1_000_000,
        }
    }

    /// The quota that the settings describe, if they can be used.
    pub fn quota(&self) -> (r: Option<Quota>)
        ensures
            match r {
                Some(q) => self.capacity > 0 && self.refill_tokens > 0 && self.refill_millis > 0
                    && q@ == self.quota_model(),
                None => self.capacity == 0 || self.refill_tokens == 0 || self.refill_millis == 0,
            },
    {
        Quota::new(self.capacity, self.refill_tokens, self.refill_millis as u64 * 1_000_000)
    }

    /// The nanoseconds between two sweeps.
    pub fn sweep_nanos(&self) -> (n: u64)
        ensures
            n == self.sweep_secs * 1_000_000_000,
    {
        self.sweep_secs as u64 * 1_000_000_000
    }

    /// The nanoseconds of quiet after which a sweep drops a bucket.
    pub fn idle_nanos(&self) -> (n: u64)
        ensures
            n == self.idle_secs * 1_000_000_000,
    {
        self.idle_secs as u64 * 1_000_000_000
    }
}

/// With the idle time that the settings take where none is set, a sweep
/// takes no token from any client: the bucket of a client that was quiet
/// for that long is full again.
pub proof fn lemma_default_idle_covers_refill(capacity: u32, refill_tokens: u32, refill_millis: u32)
    requires
        capacity > 0,
        refill_tokens > 0,
        refill_millis > 0,
    ensures
        fill_secs(capacity, refill_tokens, refill_millis) * 1_000_000_000 * refill_tokens
            >= capacity * (refill_millis * 1_000_000),
{
    let millis = capacity as nat * refill_millis as nat;
    let per_second = 1000 * refill_tokens as nat;
    let fill = fill_secs(capacity, refill_tokens, refill_millis);
    assert(fill * per_second >= millis) by (nonlinear_arith)
        requires
            fill == (millis + per_second - 1) / (per_second as int),
            per_second > 0,
    ;
    assert(fill * 1_000_000_000 * refill_tokens == fill * per_second * 1_000_000)
        by (nonlinear_arith)
        requires
            per_second == 1000 * refill_tokens,
    ;
    assert(capacity * (refill_millis * 1_000_000) == millis * 1_000_000) by (nonlinear_arith)
        requires
            millis == capacity * refill_millis,
    ;
}

} // verus!
