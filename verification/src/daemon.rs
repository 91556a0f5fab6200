//! The daemon's decisions between two sleeps: reloading the configuration,
//! turning a sample into a policy, and what to log. The loop, the signals
//! and the sleeping stay with the program that runs it.
use vstd::prelude::*;
use vstd::string::StringExecFns;

use crate::clock::system_time_now;
use crate::config::{Config, ConfigError, ConfigModel};
use crate::policy::{
    evaluate_model, evaluation_fits, paused_model, PolicySnapshot, Supervisor, SupervisorModel,
};
use crate::runtime::RuntimeState;
use crate::sensor::SensorSample;
use crate::text::{
    chars_of, decimal_value, is_ascii_digit, parse_decimal, parse_unsigned, push_str, scan_to,
    trim, trim_slice,
};

verus! {

/// Stores what one round decided: the configuration in force, the sample and
/// the policy.
pub fn update_runtime_state(
    state: &mut RuntimeState,
    config: Config,
    sample: SensorSample,
    policy: PolicySnapshot,
)
    ensures
        final(state).config@ == config@,
        final(state).sensor_sample == sample,
        final(state).policy@ == policy@,
        final(state).shutdown == old(state).shutdown,
{
    state.config = config;
    state.sensor_sample = sample;
    state.policy = policy;
    state.last_updated = system_time_now();
}

pub struct DaemonModel {
    pub supervisor: SupervisorModel,
    pub config: ConfigModel,
    pub last_summary: Seq<char>,
}

/// The daemon between rounds: the supervisor, the configuration in force and
/// the last summary logged.
pub struct Daemon {
    supervisor: Supervisor,
    config: Config,
    last_summary: String,
}

impl View for Daemon {
    type V = DaemonModel;

    closed spec fn view(&self) -> DaemonModel {
        DaemonModel {
            supervisor: self.supervisor@,
            config: self.config@,
            last_summary: self.last_summary@,
        }
    }
}

/// What a round with a sample does: evaluate it, log the summary when it
/// changed, store configuration, sample and policy.
pub open spec fn sample_round(d: DaemonModel, s: SensorSample, now: u64) -> (DaemonModel, SnapshotOut) {
    let (sup, snap) = evaluate_model(d.supervisor, s, d.config, now);
    (
        DaemonModel { supervisor: sup, config: d.config, last_summary: snap.summary },
        SnapshotOut {
            log: if snap.summary != d.last_summary {
                Some(snap.summary)
            } else {
                None
            },
            snapshot: snap,
        },
    )
}

/// A round's snapshot and the line to log, if any.
pub struct SnapshotOut {
    pub log: Option<Seq<char>>,
    pub snapshot: crate::policy::SnapshotModel,
}

impl Daemon {
    pub fn new(config: Config, supervisor: Supervisor) -> (r: Daemon)
        ensures
            r@ == (DaemonModel {
                supervisor: supervisor@,
                config: config@,
                last_summary: Seq::empty(),
            }),
    {
        Daemon { supervisor, config, last_summary: String::new() }
    }

    /// The configuration in force.
    pub fn config(&self) -> (c: &Config)
        ensures
            c@ == self@.config,
    {
        &self.config
    }

    /// A reload: a configuration that loaded replaces the one in force; a
    /// failed load keeps it and hands the error back to be logged.
    pub fn reload(&mut self, loaded: Result<Config, ConfigError>) -> (r: Option<ConfigError>)
        ensures
            match loaded {
                Ok(c) => r is None && final(self)@ == (DaemonModel {
                    config: c@,
                    ..old(self)@
                }),
                Err(e) => r == Some(e) && final(self)@ == old(self)@,
            },
    {
        match loaded {
            Ok(c) => {
                self.config = c;
                None
            },
            Err(e) => Some(e),
        }
    }

    /// Whether the round for this sample stays within 64 bits.
    pub fn can_take(&self, sample: &SensorSample, now: u64) -> (b: bool)
        ensures
            b == evaluation_fits(self@.supervisor, *sample, self@.config, now),
    {
        self.supervisor.can_evaluate(sample, &self.config, now)
    }

    /// A round with a sample taken at `now`: returns the summary to log when
    /// it differs from the last one.
    pub fn on_sample(&mut self, state: &mut RuntimeState, sample: SensorSample, now: u64) -> (log:
        Option<String>)
        requires
            evaluation_fits(old(self)@.supervisor, sample, old(self)@.config, now),
        ensures
            ({
                let (d, out) = sample_round(old(self)@, sample, now);
                &&& final(self)@ == d
                &&& final(state).policy@ == out.snapshot
                &&& final(state).config@ == old(self)@.config
                &&& final(state).sensor_sample == sample
                &&& final(state).shutdown == old(state).shutdown
                &&& match out.log {
                    Some(l) => log matches Some(x) && x@ == l,
                    None => log is None,
                }
            }),
    {
        let policy = self.supervisor.evaluate(&sample, &self.config, now);
        let log = if policy.summary != self.last_summary {
            Some(policy.summary.clone())
        } else {
            None
        };
        self.last_summary = policy.summary.clone();
        update_runtime_state(state, self.config.duplicate(), sample, policy);
        log
    }

    /// A round whose sample failed: everything pauses, with the error in the
    /// summary.
    pub fn on_sensor_error(&self, state: &mut RuntimeState, error: &str)
        ensures
            final(state).policy@ == paused_model("sensor backend failed: "@ + error@),
            !final(state).shutdown,
            final(state).config@ == old(state).config@,
            final(state).sensor_sample == old(state).sensor_sample,
    {
        let mut reason = String::new();
        push_str(&mut reason, "sensor backend failed: ");
        push_str(&mut reason, error);
        state.policy = PolicySnapshot::paused(reason);
        state.shutdown = false;
        state.last_updated = system_time_now();
    }
}


// ---------------------------------------------------------------------------
// Signals and the pid file
// ---------------------------------------------------------------------------

pub const SIGHUP: i32 = 1;

pub const SIGINT: i32 = 2;

pub const SIGTERM: i32 = 15;

/// What a signal asks of the daemon.
#[derive(Debug, Clone, Copy, PartialEq, Eq, Structural)]
pub enum SignalEffect {
    Reload,
    Terminate,
    Ignore,
}

/// `SIGHUP` reloads the configuration, `SIGINT` and `SIGTERM` stop the
/// daemon, anything else is ignored.
pub open spec fn signal_effect_of(signal_number: i32) -> SignalEffect {
    if signal_number == SIGHUP {
        SignalEffect::Reload
    } else if signal_number == SIGINT || signal_number == SIGTERM {
        SignalEffect::Terminate
    } else {
        SignalEffect::Ignore
    }
}

/// `SIGHUP` reloads the configuration, `SIGINT` and `SIGTERM` stop the
/// daemon, anything else is ignored.
pub fn signal_effect(signal_number: i32) -> (e: SignalEffect)
    ensures
        e == signal_effect_of(signal_number),
        e == (if signal_number == SIGHUP {
            SignalEffect::Reload
        } else if signal_number == SIGINT || signal_number == SIGTERM {
            SignalEffect::Terminate
        } else {
            SignalEffect::Ignore
        }),
{
    if signal_number == SIGHUP {
        SignalEffect::Reload
    } else if signal_number == SIGINT || signal_number == SIGTERM {
        SignalEffect::Terminate
    } else {
        SignalEffect::Ignore
    }
}

/// Why a text is not an integer, as `str::parse` reports it.
#[derive(Debug, Clone, Copy, PartialEq, Eq, Structural)]
pub enum IntError {
    /// The text is empty.
    Empty,
    /// A character that is not a digit (a lone sign counts as one).
    InvalidDigit,
    /// The number is above the type's largest value.
    PosOverflow,
    /// The number is below the type's smallest value.
    NegOverflow,
}

/// What `str::parse` says of each refusal.
pub open spec fn int_error_text(e: IntError) -> Seq<char> {
    match e {
        IntError::Empty => "cannot parse integer from empty string"@,
        IntError::InvalidDigit => "invalid digit found in string"@,
        IntError::PosOverflow => "number too large to fit in target type"@,
        IntError::NegOverflow => "number too small to fit in target type"@,
    }
}

impl IntError {
    /// What the refusal says.
    pub fn message(&self) -> (s: &'static str)
        ensures
            s@ == int_error_text(*self),
    {
        match self {
            IntError::Empty => "cannot parse integer from empty string",
            IntError::InvalidDigit => "invalid digit found in string",
            IntError::PosOverflow => "number too large to fit in target type",
            IntError::NegOverflow => "number too small to fit in target type",
        }
    }
}

pub open spec fn not_digit() -> spec_fn(char) -> bool {
    |c: char| !is_ascii_digit(c)
}

/// `i32::from_str`: an optional sign, then digits. Reading stops at the
/// first error: a number that leaves the range before any bad character
/// overflows; otherwise a bad character is an invalid digit.
pub open spec fn i32_from_text(s: Seq<char>) -> Result<int, IntError> {
    if s.len() == 0 {
        Err(IntError::Empty)
    } else if (s[0] == '+' || s[0] == '-') && s.len() == 1 {
        Err(IntError::InvalidDigit)
    } else {
        let neg = s[0] == '-';
        let d = if s[0] == '+' || s[0] == '-' {
            s.drop_first()
        } else {
            s
        };
        let m = scan_to(d, 0, not_digit());
        let v = decimal_value(d.subrange(0, m));
        let bound: nat = if neg {
            0x8000_0000
        } else {
            0x7fff_ffff
        };
        if v > bound {
            Err(
                if neg {
                    IntError::NegOverflow
                } else {
                    IntError::PosOverflow
                },
            )
        } else if m < d.len() {
            Err(IntError::InvalidDigit)
        } else {
            Ok(
                if neg {
                    -v
                } else {
                    v as int
                },
            )
        }
    }
}

/// The process id written in a pid file, for `kill`: the trimmed text read
/// as an `i32`, or why it is not one.
pub fn pid_for_signal(text: &str) -> (r: Result<i32, IntError>)
    ensures
        match i32_from_text(trim(text@)) {
            Ok(v) => r == Ok::<i32, IntError>(v as i32),
            Err(e) => r == Err::<i32, IntError>(e),
        },
{
    let s = chars_of(text);
    let t = trim_slice(&s);
    let n = t.len();
    if n == 0 {
        return Err(IntError::Empty);
    }
    let signed = t[0] == '+' || t[0] == '-';
    if signed && n == 1 {
        return Err(IntError::InvalidDigit);
    }
    let neg = t[0] == '-';
    let st: usize = if signed {
        1
    } else {
        0
    };
    let ghost d = if signed {
        t@.drop_first()
    } else {
        t@
    };
    assert(d =~= t@.subrange(st as int, n as int));
    let mut m = st;
    while m < n && is_ascii_digit_exec(t[m])
        invariant
            st <= m <= n,
            n == t@.len(),
            d == t@.subrange(st as int, n as int),
            forall|k: int| st <= k < m ==> is_ascii_digit(#[trigger] t@[k]),
        decreases n - m,
    {
        m = m + 1;
    }
    proof {
        crate::text::lemma_scan_to_unique(d, 0, m - st, not_digit());
        assert(d.subrange(0, m - st) =~= t@.subrange(st as int, m as int));
    }
    let bound: u64 = if neg {
        0x8000_0000
    } else {
        0x7fff_ffff
    };
    let v: u64 = if m == st {
        assert(d.subrange(0, 0) =~= Seq::<char>::empty());
        0
    } else {
        match parse_decimal(t, st, m, bound) {
            Some(v) => v,
            None => {
                return if neg {
                    Err(IntError::NegOverflow)
                } else {
                    Err(IntError::PosOverflow)
                };
            },
        }
    };
    if m < n {
        return Err(IntError::InvalidDigit);
    }
    if neg {
        Ok((0 - (v as i64)) as i32)
    } else {
        Ok(v as i32)
    }
}

fn is_ascii_digit_exec(c: char) -> (b: bool)
    ensures
        b == is_ascii_digit(c),
{
    '0' <= c && c <= '9'
}

/// The process id recorded in an existing pid file: the trimmed text as a
/// `u32`.
pub fn recorded_pid(text: &str) -> (r: Option<u32>)
    ensures
        match parse_unsigned(trim(text@), u32::MAX as nat) {
            Some(v) => r == Some(v as u32),
            None => r is None,
        },
{
    let s = chars_of(text);
    let t = trim_slice(&s);
    let n = t.len();
    assert(t@.subrange(0, n as int) =~= t@);
    match parse_decimal(t, 0, n, u32::MAX as u64) {
        Some(v) => Some(v as u32),
        None => None,
    }
}

} // verus!
