//! Network load: which target to fetch, the rate budget, and the `http://`
//! targets it understands.
use vstd::prelude::*;
use vstd::string::StringExecFns;

use crate::clock::{duration_subsec_nanos, since_unix_epoch, system_time_now};
use crate::config::{strings_view, NetworkConfig};
use crate::text::{chars_of, find_char, parse_decimal, parse_unsigned, push_char, push_str,
    slice_starts_with, split_once, starts_with, string_of};

verus! {

// ---------------------------------------------------------------------------
// Targets
// ---------------------------------------------------------------------------

/// The target at `(cursor + jitter) % len`; the cursor moves on by one.
pub open spec fn picked_index(cursor: usize, jitter: usize, len: nat) -> int {
    ((cursor + jitter) % (len as int)) as int
}

/// Picks a target, starting from the cursor and shifted by `jitter`, and
/// moves the cursor on. No targets give the empty string.
pub fn pick_target_with(targets: &Vec<String>, cursor: &mut usize, jitter: usize) -> (t: String)
    requires
        targets@.len() > 0 ==> *old(cursor) + jitter <= usize::MAX && *old(cursor) + 1
            <= usize::MAX,
    ensures
        targets@.len() == 0 ==> t@ == Seq::<char>::empty() && *final(cursor) == *old(cursor),
        targets@.len() > 0 ==> {
            &&& t@ == targets@[picked_index(*old(cursor), jitter, targets@.len())]@
            &&& *final(cursor) == (*old(cursor) + 1) % (targets@.len() as int)
        },
{
    if targets.len() == 0 {
        return String::new();
    }
    let index = (*cursor + jitter) % targets.len();
    *cursor = (*cursor + 1) % targets.len();
    targets[index].clone()
}

/// Picks a target, shifted by the nanoseconds of the wall clock (none when
/// the clock is before the Unix epoch), and moves the cursor on.
pub fn pick_target(targets: &Vec<String>, cursor: &mut usize) -> (t: String)
    requires
        targets@.len() > 0 ==> *old(cursor) + 1_000_000_000 <= usize::MAX,
    ensures
        targets@.len() == 0 ==> t@ == Seq::<char>::empty() && *final(cursor) == *old(cursor),
        targets@.len() > 0 ==> {
            &&& exists|jitter: usize|
                jitter < 1_000_000_000 && t@ == targets@[picked_index(
                    *old(cursor),
                    jitter,
                    targets@.len(),
                )]@
            &&& *final(cursor) == (*old(cursor) + 1) % (targets@.len() as int)
        },
{
    let now = system_time_now();
    let jitter: usize = match since_unix_epoch(&now) {
        Ok(d) => duration_subsec_nanos(&d) as usize,
        Err(_) => 0,
    };
    let ghost c0 = *cursor;
    let t = pick_target_with(targets, cursor, jitter);
    proof {
        if targets@.len() > 0 {
            assert(jitter < 1_000_000_000 && t@ == targets@[picked_index(c0, jitter, targets@.len())]@);
        }
    }
    t
}

/// The byte rate of `max_mbps` megabits per second at `duty_percent`.
pub open spec fn rate_of(max_mbps: u32, duty_percent: u8) -> u64 {
    (max_mbps * 125_000 * duty_percent / 100) as u64
}

/// The byte rate is the duty's share of the configured speed, a megabit
/// being 125 000 bytes: all of it at full duty, none at no duty, and it
/// never falls as the duty grows.
pub proof fn lemma_rate_share(max_mbps: u32, duty_percent: u8, more_duty: u8)
    ensures
        rate_of(max_mbps, 100) == max_mbps * 125_000,
        rate_of(max_mbps, 0) == 0,
        rate_of(max_mbps, duty_percent) == max_mbps * 125_000 * duty_percent / 100,
        duty_percent <= more_duty ==> rate_of(max_mbps, duty_percent) <= rate_of(max_mbps, more_duty),
{
    let m = max_mbps * 125_000;
    assert(m >= 0);
    assert(m * duty_percent <= u64::MAX) by (nonlinear_arith)
        requires
            m == max_mbps * 125_000,
            max_mbps <= u32::MAX,
            duty_percent <= 255,
    ;
    assert(m * more_duty <= u64::MAX) by (nonlinear_arith)
        requires
            m == max_mbps * 125_000,
            max_mbps <= u32::MAX,
            more_duty <= 255,
    ;
    assert(m * 100 / 100 == m) by (nonlinear_arith)
        requires
            m >= 0,
    ;
    assert(m * 100 <= u64::MAX) by (nonlinear_arith)
        requires
            m == max_mbps * 125_000,
            max_mbps <= u32::MAX,
    ;
    if duty_percent <= more_duty {
        assert(m * duty_percent / 100 <= m * more_duty / 100) by (nonlinear_arith)
            requires
                duty_percent <= more_duty,
                m >= 0,
                duty_percent >= 0,
        ;
    }
}

pub fn download_rate(max_mbps: u32, duty_percent: u8) -> (r: u64)
    ensures
        r == rate_of(max_mbps, duty_percent),
{
    assert(max_mbps * 125_000 * duty_percent <= u64::MAX) by (nonlinear_arith)
        requires
            max_mbps <= u32::MAX,
            duty_percent <= 255,
    ;
    max_mbps as u64 * 125_000 * duty_percent as u64 / 100
}

// ---------------------------------------------------------------------------
// One round of the network generator
// ---------------------------------------------------------------------------

/// What the network generator does in a round: rest for a second, or fetch
/// a target at a byte rate, for at most `burst_secs`, connecting within
/// `timeout_secs`.
pub enum NetworkRound {
    Idle,
    Fetch { target: String, rate: u64, burst_secs: u64, timeout_secs: u64 },
}

/// A generator may fetch when the policy allows it, there are targets and
/// the configured speed is not zero.
pub open spec fn may_fetch(allowed: bool, config: NetworkConfig) -> bool {
    allowed && config.targets@.len() > 0 && config.max_mbps > 0
}

pub open spec fn at_least_one(v: u64) -> u64 {
    if v > 1 {
        v
    } else {
        1
    }
}

/// Decides a round: rest when fetching is not allowed, else pick the next
/// target (the cursor moves on) and fetch it at the duty's share of the
/// configured speed, resting instead when that rate is zero. The burst and
/// the connect timeout last at least a second.
pub fn network_round(allowed: bool, duty_percent: u8, config: &NetworkConfig, cursor: &mut usize) -> (r:
    NetworkRound)
    requires
        may_fetch(allowed, *config) ==> *old(cursor) + 1_000_000_000 <= usize::MAX,
    ensures
        !may_fetch(allowed, *config) ==> r is Idle && *final(cursor) == *old(cursor),
        may_fetch(allowed, *config) ==> *final(cursor) == (*old(cursor) + 1) % (
        config.targets@.len() as int),
        may_fetch(allowed, *config) && rate_of(config.max_mbps, duty_percent) == 0 ==> r is Idle,
        may_fetch(allowed, *config) && rate_of(config.max_mbps, duty_percent) > 0 ==> (r matches NetworkRound::Fetch {
            target,
            rate,
            burst_secs,
            timeout_secs,
        } && rate == rate_of(config.max_mbps, duty_percent) && burst_secs == at_least_one(
            config.window.burst_secs_max,
        ) && timeout_secs == at_least_one(config.connect_timeout_secs) && exists|jitter: usize|
            jitter < 1_000_000_000 && target@ == config.targets@[picked_index(
                *old(cursor),
                jitter,
                config.targets@.len(),
            )]@),
{
    if !allowed || config.targets.len() == 0 || config.max_mbps == 0 {
        return NetworkRound::Idle;
    }
    let target = pick_target(&config.targets, cursor);
    let rate = download_rate(config.max_mbps, duty_percent);
    if rate == 0 {
        return NetworkRound::Idle;
    }
    let burst_secs = if config.window.burst_secs_max > 1 {
        config.window.burst_secs_max
    } else {
        1
    };
    let timeout_secs = if config.connect_timeout_secs > 1 {
        config.connect_timeout_secs
    } else {
        1
    };
    NetworkRound::Fetch { target, rate, burst_secs, timeout_secs }
}

// ---------------------------------------------------------------------------
// The rate budget of a download
// ---------------------------------------------------------------------------

/// What the download loop does next.
#[derive(Debug, Clone, Copy, PartialEq, Eq, Structural)]
pub enum DownloadStep {
    /// Stop the download.
    Stop,
    /// This second's budget is spent: wait a little.
    Wait,
    /// Read at most this many bytes.
    Read(u64),
}

/// A download's budget: bytes per one-second window, and a time limit.
/// Times are milliseconds.
#[derive(Debug, Clone, Copy, PartialEq, Eq, Structural)]
pub struct DownloadBudget {
    pub max_bytes_per_sec: u64,
    pub max_duration_secs: u64,
    pub started: u64,
    pub window_started: u64,
    pub window_bytes: u64,
}

pub open spec fn elapsed(since: u64, now: u64) -> int {
    if now >= since {
        now - since
    } else {
        0
    }
}

/// The budget after the window check: a window a second old starts anew.
pub open spec fn refreshed(b: DownloadBudget, now: u64) -> DownloadBudget {
    if elapsed(b.window_started, now) >= 1000 {
        DownloadBudget { window_started: now, window_bytes: 0, ..b }
    } else {
        b
    }
}

/// Stop when asked to, when the network is no longer allowed or the time
/// is up; wait when the window's bytes are spent; else read what is left
/// of the window (at least one byte), at most `buffer_len`.
pub open spec fn next_step(b: DownloadBudget, now: u64, stop: bool, allowed: bool, buffer_len: u64) -> (
    DownloadBudget,
    DownloadStep,
) {
    if stop || !allowed || elapsed(b.started, now) >= 1000 * b.max_duration_secs {
        (b, DownloadStep::Stop)
    } else {
        let r = refreshed(b, now);
        if r.window_bytes >= r.max_bytes_per_sec {
            (r, DownloadStep::Wait)
        } else {
            let left = r.max_bytes_per_sec - r.window_bytes;
            let cap: int = if left < buffer_len {
                left
            } else {
                buffer_len as int
            };
            (r, DownloadStep::Read(cap as u64))
        }
    }
}

impl DownloadBudget {
    pub fn new(max_bytes_per_sec: u64, max_duration_secs: u64, now: u64) -> (b: DownloadBudget)
        ensures
            b == (DownloadBudget {
                max_bytes_per_sec,
                max_duration_secs,
                started: now,
                window_started: now,
                window_bytes: 0,
            }),
    {
        DownloadBudget {
            max_bytes_per_sec,
            max_duration_secs,
            started: now,
            window_started: now,
            window_bytes: 0,
        }
    }

    /// The next step of the download at `now`.
    pub fn next(&mut self, now: u64, stop: bool, allowed: bool, buffer_len: u64) -> (s:
        DownloadStep)
        ensures
            (*final(self), s) == next_step(*old(self), now, stop, allowed, buffer_len),
    {
        let since_start: u64 = if now >= self.started {
            now - self.started
        } else {
            0
        };
        if stop || !allowed || (since_start as u128) >= 1000 * (self.max_duration_secs as u128) {
            return DownloadStep::Stop;
        }
        let since_window: u64 = if now >= self.window_started {
            now - self.window_started
        } else {
            0
        };
        if since_window >= 1000 {
            self.window_started = now;
            self.window_bytes = 0;
        }
        if self.window_bytes >= self.max_bytes_per_sec {
            return DownloadStep::Wait;
        }
        let left = self.max_bytes_per_sec - self.window_bytes;
        let cap = if left < buffer_len {
            left
        } else {
            buffer_len
        };
        DownloadStep::Read(cap)
    }

    /// Counts bytes read in the current window.
    pub fn record(&mut self, bytes: u64)
        requires
            old(self).window_bytes + bytes <= u64::MAX,
        ensures
            *final(self) == (DownloadBudget {
                window_bytes: (old(self).window_bytes + bytes) as u64,
                ..*old(self)
            }),
    {
        self.window_bytes = self.window_bytes + bytes;
    }
}

/// A read never takes more than the window has left: after recording a read
/// of at most the granted bytes, the window stays within the rate.
pub proof fn lemma_reads_stay_within_rate(
    b: DownloadBudget,
    now: u64,
    stop: bool,
    allowed: bool,
    buffer_len: u64,
    bytes: u64,
)
    requires
        next_step(b, now, stop, allowed, buffer_len).1 matches DownloadStep::Read(cap) && bytes
            <= cap,
    ensures
        next_step(b, now, stop, allowed, buffer_len).0.window_bytes + bytes
            <= b.max_bytes_per_sec,
{
}

/// The budget keeps the bytes of each one-second window within the rate:
/// when the window's count is within the rate before a step, it is after
/// the step, and after recording a read of at most the granted bytes. A step
/// either keeps the window and its count or starts a new window at `now`
/// with a count of zero; it never changes the rate, the limit or the start.
pub proof fn lemma_budget_keeps_windows_within_rate(
    b: DownloadBudget,
    now: u64,
    stop: bool,
    allowed: bool,
    buffer_len: u64,
    bytes: u64,
)
    requires
        b.window_bytes <= b.max_bytes_per_sec,
    ensures
        ({
            let (b2, step) = next_step(b, now, stop, allowed, buffer_len);
            &&& b2.window_bytes <= b2.max_bytes_per_sec
            &&& b2.max_bytes_per_sec == b.max_bytes_per_sec
            &&& b2.max_duration_secs == b.max_duration_secs
            &&& b2.started == b.started
            &&& (b2.window_started == b.window_started && b2.window_bytes == b.window_bytes) || (
            b2.window_started == now && b2.window_bytes == 0)
            &&& (step matches DownloadStep::Read(cap) && bytes <= cap) ==> b2.window_bytes + bytes
                <= b2.max_bytes_per_sec
        }),
{
}

// ---------------------------------------------------------------------------
// Target URLs
// ---------------------------------------------------------------------------

/// Only plain `http://` targets are fetched.
#[derive(Debug, Clone, Copy, PartialEq, Eq, Structural)]
pub enum UrlError {
    UnsupportedScheme,
}

#[derive(Debug, Clone)]
pub struct ParsedUrl {
    pub host: String,
    pub port: u16,
    pub path: String,
}

pub struct UrlModel {
    pub host: Seq<char>,
    pub port: u16,
    pub path: Seq<char>,
}

impl View for ParsedUrl {
    type V = UrlModel;

    open spec fn view(&self) -> UrlModel {
        UrlModel { host: self.host@, port: self.port, path: self.path@ }
    }
}

/// `host[:port][/path]` after `http://`: the port is 80 when absent or not a
/// number that fits 16 bits; the path keeps its `/` and is `/` when absent.
pub open spec fn parse_url_model(url: Seq<char>) -> Result<UrlModel, UrlError> {
    if !starts_with(url, "http://"@) {
        Err(UrlError::UnsupportedScheme)
    } else {
        let rest = url.subrange(7, url.len() as int);
        let (host_port, path) = match split_once(rest, '/') {
            Some((hp, p)) => (hp, "/"@ + p),
            None => (rest, "/"@),
        };
        let (host, port) = match split_once(host_port, ':') {
            Some((h, p)) => (
                h,
                match parse_unsigned(p, u16::MAX as nat) {
                    Some(n) => n as u16,
                    None => 80u16,
                },
            ),
            None => (host_port, 80u16),
        };
        Ok(UrlModel { host, port, path })
    }
}

impl ParsedUrl {
    /// Reads an `http://` target.
    pub fn parse(url: &str) -> (r: Result<ParsedUrl, UrlError>)
        ensures
            match parse_url_model(url@) {
                Ok(m) => r matches Ok(u) && u@ == m,
                Err(e) => r == Err::<ParsedUrl, UrlError>(e),
            },
    {
        let s = chars_of(url);
        if !slice_starts_with(&s, "http://") {
            return Err(UrlError::UnsupportedScheme);
        }
        proof {
            reveal_strlit("http://");
        }
        let n = s.len();
        let rest = &s[7..n];
        let slash = find_char(rest, 0, '/');
        let (hp_end, path) = if slash < rest.len() {
            let mut p = String::new();
            push_char(&mut p, '/');
            let tail = string_of(&rest[slash + 1..rest.len()]);
            p.append(tail.as_str());
            assert(p@ =~= "/"@ + rest@.subrange(slash + 1, rest@.len() as int)) by {
                reveal_strlit("/");
            }
            (slash, p)
        } else {
            let p = String::from_str("/");
            (rest.len(), p)
        };
        let host_port = &rest[0..hp_end];
        assert(host_port@ == (match split_once(rest@, '/') {
            Some((hp, _)) => hp,
            None => rest@,
        })) by {
            if slash >= rest.len() {
                assert(rest@.subrange(0, rest@.len() as int) =~= rest@);
            }
        }
        let colon = find_char(host_port, 0, ':');
        let (host, port) = if colon < host_port.len() {
            let port = match parse_decimal(host_port, colon + 1, host_port.len(), u16::MAX as u64) {
                Some(x) => x as u16,
                None => 80u16,
            };
            (string_of(&host_port[0..colon]), port)
        } else {
            (string_of(host_port), 80u16)
        };
        Ok(ParsedUrl { host, port, path })
    }
}

/// The `GET` request for a parsed target.
pub open spec fn request_model(u: UrlModel) -> Seq<char> {
    "GET "@ + u.path + " HTTP/1.1\r\nHost: "@ + u.host
        + "\r\nUser-Agent: useless/0.1.0\r\nConnection: close\r\n\r\n"@
}

impl ParsedUrl {
    /// The HTTP/1.1 request that fetches the target and closes the
    /// connection.
    pub fn request_text(&self) -> (s: String)
        ensures
            s@ == request_model(self@),
    {
        let mut out = String::new();
        push_str(&mut out, "GET ");
        push_str(&mut out, self.path.as_str());
        push_str(&mut out, " HTTP/1.1\r\nHost: ");
        push_str(&mut out, self.host.as_str());
        push_str(&mut out, "\r\nUser-Agent: useless/0.1.0\r\nConnection: close\r\n\r\n");
        assert(out@ =~= request_model(self@));
        out
    }
}

} // verus!
