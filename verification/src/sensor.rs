//! What the sensors report, and the reading of `who -u --ips` and
//! `ps -eo args` output into counts of interactive sessions.
use vstd::prelude::*;

use crate::error::AppResult;

use crate::text::{
    chars_of, find_char, find_from, find_lit, has_char, is_ascii_alpha, lemma_has_char_scan,
    lemma_scan_back, lemma_scan_to, line_bounds, lines, parse_decimal, parse_unsigned, pieces_are,
    range_is, scan_back, scan_to, slice_starts_with, split, split_bounds, split_once, starts_with,
    string_of, trim, trim_slice, word_bounds, words, is_char,
};

verus! {

/// One reading of the host's load and of the people using it.
#[derive(Debug, Clone, Copy, PartialEq, Eq, Structural)]
pub struct SensorSample {
    pub load_percent: u8,
    pub mem_available_percent: u8,
    pub interactive_session: bool,
    pub tty_sessions: usize,
    pub ssh_sessions: usize,
    pub net_rx_bytes_per_sec: u64,
    pub net_tx_bytes_per_sec: u64,
}

pub open spec fn zero_sample() -> SensorSample {
    SensorSample {
        load_percent: 0,
        mem_available_percent: 0,
        interactive_session: false,
        tty_sessions: 0,
        ssh_sessions: 0,
        net_rx_bytes_per_sec: 0,
        net_tx_bytes_per_sec: 0,
    }
}

/// A source of samples. What it reads depends on the host, so its methods
/// promise nothing.
pub trait SensorBackend {
    /// A sample, counting sessions idle for at most `active_tty_idle_secs`.
    fn sample(&mut self, active_tty_idle_secs: u64) -> AppResult<SensorSample>;

    /// The backend's name, for the log.
    fn backend_name(&self) -> &'static str;
}

impl Default for SensorSample {
    fn default() -> (s: SensorSample)
        ensures
            s == zero_sample(),
    {
        SensorSample {
            load_percent: 0,
            mem_available_percent: 0,
            interactive_session: false,
            tty_sessions: 0,
            ssh_sessions: 0,
            net_rx_bytes_per_sec: 0,
            net_tx_bytes_per_sec: 0,
        }
    }
}

// ---------------------------------------------------------------------------
// Idle times
// ---------------------------------------------------------------------------

pub open spec fn u64_text(s: Seq<char>) -> Option<nat> {
    parse_unsigned(s, u64::MAX as nat)
}

/// `<seconds>[.<fraction>]`, a started second counting as a whole one.
pub open spec fn idle_seconds_suffix(v: Seq<char>) -> Option<int> {
    match split_once(v, '.') {
        Some((whole, frac)) => match u64_text(whole) {
            None => None,
            Some(w) => Some(
                w + if u64_text(frac) matches Some(f) && f > 0 {
                    1int
                } else {
                    0int
                },
            ),
        },
        None => match u64_text(v) {
            Some(x) => Some(x as int),
            None => None,
        },
    }
}

/// `<minutes>:<seconds>` (before a trailing `m`).
pub open spec fn idle_minutes_suffix(v: Seq<char>) -> Option<int> {
    match split_once(v, ':') {
        None => None,
        Some((m, s)) => match (u64_text(m), u64_text(s)) {
            (Some(m), Some(s)) => Some((m * 60 + s) as int),
            _ => None,
        },
    }
}

/// `<minutes>:<seconds>` or `<hours>:<minutes>:<seconds>`.
pub open spec fn idle_colon(t: Seq<char>) -> Option<int> {
    let segs = split(t, ':');
    if segs.len() == 2 {
        match (u64_text(segs[0]), u64_text(segs[1])) {
            (Some(m), Some(s)) => Some((m * 60 + s) as int),
            _ => None,
        }
    } else if segs.len() == 3 {
        match (u64_text(segs[0]), u64_text(segs[1]), u64_text(segs[2])) {
            (Some(h), Some(m), Some(s)) => Some((h * 3600 + m * 60 + s) as int),
            _ => None,
        }
    } else {
        None
    }
}

/// The idle time, in seconds, that an IDLE column of `who -u` stands for:
/// `.` is none, `old` the most there is, `Ns`, `M:SSm`, `M:SS`, `H:MM:SS`,
/// and a bare number counts minutes.
pub open spec fn idle_seconds(token: Seq<char>) -> Option<int> {
    let t = trim(token);
    if t.len() == 0 {
        None
    } else if t == "."@ {
        Some(0)
    } else if t == "old"@ {
        Some(u64::MAX as int)
    } else if t.last() == 's' {
        idle_seconds_suffix(t.drop_last())
    } else if t.last() == 'm' {
        idle_minutes_suffix(t.drop_last())
    } else if has_char(t, ':') {
        idle_colon(t)
    } else {
        match u64_text(t) {
            Some(v) => Some((v * 60) as int),
            None => None,
        }
    }
}

/// The idle time, when there is one, fits in a `u64`; the arithmetic that
/// computes it overflows otherwise.
pub open spec fn idle_in_range(token: Seq<char>) -> bool {
    idle_seconds(token) matches Some(v) ==> v <= u64::MAX
}

fn u64_text_exec(s: &[char]) -> (r: Option<u64>)
    ensures
        match u64_text(s@) {
            Some(v) => r == Some(v as u64),
            None => r is None,
        },
{
    assert(s@.subrange(0, s@.len() as int) =~= s@);
    parse_decimal(s, 0, s.len(), u64::MAX)
}

fn idle_seconds_suffix_exec(v: &[char]) -> (r: Option<u64>)
    requires
        idle_seconds_suffix(v@) matches Some(x) ==> x <= u64::MAX,
    ensures
        match idle_seconds_suffix(v@) {
            Some(x) => r == Some(x as u64),
            None => r is None,
        },
{
    let j = find_char(v, 0, '.');
    if j < v.len() {
        let whole = u64_text_exec(&v[0..j]);
        let frac = u64_text_exec(&v[j + 1..v.len()]);
        match whole {
            None => None,
            Some(w) => {
                let bump: u64 = match frac {
                    Some(f) => if f > 0 {
                        1
                    } else {
                        0
                    },
                    None => 0,
                };
                Some(w + bump)
            },
        }
    } else {
        u64_text_exec(v)
    }
}

fn idle_minutes_suffix_exec(v: &[char]) -> (r: Option<u64>)
    requires
        idle_minutes_suffix(v@) matches Some(x) ==> x <= u64::MAX,
    ensures
        match idle_minutes_suffix(v@) {
            Some(x) => r == Some(x as u64),
            None => r is None,
        },
{
    let j = find_char(v, 0, ':');
    if j == v.len() {
        return None;
    }
    let m = u64_text_exec(&v[0..j]);
    let s = u64_text_exec(&v[j + 1..v.len()]);
    match (m, s) {
        (Some(m), Some(s)) => {
            let total = (m as u128) * 60 + (s as u128);
            Some(total as u64)
        },
        _ => None,
    }
}

fn idle_colon_exec(t: &[char]) -> (r: Option<u64>)
    requires
        idle_colon(t@) matches Some(x) ==> x <= u64::MAX,
    ensures
        match idle_colon(t@) {
            Some(x) => r == Some(x as u64),
            None => r is None,
        },
{
    let segs = split_bounds(t, ':');
    let ghost ss = split(t@, ':');
    if segs.len() == 2 {
        let (a0, b0) = segs[0];
        let (a1, b1) = segs[1];
        assert(segs@[0] == (a0, b0) && segs@[1] == (a1, b1));
        let m = u64_text_exec(&t[a0..b0]);
        let s = u64_text_exec(&t[a1..b1]);
        match (m, s) {
            (Some(m), Some(s)) => Some(((m as u128) * 60 + (s as u128)) as u64),
            _ => None,
        }
    } else if segs.len() == 3 {
        let (a0, b0) = segs[0];
        let (a1, b1) = segs[1];
        let (a2, b2) = segs[2];
        assert(segs@[0] == (a0, b0) && segs@[1] == (a1, b1) && segs@[2] == (a2, b2));
        let h = u64_text_exec(&t[a0..b0]);
        let m = u64_text_exec(&t[a1..b1]);
        let s = u64_text_exec(&t[a2..b2]);
        match (h, m, s) {
            (Some(h), Some(m), Some(s)) => Some(
                ((h as u128) * 3600 + (m as u128) * 60 + (s as u128)) as u64,
            ),
            _ => None,
        }
    } else {
        None
    }
}

fn idle_token(token: &[char]) -> (r: Option<u64>)
    requires
        idle_in_range(token@),
    ensures
        match idle_seconds(token@) {
            Some(v) => r == Some(v as u64),
            None => r is None,
        },
{
    let t = trim_slice(token);
    let n = t.len();
    if n == 0 {
        return None;
    }
    assert(t@.subrange(0, n as int) =~= t@);
    if range_is(t, 0, n, ".") {
        return Some(0);
    }
    if range_is(t, 0, n, "old") {
        return Some(u64::MAX);
    }
    let last = t[n - 1];
    if last == 's' {
        assert(t@.drop_last() =~= t@.subrange(0, n - 1));
        return idle_seconds_suffix_exec(&t[0..n - 1]);
    }
    if last == 'm' {
        assert(t@.drop_last() =~= t@.subrange(0, n - 1));
        return idle_minutes_suffix_exec(&t[0..n - 1]);
    }
    let colon = find_char(t, 0, ':');
    proof {
        lemma_has_char_scan(t@, ':');
    }
    if colon < n {
        return idle_colon_exec(t);
    }
    match u64_text_exec(t) {
        Some(v) => Some(((v as u128) * 60) as u64),
        None => None,
    }
}

/// Reads an IDLE column of `who -u` into seconds (see `idle_seconds`).
pub fn parse_idle_token(token: &str) -> (r: Option<u64>)
    requires
        idle_in_range(token@),
    ensures
        match idle_seconds(token@) {
            Some(v) => r == Some(v as u64),
            None => r is None,
        },
{
    let t = chars_of(token);
    idle_token(&t)
}

/// Whether reading the token would overflow; the callers of `parse_idle_token`
/// check this first.
pub fn idle_token_in_range(token: &str) -> (b: bool)
    ensures
        b == idle_in_range(token@),
{
    let t = chars_of(token);
    idle_token_checked(&t)
}

fn idle_token_checked(token: &[char]) -> (b: bool)
    ensures
        b == idle_in_range(token@),
{
    let t = trim_slice(token);
    let n = t.len();
    if n == 0 {
        return true;
    }
    assert(t@.subrange(0, n as int) =~= t@);
    if range_is(t, 0, n, ".") || range_is(t, 0, n, "old") {
        return true;
    }
    let last = t[n - 1];
    if last == 's' {
        assert(t@.drop_last() =~= t@.subrange(0, n - 1));
        let v = &t[0..n - 1];
        let j = find_char(v, 0, '.');
        if j < v.len() {
            let whole = u64_text_exec(&v[0..j]);
            let frac = u64_text_exec(&v[j + 1..v.len()]);
            return match (whole, frac) {
                (Some(w), Some(f)) => !(w == u64::MAX && f > 0),
                _ => true,
            };
        }
        return true;
    }
    if last == 'm' {
        assert(t@.drop_last() =~= t@.subrange(0, n - 1));
        let v = &t[0..n - 1];
        let j = find_char(v, 0, ':');
        if j == v.len() {
            return true;
        }
        let m = u64_text_exec(&v[0..j]);
        let s = u64_text_exec(&v[j + 1..v.len()]);
        return match (m, s) {
            (Some(m), Some(s)) => (m as u128) * 60 + (s as u128) <= u64::MAX as u128,
            _ => true,
        };
    }
    let colon = find_char(t, 0, ':');
    proof {
        lemma_has_char_scan(t@, ':');
    }
    if colon < n {
        let segs = split_bounds(t, ':');
        if segs.len() == 2 {
            let (a0, b0) = segs[0];
            let (a1, b1) = segs[1];
            assert(segs@[0] == (a0, b0) && segs@[1] == (a1, b1));
            let m = u64_text_exec(&t[a0..b0]);
            let s = u64_text_exec(&t[a1..b1]);
            return match (m, s) {
                (Some(m), Some(s)) => (m as u128) * 60 + (s as u128) <= u64::MAX as u128,
                _ => true,
            };
        } else if segs.len() == 3 {
            let (a0, b0) = segs[0];
            let (a1, b1) = segs[1];
            let (a2, b2) = segs[2];
            assert(segs@[0] == (a0, b0) && segs@[1] == (a1, b1) && segs@[2] == (a2, b2));
            let h = u64_text_exec(&t[a0..b0]);
            let m = u64_text_exec(&t[a1..b1]);
            let s = u64_text_exec(&t[a2..b2]);
            return match (h, m, s) {
                (Some(h), Some(m), Some(s)) => (h as u128) * 3600 + (m as u128) * 60 + (s as u128)
                    <= u64::MAX as u128,
                _ => true,
            };
        }
        return true;
    }
    match u64_text_exec(t) {
        Some(v) => (v as u128) * 60 <= u64::MAX as u128,
        None => true,
    }
}


// ---------------------------------------------------------------------------
// `who -u --ips`
// ---------------------------------------------------------------------------

/// A row of `who -u --ips`: its terminal, whether it was used within the
/// idle limit, and whether it comes from another host.
pub struct WhoSessionModel {
    pub tty: Seq<char>,
    pub active: bool,
    pub remote: bool,
}

pub open spec fn has_ascii_alpha(v: Seq<char>) -> bool {
    exists|i: int| 0 <= i < v.len() && is_ascii_alpha(v[i])
}

/// A host name or address: something with a `.`, a `:` or a letter.
pub open spec fn looks_remote(v: Seq<char>) -> bool {
    v.len() > 0 && (has_char(v, '.') || has_char(v, ':') || has_ascii_alpha(v))
}

/// A pseudo-terminal session whose last column is `(host)`, or, on a row of
/// seven or more columns, looks like a host.
pub open spec fn is_remote(tty: Seq<char>, parts: Seq<Seq<char>>) -> bool {
    if !starts_with(tty, "pts/"@) || parts.len() == 0 {
        false
    } else {
        let last = parts.last();
        if last.len() > 0 && last[0] == '(' && last.last() == ')' {
            true
        } else if parts.len() < 7 {
            false
        } else {
            looks_remote(last)
        }
    }
}

/// The terminal columns that count: `pts/N` and `ttyN`.
pub open spec fn is_terminal(tty: Seq<char>) -> bool {
    starts_with(tty, "pts/"@) || starts_with(tty, "tty"@)
}

/// A row with at least five columns, a terminal in the second and a readable
/// idle time in the fifth.
pub open spec fn who_session(line: Seq<char>, idle_limit: u64) -> Option<WhoSessionModel> {
    let parts = words(line);
    if parts.len() < 5 {
        None
    } else if !is_terminal(parts[1]) {
        None
    } else {
        match idle_seconds(parts[4]) {
            None => None,
            Some(secs) => Some(
                WhoSessionModel {
                    tty: parts[1],
                    active: secs <= idle_limit,
                    remote: is_remote(parts[1], parts),
                },
            ),
        }
    }
}

/// Reading the row does not overflow (see `idle_in_range`).
pub open spec fn who_line_in_range(line: Seq<char>) -> bool {
    let parts = words(line);
    (parts.len() >= 5 && is_terminal(parts[1])) ==> idle_in_range(parts[4])
}

pub open spec fn who_output_in_range(stdout: Seq<char>) -> bool {
    forall|i: int| 0 <= i < lines(stdout).len() ==> who_line_in_range(#[trigger] lines(stdout)[i])
}

/// The index of `tty` among the sessions from `i` on, or the length.
pub open spec fn tty_index(m: Seq<(Seq<char>, bool)>, tty: Seq<char>, i: int) -> int
    decreases m.len() - i,
{
    if i < 0 || i >= m.len() {
        m.len() as int
    } else if m[i].0 == tty {
        i
    } else {
        tty_index(m, tty, i + 1)
    }
}

/// One active row recorded: a terminal seen again is remote when either row is.
pub open spec fn add_session(m: Seq<(Seq<char>, bool)>, s: WhoSessionModel) -> Seq<
    (Seq<char>, bool),
> {
    let k = tty_index(m, s.tty, 0);
    if k < m.len() {
        m.update(k, (s.tty, m[k].1 || s.remote))
    } else {
        m.push((s.tty, s.remote))
    }
}

/// The active sessions of lines `i..`, added to `acc`.
pub open spec fn who_sessions_from(
    ls: Seq<Seq<char>>,
    i: int,
    idle_limit: u64,
    acc: Seq<(Seq<char>, bool)>,
) -> Seq<(Seq<char>, bool)>
    decreases ls.len() - i,
{
    if i < 0 || i >= ls.len() {
        acc
    } else {
        match who_session(ls[i], idle_limit) {
            Some(s) => if s.active {
                who_sessions_from(ls, i + 1, idle_limit, add_session(acc, s))
            } else {
                who_sessions_from(ls, i + 1, idle_limit, acc)
            },
            None => who_sessions_from(ls, i + 1, idle_limit, acc),
        }
    }
}

/// Each terminal with an active row, once, and whether any of its rows is remote.
pub open spec fn who_sessions(stdout: Seq<char>, idle_limit: u64) -> Seq<(Seq<char>, bool)> {
    who_sessions_from(lines(stdout), 0, idle_limit, seq![])
}

/// The active terminals of `who` output, each once, with whether it is remote.
pub struct TtySessions {
    entries: Vec<(String, bool)>,
}

impl View for TtySessions {
    type V = Seq<(Seq<char>, bool)>;

    closed spec fn view(&self) -> Seq<(Seq<char>, bool)> {
        self.entries@.map_values(|e: (String, bool)| (e.0@, e.1))
    }
}

impl TtySessions {
    /// Each terminal appears once.
    #[verifier::type_invariant]
    closed spec fn well_formed(self) -> bool {
        distinct_ttys(self@)
    }

    pub fn new() -> (r: TtySessions)
        ensures
            r@ == Seq::<(Seq<char>, bool)>::empty(),
    {
        let r = TtySessions { entries: Vec::new() };
        assert(r@ =~= Seq::<(Seq<char>, bool)>::empty());
        r
    }

    /// The number of terminals, each listed once.
    pub fn len(&self) -> (n: usize)
        ensures
            n == self@.len(),
            distinct_ttys(self@),
    {
        proof {
            use_type_invariant(self);
        }
        self.entries.len()
    }

    /// Whether `tty` has an active session, and if so whether it is remote.
    pub fn get(&self, tty: &str) -> (r: Option<bool>)
        ensures
            tty_index(self@, tty@, 0) < self@.len() ==> r == Some(
                self@[tty_index(self@, tty@, 0)].1,
            ),
            tty_index(self@, tty@, 0) >= self@.len() ==> r is None,
    {
        let key = String::from_str(tty);
        let k = self.find(&key);
        if k < self.entries.len() {
            Some(self.entries[k].1)
        } else {
            None
        }
    }

    fn find(&self, tty: &String) -> (k: usize)
        ensures
            k == tty_index(self@, tty@, 0),
            k <= self@.len(),
    {
        let mut i: usize = 0;
        while i < self.entries.len()
            invariant
                i <= self.entries@.len(),
                tty_index(self@, tty@, 0) == tty_index(self@, tty@, i as int),
            decreases self.entries@.len() - i,
        {
            assert(self@[i as int] == (self.entries@[i as int].0@, self.entries@[i as int].1));
            if self.entries[i].0 == *tty {
                return i;
            }
            i = i + 1;
        }
        i
    }

    fn add(&mut self, tty: String, remote: bool)
        ensures
            final(self)@ == add_session(
                old(self)@,
                WhoSessionModel { tty: tty@, active: true, remote },
            ),
    {
        proof {
            use_type_invariant(&*self);
        }
        let ghost s = WhoSessionModel { tty: tty@, active: true, remote };
        proof {
            lemma_add_session_distinct(self@, s);
            lemma_tty_index(self@, s.tty, 0);
        }
        let k = self.find(&tty);
        let mut entries = Vec::new();
        std::mem::swap(&mut entries, &mut self.entries);
        let ghost before = entries@.map_values(|e: (String, bool)| (e.0@, e.1));
        if k < entries.len() {
            let merged = entries[k].1 || remote;
            entries.set(k, (tty, merged));
            assert(entries@.map_values(|e: (String, bool)| (e.0@, e.1)) =~= before.update(
                k as int,
                (s.tty, before[k as int].1 || remote),
            ));
        } else {
            entries.push((tty, remote));
            assert(entries@.map_values(|e: (String, bool)| (e.0@, e.1)) =~= before.push(
                (s.tty, remote),
            ));
        }
        self.entries = entries;
    }
}

fn looks_like_remote_host(v: &[char]) -> (b: bool)
    ensures
        b == looks_remote(v@),
{
    if v.len() == 0 {
        return false;
    }
    let dot = find_char(v, 0, '.');
    let colon = find_char(v, 0, ':');
    proof {
        lemma_has_char_scan(v@, '.');
        lemma_has_char_scan(v@, ':');
    }
    if dot < v.len() || colon < v.len() {
        return true;
    }
    let mut i: usize = 0;
    while i < v.len()
        invariant
            i <= v@.len(),
            forall|k: int| 0 <= k < i ==> !is_ascii_alpha(#[trigger] v@[k]),
        decreases v@.len() - i,
    {
        let c = v[i];
        if ('a' <= c && c <= 'z') || ('A' <= c && c <= 'Z') {
            return true;
        }
        i = i + 1;
    }
    false
}

fn is_remote_session(tty: &[char], line: &[char], wb: &Vec<(usize, usize)>) -> (b: bool)
    requires
        pieces_are(line@, wb@, words(line@)),
    ensures
        b == is_remote(tty@, words(line@)),
{
    let ghost parts = words(line@);
    if !slice_starts_with(tty, "pts/") || wb.len() == 0 {
        return false;
    }
    let (la, lb) = wb[wb.len() - 1];
    assert(wb@[wb@.len() - 1] == (la, lb));
    let last = &line[la..lb];
    assert(last@ == parts.last());
    if last.len() > 0 && last[0] == '(' && last[last.len() - 1] == ')' {
        return true;
    }
    if wb.len() < 7 {
        return false;
    }
    looks_like_remote_host(last)
}

/// One row: the terminal, whether it is active, whether it is remote.
fn who_session_exec(line: &[char], idle_limit: u64) -> (r: Option<(String, bool, bool)>)
    requires
        who_line_in_range(line@),
    ensures
        match who_session(line@, idle_limit) {
            Some(s) => r matches Some(x) && x.0@ == s.tty && x.1 == s.active && x.2 == s.remote,
            None => r is None,
        },
{
    let wb = word_bounds(line);
    let ghost parts = words(line@);
    if wb.len() < 5 {
        return None;
    }
    let (ta, tb) = wb[1];
    assert(wb@[1] == (ta, tb));
    let tty = &line[ta..tb];
    if !(slice_starts_with(tty, "pts/") || slice_starts_with(tty, "tty")) {
        return None;
    }
    let (ia, ib) = wb[4];
    assert(wb@[4] == (ia, ib));
    match idle_token(&line[ia..ib]) {
        None => None,
        Some(secs) => {
            let remote = is_remote_session(tty, line, &wb);
            Some((string_of(tty), secs <= idle_limit, remote))
        },
    }
}

fn who_sessions_exec(s: &[char], idle_limit: u64) -> (r: TtySessions)
    requires
        who_output_in_range(s@),
    ensures
        r@ == who_sessions(s@, idle_limit),
{
    let lb = line_bounds(s);
    let ghost ls = lines(s@);
    let mut out = TtySessions::new();
    let mut i: usize = 0;
    while i < lb.len()
        invariant
            ls == lines(s@),
            who_output_in_range(s@),
            pieces_are(s@, lb@, ls),
            i <= lb@.len(),
            who_sessions(s@, idle_limit) == who_sessions_from(ls, i as int, idle_limit, out@),
        decreases lb@.len() - i,
    {
        let (a, b) = lb[i];
        assert(lb@[i as int] == (a, b));
        assert(who_line_in_range(ls[i as int]));
        match who_session_exec(&s[a..b], idle_limit) {
            Some((tty, active, remote)) => {
                if active {
                    out.add(tty, remote);
                }
            },
            None => {},
        }
        i = i + 1;
    }
    out
}

/// The active terminal sessions in `who -u --ips` output: rows idle for at
/// most `active_tty_idle_secs`, each terminal once, remote when any of its
/// rows is.
pub fn parse_who_users(stdout: &str, active_tty_idle_secs: u64) -> (r: TtySessions)
    requires
        who_output_in_range(stdout@),
    ensures
        r@ == who_sessions(stdout@, active_tty_idle_secs),
{
    let s = chars_of(stdout);
    who_sessions_exec(&s, active_tty_idle_secs)
}

/// Whether `parse_who_users` can read this output without overflow.
pub fn who_output_is_readable(stdout: &str) -> (b: bool)
    ensures
        b == who_output_in_range(stdout@),
{
    let s = chars_of(stdout);
    let lb = line_bounds(&s);
    let ghost ls = lines(s@);
    let mut i: usize = 0;
    while i < lb.len()
        invariant
            ls == lines(s@),
            s@ == stdout@,
            pieces_are(s@, lb@, ls),
            i <= lb@.len(),
            forall|k: int| 0 <= k < i ==> who_line_in_range(#[trigger] ls[k]),
        decreases lb@.len() - i,
    {
        let (a, b) = lb[i];
        assert(lb@[i as int] == (a, b));
        let line = &s[a..b];
        let wb = word_bounds(line);
        if wb.len() >= 5 {
            let (ta, tb) = wb[1];
            assert(wb@[1] == (ta, tb));
            let tty = &line[ta..tb];
            if slice_starts_with(tty, "pts/") || slice_starts_with(tty, "tty") {
                let (ia, ib) = wb[4];
                assert(wb@[4] == (ia, ib));
                if !idle_token_checked(&line[ia..ib]) {
                    return false;
                }
            }
        }
        i = i + 1;
    }
    true
}


// ---------------------------------------------------------------------------
// `ps -eo args`
// ---------------------------------------------------------------------------

pub open spec fn not_closing() -> spec_fn(char) -> bool {
    |c: char| !(c == ')' || c == ',' || c == ':' || c == ']')
}

/// The text without the `)`, `,`, `:` and `]` that end it.
pub open spec fn trim_closing(s: Seq<char>) -> Seq<char> {
    s.subrange(0, scan_back(s, s.len() as int, not_closing()))
}

/// The terminal of an `sshd:` process line: the word after the first `@`
/// that starts `@pts/`, without closing punctuation.
pub open spec fn sshd_tty(line: Seq<char>) -> Option<Seq<char>> {
    if find_from(line, "sshd:"@, 0) is None {
        None
    } else {
        match find_from(line, "@pts/"@, 0) {
            None => None,
            Some(start) => {
                let suffix = line.subrange(start + 1, line.len() as int);
                let ws = words(suffix);
                let first = if ws.len() > 0 {
                    ws[0]
                } else {
                    Seq::empty()
                };
                let tty = trim_closing(first);
                if starts_with(tty, "pts/"@) {
                    Some(tty)
                } else {
                    None
                }
            },
        }
    }
}

/// The terminals of lines `i..`, after those in `acc`, each once.
pub open spec fn sshd_ttys_from(ls: Seq<Seq<char>>, i: int, acc: Seq<Seq<char>>) -> Seq<Seq<char>>
    decreases ls.len() - i,
{
    if i < 0 || i >= ls.len() {
        acc
    } else {
        match sshd_tty(ls[i]) {
            Some(t) => if acc.contains(t) {
                sshd_ttys_from(ls, i + 1, acc)
            } else {
                sshd_ttys_from(ls, i + 1, acc.push(t))
            },
            None => sshd_ttys_from(ls, i + 1, acc),
        }
    }
}

/// The terminals that `sshd` serves, in order of first appearance.
pub open spec fn sshd_ttys(stdout: Seq<char>) -> Seq<Seq<char>> {
    sshd_ttys_from(lines(stdout), 0, seq![])
}

/// A set of terminal names.
pub struct TtySet {
    items: Vec<String>,
}

impl View for TtySet {
    type V = Seq<Seq<char>>;

    closed spec fn view(&self) -> Seq<Seq<char>> {
        self.items@.map_values(|t: String| t@)
    }
}

impl TtySet {
    /// Each terminal appears once.
    #[verifier::type_invariant]
    closed spec fn well_formed(self) -> bool {
        self@.no_duplicates()
    }

    pub fn new() -> (r: TtySet)
        ensures
            r@ == Seq::<Seq<char>>::empty(),
    {
        let r = TtySet { items: Vec::new() };
        assert(r@ =~= Seq::<Seq<char>>::empty());
        r
    }

    /// The number of terminals, each listed once.
    pub fn len(&self) -> (n: usize)
        ensures
            n == self@.len(),
            self@.no_duplicates(),
    {
        proof {
            use_type_invariant(self);
        }
        self.items.len()
    }

    pub fn is_empty(&self) -> (b: bool)
        ensures
            b == (self@.len() == 0),
    {
        self.items.len() == 0
    }

    fn contains_string(&self, tty: &String) -> (b: bool)
        ensures
            b == self@.contains(tty@),
    {
        let mut i: usize = 0;
        while i < self.items.len()
            invariant
                i <= self.items@.len(),
                forall|k: int| 0 <= k < i ==> self@[k] != tty@,
            decreases self.items@.len() - i,
        {
            assert(self@[i as int] == self.items@[i as int]@);
            if self.items[i] == *tty {
                assert(self@[i as int] == tty@);
                return true;
            }
            i = i + 1;
        }
        false
    }

    /// Whether `tty` is in the set.
    pub fn contains(&self, tty: &str) -> (b: bool)
        ensures
            b == self@.contains(tty@),
    {
        let t = String::from_str(tty);
        self.contains_string(&t)
    }

    /// Adds `tty` unless it is there already.
    pub fn insert(&mut self, tty: String)
        ensures
            final(self)@ == (if old(self)@.contains(tty@) {
                old(self)@
            } else {
                old(self)@.push(tty@)
            }),
    {
        proof {
            use_type_invariant(&*self);
        }
        if !self.contains_string(&tty) {
            let ghost before = self@;
            let ghost t = tty@;
            let mut items = Vec::new();
            std::mem::swap(&mut items, &mut self.items);
            items.push(tty);
            assert(items@.map_values(|x: String| x@) =~= before.push(t));
            assert forall|i: int, j: int|
                0 <= i < before.push(t).len() && 0 <= j < before.push(t).len() && i != j implies
                before.push(t)[i] != before.push(t)[j] by {
                if i < before.len() && j < before.len() {
                } else if i == before.len() {
                    assert(before[j] == before.push(t)[j]);
                } else {
                    assert(before[i] == before.push(t)[i]);
                }
            }
            self.items = items;
        }
    }
}

fn is_closing(c: char) -> (b: bool)
    ensures
        b == !not_closing()(c),
{
    c == ')' || c == ',' || c == ':' || c == ']'
}

fn sshd_tty_exec(line: &[char]) -> (r: Option<String>)
    ensures
        match sshd_tty(line@) {
            Some(t) => r matches Some(x) && x@ == t,
            None => r is None,
        },
{
    if find_lit(line, "sshd:").is_none() {
        return None;
    }
    let start = match find_lit(line, "@pts/") {
        Some(start) => start,
        None => return None,
    };
    proof {
        crate::text::lemma_find_from(line@, "@pts/"@, 0);
        reveal_strlit("@pts/");
    }
    let n = line.len();
    let suffix = &line[start + 1..n];
    let wb = word_bounds(suffix);
    let first: &[char] = if wb.len() > 0 {
        let (a, b) = wb[0];
        assert(wb@[0] == (a, b));
        &suffix[a..b]
    } else {
        &suffix[0..0]
    };
    assert(first@ == (if words(suffix@).len() > 0 {
        words(suffix@)[0]
    } else {
        Seq::empty()
    }));
    let mut k = first.len();
    while k > 0 && is_closing(first[k - 1])
        invariant
            k <= first@.len(),
            scan_back(first@, first@.len() as int, not_closing()) == scan_back(
                first@,
                k as int,
                not_closing(),
            ),
        decreases k,
    {
        k = k - 1;
    }
    let tty = &first[0..k];
    if slice_starts_with(tty, "pts/") {
        Some(string_of(tty))
    } else {
        None
    }
}

/// The terminals that `sshd` processes in `ps -eo args` output serve.
pub fn parse_sshd_ttys(stdout: &str) -> (r: TtySet)
    ensures
        r@ == sshd_ttys(stdout@),
{
    let s = chars_of(stdout);
    let lb = line_bounds(&s);
    let ghost ls = lines(s@);
    let mut out = TtySet::new();
    let mut i: usize = 0;
    while i < lb.len()
        invariant
            ls == lines(s@),
            s@ == stdout@,
            pieces_are(s@, lb@, ls),
            i <= lb@.len(),
            sshd_ttys(s@) == sshd_ttys_from(ls, i as int, out@),
        decreases lb@.len() - i,
    {
        let (a, b) = lb[i];
        assert(lb@[i as int] == (a, b));
        match sshd_tty_exec(&s[a..b]) {
            Some(t) => out.insert(t),
            None => {},
        }
        i = i + 1;
    }
    out
}

// ---------------------------------------------------------------------------
// Session counts
// ---------------------------------------------------------------------------

/// How many sessions are remote.
pub open spec fn count_remote(m: Seq<(Seq<char>, bool)>) -> nat
    decreases m.len(),
{
    if m.len() == 0 {
        0
    } else {
        count_remote(m.drop_last()) + if m.last().1 {
            1nat
        } else {
            0nat
        }
    }
}

/// How many sessions are remote and on a terminal that `sshd` serves.
pub open spec fn count_confirmed(m: Seq<(Seq<char>, bool)>, ssh: Seq<Seq<char>>) -> nat
    decreases m.len(),
{
    if m.len() == 0 {
        0
    } else {
        count_confirmed(m.drop_last(), ssh) + if m.last().1 && ssh.contains(m.last().0) {
            1nat
        } else {
            0nat
        }
    }
}

/// The number of SSH sessions: the remote sessions on terminals that `sshd`
/// serves, or, when `ps` named no terminal or none of them matches, all
/// remote sessions.
pub open spec fn ssh_count(m: Seq<(Seq<char>, bool)>, ssh: Seq<Seq<char>>) -> nat {
    if ssh.len() == 0 {
        count_remote(m)
    } else if count_confirmed(m, ssh) > 0 {
        count_confirmed(m, ssh)
    } else {
        count_remote(m)
    }
}

/// `(terminal sessions, SSH sessions)` from the active sessions and the
/// terminals that `sshd` serves.
pub fn counts_from_active_sessions(sessions_by_tty: &TtySessions, ssh_ttys: &TtySet) -> (r: (
    usize,
    usize,
))
    ensures
        r.0 == sessions_by_tty@.len(),
        r.1 == ssh_count(sessions_by_tty@, ssh_ttys@),
{
    let ghost m = sessions_by_tty@;
    let n = sessions_by_tty.entries.len();
    let mut remote: usize = 0;
    let mut confirmed: usize = 0;
    let mut i: usize = 0;
    while i < n
        invariant
            n == sessions_by_tty.entries@.len(),
            m == sessions_by_tty@,
            i <= n,
            remote == count_remote(m.subrange(0, i as int)),
            confirmed == count_confirmed(m.subrange(0, i as int), ssh_ttys@),
            remote <= i,
            confirmed <= i,
        decreases n - i,
    {
        let e = &sessions_by_tty.entries[i];
        assert(m[i as int] == (e.0@, e.1));
        assert(m.subrange(0, i + 1).drop_last() =~= m.subrange(0, i as int));
        if e.1 {
            remote = remote + 1;
            if ssh_ttys.contains_string(&e.0) {
                confirmed = confirmed + 1;
            }
        }
        i = i + 1;
    }
    assert(m.subrange(0, n as int) =~= m);
    let ssh = if ssh_ttys.is_empty() {
        remote
    } else if confirmed > 0 {
        confirmed
    } else {
        remote
    };
    (n, ssh)
}


// ---------------------------------------------------------------------------
// `/proc/meminfo`
// ---------------------------------------------------------------------------

/// The first word after `prefix`, read as a number; 0 when there is no
/// word or it is not a number.
pub open spec fn meminfo_number(rest: Seq<char>) -> u64 {
    let ws = words(rest);
    if ws.len() == 0 {
        0
    } else {
        match u64_text(ws[0]) {
            Some(v) => v as u64,
            None => 0,
        }
    }
}

/// `(MemTotal, MemAvailable)` after lines `0..i`: the last line of each kind
/// counts, a missing one reads as 0.
pub open spec fn meminfo_upto(ls: Seq<Seq<char>>, i: int) -> (u64, u64)
    decreases i,
{
    if i <= 0 || i > ls.len() {
        (0, 0)
    } else {
        let (total, available) = meminfo_upto(ls, i - 1);
        let l = ls[i - 1];
        if starts_with(l, "MemTotal:"@) {
            (meminfo_number(l.subrange(9, l.len() as int)), available)
        } else if starts_with(l, "MemAvailable:"@) {
            (total, meminfo_number(l.subrange(13, l.len() as int)))
        } else {
            (total, available)
        }
    }
}

/// `(MemTotal, MemAvailable)` of `/proc/meminfo` content, in KiB.
pub open spec fn meminfo_of(content: Seq<char>) -> (u64, u64) {
    meminfo_upto(lines(content), lines(content).len() as int)
}

fn meminfo_number_exec(rest: &[char]) -> (v: u64)
    ensures
        v == meminfo_number(rest@),
{
    let wb = word_bounds(rest);
    if wb.len() == 0 {
        return 0;
    }
    let (a, b) = wb[0];
    assert(wb@[0] == (a, b));
    match parse_decimal(rest, a, b, u64::MAX) {
        Some(v) => v,
        None => 0,
    }
}

/// Reads `(MemTotal, MemAvailable)`, in KiB, from `/proc/meminfo` content.
pub fn meminfo_values(content: &str) -> (r: (u64, u64))
    ensures
        r == meminfo_of(content@),
{
    let s = chars_of(content);
    let lb = line_bounds(&s);
    let ghost ls = lines(s@);
    let mut total: u64 = 0;
    let mut available: u64 = 0;
    let mut i: usize = 0;
    proof {
        reveal_strlit("MemTotal:");
        reveal_strlit("MemAvailable:");
    }
    while i < lb.len()
        invariant
            ls == lines(s@),
            pieces_are(s@, lb@, ls),
            i <= lb@.len(),
            (total, available) == meminfo_upto(ls, i as int),
            "MemTotal:"@.len() == 9,
            "MemAvailable:"@.len() == 13,
        decreases lb@.len() - i,
    {
        let (a, b) = lb[i];
        assert(lb@[i as int] == (a, b));
        let line = &s[a..b];
        if slice_starts_with(line, "MemTotal:") {
            total = meminfo_number_exec(&line[9..line.len()]);
        } else if slice_starts_with(line, "MemAvailable:") {
            available = meminfo_number_exec(&line[13..line.len()]);
        }
        i = i + 1;
    }
    (total, available)
}

// ---------------------------------------------------------------------------
// `/proc/loadavg` and `/sys/class/net`
// ---------------------------------------------------------------------------

/// The first whitespace-separated field of `/proc/loadavg` content (the
/// one-minute load average, as text), or `None` when there is none.
pub fn loadavg_field(content: &str) -> (r: Option<String>)
    ensures
        words(content@).len() == 0 ==> r is None,
        words(content@).len() > 0 ==> (r matches Some(f) && f@ == words(content@)[0]),
{
    let s = chars_of(content);
    let wb = word_bounds(&s);
    if wb.len() == 0 {
        return None;
    }
    let (a, b) = wb[0];
    assert(wb@[0] == (a, b));
    Some(string_of(&s[a..b]))
}

/// Whether the text of an interface's `operstate` file, trimmed, is `up`.
pub fn operstate_is_up(text: &str) -> (b: bool)
    ensures
        b == (trim(text@) == "up"@),
{
    let s = chars_of(text);
    let t = trim_slice(&s);
    assert(t@.subrange(0, t@.len() as int) =~= t@);
    range_is(t, 0, t.len(), "up")
}

/// A byte counter from `/sys/class/net/*/statistics`: the trimmed text read
/// as a `u64`, or `None` when it is not one.
pub fn parse_counter(text: &str) -> (r: Option<u64>)
    ensures
        match u64_text(trim(text@)) {
            Some(v) => r == Some(v as u64),
            None => r is None,
        },
{
    let s = chars_of(text);
    let t = trim_slice(&s);
    assert(t@.subrange(0, t@.len() as int) =~= t@);
    parse_decimal(t, 0, t.len(), u64::MAX)
}

/// One interface as read from `/sys/class/net`: its name, whether its
/// `operstate` says up, and its received and sent byte counters.
pub open spec fn interface_rows(rows: Seq<(String, bool, u64, u64)>) -> Seq<(Seq<char>, bool, u64, u64)> {
    rows.map_values(|r: (String, bool, u64, u64)| (r.0@, r.1, r.2, r.3))
}

/// An interface counts when it is up and is not the loopback `lo`.
pub open spec fn interface_counts(row: (Seq<char>, bool, u64, u64)) -> bool {
    row.1 && row.0 != "lo"@
}

/// The received bytes of the interfaces that count.
pub open spec fn rx_total(rows: Seq<(Seq<char>, bool, u64, u64)>) -> int
    decreases rows.len(),
{
    if rows.len() == 0 {
        0
    } else {
        rx_total(rows.drop_last()) + if interface_counts(rows.last()) {
            rows.last().2 as int
        } else {
            0
        }
    }
}

/// The sent bytes of the interfaces that count.
pub open spec fn tx_total(rows: Seq<(Seq<char>, bool, u64, u64)>) -> int
    decreases rows.len(),
{
    if rows.len() == 0 {
        0
    } else {
        tx_total(rows.drop_last()) + if interface_counts(rows.last()) {
            rows.last().3 as int
        } else {
            0
        }
    }
}

proof fn lemma_totals_grow(rows: Seq<(Seq<char>, bool, u64, u64)>, i: int, j: int)
    requires
        0 <= i <= j <= rows.len(),
    ensures
        rx_total(rows.subrange(0, i)) <= rx_total(rows.subrange(0, j)),
        tx_total(rows.subrange(0, i)) <= tx_total(rows.subrange(0, j)),
    decreases j - i,
{
    if i < j {
        lemma_totals_grow(rows, i, j - 1);
        assert(rows.subrange(0, j).drop_last() =~= rows.subrange(0, j - 1));
    }
}

/// The received and sent bytes of the interfaces that are up, leaving out
/// `lo`; `None` when either sum does not fit in 64 bits.
pub fn sum_interfaces(rows: &Vec<(String, bool, u64, u64)>) -> (r: Option<(u64, u64)>)
    ensures
        match r {
            Some((rx, tx)) => rx == rx_total(interface_rows(rows@)) && tx == tx_total(
                interface_rows(rows@),
            ),
            None => rx_total(interface_rows(rows@)) > u64::MAX || tx_total(interface_rows(rows@))
                > u64::MAX,
        },
{
    let ghost v = interface_rows(rows@);
    let mut rx: u64 = 0;
    let mut tx: u64 = 0;
    let mut i: usize = 0;
    while i < rows.len()
        invariant
            v == interface_rows(rows@),
            i <= rows@.len(),
            rx == rx_total(v.subrange(0, i as int)),
            tx == tx_total(v.subrange(0, i as int)),
        decreases rows@.len() - i,
    {
        let row = &rows[i];
        assert(v.subrange(0, i + 1).drop_last() =~= v.subrange(0, i as int));
        assert(v[i as int] == (row.0@, row.1, row.2, row.3));
        let counts = row.1 && !is_loopback(row.0.as_str());
        if counts {
            match (rx.checked_add(row.2), tx.checked_add(row.3)) {
                (Some(a), Some(b)) => {
                    rx = a;
                    tx = b;
                },
                _ => {
                    proof {
                        lemma_totals_grow(v, i + 1, v.len() as int);
                        assert(v.subrange(0, v.len() as int) =~= v);
                    }
                    return None;
                },
            }
        }
        i = i + 1;
    }
    assert(v.subrange(0, v.len() as int) =~= v);
    Some((rx, tx))
}

/// Whether an interface name is the loopback `lo`.
fn is_loopback(name: &str) -> (b: bool)
    ensures
        b == (name@ == "lo"@),
{
    let s = chars_of(name);
    assert(s@.subrange(0, s@.len() as int) =~= s@);
    range_is(&s, 0, s.len(), "lo")
}

// ---------------------------------------------------------------------------
// Laws
// ---------------------------------------------------------------------------

proof fn lemma_counts_bounded(m: Seq<(Seq<char>, bool)>, ssh: Seq<Seq<char>>)
    ensures
        count_remote(m) <= m.len(),
        count_confirmed(m, ssh) <= count_remote(m),
    decreases m.len(),
{
    if m.len() > 0 {
        lemma_counts_bounded(m.drop_last(), ssh);
    }
}

/// There are never more SSH sessions than terminal sessions.
pub proof fn lemma_ssh_sessions_at_most_tty_sessions(m: Seq<(Seq<char>, bool)>, ssh: Seq<Seq<char>>)
    ensures
        ssh_count(m, ssh) <= m.len(),
        ssh_count(m, ssh) <= count_remote(m),
{
    lemma_counts_bounded(m, ssh);
}

/// The terminals of the sessions are pairwise different.
pub open spec fn distinct_ttys(m: Seq<(Seq<char>, bool)>) -> bool {
    forall|i: int, j: int| 0 <= i < j < m.len() ==> m[i].0 != m[j].0
}

proof fn lemma_tty_index(m: Seq<(Seq<char>, bool)>, tty: Seq<char>, i: int)
    requires
        0 <= i <= m.len(),
    ensures
        i <= tty_index(m, tty, i) <= m.len(),
        tty_index(m, tty, i) < m.len() ==> m[tty_index(m, tty, i)].0 == tty,
        forall|k: int| i <= k < tty_index(m, tty, i) ==> m[k].0 != tty,
    decreases m.len() - i,
{
    if i < m.len() && m[i].0 != tty {
        lemma_tty_index(m, tty, i + 1);
    }
}

proof fn lemma_add_session_distinct(m: Seq<(Seq<char>, bool)>, s: WhoSessionModel)
    requires
        distinct_ttys(m),
    ensures
        distinct_ttys(add_session(m, s)),
        add_session(m, s).len() <= m.len() + 1,
{
    lemma_tty_index(m, s.tty, 0);
}

proof fn lemma_who_sessions_distinct(
    ls: Seq<Seq<char>>,
    i: int,
    limit: u64,
    acc: Seq<(Seq<char>, bool)>,
)
    requires
        distinct_ttys(acc),
    ensures
        distinct_ttys(who_sessions_from(ls, i, limit, acc)),
    decreases ls.len() - i,
{
    if 0 <= i < ls.len() {
        match who_session(ls[i], limit) {
            Some(s) => if s.active {
                lemma_add_session_distinct(acc, s);
                lemma_who_sessions_distinct(ls, i + 1, limit, add_session(acc, s));
            } else {
                lemma_who_sessions_distinct(ls, i + 1, limit, acc);
            },
            None => lemma_who_sessions_distinct(ls, i + 1, limit, acc),
        }
    }
}

/// Each terminal is counted once, however many `who` rows it has.
pub proof fn lemma_each_terminal_once(stdout: Seq<char>, limit: u64)
    ensures
        distinct_ttys(who_sessions(stdout, limit)),
{
    lemma_who_sessions_distinct(lines(stdout), 0, limit, seq![]);
}

proof fn lemma_sshd_ttys_from(ls: Seq<Seq<char>>, i: int, acc: Seq<Seq<char>>)
    requires
        acc.no_duplicates(),
        forall|k: int| 0 <= k < acc.len() ==> starts_with(#[trigger] acc[k], "pts/"@),
    ensures
        sshd_ttys_from(ls, i, acc).no_duplicates(),
        forall|k: int|
            0 <= k < sshd_ttys_from(ls, i, acc).len() ==> starts_with(
                #[trigger] sshd_ttys_from(ls, i, acc)[k],
                "pts/"@,
            ),
    decreases ls.len() - i,
{
    if 0 <= i < ls.len() {
        match sshd_tty(ls[i]) {
            Some(t) => if acc.contains(t) {
                lemma_sshd_ttys_from(ls, i + 1, acc);
            } else {
                let acc2 = acc.push(t);
                assert forall|a: int, b: int| 0 <= a < b < acc2.len() implies acc2[a] != acc2[b] by {
                    if b == acc.len() {
                        assert(acc.contains(acc2[a]));
                    }
                }
                assert forall|k: int| 0 <= k < acc2.len() implies starts_with(
                    #[trigger] acc2[k],
                    "pts/"@,
                ) by {
                    if k < acc.len() {
                        assert(acc2[k] == acc[k]);
                    }
                }
                lemma_sshd_ttys_from(ls, i + 1, acc2);
            },
            None => lemma_sshd_ttys_from(ls, i + 1, acc),
        }
    }
}

/// The terminals that `sshd` serves are pseudo-terminals, each listed once.
pub proof fn lemma_sshd_ttys_are_pseudo_terminals(stdout: Seq<char>)
    ensures
        sshd_ttys(stdout).no_duplicates(),
        forall|k: int|
            0 <= k < sshd_ttys(stdout).len() ==> starts_with(#[trigger] sshd_ttys(stdout)[k], "pts/"@),
{
    lemma_sshd_ttys_from(lines(stdout), 0, seq![]);
}

/// A row counts only while it is within the idle limit: raising the limit
/// never turns an active row inactive.
pub proof fn lemma_idle_limit_monotone(line: Seq<char>, l1: u64, l2: u64)
    requires
        l1 <= l2,
    ensures
        ({
            let a = who_session(line, l1);
            let b = who_session(line, l2);
            (a is Some && a.unwrap().active) ==> (b is Some && b.unwrap().active && b.unwrap().tty
                == a.unwrap().tty && b.unwrap().remote == a.unwrap().remote)
        }),
{
}

/// ASCII digits, one or more, denoting a number that fits in a `u64`.
pub open spec fn digits_text(a: Seq<char>) -> bool {
    &&& a.len() > 0
    &&& crate::text::all_digits(a)
    &&& crate::text::decimal_value(a) <= u64::MAX
}

proof fn lemma_digits_read(a: Seq<char>)
    requires
        digits_text(a),
    ensures
        u64_text(a) == Some(crate::text::decimal_value(a)),
        crate::reread::solid(a),
        trim(a) == a,
        !has_char(a, ':'),
        !has_char(a, '.'),
        a[0] != '.' && a[0] != 'o',
        a.last() != 's' && a.last() != 'm',
{
    assert(crate::text::is_ascii_digit(a[0]));
    assert(crate::text::is_ascii_digit(a.last()));
    crate::reread::lemma_trim_solid(a);
    if has_char(a, ':') {
        let i = choose|i: int| 0 <= i < a.len() && a[i] == ':';
        assert(crate::text::is_ascii_digit(a[i]));
    }
    if has_char(a, '.') {
        let i = choose|i: int| 0 <= i < a.len() && a[i] == '.';
        assert(crate::text::is_ascii_digit(a[i]));
    }
}

proof fn lemma_split_once_at(a: Seq<char>, c: char, b: Seq<char>)
    requires
        !has_char(a, c),
    ensures
        split_once(a + seq![c] + b, c) == Some((a, b)),
{
    let t = a + seq![c] + b;
    assert forall|k: int| 0 <= k < a.len() implies !is_char(c)(#[trigger] t[k]) by {
        assert(t[k] == a[k]);
        if a[k] == c {
            assert(has_char(a, c));
        }
    }
    crate::text::lemma_scan_to_unique(t, 0, a.len() as int, is_char(c));
    assert(t.subrange(0, a.len() as int) =~= a);
    assert(t.subrange((a.len() + 1) as int, t.len() as int) =~= b);
}

proof fn lemma_not_literals(t: Seq<char>)
    requires
        t.len() > 0,
        t[0] != '.' && t[0] != 'o',
    ensures
        t != "."@,
        t != "old"@,
{
    reveal_strlit(".");
    reveal_strlit("old");
    assert("."@[0] == '.');
    assert("old"@[0] == 'o');
}

proof fn lemma_no_colon(a: Seq<char>)
    requires
        digits_text(a),
    ensures
        forall|k: int| 0 <= k < a.len() ==> a[k] != ':',
{
    lemma_digits_read(a);
    assert forall|k: int| 0 <= k < a.len() implies a[k] != ':' by {
        if a[k] == ':' {
            assert(has_char(a, ':'));
        }
    }
}

proof fn lemma_idle_bare(a: Seq<char>)
    requires
        digits_text(a),
    ensures
        idle_seconds(a) == Some(60 * crate::text::decimal_value(a) as int),
{
    lemma_digits_read(a);
    lemma_not_literals(a);
}

proof fn lemma_idle_seconds_form(a: Seq<char>)
    requires
        digits_text(a),
    ensures
        idle_seconds(a + seq!['s']) == Some(crate::text::decimal_value(a) as int),
{
    lemma_digits_read(a);
    let t1 = a + seq!['s'];
    assert(t1[0] == a[0]);
    assert(crate::reread::solid(t1));
    crate::reread::lemma_trim_solid(t1);
    lemma_not_literals(t1);
    assert(t1.drop_last() =~= a);
    assert(t1.last() == 's');
    lemma_has_char_scan(a, '.');
    assert(split_once(a, '.') is None);
}

proof fn lemma_idle_two_fields(a: Seq<char>, b: Seq<char>)
    requires
        digits_text(a),
        digits_text(b),
    ensures
        idle_seconds(a + seq![':'] + b) == Some(
            60 * crate::text::decimal_value(a) as int + crate::text::decimal_value(b) as int,
        ),
{
    lemma_digits_read(a);
    lemma_digits_read(b);
    lemma_no_colon(a);
    lemma_no_colon(b);
    let t2 = a + seq![':'] + b;
    assert(t2[0] == a[0]);
    assert(t2.last() == b.last());
    assert(crate::reread::solid(t2));
    crate::reread::lemma_trim_solid(t2);
    lemma_not_literals(t2);
    assert(t2[a.len() as int] == ':');
    assert(has_char(t2, ':'));
    crate::reread::lemma_split_single(b, ':');
    crate::reread::lemma_split_cons(a, ':', b);
    assert(split(t2, ':') =~= seq![a, b]);
}

proof fn lemma_idle_minutes_form(a: Seq<char>, b: Seq<char>)
    requires
        digits_text(a),
        digits_text(b),
    ensures
        idle_seconds(a + seq![':'] + b + seq!['m']) == Some(
            60 * crate::text::decimal_value(a) as int + crate::text::decimal_value(b) as int,
        ),
{
    lemma_digits_read(a);
    lemma_digits_read(b);
    let t2 = a + seq![':'] + b;
    let t3 = t2 + seq!['m'];
    assert(t3[0] == a[0]);
    assert(t3.last() == 'm');
    assert(crate::reread::solid(t3));
    crate::reread::lemma_trim_solid(t3);
    lemma_not_literals(t3);
    assert(t3.drop_last() =~= t2);
    lemma_split_once_at(a, ':', b);
}

proof fn lemma_idle_three_fields(a: Seq<char>, b: Seq<char>, c: Seq<char>)
    requires
        digits_text(a),
        digits_text(b),
        digits_text(c),
    ensures
        idle_seconds(a + seq![':'] + b + seq![':'] + c) == Some(
            3600 * crate::text::decimal_value(a) as int + 60 * crate::text::decimal_value(b) as int
                + crate::text::decimal_value(c) as int,
        ),
{
    lemma_digits_read(a);
    lemma_digits_read(b);
    lemma_digits_read(c);
    lemma_no_colon(a);
    lemma_no_colon(b);
    lemma_no_colon(c);
    let bc = b + seq![':'] + c;
    let t4 = a + seq![':'] + bc;
    assert(t4 =~= a + seq![':'] + b + seq![':'] + c);
    assert(t4[0] == a[0]);
    assert(t4.last() == c.last());
    assert(crate::reread::solid(t4));
    crate::reread::lemma_trim_solid(t4);
    lemma_not_literals(t4);
    assert(t4[a.len() as int] == ':');
    assert(has_char(t4, ':'));
    crate::reread::lemma_split_single(c, ':');
    crate::reread::lemma_split_cons(b, ':', c);
    crate::reread::lemma_split_cons(a, ':', bc);
    assert(split(t4, ':') =~= seq![a, b, c]);
}

proof fn lemma_idle_words()
    ensures
        idle_seconds("."@) == Some(0int),
        idle_seconds("old"@) == Some(u64::MAX as int),
{
    reveal_strlit(".");
    reveal_strlit("old");
    assert(crate::reread::solid("."@));
    assert(crate::reread::solid("old"@));
    crate::reread::lemma_trim_solid("."@);
    crate::reread::lemma_trim_solid("old"@);
    assert("old"@ != "."@) by {
        assert("old"@.len() != "."@.len());
    }
}

/// The idle column reads as `who` writes it: `.` is no idle time, `old`
/// the most there is, a bare number counts minutes,
/// `Ns` seconds, `M:SS` and `M:SSm` minutes and seconds, and `H:MM:SS`
/// hours, minutes and seconds.
pub proof fn lemma_idle_forms(a: Seq<char>, b: Seq<char>, c: Seq<char>)
    requires
        digits_text(a),
        digits_text(b),
        digits_text(c),
    ensures
        idle_seconds("."@) == Some(0int),
        idle_seconds("old"@) == Some(u64::MAX as int),
        ({
            let x = crate::text::decimal_value(a) as int;
            let y = crate::text::decimal_value(b) as int;
            let z = crate::text::decimal_value(c) as int;
            &&& idle_seconds(a) == Some(60 * x)
            &&& idle_seconds(a + seq!['s']) == Some(x)
            &&& idle_seconds(a + seq![':'] + b) == Some(60 * x + y)
            &&& idle_seconds(a + seq![':'] + b + seq!['m']) == Some(60 * x + y)
            &&& idle_seconds(a + seq![':'] + b + seq![':'] + c) == Some(3600 * x + 60 * y + z)
        }),
{
    lemma_idle_words();
    lemma_idle_bare(a);
    lemma_idle_seconds_form(a);
    lemma_idle_two_fields(a, b);
    lemma_idle_minutes_form(a, b);
    lemma_idle_three_fields(a, b, c);
}

} // verus!
