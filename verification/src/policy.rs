//! The supervisor: from a sensor sample and the configuration to the pressure
//! level and, for each load generator, whether it may run and at what duty.
//!
//! Times are milliseconds on a monotonic clock whose origin the caller picks.
use vstd::prelude::*;

use crate::clock::{seed_now, seed_of};
use crate::config::{BurstWindow, Config, ConfigModel, GlobalConfig};
use crate::sensor::SensorSample;
use crate::text::{decimal, push_decimal, push_str};

verus! {

#[derive(Debug, Clone, Copy, PartialEq, Eq, Structural)]
pub enum PressureLevel {
    Idle,
    Caution,
    Pause,
}

#[derive(Debug, Clone, Copy, PartialEq, Eq, Structural)]
pub struct ModuleDirective {
    pub allowed: bool,
    pub duty_percent: u8,
}

#[derive(Debug, Clone)]
pub struct PolicySnapshot {
    pub pressure: PressureLevel,
    pub interactive_active: bool,
    pub summary: String,
    pub cpu: ModuleDirective,
    pub memory: ModuleDirective,
    pub network: ModuleDirective,
}

/// A snapshot with its summary as characters.
pub struct SnapshotModel {
    pub pressure: PressureLevel,
    pub interactive_active: bool,
    pub summary: Seq<char>,
    pub cpu: ModuleDirective,
    pub memory: ModuleDirective,
    pub network: ModuleDirective,
}

impl View for PolicySnapshot {
    type V = SnapshotModel;

    open spec fn view(&self) -> SnapshotModel {
        SnapshotModel {
            pressure: self.pressure,
            interactive_active: self.interactive_active,
            summary: self.summary@,
            cpu: self.cpu,
            memory: self.memory,
            network: self.network,
        }
    }
}

pub open spec fn stopped() -> ModuleDirective {
    ModuleDirective { allowed: false, duty_percent: 0 }
}

/// Everything stopped, with the reason as summary.
pub open spec fn paused_model(reason: Seq<char>) -> SnapshotModel {
    SnapshotModel {
        pressure: PressureLevel::Pause,
        interactive_active: false,
        summary: reason,
        cpu: stopped(),
        memory: stopped(),
        network: stopped(),
    }
}

impl PolicySnapshot {
    /// A snapshot that stops every load generator, with `reason` as summary.
    pub fn paused(reason: String) -> (r: PolicySnapshot)
        ensures
            r@ == paused_model(reason@),
    {
        let paused = ModuleDirective { allowed: false, duty_percent: 0 };
        PolicySnapshot {
            pressure: PressureLevel::Pause,
            interactive_active: false,
            summary: reason,
            cpu: paused,
            memory: paused,
            network: paused,
        }
    }
}

// ---------------------------------------------------------------------------
// Random numbers
// ---------------------------------------------------------------------------

/// The xorshift step (shifts 13, 7, 17).
pub open spec fn xorshift(x: u64) -> u64 {
    let a = x ^ ((x << 13u64) as u64);
    let b = a ^ (a >> 7u64);
    b ^ ((b << 17u64) as u64)
}

/// Drawing from `[min, max]` costs one step when `min < max`; the span then
/// has to fit in 64 bits.
pub open spec fn draw_fits(min: u64, max: u64) -> bool {
    !(min < max && min == 0 && max == u64::MAX)
}

/// `(next state, value)`: `min` when `min >= max`, else
/// `min + next % (max - min + 1)`.
pub open spec fn draw(state: u64, min: u64, max: u64) -> (u64, u64) {
    if min >= max {
        (state, min)
    } else {
        let n = xorshift(state);
        (n, (min + n % ((max - min + 1) as u64)) as u64)
    }
}

/// A draw lands within `[min, max]`, or is `min` when the window is empty.
pub proof fn lemma_draw_in_window(state: u64, min: u64, max: u64)
    requires
        draw_fits(min, max),
    ensures
        min <= max ==> min <= draw(state, min, max).1 <= max,
        min >= max ==> draw(state, min, max).1 == min,
{
    if min < max {
        let n = xorshift(state);
        let span = (max - min + 1) as u64;
        assert(n % span < span);
    }
}

#[derive(Debug, Clone, Copy)]
struct SimpleRng {
    state: u64,
}

impl SimpleRng {
    fn new(seed: u64) -> (r: SimpleRng)
        ensures
            r.state == (if seed > 1 {
                seed
            } else {
                1
            }),
    {
        SimpleRng { state: if seed > 1 {
            seed
        } else {
            1
        } }
    }

    fn next_u64(&mut self) -> (x: u64)
        ensures
            x == xorshift(old(self).state),
            final(self).state == x,
    {
        let mut x = self.state;
        x ^= x << 13;
        x ^= x >> 7;
        x ^= x << 17;
        self.state = x;
        x
    }

    fn between(&mut self, min: u64, max: u64) -> (v: u64)
        requires
            draw_fits(min, max),
        ensures
            (final(self).state, v) == draw(old(self).state, min, max),
    {
        if min >= max {
            return min;
        }
        let n = self.next_u64();
        let span = max - min + 1;
        min + n % span
    }
}

// ---------------------------------------------------------------------------
// Burst schedules
// ---------------------------------------------------------------------------

#[derive(Debug, Clone, Copy, PartialEq, Eq, Structural)]
pub enum BurstPhase {
    Burst,
    Rest,
}

/// A burst schedule: the random state, the phase, and when it ends (in
/// milliseconds; wide enough for any phase length).
pub struct ScheduleModel {
    pub rng: u64,
    pub phase: BurstPhase,
    pub until: u128,
}

#[derive(Debug)]
struct BurstScheduler {
    rng: SimpleRng,
    phase: BurstPhase,
    until: u128,
}

impl View for BurstScheduler {
    type V = ScheduleModel;

    closed spec fn view(&self) -> ScheduleModel {
        ScheduleModel { rng: self.rng.state, phase: self.phase, until: self.until }
    }
}

pub open spec fn other_phase(p: BurstPhase) -> BurstPhase {
    match p {
        BurstPhase::Burst => BurstPhase::Rest,
        BurstPhase::Rest => BurstPhase::Burst,
    }
}

/// The bounds of the phase, in seconds.
pub open spec fn phase_bounds(p: BurstPhase, w: BurstWindow) -> (u64, u64) {
    match p {
        BurstPhase::Burst => (w.burst_secs_min, w.burst_secs_max),
        BurstPhase::Rest => (w.rest_secs_min, w.rest_secs_max),
    }
}

/// The length of a phase in seconds: the draw, at least one.
pub open spec fn phase_secs(drawn: u64) -> u64 {
    if drawn > 1 {
        drawn
    } else {
        1
    }
}

/// Once the phase has ended at `now`, the next one starts: its length is
/// drawn from its bounds, and it ends that many seconds after `now`.
pub open spec fn schedule_step(s: ScheduleModel, now: u64, w: BurstWindow) -> ScheduleModel {
    if now >= s.until {
        let phase = other_phase(s.phase);
        let (lo, hi) = phase_bounds(phase, w);
        let (rng, drawn) = draw(s.rng, lo, hi);
        ScheduleModel { rng, phase, until: (now + 1000 * phase_secs(drawn)) as u128 }
    } else {
        s
    }
}

/// The step's draw fits in 64 bits.
pub open spec fn schedule_step_fits(s: ScheduleModel, now: u64, w: BurstWindow) -> bool {
    now >= s.until ==> {
        let phase = other_phase(s.phase);
        let (lo, hi) = phase_bounds(phase, w);
        draw_fits(lo, hi)
    }
}

impl BurstScheduler {
    /// Whether the draw of `is_active(now, window)` stays within 64 bits.
    fn step_fits(&self, now: u64, window: &BurstWindow) -> (b: bool)
        ensures
            b == schedule_step_fits(self@, now, *window),
    {
        if (now as u128) < self.until {
            return true;
        }
        let (lo, hi) = match self.phase {
            BurstPhase::Burst => (window.rest_secs_min, window.rest_secs_max),
            BurstPhase::Rest => (window.burst_secs_min, window.burst_secs_max),
        };
        !(lo < hi && lo == 0 && hi == u64::MAX)
    }

    fn new(seed: u64) -> (r: BurstScheduler)
        ensures
            r@ == initial_schedule(seed),
    {
        BurstScheduler { rng: SimpleRng::new(seed), phase: BurstPhase::Rest, until: 0 }
    }

    /// Moves to the next phase when the current one has ended, and tells
    /// whether the schedule is bursting. A new phase always ends after
    /// `now`, so one step brings the schedule up to date.
    fn is_active(&mut self, now: u64, window: &BurstWindow) -> (b: bool)
        requires
            schedule_step_fits(old(self)@, now, *window),
        ensures
            final(self)@ == schedule_step(old(self)@, now, *window),
            b == (final(self)@.phase == BurstPhase::Burst),
    {
        if (now as u128) >= self.until {
            self.phase = match self.phase {
                BurstPhase::Burst => BurstPhase::Rest,
                BurstPhase::Rest => BurstPhase::Burst,
            };
            let seconds = match self.phase {
                BurstPhase::Burst => self.rng.between(window.burst_secs_min, window.burst_secs_max),
                BurstPhase::Rest => self.rng.between(window.rest_secs_min, window.rest_secs_max),
            };
            let secs = if seconds > 1 {
                seconds
            } else {
                1
            };
            self.until = (now as u128) + 1000 * (secs as u128);
        }
        match self.phase {
            BurstPhase::Burst => true,
            BurstPhase::Rest => false,
        }
    }
}

/// A fresh schedule: resting, already over, random state from the seed.
pub open spec fn initial_schedule(seed: u64) -> ScheduleModel {
    ScheduleModel {
        rng: if seed > 1 {
            seed
        } else {
            1
        },
        phase: BurstPhase::Rest,
        until: 0,
    }
}

// ---------------------------------------------------------------------------
// The supervisor
// ---------------------------------------------------------------------------

pub struct SupervisorModel {
    pub cpu: ScheduleModel,
    pub memory: ScheduleModel,
    pub network: ScheduleModel,
    pub last_interactive: Option<u64>,
}

#[derive(Debug)]
pub struct Supervisor {
    cpu_schedule: BurstScheduler,
    memory_schedule: BurstScheduler,
    network_schedule: BurstScheduler,
    last_interactive: Option<u64>,
}

impl View for Supervisor {
    type V = SupervisorModel;

    closed spec fn view(&self) -> SupervisorModel {
        SupervisorModel {
            cpu: self.cpu_schedule@,
            memory: self.memory_schedule@,
            network: self.network_schedule@,
            last_interactive: self.last_interactive,
        }
    }
}

/// A supervisor that has seen nobody, with its three schedules seeded from
/// `seed`.
pub open spec fn seeded_supervisor(seed: u64) -> SupervisorModel {
    SupervisorModel {
        cpu: initial_schedule(seed ^ 0x1111),
        memory: initial_schedule(seed ^ 0x2222),
        network: initial_schedule(seed ^ 0x3333),
        last_interactive: None,
    }
}

/// Whether someone was seen less than the grace period before `now`.
pub open spec fn interactive_within(last: Option<u64>, now: u64, grace_secs: u64) -> bool {
    match last {
        Some(l) => (if now >= l {
            now - l
        } else {
            0
        }) < 1000 * grace_secs,
        None => false,
    }
}

/// Pause for people or for a load or memory pressure past the pause marks;
/// caution past the caution marks; idle otherwise.
pub open spec fn pressure_of(s: SensorSample, g: GlobalConfig, interactive: bool) -> PressureLevel {
    if interactive || s.load_percent >= g.pause_load_percent || s.mem_available_percent
        <= g.pause_mem_available_percent {
        PressureLevel::Pause
    } else if s.load_percent >= g.caution_load_percent || s.mem_available_percent
        <= g.caution_mem_available_percent {
        PressureLevel::Caution
    } else {
        PressureLevel::Idle
    }
}

pub open spec fn duty_of(p: PressureLevel, g: GlobalConfig) -> u8 {
    match p {
        PressureLevel::Idle => 100,
        PressureLevel::Caution => g.caution_duty_percent,
        PressureLevel::Pause => 0,
    }
}

/// A module runs when it is enabled, the duty is not zero and its schedule
/// is bursting; its schedule only moves when the first two hold.
pub open spec fn module_step(s: ScheduleModel, enabled: bool, duty: u8, now: u64, w: BurstWindow) -> (
    ScheduleModel,
    bool,
) {
    if enabled && duty > 0 {
        let s2 = schedule_step(s, now, w);
        (s2, s2.phase == BurstPhase::Burst)
    } else {
        (s, false)
    }
}

pub open spec fn module_step_fits(s: ScheduleModel, enabled: bool, duty: u8, now: u64, w: BurstWindow) -> bool {
    enabled && duty > 0 ==> schedule_step_fits(s, now, w)
}

pub open spec fn pressure_name(p: PressureLevel) -> Seq<char> {
    match p {
        PressureLevel::Idle => "Idle"@,
        PressureLevel::Caution => "Caution"@,
        PressureLevel::Pause => "Pause"@,
    }
}

pub open spec fn summary_of(s: SensorSample, p: PressureLevel, interactive: bool) -> Seq<char> {
    if interactive {
        "interactive session detected (tty="@ + decimal(s.tty_sessions as nat) + ", ssh="@
            + decimal(s.ssh_sessions as nat) + ")"@
    } else {
        "pressure="@ + pressure_name(p) + " load="@ + decimal(s.load_percent as nat)
            + " mem_avail="@ + decimal(s.mem_available_percent as nat) + " net_rx="@ + decimal(
            s.net_rx_bytes_per_sec as nat,
        ) + "B/s net_tx="@ + decimal(s.net_tx_bytes_per_sec as nat) + "B/s"@
    }
}

/// Whether people count as present: this sample reports someone, or someone
/// was seen less than the grace period before `now`. The grace period is
/// extra cooldown after the last interaction; a sample with people counts
/// whatever its length.
pub open spec fn interactive_now(sup: SupervisorModel, s: SensorSample, c: ConfigModel, now: u64) -> bool {
    s.interactive_session || interactive_within(last_seen(sup, s, now), now, c.global.interactive_grace_secs)
}

/// The moment someone was last seen, counting this sample.
pub open spec fn last_seen(sup: SupervisorModel, s: SensorSample, now: u64) -> Option<u64> {
    if s.interactive_session {
        Some(now)
    } else {
        sup.last_interactive
    }
}

/// The duty that this evaluation hands out.
pub open spec fn evaluation_duty(sup: SupervisorModel, s: SensorSample, c: ConfigModel, now: u64) -> u8 {
    let active = interactive_now(sup, s, c, now);
    duty_of(pressure_of(s, c.global, active), c.global)
}

/// The draws of the schedules that this evaluation may move fit in 64 bits.
pub open spec fn evaluation_fits(sup: SupervisorModel, s: SensorSample, c: ConfigModel, now: u64) -> bool {
    let duty = evaluation_duty(sup, s, c, now);
    &&& module_step_fits(sup.cpu, c.cpu.enabled, duty, now, c.cpu.window)
    &&& module_step_fits(sup.memory, c.memory.enabled, duty, now, c.memory.window)
    &&& module_step_fits(sup.network, c.network.enabled, duty, now, c.network.window)
}

/// The supervisor after an evaluation, and the snapshot it gives.
pub open spec fn evaluate_model(sup: SupervisorModel, s: SensorSample, c: ConfigModel, now: u64) -> (
    SupervisorModel,
    SnapshotModel,
) {
    let last = last_seen(sup, s, now);
    let active = interactive_now(sup, s, c, now);
    let pressure = pressure_of(s, c.global, active);
    let duty = duty_of(pressure, c.global);
    let (cpu_s, cpu_on) = module_step(sup.cpu, c.cpu.enabled, duty, now, c.cpu.window);
    let (mem_s, mem_on) = module_step(sup.memory, c.memory.enabled, duty, now, c.memory.window);
    let (net_s, net_on) = module_step(sup.network, c.network.enabled, duty, now, c.network.window);
    (
        SupervisorModel { cpu: cpu_s, memory: mem_s, network: net_s, last_interactive: last },
        SnapshotModel {
            pressure,
            interactive_active: active,
            summary: summary_of(s, pressure, active),
            cpu: ModuleDirective { allowed: cpu_on, duty_percent: duty },
            memory: ModuleDirective { allowed: mem_on, duty_percent: duty },
            network: ModuleDirective { allowed: net_on, duty_percent: duty },
        },
    )
}

fn pressure_exec(sample: &SensorSample, g: &GlobalConfig, interactive: bool) -> (p: PressureLevel)
    ensures
        p == pressure_of(*sample, *g, interactive),
{
    if interactive || sample.load_percent >= g.pause_load_percent || sample.mem_available_percent
        <= g.pause_mem_available_percent {
        PressureLevel::Pause
    } else if sample.load_percent >= g.caution_load_percent || sample.mem_available_percent
        <= g.caution_mem_available_percent {
        PressureLevel::Caution
    } else {
        PressureLevel::Idle
    }
}

fn duty_exec(sample: &SensorSample, g: &GlobalConfig, interactive: bool) -> (d: u8)
    ensures
        d == duty_of(pressure_of(*sample, *g, interactive), *g),
{
    match pressure_exec(sample, g, interactive) {
        PressureLevel::Idle => 100,
        PressureLevel::Caution => g.caution_duty_percent,
        PressureLevel::Pause => 0,
    }
}

fn pressure_text(out: &mut String, p: PressureLevel)
    ensures
        final(out)@ == old(out)@ + pressure_name(p),
{
    match p {
        PressureLevel::Idle => push_str(out, "Idle"),
        PressureLevel::Caution => push_str(out, "Caution"),
        PressureLevel::Pause => push_str(out, "Pause"),
    }
}

fn summary(s: &SensorSample, p: PressureLevel, interactive: bool) -> (r: String)
    ensures
        r@ == summary_of(*s, p, interactive),
{
    let mut out = String::new();
    if interactive {
        push_str(&mut out, "interactive session detected (tty=");
        push_decimal(&mut out, s.tty_sessions as u64);
        push_str(&mut out, ", ssh=");
        push_decimal(&mut out, s.ssh_sessions as u64);
        push_str(&mut out, ")");
    } else {
        push_str(&mut out, "pressure=");
        pressure_text(&mut out, p);
        push_str(&mut out, " load=");
        push_decimal(&mut out, s.load_percent as u64);
        push_str(&mut out, " mem_avail=");
        push_decimal(&mut out, s.mem_available_percent as u64);
        push_str(&mut out, " net_rx=");
        push_decimal(&mut out, s.net_rx_bytes_per_sec);
        push_str(&mut out, "B/s net_tx=");
        push_decimal(&mut out, s.net_tx_bytes_per_sec);
        push_str(&mut out, "B/s");
    }
    assert(out@ =~= summary_of(*s, p, interactive));
    out
}

impl Supervisor {
    /// A supervisor that has seen nobody, with schedules seeded from `seed`.
    pub fn with_seed(seed: u64) -> (r: Supervisor)
        ensures
            r@ == seeded_supervisor(seed),
    {
        Supervisor {
            cpu_schedule: BurstScheduler::new(seed ^ 0x1111),
            memory_schedule: BurstScheduler::new(seed ^ 0x2222),
            network_schedule: BurstScheduler::new(seed ^ 0x3333),
            last_interactive: None,
        }
    }

    /// A supervisor seeded from the wall clock.
    pub fn new() -> (r: Supervisor)
        ensures
            exists|nanos: Option<u128>| r@ == seeded_supervisor(seed_of(nanos)),
    {
        let seed = seed_now();
        let ghost nanos = choose|nanos: Option<u128>| seed == seed_of(nanos);
        let r = Supervisor::with_seed(seed);
        assert(r@ == seeded_supervisor(seed_of(nanos)));
        r
    }

    /// Whether `evaluate(sample, config, now)` stays within 64 bits (see
    /// `evaluation_fits`).
    pub fn can_evaluate(&self, sample: &SensorSample, config: &Config, now: u64) -> (b: bool)
        ensures
            b == evaluation_fits(self@, *sample, config@, now),
    {
        let last = if sample.interactive_session {
            Some(now)
        } else {
            self.last_interactive
        };
        let g = &config.global;
        let interactive_active = sample.interactive_session || match last {
            Some(l) => {
                let elapsed: u64 = if now >= l {
                    now - l
                } else {
                    0
                };
                (elapsed as u128) < 1000 * (g.interactive_grace_secs as u128)
            },
            None => false,
        };
        let duty = duty_exec(sample, g, interactive_active);
        let cpu_ok = !(config.cpu.enabled && duty > 0) || self.cpu_schedule.step_fits(
            now,
            &config.cpu.window,
        );
        let memory_ok = !(config.memory.enabled && duty > 0) || self.memory_schedule.step_fits(
            now,
            &config.memory.window,
        );
        let network_ok = !(config.network.enabled && duty > 0) || self.network_schedule.step_fits(
            now,
            &config.network.window,
        );
        cpu_ok && memory_ok && network_ok
    }

    /// Decides, for the sample taken at `now`, the pressure level and what
    /// each load generator may do. A sample with people, or anyone seen
    /// within the grace period before, pauses everything.
    pub fn evaluate(&mut self, sample: &SensorSample, config: &Config, now: u64) -> (r:
        PolicySnapshot)
        requires
            evaluation_fits(old(self)@, *sample, config@, now),
        ensures
            (final(self)@, r@) == evaluate_model(old(self)@, *sample, config@, now),
            r.interactive_active ==> r.pressure == PressureLevel::Pause,
            r.pressure == PressureLevel::Pause ==> !r.cpu.allowed && !r.memory.allowed
                && !r.network.allowed,
    {
        if sample.interactive_session {
            self.last_interactive = Some(now);
        }
        let g = &config.global;
        let interactive_active = sample.interactive_session || match self.last_interactive {
            Some(last) => {
                let elapsed: u64 = if now >= last {
                    now - last
                } else {
                    0
                };
                (elapsed as u128) < 1000 * (g.interactive_grace_secs as u128)
            },
            None => false,
        };
        let pressure = if interactive_active || sample.load_percent >= g.pause_load_percent
            || sample.mem_available_percent <= g.pause_mem_available_percent {
            PressureLevel::Pause
        } else if sample.load_percent >= g.caution_load_percent || sample.mem_available_percent
            <= g.caution_mem_available_percent {
            PressureLevel::Caution
        } else {
            PressureLevel::Idle
        };
        let duty_percent: u8 = match pressure {
            PressureLevel::Idle => 100,
            PressureLevel::Caution => g.caution_duty_percent,
            PressureLevel::Pause => 0,
        };
        let cpu = ModuleDirective {
            allowed: config.cpu.enabled && duty_percent > 0 && self.cpu_schedule.is_active(
                now,
                &config.cpu.window,
            ),
            duty_percent,
        };
        let memory = ModuleDirective {
            allowed: config.memory.enabled && duty_percent > 0 && self.memory_schedule.is_active(
                now,
                &config.memory.window,
            ),
            duty_percent,
        };
        let network = ModuleDirective {
            allowed: config.network.enabled && duty_percent > 0
                && self.network_schedule.is_active(now, &config.network.window),
            duty_percent,
        };
        let summary = summary(sample, pressure, interactive_active);
        PolicySnapshot { pressure, interactive_active, summary, cpu, memory, network }
    }
}


// ---------------------------------------------------------------------------
// Laws
// ---------------------------------------------------------------------------

/// Someone seen within the grace period pauses every load generator.
pub proof fn lemma_people_pause_everything(
    sup: SupervisorModel,
    s: SensorSample,
    c: ConfigModel,
    now: u64,
)
    ensures
        ({
            let r = evaluate_model(sup, s, c, now).1;
            r.interactive_active ==> {
                &&& r.pressure == PressureLevel::Pause
                &&& r.cpu == stopped()
                &&& r.memory == stopped()
                &&& r.network == stopped()
            }
        }),
{
}

/// A sample that reports someone pauses at once, whatever the grace period.
pub proof fn lemma_interactive_sample_pauses(
    sup: SupervisorModel,
    s: SensorSample,
    c: ConfigModel,
    now: u64,
)
    requires
        s.interactive_session,
    ensures
        evaluate_model(sup, s, c, now).1.interactive_active,
        evaluate_model(sup, s, c, now).1.pressure == PressureLevel::Pause,
{
}

/// Once someone is seen, later evaluations within the grace period stay
/// paused, whatever their samples say.
pub proof fn lemma_grace_period_holds(
    sup: SupervisorModel,
    seen: SensorSample,
    later: SensorSample,
    c: ConfigModel,
    t: u64,
    t2: u64,
)
    requires
        seen.interactive_session,
        t <= t2,
        t2 - t < 1000 * c.global.interactive_grace_secs,
    ensures
        ({
            let sup2 = evaluate_model(sup, seen, c, t).0;
            let r = evaluate_model(sup2, later, c, t2).1;
            r.interactive_active && r.pressure == PressureLevel::Pause
        }),
{
}

/// Once the grace period has passed since anyone was last seen, a sample
/// without people no longer counts as interactive.
pub proof fn lemma_grace_period_ends(
    sup: SupervisorModel,
    s: SensorSample,
    c: ConfigModel,
    now: u64,
)
    requires
        !s.interactive_session,
        sup.last_interactive matches Some(t) && t <= now && now - t >= 1000
            * c.global.interactive_grace_secs,
    ensures
        !evaluate_model(sup, s, c, now).1.interactive_active,
{
}

/// The supervisor after evaluating the samples of `steps` in order, each
/// with the time it was taken.
pub open spec fn after_evaluations(
    sup: SupervisorModel,
    c: ConfigModel,
    steps: Seq<(SensorSample, u64)>,
) -> SupervisorModel
    decreases steps.len(),
{
    if steps.len() == 0 {
        sup
    } else {
        let prev = after_evaluations(sup, c, steps.drop_last());
        evaluate_model(prev, steps.last().0, c, steps.last().1).0
    }
}

/// The time of the last sample in `steps` that reported someone, else
/// `start`.
pub open spec fn last_people_time(start: Option<u64>, steps: Seq<(SensorSample, u64)>) -> Option<
    u64,
>
    decreases steps.len(),
{
    if steps.len() == 0 {
        start
    } else if steps.last().0.interactive_session {
        Some(steps.last().1)
    } else {
        last_people_time(start, steps.drop_last())
    }
}

proof fn lemma_last_interactive_is_last_people_time(
    sup: SupervisorModel,
    c: ConfigModel,
    steps: Seq<(SensorSample, u64)>,
)
    ensures
        after_evaluations(sup, c, steps).last_interactive == last_people_time(
            sup.last_interactive,
            steps,
        ),
    decreases steps.len(),
{
    if steps.len() > 0 {
        lemma_last_interactive_is_last_people_time(sup, c, steps.drop_last());
    }
}

/// After any history of evaluations, a sample without people counts as
/// interactive exactly when the last sample that reported someone was taken
/// less than the grace period before `now`; with no such sample it does not.
pub proof fn lemma_grace_after_history(
    sup: SupervisorModel,
    c: ConfigModel,
    steps: Seq<(SensorSample, u64)>,
    s: SensorSample,
    now: u64,
)
    requires
        !s.interactive_session,
    ensures
        evaluate_model(after_evaluations(sup, c, steps), s, c, now).1.interactive_active == match
            last_people_time(sup.last_interactive, steps) {
            Some(t0) => (if now >= t0 {
                now - t0
            } else {
                0
            }) < 1000 * c.global.interactive_grace_secs,
            None => false,
        },
{
    lemma_last_interactive_is_last_people_time(sup, c, steps);
}

/// A generator runs only when it is enabled and the pressure is below the
/// pause level, and every generator gets the same duty: all of it when
/// idle, the caution duty under caution, none when paused.
pub proof fn lemma_directives(sup: SupervisorModel, s: SensorSample, c: ConfigModel, now: u64)
    ensures
        ({
            let r = evaluate_model(sup, s, c, now).1;
            &&& r.cpu.allowed ==> c.cpu.enabled && r.pressure != PressureLevel::Pause
            &&& r.memory.allowed ==> c.memory.enabled && r.pressure != PressureLevel::Pause
            &&& r.network.allowed ==> c.network.enabled && r.pressure != PressureLevel::Pause
            &&& r.cpu.duty_percent == r.memory.duty_percent
            &&& r.memory.duty_percent == r.network.duty_percent
            &&& r.cpu.duty_percent == duty_of(r.pressure, c.global)
        }),
{
}

/// Pressure follows the marks: at or past a pause mark it pauses, and when
/// nobody is around and no mark is reached it is idle.
pub proof fn lemma_pressure_marks(s: SensorSample, g: GlobalConfig, interactive: bool)
    ensures
        s.load_percent >= g.pause_load_percent ==> pressure_of(s, g, interactive)
            == PressureLevel::Pause,
        s.mem_available_percent <= g.pause_mem_available_percent ==> pressure_of(s, g, interactive)
            == PressureLevel::Pause,
        !interactive && s.load_percent < g.caution_load_percent && s.load_percent
            < g.pause_load_percent && s.mem_available_percent > g.caution_mem_available_percent
            && s.mem_available_percent > g.pause_mem_available_percent ==> pressure_of(
            s,
            g,
            interactive,
        ) == PressureLevel::Idle,
        !interactive && s.load_percent < g.pause_load_percent && s.mem_available_percent
            > g.pause_mem_available_percent && (s.load_percent >= g.caution_load_percent
            || s.mem_available_percent <= g.caution_mem_available_percent) ==> pressure_of(
            s,
            g,
            interactive,
        ) == PressureLevel::Caution,
{
}

/// What an evaluation decides, in terms of the sample and the marks: people
/// present, or a load or available memory past a pause mark, pause every
/// generator with no duty; otherwise a load or available memory past a
/// caution mark gives the caution level and the caution duty to every
/// generator; otherwise the level is idle and every generator gets all of
/// its duty.
pub proof fn lemma_levels_and_duties(sup: SupervisorModel, s: SensorSample, c: ConfigModel, now: u64)
    ensures
        ({
            let r = evaluate_model(sup, s, c, now).1;
            let g = c.global;
            let paused = r.interactive_active || s.load_percent >= g.pause_load_percent
                || s.mem_available_percent <= g.pause_mem_available_percent;
            let caution = s.load_percent >= g.caution_load_percent || s.mem_available_percent
                <= g.caution_mem_available_percent;
            &&& r.interactive_active == (s.interactive_session || interactive_within(
                sup.last_interactive,
                now,
                g.interactive_grace_secs,
            ))
            &&& paused ==> {
                &&& r.pressure == PressureLevel::Pause
                &&& r.cpu.duty_percent == 0 && r.memory.duty_percent == 0
                    && r.network.duty_percent == 0
                &&& !r.cpu.allowed && !r.memory.allowed && !r.network.allowed
            }
            &&& !paused && caution ==> {
                &&& r.pressure == PressureLevel::Caution
                &&& r.cpu.duty_percent == g.caution_duty_percent
                &&& r.memory.duty_percent == g.caution_duty_percent
                &&& r.network.duty_percent == g.caution_duty_percent
            }
            &&& !paused && !caution ==> {
                &&& r.pressure == PressureLevel::Idle
                &&& r.cpu.duty_percent == 100 && r.memory.duty_percent == 100
                    && r.network.duty_percent == 100
            }
        }),
{
}

/// A schedule step leaves a phase that ends after `now`.
pub proof fn lemma_schedule_moves_past_now(s: ScheduleModel, now: u64, w: BurstWindow)
    requires
        schedule_step_fits(s, now, w),
    ensures
        now < schedule_step(s, now, w).until,
{
}

/// A phase lasts between its bounds (at least one second): a new phase that
/// starts at `now` ends between `1000 * max(1, lo)` and `1000 * max(1, hi)`
/// milliseconds later.
pub proof fn lemma_phase_length(s: ScheduleModel, now: u64, w: BurstWindow)
    requires
        schedule_step_fits(s, now, w),
        now >= s.until,
        phase_bounds(other_phase(s.phase), w).0 <= phase_bounds(other_phase(s.phase), w).1,
    ensures
        ({
            let (lo, hi) = phase_bounds(other_phase(s.phase), w);
            let len = schedule_step(s, now, w).until - now;
            &&& 1000 * phase_secs(lo) <= len <= 1000 * phase_secs(hi)
            &&& schedule_step(s, now, w).phase == other_phase(s.phase)
        }),
{
    let (lo, hi) = phase_bounds(other_phase(s.phase), w);
    lemma_draw_in_window(s.rng, lo, hi);
}

/// Phases alternate: a step that starts a phase starts the other one.
pub proof fn lemma_phases_alternate(s: ScheduleModel, now: u64, w: BurstWindow)
    ensures
        now >= s.until ==> schedule_step(s, now, w).phase != s.phase,
        now < s.until ==> schedule_step(s, now, w) == s,
{
}

/// One step of a schedule, for a valid window (each minimum positive and at
/// most its maximum): the generator runs exactly in a burst phase; the phase
/// always ends after `now`; a phase that has not ended is left alone; one
/// that has ended gives way to the other phase, which lasts between that
/// phase's minimum and maximum seconds.
pub proof fn lemma_schedule_step(s: ScheduleModel, now: u64, w: BurstWindow)
    requires
        0 < w.burst_secs_min <= w.burst_secs_max,
        0 < w.rest_secs_min <= w.rest_secs_max,
    ensures
        ({
            let s2 = schedule_step(s, now, w);
            &&& now < s2.until
            &&& now < s.until ==> s2 == s
            &&& now >= s.until ==> {
                let (lo, hi) = phase_bounds(other_phase(s.phase), w);
                &&& s2.phase == other_phase(s.phase)
                &&& 1000 * lo <= s2.until - now <= 1000 * hi
            }
        }),
{
    if now >= s.until {
        lemma_phase_length(s, now, w);
    }
}

/// A new supervisor has seen nobody: its first evaluation of a sample
/// without people is not interactive, and every schedule opens with a burst,
/// so every enabled generator runs unless the pressure leaves no duty.
pub proof fn lemma_fresh_supervisor(seed: u64, s: SensorSample, c: ConfigModel, now: u64)
    requires
        !s.interactive_session,
    ensures
        ({
            let r = evaluate_model(seeded_supervisor(seed), s, c, now).1;
            &&& !r.interactive_active
            &&& r.cpu.duty_percent > 0 ==> r.cpu.allowed == c.cpu.enabled
            &&& r.memory.duty_percent > 0 ==> r.memory.allowed == c.memory.enabled
            &&& r.network.duty_percent > 0 ==> r.network.allowed == c.network.enabled
        }),
{
}

} // verus!
