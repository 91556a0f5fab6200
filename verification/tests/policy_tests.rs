use useless::config::{parse_config, Config, Preset};
use useless::policy::{PolicySnapshot, PressureLevel, Supervisor};
use useless::sensor::SensorSample;

fn sample(load: u8, mem: u8, interactive: bool) -> SensorSample {
    SensorSample {
        load_percent: load,
        mem_available_percent: mem,
        interactive_session: interactive,
        tty_sessions: if interactive { 1 } else { 0 },
        ssh_sessions: if interactive { 1 } else { 0 },
        net_rx_bytes_per_sec: 0,
        net_tx_bytes_per_sec: 0,
    }
}

#[test]
fn pauses_on_interactive_sessions() {
    let config = Config::default();
    let mut supervisor = Supervisor::new();
    let sample = SensorSample {
        load_percent: 10,
        mem_available_percent: 70,
        interactive_session: true,
        tty_sessions: 1,
        ssh_sessions: 1,
        net_rx_bytes_per_sec: 0,
        net_tx_bytes_per_sec: 0,
    };

    let snapshot = supervisor.evaluate(&sample, &config, 1_000);
    assert_eq!(snapshot.pressure, PressureLevel::Pause);
    assert!(!snapshot.cpu.allowed);
    assert!(snapshot.interactive_active);
    assert_eq!(snapshot.summary, "interactive session detected (tty=1, ssh=1)");
}

#[test]
fn grace_period_keeps_pausing_after_people_leave() {
    let config = Config::for_preset(Preset::Balanced);
    let mut supervisor = Supervisor::with_seed(42);
    let _ = supervisor.evaluate(&sample(10, 70, true), &config, 1_000);
    let later = supervisor.evaluate(&sample(10, 70, false), &config, 1_000 + 179_999);
    assert!(later.interactive_active);
    assert_eq!(later.pressure, PressureLevel::Pause);
    let after = supervisor.evaluate(&sample(10, 70, false), &config, 1_000 + 180_000);
    assert!(!after.interactive_active);
    assert_eq!(after.pressure, PressureLevel::Idle);
}

#[test]
fn idle_host_bursts_at_full_duty() {
    let config = Config::for_preset(Preset::Balanced);
    let mut supervisor = Supervisor::with_seed(7);
    let snapshot = supervisor.evaluate(&sample(10, 70, false), &config, 5_000);
    assert_eq!(snapshot.pressure, PressureLevel::Idle);
    assert_eq!(snapshot.cpu.duty_percent, 100);
    // a fresh schedule starts with a burst
    assert!(snapshot.cpu.allowed);
    assert!(snapshot.memory.allowed);
    assert!(snapshot.network.allowed);
    assert_eq!(
        snapshot.summary,
        "pressure=Idle load=10 mem_avail=70 net_rx=0B/s net_tx=0B/s"
    );
}

#[test]
fn caution_and_pause_marks() {
    let config = Config::for_preset(Preset::Balanced);
    let mut supervisor = Supervisor::with_seed(7);
    let caution = supervisor.evaluate(&sample(60, 70, false), &config, 5_000);
    assert_eq!(caution.pressure, PressureLevel::Caution);
    assert_eq!(caution.cpu.duty_percent, 45);
    let pause = supervisor.evaluate(&sample(90, 70, false), &config, 6_000);
    assert_eq!(pause.pressure, PressureLevel::Pause);
    assert_eq!(pause.memory.duty_percent, 0);
    assert!(!pause.memory.allowed);
    let low_memory = supervisor.evaluate(&sample(10, 5, false), &config, 7_000);
    assert_eq!(low_memory.pressure, PressureLevel::Pause);
}

#[test]
fn disabled_module_never_runs() {
    let config = parse_config("[cpu]\nenabled = false\n").expect("config parses");
    let mut supervisor = Supervisor::with_seed(3);
    let snapshot = supervisor.evaluate(&sample(10, 70, false), &config, 5_000);
    assert!(!snapshot.cpu.allowed);
    assert!(snapshot.memory.allowed);
}

#[test]
fn paused_snapshot_stops_everything() {
    let s = PolicySnapshot::paused("waiting".to_string());
    assert_eq!(s.pressure, PressureLevel::Pause);
    assert!(!s.cpu.allowed && !s.memory.allowed && !s.network.allowed);
    assert_eq!(s.cpu.duty_percent, 0);
    assert_eq!(s.summary, "waiting");
    assert!(!s.interactive_active);
}

#[test]
fn can_evaluate_refuses_overflowing_schedules() {
    let mut config = Config::for_preset(Preset::Balanced);
    config.cpu.window.burst_secs_min = 0;
    config.cpu.window.burst_secs_max = u64::MAX;
    let supervisor = Supervisor::with_seed(3);
    assert!(!supervisor.can_evaluate(&sample(10, 70, false), &config, 5_000));
    let mut long = Config::for_preset(Preset::Balanced);
    long.cpu.window.burst_secs_min = u64::MAX;
    long.cpu.window.burst_secs_max = u64::MAX;
    let mut supervisor_long = Supervisor::with_seed(3);
    assert!(supervisor_long.can_evaluate(&sample(10, 70, false), &long, 5_000));
    let snapshot = supervisor_long.evaluate(&sample(10, 70, false), &long, 5_000);
    assert!(snapshot.cpu.allowed);
    let normal = Config::for_preset(Preset::Balanced);
    assert!(supervisor.can_evaluate(&sample(10, 70, false), &normal, 5_000));
}

#[test]
fn people_pause_even_without_grace_period() {
    let mut config = Config::for_preset(Preset::Balanced);
    config.global.interactive_grace_secs = 0;
    let mut supervisor = Supervisor::with_seed(7);
    let now_people = supervisor.evaluate(&sample(10, 70, true), &config, 5_000);
    assert!(now_people.interactive_active);
    assert_eq!(now_people.pressure, PressureLevel::Pause);
    assert!(!now_people.cpu.allowed && !now_people.memory.allowed && !now_people.network.allowed);
    let gone = supervisor.evaluate(&sample(10, 70, false), &config, 5_000);
    assert!(!gone.interactive_active);
}

#[test]
fn fresh_supervisor_opens_with_bursts() {
    let config = Config::for_preset(Preset::Balanced);
    let mut supervisor = Supervisor::with_seed(11);
    let first = supervisor.evaluate(&sample(10, 70, false), &config, 0);
    assert!(!first.interactive_active);
    assert_eq!(first.pressure, PressureLevel::Idle);
    assert_eq!(first.cpu.allowed, config.cpu.enabled);
    assert_eq!(first.memory.allowed, config.memory.enabled);
    assert_eq!(first.network.allowed, config.network.enabled);
}
