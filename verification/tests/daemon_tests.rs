use useless::daemon::{pid_for_signal, recorded_pid, signal_effect, IntError, SignalEffect};
use useless::config::{parse_config, Config, Preset};
use useless::daemon::{update_runtime_state, Daemon};
use useless::policy::{PolicySnapshot, PressureLevel, Supervisor};
use useless::runtime::RuntimeState;
use useless::sensor::SensorSample;

fn quiet() -> SensorSample {
    SensorSample {
        load_percent: 10,
        mem_available_percent: 70,
        interactive_session: false,
        tty_sessions: 0,
        ssh_sessions: 0,
        net_rx_bytes_per_sec: 5,
        net_tx_bytes_per_sec: 6,
    }
}

#[test]
fn runtime_starts_paused() {
    let state = RuntimeState::new(Config::default());
    assert_eq!(state.policy.pressure, PressureLevel::Pause);
    assert_eq!(state.policy.summary, "waiting for the first supervisor sample");
    assert!(!state.shutdown);
    assert_eq!(state.sensor_sample, SensorSample::default());
}

#[test]
fn rounds_log_only_changes() {
    let mut state = RuntimeState::new(Config::default());
    let mut daemon = Daemon::new(Config::default(), Supervisor::with_seed(9));
    assert!(daemon.can_take(&quiet(), 1_000));
    let first = daemon.on_sample(&mut state, quiet(), 1_000);
    assert_eq!(
        first.as_deref(),
        Some("pressure=Idle load=10 mem_avail=70 net_rx=5B/s net_tx=6B/s")
    );
    assert_eq!(state.sensor_sample, quiet());
    assert_eq!(state.policy.pressure, PressureLevel::Idle);
    let second = daemon.on_sample(&mut state, quiet(), 2_000);
    assert_eq!(second, None);
}

#[test]
fn sensor_errors_pause() {
    let mut state = RuntimeState::new(Config::default());
    let daemon = Daemon::new(Config::default(), Supervisor::with_seed(9));
    daemon.on_sensor_error(&mut state, "no /proc");
    assert_eq!(state.policy.summary, "sensor backend failed: no /proc");
    assert!(!state.policy.cpu.allowed);
}

#[test]
fn reload_keeps_config_on_error() {
    let mut daemon = Daemon::new(Config::for_preset(Preset::Low), Supervisor::with_seed(9));
    assert!(daemon.reload(parse_config("bogus")).is_some());
    assert_eq!(daemon.config().preset, Preset::Low);
    assert!(daemon.reload(parse_config("preset = \"aggressive\"")).is_none());
    assert_eq!(daemon.config().preset, Preset::Aggressive);
}

#[test]
fn update_replaces_round_results() {
    let mut state = RuntimeState::new(Config::default());
    state.shutdown = true;
    let config = Config::for_preset(Preset::Low);
    update_runtime_state(&mut state, config, quiet(), PolicySnapshot::paused("x".to_string()));
    assert_eq!(state.config.preset, Preset::Low);
    assert_eq!(state.sensor_sample, quiet());
    assert_eq!(state.policy.summary, "x");
    assert!(state.shutdown);
}

#[test]
fn signals_map_to_effects() {
    assert_eq!(signal_effect(1), SignalEffect::Reload);
    assert_eq!(signal_effect(2), SignalEffect::Terminate);
    assert_eq!(signal_effect(15), SignalEffect::Terminate);
    assert_eq!(signal_effect(9), SignalEffect::Ignore);
}

#[test]
fn pid_file_text() {
    assert_eq!(pid_for_signal(" 1234\n"), Ok(1234));
    assert_eq!(pid_for_signal("-7"), Ok(-7));
    assert_eq!(pid_for_signal("-2147483648"), Ok(i32::MIN));
    assert_eq!(pid_for_signal("2147483647"), Ok(i32::MAX));
    assert_eq!(pid_for_signal("2147483648"), Err(IntError::PosOverflow));
    assert_eq!(pid_for_signal("-2147483649"), Err(IntError::NegOverflow));
    assert_eq!(pid_for_signal("-+3"), Err(IntError::InvalidDigit));
    assert_eq!(pid_for_signal("-"), Err(IntError::InvalidDigit));
    assert_eq!(pid_for_signal("+5"), Ok(5));
    assert_eq!(pid_for_signal(""), Err(IntError::Empty));
    assert_eq!(pid_for_signal("  \n"), Err(IntError::Empty));
    assert_eq!(pid_for_signal("12x"), Err(IntError::InvalidDigit));
    assert_eq!(pid_for_signal("99999999999x"), Err(IntError::PosOverflow));
    for text in ["12", "-12", "+0", "x", "1 2", "-", "+", "", "4294967296", "-99999999999a"] {
        let expected = text.parse::<i32>().map_err(|e| match e.kind() {
            std::num::IntErrorKind::Empty => IntError::Empty,
            std::num::IntErrorKind::InvalidDigit => IntError::InvalidDigit,
            std::num::IntErrorKind::PosOverflow => IntError::PosOverflow,
            std::num::IntErrorKind::NegOverflow => IntError::NegOverflow,
            _ => unreachable!(),
        });
        assert_eq!(pid_for_signal(text), expected, "{text:?}");
    }
    assert_eq!(recorded_pid("4294967295\n"), Some(u32::MAX));
    assert_eq!(recorded_pid("4294967296"), None);
    assert_eq!(recorded_pid("abc"), None);
}

#[test]
fn integer_refusals_read_like_std() {
    for text in ["", "x", "99999999999", "-99999999999"] {
        let expected = text.parse::<i32>().unwrap_err().to_string();
        assert_eq!(pid_for_signal(text).unwrap_err().message(), expected);
    }
}
