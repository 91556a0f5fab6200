use useless::config::validate_config;
use useless::config::Module;
use useless::config::{parse_config, default_config_text, Config, ConfigError, Preset};

#[test]
fn parses_overrides_from_text() {
    let config = parse_config(
        r#"
            preset = "low"
            caution_duty_percent = 20

            [cpu]
            max_percent = 11

            [network]
            targets = ["http://example.com/file.bin"]
            "#,
    )
    .expect("config parses");

    assert!(matches!(config.preset, Preset::Low));
    assert_eq!(config.global.caution_duty_percent, 20);
    assert_eq!(config.global.active_tty_idle_secs, 300);
    assert_eq!(config.cpu.max_percent, 11);
    assert_eq!(config.network.targets.len(), 1);
}

#[test]
fn default_text_parses_back_to_default() {
    let text = default_config_text();
    let config = parse_config(&text).expect("default text parses");
    let default = Config::for_preset(Preset::Balanced);
    assert_eq!(config.preset, default.preset);
    assert_eq!(config.global, default.global);
    assert_eq!(config.cpu, default.cpu);
    assert_eq!(config.memory, default.memory);
    assert_eq!(config.network.targets, default.network.targets);
    assert!(text.starts_with("# useless configuration\n"));
    assert!(text.contains("preset = \"balanced\"\n"));
    assert!(text.contains("targets = [\"http://mirror.nl.leaseweb.net/speedtest/10000mb.bin\", "));
}

#[test]
fn rejects_invalid_line() {
    match parse_config("preset = \"low\"\nnot a setting\n") {
        Err(ConfigError::InvalidLine { line_number, line }) => {
            assert_eq!(line_number, 2);
            assert_eq!(line, "not a setting");
        }
        other => panic!("unexpected: {:?}", other),
    }
}

#[test]
fn preset_names_and_errors() {
    assert!(matches!(Preset::parse(" LOW "), Ok(Preset::Low)));
    assert!(matches!(Preset::parse("Aggressive"), Ok(Preset::Aggressive)));
    assert!(matches!(Preset::parse("balanced"), Ok(Preset::Balanced)));
    match Preset::parse(" Extreme ") {
        Err(ConfigError::UnsupportedPreset { value }) => assert_eq!(value, "extreme"),
        other => panic!("unexpected {:?}", other),
    }
    assert_eq!(Preset::Low.as_str(), "low");
    assert_eq!(Preset::Balanced.as_str(), "balanced");
    assert_eq!(Preset::Aggressive.as_str(), "aggressive");
}

#[test]
fn empty_text_is_balanced() {
    let c = parse_config("# only a comment\n\n[cpu]\n").expect("parses");
    assert_eq!(c.preset, Preset::Balanced);
    assert_eq!(c.global.interactive_grace_secs, 180);
}

#[test]
fn value_errors_name_their_line() {
    assert!(matches!(parse_config("[cpu]\nenabled = yes\n"), Err(ConfigError::ExpectedBool { line_number: 2 })));
    assert!(matches!(parse_config("caution_load_percent = 300\n"), Err(ConfigError::ExpectedU8 { line_number: 1 })));
    assert!(matches!(parse_config("[network]\nmax_mbps = -1\n"), Err(ConfigError::ExpectedU32 { line_number: 2 })));
    assert!(matches!(parse_config("check_interval_secs = 1.5\n"), Err(ConfigError::ExpectedU64 { line_number: 1 })));
    assert!(matches!(parse_config("[network]\ntargets = \"a\"\n"), Err(ConfigError::ExpectedArray { line_number: 2 })));
    match parse_config("[disk]\nsize = 3\n") {
        Err(ConfigError::UnknownKey { line_number, section, key }) => {
            assert_eq!(line_number, 2);
            assert_eq!(section.as_deref(), Some("disk"));
            assert_eq!(key, "size");
        }
        other => panic!("unexpected {:?}", other),
    }
    assert!(matches!(parse_config("preset = \"fast\"\n"), Err(ConfigError::UnsupportedPreset { .. })));
}

#[test]
fn validation_errors() {
    assert!(matches!(
        parse_config("[memory]\nburst_secs_min = 0\n"),
        Err(ConfigError::NonPositiveMinimum { module: Module::Memory })
    ));
    assert!(matches!(
        parse_config("[network]\nrest_secs_min = 1000\n"),
        Err(ConfigError::MinimumAboveMaximum { module: Module::Network })
    ));
    assert!(matches!(parse_config("caution_duty_percent = 0\n"), Err(ConfigError::CautionDutyOutOfRange)));
    assert!(matches!(parse_config("caution_duty_percent = 101\n"), Err(ConfigError::CautionDutyOutOfRange)));
    assert!(matches!(parse_config("active_tty_idle_secs = 0\n"), Err(ConfigError::ActiveTtyIdleZero)));
    assert!(matches!(parse_config("caution_load_percent = 95\n"), Err(ConfigError::CautionLoadAbovePause)));
    assert!(matches!(parse_config("pause_mem_available_percent = 50\n"), Err(ConfigError::PauseMemoryAboveCaution)));
    assert!(matches!(parse_config("[network]\ntargets = []\n"), Err(ConfigError::EmptyNetworkTargets)));
    assert!(parse_config("[network]\nenabled = false\ntargets = [ ]\n").is_ok());
}

#[test]
fn string_lists_and_later_entries() {
    let c = parse_config("[network]\ntargets = [\"a\", , b ,\"\"]\n[cpu]\nmax_percent = 3\nmax_percent = +4\n").expect("parses");
    assert_eq!(c.network.targets, vec!["a".to_string(), "b".to_string()]);
    assert_eq!(c.cpu.max_percent, 4);
    let c = parse_config("preset = aggressive\npreset = nonsense\r\n").expect("only the first preset counts");
    assert_eq!(c.preset, Preset::Aggressive);
    assert_eq!(c.global.check_interval_secs, 4);
}

#[test]
fn presets_differ() {
    let low = Config::for_preset(Preset::Low);
    let aggressive = Config::for_preset(Preset::Aggressive);
    assert_eq!(low.cpu.max_percent, 8);
    assert_eq!(aggressive.cpu.max_percent, 22);
    assert_eq!(aggressive.network.window.burst_secs_max, 90);
    assert_eq!(low.network.targets.len(), 5);
    assert_eq!(useless::config::default_config_path(), "/etc/useless/config.toml");
}

#[test]
fn every_preset_is_valid() {
    for p in [Preset::Low, Preset::Balanced, Preset::Aggressive] {
        assert!(validate_config(&Config::for_preset(p)).is_ok());
        let again = parse_config(&format!("preset = \"{}\"\n", p.as_str())).expect("name reads back");
        assert_eq!(again.preset, p);
    }
}

fn refusal(text: &str) -> String {
    match parse_config(text) {
        Err(e) => e.message(),
        Ok(_) => panic!("expected a refusal"),
    }
}

#[test]
fn refusals_read_as_messages() {
    assert_eq!(refusal("oops\n"), "invalid config line 1: oops");
    assert_eq!(refusal("preset = \"fast\"\n"), "unsupported preset: fast");
    assert_eq!(
        refusal("[cpu]\nspeed = 3\n"),
        format!("unknown config key on line 2: section={:?} key=speed", Some("cpu".to_string()))
    );
    assert_eq!(refusal("speed = 3\n"), "unknown config key on line 1: section=None key=speed");
    assert_eq!(refusal("[cpu]\nenabled = yes\n"), "expected boolean on line 2");
    assert_eq!(refusal("caution_load_percent = 300\n"), "expected u8 on line 1");
    assert_eq!(refusal("[network]\nmax_mbps = -1\n"), "expected u32 on line 2");
    assert_eq!(refusal("check_interval_secs = 1.5\n"), "expected u64 on line 1");
    assert_eq!(refusal("[network]\ntargets = \"a\"\n"), "expected array syntax on line 2");
    assert_eq!(refusal("[memory]\nburst_secs_min = 0\n"), "memory burst/rest minimums must be positive");
    assert_eq!(
        refusal("[cpu]\nburst_secs_min = 500\n"),
        "cpu burst/rest minimums cannot exceed maximums"
    );
    assert_eq!(refusal("caution_duty_percent = 0\n"), "caution_duty_percent must be between 1 and 100");
    assert_eq!(refusal("active_tty_idle_secs = 0\n"), "active_tty_idle_secs must be positive");
    assert_eq!(
        refusal("caution_load_percent = 99\npause_load_percent = 98\n"),
        "caution_load_percent cannot exceed pause_load_percent"
    );
    assert_eq!(
        refusal("pause_mem_available_percent = 50\ncaution_mem_available_percent = 40\n"),
        "pause_mem_available_percent cannot exceed caution_mem_available_percent"
    );
    assert_eq!(
        refusal("[network]\nenabled = true\ntargets = []\n"),
        "network.targets cannot be empty when network is enabled"
    );
}
