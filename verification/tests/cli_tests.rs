use useless::cli::{parse_args, usage, CliError, Command};
use useless::error::{boxed_error, AppError};

fn args(v: &[&str]) -> Vec<String> {
    v.iter().map(|s| s.to_string()).collect()
}

#[test]
fn no_arguments_ask_for_help() {
    assert!(matches!(parse_args(args(&[])), Ok(Command::Help)));
    assert!(matches!(parse_args(args(&["-h"])), Ok(Command::Help)));
    assert!(matches!(parse_args(args(&["--help"])), Ok(Command::Help)));
}

#[test]
fn config_path_defaults_and_overrides() {
    match parse_args(args(&["daemon"])) {
        Ok(Command::Daemon { config_path }) => assert_eq!(config_path, "/etc/useless/config.toml"),
        other => panic!("unexpected {:?}", other),
    }
    match parse_args(args(&["install", "--config", "/tmp/a.toml", "--config", "/tmp/b.toml"])) {
        Ok(Command::Install { config_path }) => assert_eq!(config_path, "/tmp/b.toml"),
        other => panic!("unexpected {:?}", other),
    }
    assert!(matches!(
        parse_args(args(&["status", "--config"])),
        Err(CliError::MissingConfigValue)
    ));
    match parse_args(args(&["status", "--verbose"])) {
        Err(CliError::UnknownFlag { flag }) => assert_eq!(flag, "--verbose"),
        other => panic!("unexpected {:?}", other),
    }
}

#[test]
fn uninstall_flags() {
    assert!(matches!(
        parse_args(args(&["uninstall"])),
        Ok(Command::Uninstall { purge_config: false })
    ));
    assert!(matches!(
        parse_args(args(&["uninstall", "--purge-config"])),
        Ok(Command::Uninstall { purge_config: true })
    ));
    match parse_args(args(&["uninstall", "--force"])) {
        Err(CliError::UnknownUninstallFlag { flag }) => assert_eq!(flag, "--force"),
        other => panic!("unexpected {:?}", other),
    }
}

#[test]
fn other_commands() {
    assert!(matches!(parse_args(args(&["reload", "extra"])), Ok(Command::Reload)));
    assert!(matches!(
        parse_args(args(&["print-default-config"])),
        Ok(Command::PrintDefaultConfig)
    ));
    match parse_args(args(&["launch"])) {
        Err(CliError::UnknownCommand { command }) => assert_eq!(command, "launch"),
        other => panic!("unexpected {:?}", other),
    }
}

#[test]
fn usage_lists_commands() {
    assert!(usage().starts_with("useless <command> [options]\n"));
    assert!(usage().contains("  print-default-config           Print the default config template\n"));
}

#[test]
fn boxed_error_keeps_message() {
    match boxed_error("boom".to_string()) {
        AppError::Message(m) => assert_eq!(m, "boom"),
        other => panic!("unexpected {:?}", other),
    }
}

#[test]
fn argument_refusals_read_as_messages() {
    let text = |v: &[&str]| match parse_args(args(v)) {
        Err(e) => e.message(),
        Ok(_) => panic!("expected a refusal"),
    };
    assert_eq!(text(&["explode"]), "unknown command: explode");
    assert_eq!(text(&["uninstall", "--force"]), "unknown uninstall flag: --force");
    assert_eq!(text(&["status", "--verbose"]), "unknown flag: --verbose");
    assert_eq!(text(&["daemon", "--config"]), "missing value after --config");
}

#[test]
fn every_listed_command_is_accepted() {
    assert!(usage().starts_with("useless <command> [options]"));
    for line in usage().lines().skip(3) {
        let word = line.split_whitespace().next().unwrap();
        assert!(parse_args(args(&[word])).is_ok(), "{word}");
    }
    for c in ["install", "status", "daemon"] {
        assert!(parse_args(args(&[c, "--config", "/tmp/x.toml"])).is_ok());
    }
    assert!(parse_args(args(&["uninstall", "--purge"])).is_ok());
}
