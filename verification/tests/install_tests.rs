use useless::config::{Config, Preset};
use useless::install::{
    detect_service_manager, ensure_root, initd_script, reload, status_report, systemd_unit,
    HostStatus, ReloadAction, ServiceManager,
};

#[test]
fn service_manager_detection() {
    assert_eq!(detect_service_manager(true, true, true), ServiceManager::Systemd);
    assert_eq!(detect_service_manager(true, false, true), ServiceManager::Initd);
    assert_eq!(detect_service_manager(false, true, false), ServiceManager::Absent);
    assert_eq!(ServiceManager::Systemd.as_str(), "systemd");
    assert_eq!(ServiceManager::Initd.as_str(), "init.d");
    assert_eq!(ServiceManager::Absent.as_str(), "none");
}

#[test]
fn reload_actions() {
    assert_eq!(reload(ServiceManager::Systemd, false), ReloadAction::Systemctl);
    assert_eq!(reload(ServiceManager::Initd, true), ReloadAction::InitScript);
    assert_eq!(reload(ServiceManager::Initd, false), ReloadAction::SignalFromPidFile);
    assert_eq!(reload(ServiceManager::Absent, true), ReloadAction::SignalFromPidFile);
}

#[test]
fn root_is_required() {
    assert!(ensure_root(0).is_ok());
    assert!(ensure_root(1000).is_err());
}

#[test]
fn systemd_unit_text() {
    let unit = systemd_unit("/etc/useless/config.toml");
    assert!(unit.starts_with("[Unit]\nDescription=useless synthetic resource daemon\n"));
    assert!(unit.contains(
        "\nExecStart=/usr/local/bin/useless daemon --config /etc/useless/config.toml\n"
    ));
    assert!(unit.ends_with("[Install]\nWantedBy=multi-user.target\n"));
}

#[test]
fn initd_script_text() {
    let script = initd_script("/tmp/x.toml");
    assert!(script.starts_with("#!/bin/sh\n### BEGIN INIT INFO\n"));
    assert!(script.contains("\nPIDFILE=/run/useless.pid\nBIN=/usr/local/bin/useless\nCONFIG=/tmp/x.toml\n"));
    assert!(script.contains("\nreload() {\nif [ -f \"$PIDFILE\" ]; then\n"));
    assert!(script.ends_with("*) echo \"Usage: $0 {start|stop|restart|reload|status}\"; exit 1 ;;\nesac\n"));
}

#[test]
fn status_report_lines() {
    let config = Config::for_preset(Preset::Low);
    let host = HostStatus {
        systemd_active: true,
        systemd_enabled: false,
        initd_script: true,
        pid_present: false,
    };
    let text = status_report("/etc/useless/config.toml", &config, ServiceManager::Systemd, host);
    let expected = format!(
        "binary: /usr/local/bin/useless\nconfig: /etc/useless/config.toml\npreset: low\n\
service_manager: systemd\npid_file: /run/useless.pid\ncpu: enabled={} max_percent={}\n\
memory: enabled={} max_percent={}\nnetwork: enabled={} max_mbps={} targets={}\n\
systemd_active: true\nsystemd_enabled: false\n",
        config.cpu.enabled,
        config.cpu.max_percent,
        config.memory.enabled,
        config.memory.max_percent,
        config.network.enabled,
        config.network.max_mbps,
        config.network.targets.len()
    );
    assert_eq!(text, expected);

    let initd = status_report("c", &config, ServiceManager::Initd, host);
    assert!(initd.ends_with("initd_script: true\npid_present: false\n"));
    let absent = status_report("c", &config, ServiceManager::Absent, host);
    assert!(absent.ends_with("targets=5\npid_present: false\n"));
}
