//! Service management: which manager the host has, what `reload` does, and
//! the service files that `install` writes.
use vstd::prelude::*;
use vstd::string::StringExecFns;

use crate::config::{
    bool_text, preset_name, Config, ConfigModel, INSTALL_BIN_PATH, PID_FILE_PATH,
};
use crate::error::AppError;
use crate::daemon::{signal_effect_of, SignalEffect, SIGHUP};
use crate::text::{decimal, occurs_at, push_decimal, push_str};

verus! {

pub const SERVICE_NAME: &'static str = "useless";

#[derive(Debug, Clone, Copy, PartialEq, Eq, Structural)]
pub enum ServiceManager {
    Systemd,
    Initd,
    Absent,
}

pub open spec fn manager_name(m: ServiceManager) -> Seq<char> {
    match m {
        ServiceManager::Systemd => "systemd"@,
        ServiceManager::Initd => "init.d"@,
        ServiceManager::Absent => "none"@,
    }
}

impl ServiceManager {
    /// The manager's name as `status` prints it.
    pub fn as_str(self) -> (s: &'static str)
        ensures
            s@ == manager_name(self),
    {
        match self {
            ServiceManager::Systemd => "systemd",
            ServiceManager::Initd => "init.d",
            ServiceManager::Absent => "none",
        }
    }
}

/// systemd when it runs (`/run/systemd/system` exists) and `systemctl` is on
/// the `PATH`; otherwise init.d when `/etc/init.d` exists; otherwise none.
pub open spec fn manager_of(systemd_running: bool, systemctl_on_path: bool, initd_dir_exists: bool) -> ServiceManager {
    if systemd_running && systemctl_on_path {
        ServiceManager::Systemd
    } else if initd_dir_exists {
        ServiceManager::Initd
    } else {
        ServiceManager::Absent
    }
}

/// Picks the service manager from what the host has.
pub fn detect_service_manager(
    systemd_running: bool,
    systemctl_on_path: bool,
    initd_dir_exists: bool,
) -> (m: ServiceManager)
    ensures
        m == manager_of(systemd_running, systemctl_on_path, initd_dir_exists),
{
    if systemd_running && systemctl_on_path {
        ServiceManager::Systemd
    } else if initd_dir_exists {
        ServiceManager::Initd
    } else {
        ServiceManager::Absent
    }
}

/// How a running daemon is asked to reload its configuration.
#[derive(Debug, Clone, Copy, PartialEq, Eq, Structural)]
pub enum ReloadAction {
    /// `systemctl reload useless`
    Systemctl,
    /// `/etc/init.d/useless reload`
    InitScript,
    /// `SIGHUP` to the process named in the pid file.
    SignalFromPidFile,
}

pub open spec fn reload_action_of(manager: ServiceManager, init_script_exists: bool) -> ReloadAction {
    match manager {
        ServiceManager::Systemd => ReloadAction::Systemctl,
        ServiceManager::Initd => if init_script_exists {
            ReloadAction::InitScript
        } else {
            ReloadAction::SignalFromPidFile
        },
        ServiceManager::Absent => ReloadAction::SignalFromPidFile,
    }
}

/// The way to reload: through systemd, through the init script when it is
/// installed, else by signalling the pid file's process.
pub fn reload(manager: ServiceManager, init_script_exists: bool) -> (a: ReloadAction)
    ensures
        a == reload_action_of(manager, init_script_exists),
{
    match manager {
        ServiceManager::Systemd => ReloadAction::Systemctl,
        ServiceManager::Initd => if init_script_exists {
            ReloadAction::InitScript
        } else {
            ReloadAction::SignalFromPidFile
        },
        ServiceManager::Absent => ReloadAction::SignalFromPidFile,
    }
}

/// Installing and uninstalling need root: effective user id 0.
pub fn ensure_root(euid: u32) -> (r: Result<(), AppError>)
    ensures
        r is Ok <==> euid == 0,
        r matches Err(AppError::Message(m)) ==> m@ == "this command must be run as root"@,
        r is Err ==> r matches Err(AppError::Message(_)),
{
    if euid == 0 {
        Ok(())
    } else {
        Err(AppError::Message(String::from_str("this command must be run as root")))
    }
}

/// The systemd unit for a configuration path.
pub open spec fn systemd_unit_model(config_path: Seq<char>) -> Seq<char> {
    "[Unit]\nDescription=useless synthetic resource daemon\nAfter=network-online.target\nWants=network-online.target\n\n[Service]\nType=simple\nUser=root\nNice=19\nExecStart="@ + INSTALL_BIN_PATH@ + " daemon --config "@ + config_path
        + "\nExecReload=/bin/kill -HUP $MAINPID\nRestart=always\nRestartSec=10\n\n[Install]\nWantedBy=multi-user.target\n"@
}

/// The systemd unit that runs the daemon with the given configuration.
pub fn systemd_unit(config_path: &str) -> (s: String)
    ensures
        s@ == systemd_unit_model(config_path@),
{
    let mut out = String::new();
    push_str(&mut out, "[Unit]\nDescription=useless synthetic resource daemon\nAfter=network-online.target\nWants=network-online.target\n\n[Service]\nType=simple\nUser=root\nNice=19\nExecStart=");
    push_str(&mut out, INSTALL_BIN_PATH);
    push_str(&mut out, " daemon --config ");
    push_str(&mut out, config_path);
    push_str(
        &mut out,
        "\nExecReload=/bin/kill -HUP $MAINPID\nRestart=always\nRestartSec=10\n\n[Install]\nWantedBy=multi-user.target\n",
    );
    out
}

/// The init.d script for a configuration path.
pub open spec fn initd_script_model(config_path: Seq<char>) -> Seq<char> {
    "#!/bin/sh\n### BEGIN INIT INFO\n# Provides:          useless\n# Required-Start:    $remote_fs $syslog $network\n# Required-Stop:     $remote_fs $syslog $network\n# Default-Start:     2 3 4 5\n# Default-Stop:      0 1 6\n# Short-Description: useless synthetic resource daemon\n### END INIT INFO\n\nPIDFILE="@ + PID_FILE_PATH@ + "\nBIN="@ + INSTALL_BIN_PATH@ + "\nCONFIG="@ + config_path
        + "\n\nstart() {\nif [ -f \"$PIDFILE\" ] && kill -0 $(cat \"$PIDFILE\") 2>/dev/null; then\necho \"useless already running\"\nreturn 0\nfi\nif command -v start-stop-daemon >/dev/null 2>&1; then\nstart-stop-daemon --start --background --make-pidfile --pidfile \"$PIDFILE\" --nicelevel 19 --exec \"$BIN\" -- daemon --config \"$CONFIG\"\nelse\nnice -n 19 \"$BIN\" daemon --config \"$CONFIG\" >/var/log/useless.log 2>&1 &\necho $! > \"$PIDFILE\"\nfi\n}\n\nstop() {\nif [ -f \"$PIDFILE\" ]; then\nkill $(cat \"$PIDFILE\") 2>/dev/null || true\nrm -f \"$PIDFILE\"\nfi\n}\n\nreload() {\nif [ -f \"$PIDFILE\" ]; then\nkill -HUP $(cat \"$PIDFILE\") 2>/dev/null || true\nfi\n}\n\nstatus() {\nif [ -f \"$PIDFILE\" ] && kill -0 $(cat \"$PIDFILE\") 2>/dev/null; then\necho \"useless is running\"\nexit 0\nfi\necho \"useless is stopped\"\nexit 1\n}\n\ncase \"$1\" in\nstart) start ;;\nstop) stop ;;\nrestart) stop; start ;;\nreload) reload ;;\nstatus) status ;;\n*) echo \"Usage: $0 {start|stop|restart|reload|status}\"; exit 1 ;;\nesac\n"@
}

/// The init.d script that starts, stops, reloads and reports the daemon.
pub fn initd_script(config_path: &str) -> (s: String)
    ensures
        s@ == initd_script_model(config_path@),
{
    let mut out = String::new();
    push_str(&mut out, "#!/bin/sh\n### BEGIN INIT INFO\n# Provides:          useless\n# Required-Start:    $remote_fs $syslog $network\n# Required-Stop:     $remote_fs $syslog $network\n# Default-Start:     2 3 4 5\n# Default-Stop:      0 1 6\n# Short-Description: useless synthetic resource daemon\n### END INIT INFO\n\nPIDFILE=");
    push_str(&mut out, PID_FILE_PATH);
    push_str(&mut out, "\nBIN=");
    push_str(&mut out, INSTALL_BIN_PATH);
    push_str(&mut out, "\nCONFIG=");
    push_str(&mut out, config_path);
    push_str(
        &mut out,
        "\n\nstart() {\nif [ -f \"$PIDFILE\" ] && kill -0 $(cat \"$PIDFILE\") 2>/dev/null; then\necho \"useless already running\"\nreturn 0\nfi\nif command -v start-stop-daemon >/dev/null 2>&1; then\nstart-stop-daemon --start --background --make-pidfile --pidfile \"$PIDFILE\" --nicelevel 19 --exec \"$BIN\" -- daemon --config \"$CONFIG\"\nelse\nnice -n 19 \"$BIN\" daemon --config \"$CONFIG\" >/var/log/useless.log 2>&1 &\necho $! > \"$PIDFILE\"\nfi\n}\n\nstop() {\nif [ -f \"$PIDFILE\" ]; then\nkill $(cat \"$PIDFILE\") 2>/dev/null || true\nrm -f \"$PIDFILE\"\nfi\n}\n\nreload() {\nif [ -f \"$PIDFILE\" ]; then\nkill -HUP $(cat \"$PIDFILE\") 2>/dev/null || true\nfi\n}\n\nstatus() {\nif [ -f \"$PIDFILE\" ] && kill -0 $(cat \"$PIDFILE\") 2>/dev/null; then\necho \"useless is running\"\nexit 0\nfi\necho \"useless is stopped\"\nexit 1\n}\n\ncase \"$1\" in\nstart) start ;;\nstop) stop ;;\nrestart) stop; start ;;\nreload) reload ;;\nstatus) status ;;\n*) echo \"Usage: $0 {start|stop|restart|reload|status}\"; exit 1 ;;\nesac\n",
    );
    out
}

// ---------------------------------------------------------------------------
// `status`
// ---------------------------------------------------------------------------

/// What `status` finds on the host beside the configuration: whether systemd
/// reports the service active and enabled, whether the init script exists,
/// and whether the pid file exists.
#[derive(Debug, Clone, Copy, PartialEq, Eq, Structural)]
pub struct HostStatus {
    pub systemd_active: bool,
    pub systemd_enabled: bool,
    pub initd_script: bool,
    pub pid_present: bool,
}

/// The lines that depend on the service manager.
pub open spec fn manager_lines(manager: ServiceManager, h: HostStatus) -> Seq<char> {
    match manager {
        ServiceManager::Systemd => "systemd_active: "@ + bool_text(h.systemd_active)
            + "\nsystemd_enabled: "@ + bool_text(h.systemd_enabled) + "\n"@,
        ServiceManager::Initd => "initd_script: "@ + bool_text(h.initd_script) + "\npid_present: "@
            + bool_text(h.pid_present) + "\n"@,
        ServiceManager::Absent => "pid_present: "@ + bool_text(h.pid_present) + "\n"@,
    }
}

/// `<prefix><enabled><key><value>`: one worker's part of the report.
pub open spec fn worker_line(prefix: Seq<char>, enabled: bool, key: Seq<char>, v: nat) -> Seq<char> {
    prefix + bool_text(enabled) + key + decimal(v)
}

/// The lines on the configuration: what each worker may do.
pub open spec fn config_lines(c: ConfigModel) -> Seq<char> {
    worker_line("\ncpu: enabled="@, c.cpu.enabled, " max_percent="@, c.cpu.max_percent as nat)
        + worker_line(
        "\nmemory: enabled="@,
        c.memory.enabled,
        " max_percent="@,
        c.memory.max_percent as nat,
    ) + worker_line("\nnetwork: enabled="@, c.network.enabled, " max_mbps="@, c.network.max_mbps as nat)
        + " targets="@ + decimal(c.network.targets.len()) + "\n"@
}

/// The report that `status` prints, one `key: value` line each.
pub open spec fn status_text(
    config_path: Seq<char>,
    c: ConfigModel,
    manager: ServiceManager,
    h: HostStatus,
) -> Seq<char> {
    "binary: "@ + INSTALL_BIN_PATH@ + "\nconfig: "@ + config_path + "\npreset: "@ + preset_name(
        c.preset,
    ) + "\nservice_manager: "@ + manager_name(manager) + "\npid_file: "@ + PID_FILE_PATH@
        + config_lines(c) + manager_lines(manager, h)
}

fn push_bool(out: &mut String, b: bool)
    ensures
        final(out)@ == old(out)@ + bool_text(b),
{
    if b {
        push_str(out, "true");
    } else {
        push_str(out, "false");
    }
}

fn push_worker_line(out: &mut String, prefix: &str, enabled: bool, key: &str, v: u64)
    ensures
        final(out)@ == old(out)@ + worker_line(prefix@, enabled, key@, v as nat),
{
    let ghost start = out@;
    push_str(out, prefix);
    push_bool(out, enabled);
    push_str(out, key);
    push_decimal(out, v);
    assert(out@ =~= start + worker_line(prefix@, enabled, key@, v as nat));
}

fn push_config_lines(out: &mut String, config: &Config)
    ensures
        final(out)@ == old(out)@ + config_lines(config@),
{
    let ghost start = out@;
    push_worker_line(out, "\ncpu: enabled=", config.cpu.enabled, " max_percent=", config.cpu.max_percent as u64);
    push_worker_line(out, "\nmemory: enabled=", config.memory.enabled, " max_percent=", config.memory.max_percent as u64);
    push_worker_line(out, "\nnetwork: enabled=", config.network.enabled, " max_mbps=", config.network.max_mbps as u64);
    push_str(out, " targets=");
    push_decimal(out, config.network.targets.len() as u64);
    push_str(out, "\n");
    let ghost c = config@;
    assert(c.network.targets.len() == config.network.targets.len());
    assert(out@ =~= start + config_lines(c));
}

fn push_manager_lines(out: &mut String, manager: ServiceManager, host: HostStatus)
    ensures
        final(out)@ == old(out)@ + manager_lines(manager, host),
{
    let ghost start = out@;
    match manager {
        ServiceManager::Systemd => {
            push_str(out, "systemd_active: ");
            push_bool(out, host.systemd_active);
            push_str(out, "\nsystemd_enabled: ");
            push_bool(out, host.systemd_enabled);
            push_str(out, "\n");
        },
        ServiceManager::Initd => {
            push_str(out, "initd_script: ");
            push_bool(out, host.initd_script);
            push_str(out, "\npid_present: ");
            push_bool(out, host.pid_present);
            push_str(out, "\n");
        },
        ServiceManager::Absent => {
            push_str(out, "pid_present: ");
            push_bool(out, host.pid_present);
            push_str(out, "\n");
        },
    }
    assert(out@ =~= start + manager_lines(manager, host));
}

/// Writes the `status` report for a configuration, the host's service
/// manager and what was found on the host.
pub fn status_report(
    config_path: &str,
    config: &Config,
    manager: ServiceManager,
    host: HostStatus,
) -> (s: String)
    ensures
        s@ == status_text(config_path@, config@, manager, host),
{
    let mut out = String::new();
    push_str(&mut out, "binary: ");
    push_str(&mut out, INSTALL_BIN_PATH);
    push_str(&mut out, "\nconfig: ");
    push_str(&mut out, config_path);
    push_str(&mut out, "\npreset: ");
    push_str(&mut out, config.preset.as_str());
    push_str(&mut out, "\nservice_manager: ");
    push_str(&mut out, manager.as_str());
    push_str(&mut out, "\npid_file: ");
    push_str(&mut out, PID_FILE_PATH);
    push_config_lines(&mut out, config);
    push_manager_lines(&mut out, manager, host);
    assert(out@ =~= status_text(config_path@, config@, manager, host));
    out
}

// ---------------------------------------------------------------------------
// Laws
// ---------------------------------------------------------------------------

proof fn lemma_occurs_between(a: Seq<char>, w: Seq<char>, b: Seq<char>)
    ensures
        occurs_at(a + w + b, w, a.len() as int),
{
    assert((a + w + b).subrange(a.len() as int, (a.len() + w.len()) as int) =~= w);
}

/// The systemd unit starts the installed binary as the daemon with the given
/// configuration, and its reload command sends `SIGHUP` to the daemon, the
/// signal that the daemon answers by reloading its configuration.
pub proof fn lemma_unit_reloads_with_sighup(config_path: Seq<char>)
    ensures
        exists|i: int|
            occurs_at(
                systemd_unit_model(config_path),
                "ExecStart="@ + INSTALL_BIN_PATH@ + " daemon --config "@ + config_path,
                i,
            ),
        exists|i: int|
            occurs_at(systemd_unit_model(config_path), "\nExecReload=/bin/kill -HUP $MAINPID\n"@, i),
        SIGHUP == 1,
        signal_effect_of(SIGHUP) == SignalEffect::Reload,
{
    reveal_strlit("[Unit]\nDescription=useless synthetic resource daemon\nAfter=network-online.target\nWants=network-online.target\n\n[Service]\nType=simple\nUser=root\nNice=19\nExecStart=");
    reveal_strlit("[Unit]\nDescription=useless synthetic resource daemon\nAfter=network-online.target\nWants=network-online.target\n\n[Service]\nType=simple\nUser=root\nNice=19\n");
    reveal_strlit("ExecStart=");
    reveal_strlit("\nExecReload=/bin/kill -HUP $MAINPID\nRestart=always\nRestartSec=10\n\n[Install]\nWantedBy=multi-user.target\n");
    reveal_strlit("\nExecReload=/bin/kill -HUP $MAINPID\n");
    reveal_strlit("Restart=always\nRestartSec=10\n\n[Install]\nWantedBy=multi-user.target\n");
    let t = systemd_unit_model(config_path);
    let start = "ExecStart="@ + INSTALL_BIN_PATH@ + " daemon --config "@ + config_path;
    assert(t =~= "[Unit]\nDescription=useless synthetic resource daemon\nAfter=network-online.target\nWants=network-online.target\n\n[Service]\nType=simple\nUser=root\nNice=19\n"@ + start + "\nExecReload=/bin/kill -HUP $MAINPID\nRestart=always\nRestartSec=10\n\n[Install]\nWantedBy=multi-user.target\n"@);
    lemma_occurs_between("[Unit]\nDescription=useless synthetic resource daemon\nAfter=network-online.target\nWants=network-online.target\n\n[Service]\nType=simple\nUser=root\nNice=19\n"@, start, "\nExecReload=/bin/kill -HUP $MAINPID\nRestart=always\nRestartSec=10\n\n[Install]\nWantedBy=multi-user.target\n"@);
    let head = "[Unit]\nDescription=useless synthetic resource daemon\nAfter=network-online.target\nWants=network-online.target\n\n[Service]\nType=simple\nUser=root\nNice=19\nExecStart="@ + INSTALL_BIN_PATH@ + " daemon --config "@ + config_path;
    assert(t =~= head + "\nExecReload=/bin/kill -HUP $MAINPID\n"@ + "Restart=always\nRestartSec=10\n\n[Install]\nWantedBy=multi-user.target\n"@);
    lemma_occurs_between(head, "\nExecReload=/bin/kill -HUP $MAINPID\n"@, "Restart=always\nRestartSec=10\n\n[Install]\nWantedBy=multi-user.target\n"@);
}

/// The init script's reload action sends `SIGHUP` to the process in the pid
/// file, the signal that the daemon answers by reloading its configuration.
pub proof fn lemma_init_script_reloads_with_sighup(config_path: Seq<char>)
    ensures
        exists|i: int| occurs_at(initd_script_model(config_path), "kill -HUP $(cat \"$PIDFILE\")"@, i),
        signal_effect_of(SIGHUP) == SignalEffect::Reload,
{
    reveal_strlit("\n\nstart() {\nif [ -f \"$PIDFILE\" ] && kill -0 $(cat \"$PIDFILE\") 2>/dev/null; then\necho \"useless already running\"\nreturn 0\nfi\nif command -v start-stop-daemon >/dev/null 2>&1; then\nstart-stop-daemon --start --background --make-pidfile --pidfile \"$PIDFILE\" --nicelevel 19 --exec \"$BIN\" -- daemon --config \"$CONFIG\"\nelse\nnice -n 19 \"$BIN\" daemon --config \"$CONFIG\" >/var/log/useless.log 2>&1 &\necho $! > \"$PIDFILE\"\nfi\n}\n\nstop() {\nif [ -f \"$PIDFILE\" ]; then\nkill $(cat \"$PIDFILE\") 2>/dev/null || true\nrm -f \"$PIDFILE\"\nfi\n}\n\nreload() {\nif [ -f \"$PIDFILE\" ]; then\nkill -HUP $(cat \"$PIDFILE\") 2>/dev/null || true\nfi\n}\n\nstatus() {\nif [ -f \"$PIDFILE\" ] && kill -0 $(cat \"$PIDFILE\") 2>/dev/null; then\necho \"useless is running\"\nexit 0\nfi\necho \"useless is stopped\"\nexit 1\n}\n\ncase \"$1\" in\nstart) start ;;\nstop) stop ;;\nrestart) stop; start ;;\nreload) reload ;;\nstatus) status ;;\n*) echo \"Usage: $0 {start|stop|restart|reload|status}\"; exit 1 ;;\nesac\n");
    reveal_strlit("\n\nstart() {\nif [ -f \"$PIDFILE\" ] && kill -0 $(cat \"$PIDFILE\") 2>/dev/null; then\necho \"useless already running\"\nreturn 0\nfi\nif command -v start-stop-daemon >/dev/null 2>&1; then\nstart-stop-daemon --start --background --make-pidfile --pidfile \"$PIDFILE\" --nicelevel 19 --exec \"$BIN\" -- daemon --config \"$CONFIG\"\nelse\nnice -n 19 \"$BIN\" daemon --config \"$CONFIG\" >/var/log/useless.log 2>&1 &\necho $! > \"$PIDFILE\"\nfi\n}\n\nstop() {\nif [ -f \"$PIDFILE\" ]; then\nkill $(cat \"$PIDFILE\") 2>/dev/null || true\nrm -f \"$PIDFILE\"\nfi\n}\n\nreload() {\nif [ -f \"$PIDFILE\" ]; then\n");
    reveal_strlit("kill -HUP $(cat \"$PIDFILE\")");
    reveal_strlit(" 2>/dev/null || true\nfi\n}\n\nstatus() {\nif [ -f \"$PIDFILE\" ] && kill -0 $(cat \"$PIDFILE\") 2>/dev/null; then\necho \"useless is running\"\nexit 0\nfi\necho \"useless is stopped\"\nexit 1\n}\n\ncase \"$1\" in\nstart) start ;;\nstop) stop ;;\nrestart) stop; start ;;\nreload) reload ;;\nstatus) status ;;\n*) echo \"Usage: $0 {start|stop|restart|reload|status}\"; exit 1 ;;\nesac\n");
    let t = initd_script_model(config_path);
    let head = "#!/bin/sh\n### BEGIN INIT INFO\n# Provides:          useless\n# Required-Start:    $remote_fs $syslog $network\n# Required-Stop:     $remote_fs $syslog $network\n# Default-Start:     2 3 4 5\n# Default-Stop:      0 1 6\n# Short-Description: useless synthetic resource daemon\n### END INIT INFO\n\nPIDFILE="@ + PID_FILE_PATH@ + "\nBIN="@ + INSTALL_BIN_PATH@ + "\nCONFIG="@ + config_path + "\n\nstart() {\nif [ -f \"$PIDFILE\" ] && kill -0 $(cat \"$PIDFILE\") 2>/dev/null; then\necho \"useless already running\"\nreturn 0\nfi\nif command -v start-stop-daemon >/dev/null 2>&1; then\nstart-stop-daemon --start --background --make-pidfile --pidfile \"$PIDFILE\" --nicelevel 19 --exec \"$BIN\" -- daemon --config \"$CONFIG\"\nelse\nnice -n 19 \"$BIN\" daemon --config \"$CONFIG\" >/var/log/useless.log 2>&1 &\necho $! > \"$PIDFILE\"\nfi\n}\n\nstop() {\nif [ -f \"$PIDFILE\" ]; then\nkill $(cat \"$PIDFILE\") 2>/dev/null || true\nrm -f \"$PIDFILE\"\nfi\n}\n\nreload() {\nif [ -f \"$PIDFILE\" ]; then\n"@;
    assert(t =~= head + "kill -HUP $(cat \"$PIDFILE\")"@ + " 2>/dev/null || true\nfi\n}\n\nstatus() {\nif [ -f \"$PIDFILE\" ] && kill -0 $(cat \"$PIDFILE\") 2>/dev/null; then\necho \"useless is running\"\nexit 0\nfi\necho \"useless is stopped\"\nexit 1\n}\n\ncase \"$1\" in\nstart) start ;;\nstop) stop ;;\nrestart) stop; start ;;\nreload) reload ;;\nstatus) status ;;\n*) echo \"Usage: $0 {start|stop|restart|reload|status}\"; exit 1 ;;\nesac\n"@);
    lemma_occurs_between(head, "kill -HUP $(cat \"$PIDFILE\")"@, " 2>/dev/null || true\nfi\n}\n\nstatus() {\nif [ -f \"$PIDFILE\" ] && kill -0 $(cat \"$PIDFILE\") 2>/dev/null; then\necho \"useless is running\"\nexit 0\nfi\necho \"useless is stopped\"\nexit 1\n}\n\ncase \"$1\" in\nstart) start ;;\nstop) stop ;;\nrestart) stop; start ;;\nreload) reload ;;\nstatus) status ;;\n*) echo \"Usage: $0 {start|stop|restart|reload|status}\"; exit 1 ;;\nesac\n"@);
}

/// The status report shows each load generator's own settings, in order:
/// the cpu, memory and network lines, each from that generator's part of
/// the configuration.
#[verifier::spinoff_prover]
#[verifier::rlimit(50)]
pub proof fn lemma_report_shows_each_generator(
    config_path: Seq<char>,
    c: ConfigModel,
    manager: ServiceManager,
    h: HostStatus,
)
    ensures
        exists|i: int|
            occurs_at(
                status_text(config_path, c, manager, h),
                "\ncpu: enabled="@ + bool_text(c.cpu.enabled) + " max_percent="@ + decimal(
                    c.cpu.max_percent as nat,
                ) + "\nmemory: enabled="@ + bool_text(c.memory.enabled) + " max_percent="@
                    + decimal(c.memory.max_percent as nat) + "\nnetwork: enabled="@ + bool_text(
                    c.network.enabled,
                ) + " max_mbps="@ + decimal(c.network.max_mbps as nat) + " targets="@ + decimal(
                    c.network.targets.len(),
                ) + "\n"@,
                i,
            ),
        exists|i: int|
            occurs_at(
                status_text(config_path, c, manager, h),
                "\npreset: "@ + preset_name(c.preset) + "\nservice_manager: "@ + manager_name(
                    manager,
                ),
                i,
            ),
{
    let t = status_text(config_path, c, manager, h);
    let w = "\ncpu: enabled="@ + bool_text(c.cpu.enabled) + " max_percent="@ + decimal(
        c.cpu.max_percent as nat,
    ) + "\nmemory: enabled="@ + bool_text(c.memory.enabled) + " max_percent="@ + decimal(
        c.memory.max_percent as nat,
    ) + "\nnetwork: enabled="@ + bool_text(c.network.enabled) + " max_mbps="@ + decimal(
        c.network.max_mbps as nat,
    ) + " targets="@ + decimal(c.network.targets.len()) + "\n"@;
    let a = "binary: "@ + INSTALL_BIN_PATH@ + "\nconfig: "@ + config_path + "\npreset: "@
        + preset_name(c.preset) + "\nservice_manager: "@ + manager_name(manager) + "\npid_file: "@
        + PID_FILE_PATH@;
    assert(config_lines(c) =~= w);
    assert(t == a + config_lines(c) + manager_lines(manager, h));
    lemma_occurs_between(a, w, manager_lines(manager, h));
    let a2 = "binary: "@ + INSTALL_BIN_PATH@ + "\nconfig: "@ + config_path;
    let w2 = "\npreset: "@ + preset_name(c.preset) + "\nservice_manager: "@ + manager_name(manager);
    let b2 = "\npid_file: "@ + PID_FILE_PATH@ + config_lines(c) + manager_lines(manager, h);
    assert(a =~= a2 + w2 + "\npid_file: "@ + PID_FILE_PATH@);
    assert(t =~= a2 + w2 + b2);
    lemma_occurs_between(a2, w2, b2);
}

/// The report ends with what the host's service manager knows of the
/// service: under systemd whether it is active and enabled; under init.d
/// whether the script is installed and the pid file present; without a
/// manager whether the pid file is present.
pub proof fn lemma_report_ends_with_service_state(
    config_path: Seq<char>,
    c: ConfigModel,
    manager: ServiceManager,
    h: HostStatus,
)
    ensures
        ({
            let t = status_text(config_path, c, manager, h);
            let w = match manager {
                ServiceManager::Systemd => "systemd_active: "@ + bool_text(h.systemd_active)
                    + "\nsystemd_enabled: "@ + bool_text(h.systemd_enabled) + "\n"@,
                ServiceManager::Initd => "initd_script: "@ + bool_text(h.initd_script)
                    + "\npid_present: "@ + bool_text(h.pid_present) + "\n"@,
                ServiceManager::Absent => "pid_present: "@ + bool_text(h.pid_present) + "\n"@,
            };
            t.len() >= w.len() && occurs_at(t, w, t.len() - w.len())
        }),
{
    let t = status_text(config_path, c, manager, h);
    let a = "binary: "@ + INSTALL_BIN_PATH@ + "\nconfig: "@ + config_path + "\npreset: "@
        + preset_name(c.preset) + "\nservice_manager: "@ + manager_name(manager) + "\npid_file: "@
        + PID_FILE_PATH@ + config_lines(c);
    assert(t == a + manager_lines(manager, h));
    lemma_occurs_between(a, manager_lines(manager, h), Seq::<char>::empty());
    assert(a + manager_lines(manager, h) + Seq::<char>::empty() =~= t);
}

} // verus!
