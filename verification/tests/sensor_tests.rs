use useless::sensor::meminfo_values;
use useless::sensor::{loadavg_field, operstate_is_up, parse_counter, sum_interfaces};
use useless::sensor::{
    counts_from_active_sessions, parse_idle_token, parse_sshd_ttys, parse_who_users,
    idle_token_in_range, who_output_is_readable, SensorSample,
};

#[test]
fn counts_only_recent_remote_pts_sessions() {
    let stdout = "\
root pts/0 2026-04-15 16:16 . 1000 (183.240.41.22)\n\
root pts/1 2026-04-15 15:00 old 1001 (183.240.41.22)\n\
root pts/2 2026-04-15 16:15 00:03 1002 (14.145.215.6)\n\
root tty1 2026-04-15 16:10 00:10 1003\n";

    let sessions = parse_who_users(stdout, 300);
    let ssh_ttys = parse_sshd_ttys("sshd: root@pts/0\nsshd: root [priv]\nsshd: root@pts/2\n");
    let (tty_sessions, ssh_sessions) = counts_from_active_sessions(&sessions, &ssh_ttys);
    assert_eq!(tty_sessions, 3);
    assert_eq!(ssh_sessions, 2);
}

#[test]
fn counts_remote_sessions_without_parentheses() {
    let stdout = "\
root pts/6 2026-04-15 16:30 00:02 1115311 183.240.41.22\n\
root pts/7 2026-04-15 16:31 . 1116000 14.145.215.6\n";

    let sessions = parse_who_users(stdout, 300);
    let ssh_ttys = parse_sshd_ttys("sshd: root@pts/6\nsshd: root@pts/7\n");
    let (tty_sessions, ssh_sessions) = counts_from_active_sessions(&sessions, &ssh_ttys);
    assert_eq!(tty_sessions, 2);
    assert_eq!(ssh_sessions, 2);
}

#[test]
fn deduplicates_active_tty_rows() {
    let stdout = "\
ubuntu pts/1 2026-04-15 09:11 . 1234 (98.98.112.219)\n\
root pts/1 2026-04-15 09:11 . 5678 (98.98.112.219)\n";

    let sessions = parse_who_users(stdout, 300);
    let ssh_ttys = parse_sshd_ttys("sshd: ubuntu@pts/1\n");
    let (tty_sessions, ssh_sessions) = counts_from_active_sessions(&sessions, &ssh_ttys);
    assert_eq!(tty_sessions, 1);
    assert_eq!(ssh_sessions, 1);
}

#[test]
fn falls_back_to_remote_pts_when_ps_cannot_confirm_ssh() {
    let stdout = "\
root pts/5 2026-04-15 16:16 . 1110247 (183.240.41.22)\n\
root tty1 2026-04-15 16:10 00:10 1003\n";

    let sessions = parse_who_users(stdout, 300);
    let ssh_ttys = parse_sshd_ttys("");
    let (tty_sessions, ssh_sessions) = counts_from_active_sessions(&sessions, &ssh_ttys);
    assert_eq!(tty_sessions, 2);
    assert_eq!(ssh_sessions, 1);
}

#[test]
fn falls_back_to_remote_pts_when_ps_mismatches_active_ttys() {
    let stdout = "\
root pts/5 2026-04-15 16:16 . 1110247 (183.240.41.22)\n\
root pts/6 2026-04-15 16:17 . 1110248 (183.240.41.22)\n";

    let sessions = parse_who_users(stdout, 300);
    let ssh_ttys = parse_sshd_ttys("sshd: root@pts/9\n");
    let (tty_sessions, ssh_sessions) = counts_from_active_sessions(&sessions, &ssh_ttys);
    assert_eq!(tty_sessions, 2);
    assert_eq!(ssh_sessions, 2);
}

#[test]
fn parses_sshd_pts_targets() {
    let ssh_ttys = parse_sshd_ttys(
        "\
sshd: ubuntu [priv]\n\
sshd: ubuntu@pts/0\n\
sshd: root@pts/1,\n\
not-sshd: ignored\n",
    );

    assert!(ssh_ttys.contains("pts/0"));
    assert!(ssh_ttys.contains("pts/1"));
    assert_eq!(ssh_ttys.len(), 2);
}

#[test]
fn parses_idle_tokens() {
    assert_eq!(parse_idle_token("."), Some(0));
    assert_eq!(parse_idle_token("old"), Some(u64::MAX));
    assert_eq!(parse_idle_token("00:03"), Some(3));
    assert_eq!(parse_idle_token("1:02:03"), Some(3723));
    assert_eq!(parse_idle_token("2.00s"), Some(2));
    assert_eq!(parse_idle_token("05:10m"), Some(310));
}

#[test]
fn idle_token_edge_cases() {
    assert_eq!(parse_idle_token(""), None);
    assert_eq!(parse_idle_token("7"), Some(420));
    assert_eq!(parse_idle_token("2.5s"), Some(3));
    assert_eq!(parse_idle_token("4s"), Some(4));
    assert_eq!(parse_idle_token("1:2:3:4"), None);
    assert_eq!(parse_idle_token("abc"), None);
    assert!(idle_token_in_range("00:03"));
    assert!(!idle_token_in_range("18446744073709551615"));
    assert!(!who_output_is_readable("root pts/0 d t 307445734561825861:00m 1 (h)\n"));
    assert!(who_output_is_readable("root pts/0 d t . 1 (h)\n"));
}

#[test]
fn idle_rows_beyond_the_limit_do_not_count() {
    let sessions = parse_who_users("root pts/3 d t 10 1 (host.example)\n", 300);
    assert_eq!(sessions.len(), 0);
    let sessions = parse_who_users("root pts/3 d t 4 1 (host.example)\n", 300);
    assert_eq!(sessions.len(), 1);
    assert_eq!(sessions.get("pts/3"), Some(true));
}

#[test]
fn default_sample_is_zero() {
    let s = SensorSample::default();
    assert_eq!(s.tty_sessions, 0);
    assert!(!s.interactive_session);
}

#[test]
fn meminfo_values_take_the_last_lines() {
    let content = "MemTotal:       16303412 kB\nMemFree: 1 kB\nMemAvailable:    8151706 kB\n";
    assert_eq!(meminfo_values(content), (16303412, 8151706));
    assert_eq!(meminfo_values("MemTotal: x kB\nMemAvailable:\n"), (0, 0));
    assert_eq!(meminfo_values("MemTotal: 5\nMemTotal: 6\n"), (6, 0));
}

#[test]
fn ssh_sessions_never_exceed_terminal_sessions() {
    let stdout = "a pts/1 d t . 1 (h1)\nb pts/1 d t . 2 local\nc tty2 d t . 3\nd pts/4 d t 1:00 4 (h2)\n";
    let sessions = parse_who_users(stdout, 300);
    assert_eq!(sessions.len(), 3);
    assert_eq!(sessions.get("pts/1"), Some(true));
    assert_eq!(sessions.get("tty2"), Some(false));
    let ssh = parse_sshd_ttys("sshd: a@pts/1\nsshd: a@pts/1\nsshd: d@pts/4]\n");
    assert_eq!(ssh.len(), 2);
    let (tty, ssh_count) = counts_from_active_sessions(&sessions, &ssh);
    assert_eq!((tty, ssh_count), (3, 2));
    assert!(ssh_count <= tty);
}

#[test]
fn loadavg_gives_its_first_field() {
    assert_eq!(loadavg_field("0.52 0.58 0.59 1/389 12345\n"), Some("0.52".to_string()));
    assert_eq!(loadavg_field("  \n"), None);
}

#[test]
fn operstate_up_is_read_trimmed() {
    assert!(operstate_is_up("up\n"));
    assert!(!operstate_is_up("down\n"));
    assert!(!operstate_is_up("upper"));
    assert!(!operstate_is_up(""));
}

#[test]
fn counters_read_as_u64() {
    assert_eq!(parse_counter("123456\n"), Some(123456));
    assert_eq!(parse_counter("18446744073709551615"), Some(u64::MAX));
    assert_eq!(parse_counter("18446744073709551616"), None);
    assert_eq!(parse_counter("12 kB"), None);
    assert_eq!(parse_counter(""), None);
}

#[test]
fn interface_totals_skip_loopback_and_down() {
    let rows = vec![
        ("lo".to_string(), true, 1000, 1000),
        ("eth0".to_string(), true, 10, 20),
        ("eth1".to_string(), false, 500, 500),
        ("wlan0".to_string(), true, 1, 2),
    ];
    assert_eq!(sum_interfaces(&rows), Some((11, 22)));
    assert_eq!(sum_interfaces(&Vec::new()), Some((0, 0)));
    let big = vec![
        ("a".to_string(), true, u64::MAX, 0),
        ("b".to_string(), true, 1, 0),
    ];
    assert_eq!(sum_interfaces(&big), None);
}
