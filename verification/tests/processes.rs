use spai::processes::{
    command_line_text, first_lines, keep_process, lines_mentioning, lsof_report, name_flags,
    parse_lsof, parse_pid_connections, parse_ps, pid_connection_from_fields, pid_report,
    text_filters_pass,
};

const PS: &str = "USER PID %CPU %MEM VSZ RSS TTY STAT START TIME COMMAND\n\
root 1 0.0 0.1 167000 11000 ? Ss Jan01 0:05 /sbin/init splash\n\
alice 4242 12.5 1.0 500 600 pts/0 R+ 10:00 0:01 python3 -m http.server 8000\n\
short line\n";

#[test]
fn ps_lines_are_parsed() {
    let ps = parse_ps(PS);
    assert_eq!(ps.len(), 2);
    assert_eq!(ps[0].user, "root");
    assert_eq!(ps[0].pid, 1);
    assert_eq!(ps[0].vsz_kb, 167000);
    assert_eq!(ps[0].command, "/sbin/init splash");
    assert_eq!(ps[1].pid, 4242);
    assert_eq!(ps[1].cpu, "12.5");
    assert_eq!(ps[1].mem, "1.0");
    assert_eq!(ps[1].rss_kb, 600);
    assert_eq!(ps[1].tty, "pts/0");
    assert_eq!(ps[1].command, "python3 -m http.server 8000");
    let odd = parse_ps("H\nu x y z big 9 a b c d cmd\n");
    assert_eq!(odd[0].pid, 0);
    assert_eq!(odd[0].vsz_kb, 0);
    assert_eq!(odd[0].rss_kb, 9);
    assert!(parse_ps("").is_empty());
}

#[test]
fn ps_text_filters() {
    let ps = parse_ps(PS);
    assert!(keep_process(&ps[1], Some("ali"), None));
    assert!(!keep_process(&ps[0], Some("ali"), None));
    assert!(keep_process(&ps[1], None, Some("http\\.server")));
    assert!(!keep_process(&ps[0], None, Some("http\\.server")));
    // An invalid expression falls back to a plain substring test.
    assert!(!keep_process(&ps[1], None, Some("(")));
    assert!(keep_process(&ps[1], None, None));
    assert!(text_filters_pass(&ps[0], None, Some("zzz"), Some(true)));
    assert!(!text_filters_pass(&ps[0], None, Some("init"), Some(false)));
    assert!(text_filters_pass(&ps[0], None, Some("init"), None));
    assert!(!text_filters_pass(&ps[0], Some("bob"), Some("init"), Some(true)));
}

#[test]
fn process_name_heuristics() {
    assert_eq!(name_flags(".hidden"), vec!["Hidden process (starts with '.')".to_string()]);
    assert!(name_flags(".").is_empty());
    assert_eq!(name_flags("tmpworker"), vec!["Suspicious name pattern: 'tmpworker'".to_string()]);
    assert_eq!(name_flags("deadbeef"), vec!["Process name is all hexadecimal characters".to_string()]);
    assert!(name_flags("abcd").is_empty());
    assert!(name_flags("sshd").is_empty());
    assert_eq!(
        name_flags("..."),
        vec!["Hidden process (starts with '.')".to_string(), "Suspicious name pattern: '...'".to_string()]
    );
}

const LSOF: &str = "COMMAND PID USER FD TYPE DEVICE SIZE/OFF NODE NAME\n\
sshd 812 root 3u IPv4 12345 0t0 TCP *:22 (LISTEN)\n\
curl 90 bob 5u IPv4 2222 0t0 TCP 10.0.0.5:4000->1.1.1.1:443 (ESTABLISHED)\n\
sshd 812 root 4u IPv6 12346 0t0 TCP *:22 (LISTEN)\n\
too few fields\n";

#[test]
fn lsof_files_are_parsed_and_grouped() {
    let files = parse_lsof(LSOF);
    assert_eq!(files.len(), 3);
    assert_eq!(files[0].command, "sshd");
    assert_eq!(files[0].pid, 812);
    assert_eq!(files[0].fd, "3u");
    assert_eq!(files[0].node, "TCP");
    assert_eq!(files[0].name, "*:22 (LISTEN)");
    assert_eq!(files[1].user, "bob");
    assert_eq!(
        lsof_report(&files),
        "🔌 Network File Descriptors (3 files, 2 processes)\n═══════════════════════════════════════\n\n\
📦 sshd (PID 812)\n   3u IPv4 TCP → *:22 (LISTEN)\n   4u IPv6 TCP → *:22 (LISTEN)\n\n\
📦 curl (PID 90)\n   5u IPv4 TCP → 10.0.0.5:4000->1.1.1.1:443 (ESTABLISHED)\n\n"
    );
}

const SS: &str = "Netid State Recv-Q Send-Q Local Peer Process\n\
tcp ESTAB 0 0 a b users:((\"sshd\",pid=812,fd=4))\n\
udp UNCONN 0 0 e f users:((\"curl\",pid=90,fd=5))\n\
tcp ESTAB 0 0 c d users:((\"sshd\",pid=812,fd=7))\n\
tcp LISTEN 0 0 g h\n";

#[test]
fn ss_connections_by_pid() {
    let conns = parse_pid_connections(SS, None);
    assert_eq!(conns.len(), 3);
    assert_eq!(conns[0].process, "sshd");
    assert_eq!(conns[0].protocol, "tcp");
    assert_eq!(conns[1].pid, 90);
    let only = parse_pid_connections(SS, Some(812));
    assert_eq!(only.len(), 2);
    assert!(parse_pid_connections(SS, Some(1)).is_empty());
    assert_eq!(
        pid_report(&conns),
        "🔗 PID-Network Correlation (3 connections, 2 processes)\n═══════════════════════════════════════\n\n\
📦 sshd (PID 812) - 2 connections\n   tcp a → b [ESTAB]\n   tcp c → d [ESTAB]\n\n\
📦 curl (PID 90) - 1 connections\n   udp e → f [UNCONN]\n\n"
    );
}

#[test]
fn pid_connection_fields() {
    let parts: Vec<String> = ["tcp", "ESTAB", "0", "0", "a", "b"].iter().map(|s| s.to_string()).collect();
    let c = pid_connection_from_fields(&parts, Some("5"), None, None).unwrap();
    assert_eq!(c.process, "unknown");
    assert_eq!(c.pid, 5);
    assert!(pid_connection_from_fields(&parts, Some("5"), None, Some(6)).is_none());
    // The target is cut to 32 bits before it is compared.
    assert!(pid_connection_from_fields(&parts, Some("5"), None, Some((1u64 << 32) + 5)).is_some());
    assert!(pid_connection_from_fields(&parts, None, Some("x"), None).is_none());
}

#[test]
fn line_helpers() {
    assert_eq!(
        lines_mentioning("a pid=1\nb\nc pid=12\n", "pid=1", 10),
        vec!["a pid=1".to_string(), "c pid=12".to_string()]
    );
    assert_eq!(lines_mentioning("a pid=1\nb\nc pid=12\n", "pid=1", 1), vec!["a pid=1".to_string()]);
    assert_eq!(first_lines("x\ny\nz", 2), vec!["x".to_string(), "y".to_string()]);
    assert_eq!(first_lines("x", 15), vec!["x".to_string()]);
    assert_eq!(command_line_text("/usr/bin/foo\0--bar\0"), "/usr/bin/foo --bar");
}
