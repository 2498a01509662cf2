use spai::tally::{bump_count, top_entries};
use spai::traffic::{
    analyze_packet_fields, capture_summary, connection_from_fields,
    connection_lines, correlation_lines, correlation_report, extract_packet_count,
    packet_count_from_capture, parse_connections, ports_section, report_head, suspicious_port,
    talkers_section, ProcessConnection,
};

fn entry(k: &str, n: u64) -> (String, u64) {
    (k.to_string(), n)
}

#[test]
fn packet_fields_are_tallied() {
    let out = "192.168.1.5|10.0.0.1|4444|80|||eth:ethertype:ip:tcp\n\
               10.0.0.2|10.0.0.1|||53|6667|eth:ethertype:ip:udp:dns\n\
               \n\
               192.168.1.5|8.8.8.8|1234|4444|||eth:ethertype:ip:tcp\n";
    let a = analyze_packet_fields(out);
    assert_eq!(a.total_packets, 3);
    assert_eq!(a.ip_counts, vec![entry("192.168.1.5", 2), entry("10.0.0.2", 1)]);
    assert_eq!(a.suspicious_ports, vec![4444, 6667]);
    assert_eq!(
        a.protocols,
        vec![
            entry("eth", 3),
            entry("ethertype", 3),
            entry("ip", 3),
            entry("tcp", 2),
            entry("udp", 1),
            entry("dns", 1),
        ]
    );
}

#[test]
fn packet_without_source_counts_no_talker() {
    let a = analyze_packet_fields("|10.0.0.1|31337||||eth:ip\n   \n");
    assert_eq!(a.total_packets, 1);
    assert!(a.ip_counts.is_empty());
    assert_eq!(a.suspicious_ports, vec![31337]);
    assert_eq!(a.protocols, vec![entry("eth", 1), entry("ip", 1)]);
}

#[test]
fn ports_outside_the_port_fields_are_ignored() {
    // The seventh field is the protocol chain; a port-like value there is no port.
    let a = analyze_packet_fields("1.2.3.4|5.6.7.8|80|443|||4444\n");
    assert!(a.suspicious_ports.is_empty());
    assert_eq!(a.protocols, vec![entry("4444", 1)]);
    // Values that do not parse as u16 are no ports either.
    let b = analyze_packet_fields("1.2.3.4|5.6.7.8|70000|+6666|||tcp\n");
    assert_eq!(b.suspicious_ports, vec![6666]);
}

#[test]
fn empty_capture_has_no_packets() {
    let a = analyze_packet_fields("");
    assert_eq!(a.total_packets, 0);
    assert!(a.protocols.is_empty() && a.ip_counts.is_empty() && a.suspicious_ports.is_empty());
}

#[test]
fn suspicious_port_list() {
    for p in [4444u16, 5555, 6666, 7777, 8888, 9999, 31337, 12345, 54321, 1337, 666, 6667, 6668, 6669] {
        assert!(suspicious_port(p));
    }
    for p in [22u16, 80, 443, 53, 0, 65535] {
        assert!(!suspicious_port(p));
    }
}

#[test]
fn bump_count_counts_and_appends() {
    let mut t = vec![entry("tcp", 2)];
    bump_count(&mut t, "udp");
    bump_count(&mut t, "tcp");
    assert_eq!(t, vec![entry("tcp", 3), entry("udp", 1)]);
}

#[test]
fn top_entries_ranks_by_count() {
    let t = vec![entry("a", 1), entry("b", 3), entry("c", 2), entry("d", 3)];
    assert_eq!(top_entries(&t, 2), vec![entry("b", 3), entry("d", 3)]);
    assert_eq!(
        top_entries(&t, 10),
        vec![entry("b", 3), entry("d", 3), entry("c", 2), entry("a", 1)]
    );
    assert!(top_entries(&t, 0).is_empty());
    assert!(top_entries(&Vec::new(), 10).is_empty());
}

#[test]
fn packet_count_is_read_from_stderr() {
    assert_eq!(extract_packet_count("Capturing on 'any'\n42 packets captured\n"), 42);
    assert_eq!(extract_packet_count("1 packet captured"), 1);
    assert_eq!(extract_packet_count("tshark: permission denied"), 0);
    assert_eq!(packet_count_from_capture(Some("17")), 17);
    assert_eq!(packet_count_from_capture(Some("99999999999999999999999")), 0);
    assert_eq!(packet_count_from_capture(None), 0);
}

#[test]
fn ss_lines_give_connections() {
    let out = "Netid State  Recv-Q Send-Q Local Address:Port Peer Address:Port Process\n\
               tcp   ESTAB  0      0      10.0.0.5:22        10.0.0.9:50000    users:((\"sshd\",pid=812,fd=4))\n\
               udp   UNCONN 0      0      0.0.0.0:68         0.0.0.0:*\n\
               tcp   LISTEN 0      128    0.0.0.0:80         0.0.0.0:*         users:((\"nginx\",pid=0,fd=6))\n";
    let conns = parse_connections(out);
    assert_eq!(conns.len(), 1);
    assert_eq!(conns[0].pid, 812);
    assert_eq!(conns[0].process_name, "sshd");
    assert_eq!(conns[0].local_addr, "10.0.0.5:22");
    assert_eq!(conns[0].remote_addr, "10.0.0.9:50000");
    assert_eq!(conns[0].state, "ESTAB");
    assert!(parse_connections("").is_empty());
}

#[test]
fn connection_fields_with_captures() {
    let parts: Vec<String> = ["tcp", "ESTAB", "0", "0", "a:1", "b:2", "users:((x))"]
        .iter()
        .map(|s| s.to_string())
        .collect();
    let c = connection_from_fields(&parts, Some("7"), None).unwrap();
    assert_eq!(c.pid, 7);
    assert_eq!(c.process_name, "unknown");
    assert_eq!(c.state, "ESTAB");
    assert!(connection_from_fields(&parts, Some("0"), Some("x")).is_none());
    assert!(connection_from_fields(&parts, None, Some("x")).is_none());
    assert!(connection_from_fields(&parts[..5].to_vec(), Some("7"), None).is_none());
}

fn conn(pid: u32, name: &str, local: &str, remote: &str, state: &str) -> ProcessConnection {
    ProcessConnection {
        pid,
        process_name: name.to_string(),
        local_addr: local.to_string(),
        remote_addr: remote.to_string(),
        state: state.to_string(),
    }
}

#[test]
fn capture_summary_text() {
    assert_eq!(
        capture_summary(60, "any", "", 42, "/tmp/spai_capture.pcap"),
        "📡 Network Capture Complete\n\nDuration: 60 seconds\nInterface: any\nFilter: none\nPackets captured: 42\nOutput file: /tmp/spai_capture.pcap\n"
    );
    assert!(capture_summary(5, "eth0", "port 53", 0, "x.pcap").contains("Filter: port 53\n"));
}

#[test]
fn connection_listings() {
    let cs = vec![
        conn(812, "sshd", "10.0.0.5:22", "10.0.0.9:50000", "ESTAB"),
        conn(90, "curl", "10.0.0.5:4000", "1.1.1.1:443", "SYN-SENT"),
    ];
    assert_eq!(
        connection_lines(&cs, 20),
        "  PID 812 (sshd): 10.0.0.5:22 → 10.0.0.9:50000 [ESTAB]\n  PID 90 (curl): 10.0.0.5:4000 → 1.1.1.1:443 [SYN-SENT]"
    );
    assert_eq!(connection_lines(&cs, 1), "  PID 812 (sshd): 10.0.0.5:22 → 10.0.0.9:50000 [ESTAB]");
    assert_eq!(
        correlation_lines(&cs, 15),
        "  PID 812 (sshd): 10.0.0.5:22 → 10.0.0.9:50000\n  PID 90 (curl): 10.0.0.5:4000 → 1.1.1.1:443\n"
    );
    assert_eq!(correlation_lines(&cs, 0), "");
}

#[test]
fn report_sections() {
    assert_eq!(ports_section(&vec![]), "\n✅ No known suspicious ports detected\n");
    assert_eq!(
        ports_section(&vec![4444, 6667]),
        "\n⚠️ SUSPICIOUS PORTS DETECTED:\n  🔴 Port 4444 (known malware/backdoor port)\n  🔴 Port 6667 (known malware/backdoor port)\n"
    );
    assert_eq!(
        talkers_section(&vec![entry("10.0.0.1", 7)]),
        "\n🗣️ Top Talkers (by packet count):\n  • 10.0.0.1: 7 packets\n"
    );
    assert_eq!(
        report_head(3),
        "🔍 Packet Analysis Report\n═══════════════════════════════════════\n\n📦 Total Packets: 3\n\n"
    );
}

#[test]
fn correlation_groups_by_process() {
    let header = "🔗 Process-Network Correlation\n═══════════════════════════════════════\n\n";
    assert_eq!(
        correlation_report(&vec![]),
        format!("{}No active network connections found.\n", header)
    );
    let mut cs = vec![conn(1, "a", "l0", "r0", "ESTAB"), conn(2, "b", "x", "y", "LISTEN")];
    for k in 1..7 {
        cs.push(conn(1, "a", &format!("l{}", k), &format!("r{}", k), "ESTAB"));
    }
    let expected = format!(
        "{}Found 8 active connections:\n\n📦 a (PID 1)\n   l0 → r0 [ESTAB]\n   l1 → r1 [ESTAB]\n   l2 → r2 [ESTAB]\n   l3 → r3 [ESTAB]\n   l4 → r4 [ESTAB]\n   ... and 2 more\n\n📦 b (PID 2)\n   x → y [LISTEN]\n\n",
        header
    );
    assert_eq!(correlation_report(&cs), expected);
}
