//! Analysis of captured network traffic.
//!
//! tshark prints the fields of each packet on a line of its own, separated by
//! `|`: source and destination address, the TCP and UDP ports, and the chain of
//! protocols (`eth:ethertype:ip:tcp`). The analysis counts packets by source
//! address and by protocol, and picks out ports that malware is known to use.
//! The connections that `ss` lists are read together with the process that
//! owns each of them.
use crate::text::{
    decimal, join, join_strings, push_decimal_u64, push_str,
    lemma_split_on_len, lines, lines_of, owned, parse_unsigned, parse_unsigned_spec, seqs_of,
    split_chars, split_on, str_eq, string_from_chars, to_chars, trim, trim_chars, words, words_of,
};
use crate::tally::{
    bump, bump_all, bump_count, counts_at_most, counts_of, lemma_bump_at_most, lemma_room_to_count,
    tally,
};
use vstd::prelude::*;

verus! {

// ------------------------------------------------------------------ packets

/// Ports that malware, backdoors and IRC command channels are known to use.
pub open spec fn is_suspicious_port(p: u16) -> bool {
    ||| p == 4444
    ||| p == 5555
    ||| p == 6666
    ||| p == 7777
    ||| p == 8888
    ||| p == 9999
    ||| p == 31337
    ||| p == 12345
    ||| p == 54321
    ||| p == 1337
    ||| p == 666
    ||| p == 6667
    ||| p == 6668
    ||| p == 6669
}

/// Whether `p` is one of the ports that malware is known to use.
pub fn suspicious_port(p: u16) -> (b: bool)
    ensures
        b == is_suspicious_port(p),
{
    p == 4444 || p == 5555 || p == 6666 || p == 7777 || p == 8888 || p == 9999 || p == 31337 || p
        == 12345 || p == 54321 || p == 1337 || p == 666 || p == 6667 || p == 6668 || p == 6669
}

/// The port a field names, when it parses as a `u16`.
pub open spec fn port_of(field: Seq<char>) -> Option<u16> {
    match parse_unsigned_spec(field, 65535) {
        Some(v) => Some(v as u16),
        None => None,
    }
}

/// `ports` after looking at each of `fields`: a suspicious port is appended
/// the first time it is seen.
pub open spec fn add_ports(ports: Seq<u16>, fields: Seq<Seq<char>>) -> Seq<u16>
    decreases fields.len(),
{
    if fields.len() == 0 {
        ports
    } else {
        let p = add_ports(ports, fields.drop_last());
        match port_of(fields.last()) {
            Some(q) => if is_suspicious_port(q) && !p.contains(q) {
                p.push(q)
            } else {
                p
            },
            None => p,
        }
    }
}

/// The fields of a packet line that hold ports: the third to the sixth.
pub open spec fn port_fields(parts: Seq<Seq<char>>) -> Seq<Seq<char>> {
    if parts.len() <= 2 {
        seq![]
    } else if parts.len() <= 6 {
        parts.subrange(2, parts.len() as int)
    } else {
        parts.subrange(2, 6)
    }
}

/// What the packet lines read so far have yielded.
pub struct TrafficTally {
    pub total: nat,
    pub protocols: Seq<(Seq<char>, nat)>,
    pub talkers: Seq<(Seq<char>, nat)>,
    pub ports: Seq<u16>,
}

/// The tally before any packet.
pub open spec fn empty_traffic() -> TrafficTally {
    TrafficTally { total: 0, protocols: seq![], talkers: seq![], ports: seq![] }
}

/// `m` after one more line of tshark's field output. A blank line is no
/// packet; otherwise the first field, when not empty, is the source address,
/// the third to sixth fields are ports, and the last field is the protocol
/// chain, split at `:`.
pub open spec fn packet_step(m: TrafficTally, line: Seq<char>) -> TrafficTally {
    if trim(line).len() == 0 {
        m
    } else {
        let parts = split_on(line, '|');
        TrafficTally {
            total: m.total + 1,
            talkers: if parts[0].len() > 0 {
                bump(m.talkers, parts[0])
            } else {
                m.talkers
            },
            ports: add_ports(m.ports, port_fields(parts)),
            protocols: bump_all(m.protocols, split_on(parts.last(), ':')),
        }
    }
}

/// The tally of the lines `ls`.
pub open spec fn traffic_tally(ls: Seq<Seq<char>>) -> TrafficTally
    decreases ls.len(),
{
    if ls.len() == 0 {
        empty_traffic()
    } else {
        packet_step(traffic_tally(ls.drop_last()), ls.last())
    }
}

/// The analysis of tshark's field output `stdout`.
pub open spec fn packet_analysis(stdout: Seq<char>) -> TrafficTally {
    traffic_tally(lines(stdout))
}

/// Only suspicious ports are listed, each at most once.
pub open spec fn ports_ok(ports: Seq<u16>) -> bool {
    &&& forall|i: int| 0 <= i < ports.len() ==> is_suspicious_port(#[trigger] ports[i])
    &&& forall|i: int, j: int| 0 <= i < j < ports.len() ==> ports[i] != ports[j]
}

proof fn lemma_add_ports_ok(ports: Seq<u16>, fields: Seq<Seq<char>>)
    requires
        ports_ok(ports),
    ensures
        ports_ok(add_ports(ports, fields)),
    decreases fields.len(),
{
    if fields.len() > 0 {
        lemma_add_ports_ok(ports, fields.drop_last());
    }
}

/// Every field that names one of the ports malware is known to use (4444,
/// 5555, 6666, 7777, 8888, 9999, 31337, 12345, 54321, 1337, 666, 6667, 6668,
/// 6669) puts that port on the list; ports already listed stay listed.
pub proof fn lemma_add_ports_finds(ports: Seq<u16>, fields: Seq<Seq<char>>)
    ensures
        forall|q: u16| ports.contains(q) ==> add_ports(ports, fields).contains(q),
        forall|i: int|
            0 <= i < fields.len() && (#[trigger] port_of(fields[i])) is Some ==> ({
                let q = port_of(fields[i])->0;
                (q == 4444 || q == 5555
                || q == 6666 || q == 7777 || q == 8888 || q == 9999 || q == 31337 || q == 12345
                || q == 54321 || q == 1337 || q == 666 || q == 6667 || q == 6668 || q == 6669) ==> add_ports(ports, fields).contains(q)
            }),
    decreases fields.len(),
{
    if fields.len() > 0 {
        let d = fields.drop_last();
        lemma_add_ports_finds(ports, d);
        let p = add_ports(ports, d);
        let r = add_ports(ports, fields);
        assert forall|x: u16| p.contains(x) implies r.contains(x) by {
            let k = choose|k: int| 0 <= k < p.len() && p[k] == x;
            assert(r[k] == p[k]);
        }
        assert forall|i: int|
            0 <= i < fields.len() && (#[trigger] port_of(fields[i])) is Some implies ({
                let q = port_of(fields[i])->0;
                (q == 4444 || q == 5555
                || q == 6666 || q == 7777 || q == 8888 || q == 9999 || q == 31337 || q == 12345
                || q == 54321 || q == 1337 || q == 666 || q == 6667 || q == 6668 || q == 6669) ==> r.contains(q)
            }) by {
            let q = port_of(fields[i])->0;
            if is_suspicious_port(q) {
                if i < d.len() {
                    assert(d[i] == fields[i]);
                    assert(port_of(d[i]) is Some);
                    assert(p.contains(q));
                } else if !p.contains(q) {
                    assert(fields.last() == fields[i]);
                    assert(r == p.push(q));
                    assert(r[p.len() as int] == q);
                }
            }
        }
    }
}

/// A packet line that is not blank counts one packet, and every port field
/// of it (the third to the sixth) that names a port malware is known to use
/// puts that port on the list.
pub proof fn lemma_packet_ports(m: TrafficTally, line: Seq<char>)
    ensures
        trim(line).len() > 0 ==> packet_step(m, line).total == m.total + 1,
        trim(line).len() == 0 ==> packet_step(m, line) == m,
        trim(line).len() > 0 ==> forall|i: int|
            0 <= i < port_fields(split_on(line, '|')).len() && (#[trigger] port_of(
                port_fields(split_on(line, '|'))[i],
            )) is Some ==> ({
                let q = port_of(port_fields(split_on(line, '|'))[i])->0;
                (q == 4444 || q == 5555
                || q == 6666 || q == 7777 || q == 8888 || q == 9999 || q == 31337 || q == 12345
                || q == 54321 || q == 1337 || q == 666 || q == 6667 || q == 6668 || q == 6669) ==> packet_step(m, line).ports.contains(q)
            }),
{
    if trim(line).len() > 0 {
        lemma_add_ports_finds(m.ports, port_fields(split_on(line, '|')));
    }
}

/// The suspicious ports an analysis lists are suspicious and distinct,
/// however many packet lines are read.
pub proof fn lemma_traffic_ports_ok(ls: Seq<Seq<char>>)
    ensures
        ports_ok(traffic_tally(ls).ports),
        traffic_tally(ls).total <= ls.len(),
    decreases ls.len(),
{
    if ls.len() > 0 {
        lemma_traffic_ports_ok(ls.drop_last());
        let m = traffic_tally(ls.drop_last());
        if trim(ls.last()).len() != 0 {
            lemma_add_ports_ok(m.ports, port_fields(split_on(ls.last(), '|')));
        }
    }
}

/// Packet counts by protocol and by source address, and the suspicious ports
/// seen, in the order first seen.
pub struct PacketAnalysis {
    pub total_packets: u64,
    pub protocols: Vec<(String, u64)>,
    pub ip_counts: Vec<(String, u64)>,
    pub suspicious_ports: Vec<u16>,
}

impl PacketAnalysis {
    pub open spec fn view(&self) -> TrafficTally {
        TrafficTally {
            total: self.total_packets as nat,
            protocols: counts_of(self.protocols@),
            talkers: counts_of(self.ip_counts@),
            ports: self.suspicious_ports@,
        }
    }
}

/// Each line and the char after it, summed.
pub open spec fn lines_weight(ls: Seq<Seq<char>>) -> nat
    decreases ls.len(),
{
    if ls.len() == 0 {
        0
    } else {
        ls[0].len() + 1 + lines_weight(ls.drop_first())
    }
}

proof fn lemma_lines_bounds(s: Seq<char>)
    ensures
        lines(s).len() <= s.len(),
        lines_weight(lines(s)) <= s.len() + 1,
    decreases s.len(),
{
    crate::text::lemma_index_of(s, '\n');
    let k = crate::text::index_of(s, '\n');
    if s.len() > 0 && k >= 0 {
        let rest = s.skip(k + 1);
        lemma_lines_bounds(rest);
        let first = crate::text::strip_cr(s.take(k));
        assert(lines(s) == seq![first] + lines(rest));
        assert((seq![first] + lines(rest)).drop_first() =~= lines(rest));
        assert(first.len() <= k);
        let x = lines(s);
        assert(x[0] == first);
        assert(lines_weight(x) == x[0].len() + 1 + lines_weight(x.drop_first()));
    } else if s.len() > 0 {
        assert(lines(s) == seq![s]);
        assert(seq![s].drop_first() =~= Seq::<Seq<char>>::empty());
        assert(lines_weight(Seq::<Seq<char>>::empty()) == 0);
        let x = lines(s);
        assert(lines_weight(x) == x[0].len() + 1 + lines_weight(x.drop_first()));
    } else {
        assert(lines(s) =~= Seq::<Seq<char>>::empty());
    }
}

proof fn lemma_split_on_pieces(s: Seq<char>, c: char)
    ensures
        forall|i: int| 0 <= i < split_on(s, c).len() ==> #[trigger] split_on(s, c)[i].len() <= s.len(),
    decreases s.len(),
{
    crate::text::lemma_index_of(s, c);
    let k = crate::text::index_of(s, c);
    if k >= 0 {
        lemma_split_on_pieces(s.skip(k + 1), c);
        let r = split_on(s.skip(k + 1), c);
        assert forall|i: int| 0 <= i < split_on(s, c).len() implies #[trigger] split_on(s, c)[i].len()
            <= s.len() by {
            if i > 0 {
                assert(split_on(s, c)[i] == r[i - 1]);
            }
        }
    }
}

/// Whether `p` is among `v`.
fn has_port(v: &Vec<u16>, p: u16) -> (b: bool)
    ensures
        b == v@.contains(p),
{
    let mut i: usize = 0;
    while i < v.len()
        invariant
            i <= v@.len(),
            forall|j: int| 0 <= j < i ==> v@[j] != p,
        decreases v@.len() - i,
    {
        if v[i] == p {
            assert(v@[i as int] == p);
            return true;
        }
        i = i + 1;
    }
    false
}

/// Looks at the port fields of one packet line.
fn scan_ports(ports: &mut Vec<u16>, parts: &Vec<Vec<char>>)
    ensures
        final(ports)@ == add_ports(old(ports)@, port_fields(seqs_of(parts@))),
{
    let ghost ps = seqs_of(parts@);
    let ghost fields = port_fields(ps);
    let end: usize = if parts.len() <= 6 {
        parts.len()
    } else {
        6
    };
    let mut i: usize = 2;
    if parts.len() <= 2 {
        assert(fields.take(0) =~= fields);
        return;
    }
    assert(fields.take(0) =~= Seq::<Seq<char>>::empty());
    while i < end
        invariant
            2 <= i <= end <= parts@.len(),
            end == (if parts@.len() <= 6 {
                parts@.len()
            } else {
                6
            }),
            ps == seqs_of(parts@),
            fields == port_fields(ps),
            fields.len() == end - 2,
            ports@ == add_ports(old(ports)@, fields.take(i - 2)),
        decreases end - i,
    {
        proof {
            assert(fields.take(i - 1).drop_last() =~= fields.take(i - 2));
            assert(fields.take(i - 1).last() == parts@[i as int]@);
        }
        match parse_unsigned(parts[i].as_slice(), 65535) {
            Some(v) => {
                let q = v as u16;
                if suspicious_port(q) && !has_port(ports, q) {
                    ports.push(q);
                }
            },
            None => {},
        }
        i = i + 1;
    }
    assert(fields.take(end - 2) =~= fields);
}

/// Counts the protocols of one packet's protocol chain.
fn count_protocols(protocols: &mut Vec<(String, u64)>, chain: &Vec<char>, Ghost(n): Ghost<nat>)
    requires
        counts_at_most(counts_of(old(protocols)@), n),
        n + chain@.len() + 1 < u64::MAX,
    ensures
        counts_of(final(protocols)@) == bump_all(counts_of(old(protocols)@), split_on(chain@, ':')),
        counts_at_most(counts_of(final(protocols)@), n + chain@.len() + 1),
{
    let pieces = split_chars(chain.as_slice(), ':');
    let ghost ks = seqs_of(pieces@);
    let ghost t0 = counts_of(protocols@);
    proof {
        lemma_split_on_len(chain@, ':');
        assert(ks.take(0) =~= Seq::<Seq<char>>::empty());
    }
    let mut j: usize = 0;
    while j < pieces.len()
        invariant
            j <= pieces@.len(),
            ks == seqs_of(pieces@),
            ks == split_on(chain@, ':'),
            ks.len() <= chain@.len() + 1,
            n + chain@.len() + 1 < u64::MAX,
            counts_of(protocols@) == bump_all(t0, ks.take(j as int)),
            counts_at_most(counts_of(protocols@), (n + j) as nat),
        decreases pieces@.len() - j,
    {
        let key = string_from_chars(pieces[j].as_slice());
        proof {
            lemma_room_to_count(protocols@, (n + j) as nat);
            lemma_bump_at_most(counts_of(protocols@), key@, (n + j) as nat);
            assert(ks.take(j + 1).drop_last() =~= ks.take(j as int));
            assert(ks.take(j + 1).last() == key@);
        }
        bump_count(protocols, key.as_str());
        j = j + 1;
    }
    proof {
        assert(ks.take(pieces@.len() as int) =~= ks);
        assert forall|i: int| 0 <= i < counts_of(protocols@).len() implies #[trigger] counts_of(
            protocols@,
        )[i].1 <= n + chain@.len() + 1 by {}
    }
}

/// Reads one line of tshark's field output into the tallies.
fn read_packet_line(
    total: &mut u64,
    protocols: &mut Vec<(String, u64)>,
    ips: &mut Vec<(String, u64)>,
    ports: &mut Vec<u16>,
    line: &Vec<char>,
    Ghost(n): Ghost<nat>,
)
    requires
        *old(total) < u64::MAX,
        counts_at_most(counts_of(old(ips)@), *old(total) as nat),
        counts_at_most(counts_of(old(protocols)@), n),
        n + line@.len() + 1 < u64::MAX,
    ensures
        (TrafficTally {
            total: *final(total) as nat,
            protocols: counts_of(final(protocols)@),
            talkers: counts_of(final(ips)@),
            ports: final(ports)@,
        }) == packet_step(
            TrafficTally {
                total: *old(total) as nat,
                protocols: counts_of(old(protocols)@),
                talkers: counts_of(old(ips)@),
                ports: old(ports)@,
            },
            line@,
        ),
        *final(total) <= *old(total) + 1,
        counts_at_most(counts_of(final(ips)@), *final(total) as nat),
        counts_at_most(counts_of(final(protocols)@), n + line@.len() + 1),
{
    let t = trim_chars(line.as_slice());
    if t.len() == 0 {
        assert forall|i: int| 0 <= i < counts_of(protocols@).len() implies #[trigger] counts_of(
            protocols@,
        )[i].1 <= n + line@.len() + 1 by {}
        return;
    }
    let parts = split_chars(line.as_slice(), '|');
    let ghost ps = seqs_of(parts@);
    proof {
        lemma_split_on_len(line@, '|');
        lemma_split_on_pieces(line@, '|');
        assert(ps[ps.len() - 1].len() <= line@.len());
    }
    if parts[0].len() > 0 {
        let key = string_from_chars(parts[0].as_slice());
        proof {
            lemma_room_to_count(ips@, *total as nat);
            lemma_bump_at_most(counts_of(ips@), key@, *total as nat);
        }
        bump_count(ips, key.as_str());
    } else {
        assert forall|i: int| 0 <= i < counts_of(ips@).len() implies #[trigger] counts_of(
            ips@,
        )[i].1 <= *total + 1 by {}
    }
    scan_ports(ports, &parts);
    let last = parts.len() - 1;
    count_protocols(protocols, &parts[last], Ghost(n));
    assert forall|i: int| 0 <= i < counts_of(protocols@).len() implies #[trigger] counts_of(
        protocols@,
    )[i].1 <= n + line@.len() + 1 by {}
    *total = *total + 1;
}

/// Tallies tshark's field output (`-T fields` with source and destination
/// address, TCP and UDP ports and the protocol chain, separated by `|`): the
/// packets, the packets per protocol and per source address, and the
/// suspicious ports seen.
pub fn analyze_packet_fields(stdout: &str) -> (r: PacketAnalysis)
    requires
        stdout@.len() <= isize::MAX,
    ensures
        r.view() == packet_analysis(stdout@),
{
    let chars = to_chars(stdout);
    let ls = lines_of(chars.as_slice());
    let ghost all = seqs_of(ls@);
    let mut total: u64 = 0;
    let mut protocols: Vec<(String, u64)> = Vec::new();
    let mut ips: Vec<(String, u64)> = Vec::new();
    let mut ports: Vec<u16> = Vec::new();
    let ghost mut n: nat = 0;
    proof {
        lemma_lines_bounds(stdout@);
        assert(all.take(0) =~= Seq::<Seq<char>>::empty());
        assert(all.skip(0) =~= all);
        assert(counts_of(protocols@) =~= Seq::<(Seq<char>, nat)>::empty());
        assert(counts_of(ips@) =~= Seq::<(Seq<char>, nat)>::empty());
    }
    let mut i: usize = 0;
    while i < ls.len()
        invariant
            i <= ls@.len(),
            all == seqs_of(ls@),
            all == lines(stdout@),
            all.len() <= stdout@.len(),
            stdout@.len() <= isize::MAX,
            lines_weight(all) <= stdout@.len() + 1,
            n + lines_weight(all.skip(i as int)) <= lines_weight(all),
            total <= i,
            counts_at_most(counts_of(ips@), total as nat),
            counts_at_most(counts_of(protocols@), n),
            (TrafficTally {
                total: total as nat,
                protocols: counts_of(protocols@),
                talkers: counts_of(ips@),
                ports: ports@,
            }) == traffic_tally(all.take(i as int)),
        decreases ls@.len() - i,
    {
        proof {
            assert(all.skip(i as int).drop_first() =~= all.skip(i + 1));
            assert(all.skip(i as int)[0] == ls@[i as int]@);
            assert(all.take(i + 1).drop_last() =~= all.take(i as int));
            assert(all.take(i + 1).last() == ls@[i as int]@);
        }
        read_packet_line(&mut total, &mut protocols, &mut ips, &mut ports, &ls[i], Ghost(n));
        proof {
            n = n + ls@[i as int]@.len() + 1;
        }
        i = i + 1;
    }
    proof {
        assert(all.take(ls@.len() as int) =~= all);
    }
    PacketAnalysis { total_packets: total, protocols, ip_counts: ips, suspicious_ports: ports }
}

// ------------------------------------------------------------ regex captures

/// The text of the first capture group in the leftmost match of `pattern` in
/// `text`, as the `regex` crate finds it; `None` when the pattern is not a
/// valid expression, does not match, or its first group takes no part in the
/// match.
pub uninterp spec fn regex_first_capture(pattern: Seq<char>, text: Seq<char>) -> Option<Seq<char>>;

/// Compiles `pattern` with `regex::Regex::new`, takes `captures` on `text`
/// and the text of group 1. What comes out is named by
/// `regex_first_capture`, a function of the pattern and the text alone.
#[verifier::external_body]
pub(crate) fn first_capture(pattern: &str, text: &str) -> (r: Option<String>)
    ensures
        match r {
            Some(c) => regex_first_capture(pattern@, text@) == Some(c@),
            None => regex_first_capture(pattern@, text@) is None,
        },
{
    match regex::Regex::new(pattern) {
        Ok(re) => match re.captures(text) {
            Some(caps) => match caps.get(1) {
                Some(m) => Some(m.as_str().to_string()),
                None => None,
            },
            None => None,
        },
        Err(_) => None,
    }
}

/// The view of an optional string.
pub open spec fn opt_text(o: Option<&str>) -> Option<Seq<char>> {
    match o {
        Some(s) => Some(s@),
        None => None,
    }
}

/// The number a capture holds: its value when it parses as an unsigned
/// integer no larger than `max`, else zero.
pub open spec fn captured_number(c: Option<Seq<char>>, max: u64) -> u64 {
    match c {
        Some(t) => match parse_unsigned_spec(t, max) {
            Some(v) => v,
            None => 0,
        },
        None => 0,
    }
}

pub(crate) fn captured_number_exec(c: Option<&str>, max: u64) -> (r: u64)
    ensures
        r == captured_number(opt_text(c), max),
{
    match c {
        Some(t) => {
            let chars = to_chars(t);
            match parse_unsigned(chars.as_slice(), max) {
                Some(v) => v,
                None => 0,
            }
        },
        None => 0,
    }
}

// -------------------------------------------------------------- packet count

/// Where tshark reports how many packets it captured.
pub open spec fn packet_count_pattern() -> Seq<char> {
    "(\\d+)\\s+packets?\\s+captured"@
}

/// The packet count that a capture of `packet_count_pattern` gives: the
/// number when it parses as a `u64`, else zero.
pub fn packet_count_from_capture(capture: Option<&str>) -> (r: u64)
    ensures
        r == captured_number(opt_text(capture), u64::MAX),
{
    captured_number_exec(capture, u64::MAX)
}

/// The number of packets tshark reports in `stderr` as captured ("N packets
/// captured"), or zero when it reports none.
pub fn extract_packet_count(stderr: &str) -> (r: u64)
    ensures
        r == captured_number(regex_first_capture(packet_count_pattern(), stderr@), u64::MAX),
{
    let cap = first_capture("(\\d+)\\s+packets?\\s+captured", stderr);
    match cap {
        Some(c) => packet_count_from_capture(Some(c.as_str())),
        None => packet_count_from_capture(None),
    }
}

// --------------------------------------------------------------- connections

/// A network connection and the process that owns it.
pub struct ProcessConnection {
    pub pid: u32,
    pub process_name: String,
    pub local_addr: String,
    pub remote_addr: String,
    pub state: String,
}

/// A connection as plain values: pid, process name, local address, remote
/// address and state.
pub struct ConnectionView {
    pub pid: u32,
    pub process_name: Seq<char>,
    pub local_addr: Seq<char>,
    pub remote_addr: Seq<char>,
    pub state: Seq<char>,
}

impl ProcessConnection {
    pub open spec fn view(&self) -> ConnectionView {
        ConnectionView {
            pid: self.pid,
            process_name: self.process_name@,
            local_addr: self.local_addr@,
            remote_addr: self.remote_addr@,
            state: self.state@,
        }
    }
}

/// The views of a sequence of connections.
pub open spec fn connection_views(v: Seq<ProcessConnection>) -> Seq<ConnectionView> {
    v.map_values(|c: ProcessConnection| c.view())
}

/// Where `ss` names the pid in its process column.
pub open spec fn pid_pattern() -> Seq<char> {
    "pid=(\\d+)"@
}

/// Where `ss` names the process in its process column.
pub open spec fn process_name_pattern() -> Seq<char> {
    "\\(\"([^\"]+)\""@
}

/// The connection an `ss -tunap` line with fields `parts` describes, given
/// what the pid and name patterns captured in its process column: it needs at
/// least six fields and a pid above zero.
pub open spec fn connection_of(
    parts: Seq<Seq<char>>,
    pid_capture: Option<Seq<char>>,
    name_capture: Option<Seq<char>>,
) -> Option<ConnectionView> {
    let pid = captured_number(pid_capture, 0xffff_ffff);
    if parts.len() < 6 || pid == 0 {
        None
    } else {
        Some(
            ConnectionView {
                pid: pid as u32,
                process_name: match name_capture {
                    Some(n) => n,
                    None => "unknown"@,
                },
                local_addr: parts[4],
                remote_addr: parts[5],
                state: parts[1],
            },
        )
    }
}

/// The connection an `ss -tunap` line describes.
pub open spec fn ss_connection(line: Seq<char>) -> Option<ConnectionView> {
    let parts = words(line);
    if parts.len() > 6 {
        connection_of(
            parts,
            regex_first_capture(pid_pattern(), parts[6]),
            regex_first_capture(process_name_pattern(), parts[6]),
        )
    } else {
        connection_of(parts, None, None)
    }
}

/// The connections the lines `ls` describe, in order.
pub open spec fn ss_connections(ls: Seq<Seq<char>>) -> Seq<ConnectionView>
    decreases ls.len(),
{
    if ls.len() == 0 {
        seq![]
    } else {
        let prev = ss_connections(ls.drop_last());
        match ss_connection(ls.last()) {
            Some(c) => prev.push(c),
            None => prev,
        }
    }
}

/// The connections `ss -tunap` lists in `stdout`, below its header line.
pub open spec fn listed_connections(stdout: Seq<char>) -> Seq<ConnectionView> {
    let ls = lines(stdout);
    if ls.len() == 0 {
        seq![]
    } else {
        ss_connections(ls.drop_first())
    }
}

/// The connection an `ss -tunap` line with the fields `parts` describes,
/// given the pid and process name captured from its process column.
pub fn connection_from_fields(
    parts: &Vec<String>,
    pid_capture: Option<&str>,
    name_capture: Option<&str>,
) -> (r: Option<ProcessConnection>)
    ensures
        match r {
            Some(c) => connection_of(
                parts@.map_values(|s: String| s@),
                opt_text(pid_capture),
                opt_text(name_capture),
            ) == Some(c.view()),
            None => connection_of(
                parts@.map_values(|s: String| s@),
                opt_text(pid_capture),
                opt_text(name_capture),
            ) is None,
        },
{
    let pid = captured_number_exec(pid_capture, 0xffff_ffff);
    if parts.len() < 6 || pid == 0 {
        return None;
    }
    let process_name = match name_capture {
        Some(n) => owned(n),
        None => owned("unknown"),
    };
    Some(
        ProcessConnection {
            pid: pid as u32,
            process_name,
            local_addr: owned(parts[4].as_str()),
            remote_addr: owned(parts[5].as_str()),
            state: owned(parts[1].as_str()),
        },
    )
}

/// The connections, with their processes, that `ss -tunap` lists in
/// `stdout`; lines without a pid are left out.
pub fn parse_connections(stdout: &str) -> (r: Vec<ProcessConnection>)
    ensures
        connection_views(r@) == listed_connections(stdout@),
{
    let chars = to_chars(stdout);
    let ls = lines_of(chars.as_slice());
    let ghost all = seqs_of(ls@);
    let mut r: Vec<ProcessConnection> = Vec::new();
    if ls.len() == 0 {
        proof {
            assert(connection_views(r@) =~= Seq::<ConnectionView>::empty());
        }
        return r;
    }
    let ghost body = all.drop_first();
    let mut i: usize = 1;
    proof {
        assert(body.take(0) =~= Seq::<Seq<char>>::empty());
        assert(connection_views(r@) =~= Seq::<ConnectionView>::empty());
    }
    while i < ls.len()
        invariant
            1 <= i <= ls@.len(),
            all == seqs_of(ls@),
            body == all.drop_first(),
            connection_views(r@) == ss_connections(body.take(i - 1)),
        decreases ls@.len() - i,
    {
        let ws = words_of(ls[i].as_slice());
        let mut fields: Vec<String> = Vec::new();
        let mut j: usize = 0;
        while j < ws.len()
            invariant
                j <= ws@.len(),
                fields@.len() == j,
                forall|k: int| 0 <= k < j ==> #[trigger] fields@[k]@ == ws@[k]@,
            decreases ws@.len() - j,
        {
            fields.push(string_from_chars(ws[j].as_slice()));
            j = j + 1;
        }
        let ghost parts = seqs_of(ws@);
        proof {
            assert(fields@.map_values(|s: String| s@) =~= parts);
            assert(parts == words(ls@[i as int]@));
        }
        let found = if fields.len() > 6 {
            let pid_cap = first_capture("pid=(\\d+)", fields[6].as_str());
            let name_cap = first_capture("\\(\"([^\"]+)\"", fields[6].as_str());
            let p = match &pid_cap {
                Some(c) => Some(c.as_str()),
                None => None,
            };
            let n = match &name_cap {
                Some(c) => Some(c.as_str()),
                None => None,
            };
            connection_from_fields(&fields, p, n)
        } else {
            connection_from_fields(&fields, None, None)
        };
        proof {
            assert(body.take(i as int).drop_last() =~= body.take(i - 1));
            assert(body.take(i as int).last() == ls@[i as int]@);
        }
        let ghost before = connection_views(r@);
        match found {
            Some(c) => {
                r.push(c);
                proof {
                    assert(connection_views(r@) =~= before.push(c.view()));
                }
            },
            None => {},
        }
        i = i + 1;
    }
    proof {
        assert(body.take(ls@.len() - 1) =~= body);
    }
    r
}

// ------------------------------------------------------------------- reports

/// The summary of a finished capture.
pub open spec fn capture_summary_text(
    duration: u64,
    interface: Seq<char>,
    filter: Seq<char>,
    packets: u64,
    output_file: Seq<char>,
) -> Seq<char> {
    "📡 Network Capture Complete\n\nDuration: "@ + decimal(duration as nat) + " seconds\nInterface: "@
        + interface + "\nFilter: "@ + (if filter.len() == 0 {
        "none"@
    } else {
        filter
    }) + "\nPackets captured: "@ + decimal(packets as nat) + "\nOutput file: "@ + output_file
        + "\n"@
}

/// The summary of a finished capture: how long, on which interface, with
/// which filter ("none" when empty), how many packets, and into which file.
pub fn capture_summary(
    duration: u64,
    interface: &str,
    filter: &str,
    packets: u64,
    output_file: &str,
) -> (r: String)
    ensures
        r@ == capture_summary_text(duration, interface@, filter@, packets, output_file@),
{
    let mut r = owned("📡 Network Capture Complete\n\nDuration: ");
    push_decimal_u64(&mut r, duration);
    push_str(&mut r, " seconds\nInterface: ");
    push_str(&mut r, interface);
    push_str(&mut r, "\nFilter: ");
    if to_chars(filter).len() == 0 {
        push_str(&mut r, "none");
    } else {
        push_str(&mut r, filter);
    }
    push_str(&mut r, "\nPackets captured: ");
    push_decimal_u64(&mut r, packets);
    push_str(&mut r, "\nOutput file: ");
    push_str(&mut r, output_file);
    push_str(&mut r, "\n");
    r
}

/// `  PID p (name): local → remote`.
pub open spec fn connection_head(c: ConnectionView) -> Seq<char> {
    "  PID "@ + decimal(c.pid as nat) + " ("@ + c.process_name + "): "@ + c.local_addr + " → "@
        + c.remote_addr
}

fn push_connection_head(r: &mut String, c: &ProcessConnection)
    ensures
        final(r)@ == old(r)@ + connection_head(c.view()),
{
    push_str(r, "  PID ");
    push_decimal_u64(r, c.pid as u64);
    push_str(r, " (");
    push_str(r, c.process_name.as_str());
    push_str(r, "): ");
    push_str(r, c.local_addr.as_str());
    push_str(r, " → ");
    push_str(r, c.remote_addr.as_str());
    proof {
        assert(final(r)@ =~= old(r)@ + connection_head(c.view()));
    }
}

/// The line of a connection with its state, as the capture summary lists it.
pub open spec fn connection_line(c: ConnectionView) -> Seq<char> {
    connection_head(c) + " ["@ + c.state + "]"@
}

/// The first `limit` connections, one line each with its state, joined with
/// newlines.
pub fn connection_lines(conns: &Vec<ProcessConnection>, limit: usize) -> (r: String)
    ensures
        r@ == join(
            connection_views(conns@).take(
                if limit <= conns@.len() {
                    limit as int
                } else {
                    conns@.len() as int
                },
            ).map_values(|c: ConnectionView| connection_line(c)),
            "\n"@,
        ),
{
    let end: usize = if limit <= conns.len() {
        limit
    } else {
        conns.len()
    };
    let mut lines: Vec<String> = Vec::new();
    let mut i: usize = 0;
    while i < end
        invariant
            i <= end <= conns@.len(),
            lines@.len() == i,
            forall|k: int| 0 <= k < i ==> #[trigger] lines@[k]@ == connection_line(conns@[k].view()),
        decreases end - i,
    {
        let mut l = String::new();
        push_connection_head(&mut l, &conns[i]);
        push_str(&mut l, " [");
        push_str(&mut l, conns[i].state.as_str());
        push_str(&mut l, "]");
        proof {
            assert(l@ =~= connection_line(conns@[i as int].view()));
        }
        lines.push(l);
        i = i + 1;
    }
    proof {
        assert(lines@.map_values(|p: String| p@) =~= connection_views(conns@).take(end as int).map_values(
            |c: ConnectionView| connection_line(c),
        ));
    }
    join_strings(&lines, "\n")
}

/// The lines of the first `limit` connections, without their state, each
/// ending in a newline.
pub open spec fn correlation_text(cs: Seq<ConnectionView>) -> Seq<char>
    decreases cs.len(),
{
    if cs.len() == 0 {
        seq![]
    } else {
        correlation_text(cs.drop_last()) + connection_head(cs.last()) + "\n"@
    }
}

/// The first `limit` connections, one line each (pid, process and addresses),
/// each line ending in a newline.
pub fn correlation_lines(conns: &Vec<ProcessConnection>, limit: usize) -> (r: String)
    ensures
        r@ == correlation_text(
            connection_views(conns@).take(
                if limit <= conns@.len() {
                    limit as int
                } else {
                    conns@.len() as int
                },
            ),
        ),
{
    let end: usize = if limit <= conns.len() {
        limit
    } else {
        conns.len()
    };
    let ghost cs = connection_views(conns@);
    let mut r = String::new();
    let mut i: usize = 0;
    proof {
        assert(r@ =~= correlation_text(cs.take(0)));
    }
    while i < end
        invariant
            i <= end <= conns@.len(),
            cs == connection_views(conns@),
            r@ == correlation_text(cs.take(i as int)),
        decreases end - i,
    {
        proof {
            assert(cs.take(i + 1).drop_last() =~= cs.take(i as int));
        }
        push_connection_head(&mut r, &conns[i]);
        push_str(&mut r, "\n");
        i = i + 1;
    }
    r
}

/// The lines naming each suspicious port.
pub open spec fn port_lines(ports: Seq<u16>) -> Seq<char>
    decreases ports.len(),
{
    if ports.len() == 0 {
        seq![]
    } else {
        port_lines(ports.drop_last()) + "  🔴 Port "@ + decimal(ports.last() as nat)
            + " (known malware/backdoor port)\n"@
    }
}

/// The part of the analysis report on suspicious ports.
pub open spec fn ports_section_text(ports: Seq<u16>) -> Seq<char> {
    if ports.len() == 0 {
        "\n✅ No known suspicious ports detected\n"@
    } else {
        "\n⚠️ SUSPICIOUS PORTS DETECTED:\n"@ + port_lines(ports)
    }
}

/// The part of the analysis report on suspicious ports: one line per port,
/// or the all-clear when there is none.
pub fn ports_section(ports: &Vec<u16>) -> (r: String)
    ensures
        r@ == ports_section_text(ports@),
{
    if ports.len() == 0 {
        return owned("\n✅ No known suspicious ports detected\n");
    }
    let mut r = owned("\n⚠️ SUSPICIOUS PORTS DETECTED:\n");
    let ghost head = r@;
    let mut i: usize = 0;
    proof {
        assert(r@ =~= head + port_lines(ports@.take(0)));
    }
    while i < ports.len()
        invariant
            i <= ports@.len(),
            r@ == head + port_lines(ports@.take(i as int)),
        decreases ports@.len() - i,
    {
        proof {
            assert(ports@.take(i + 1).drop_last() =~= ports@.take(i as int));
        }
        push_str(&mut r, "  🔴 Port ");
        push_decimal_u64(&mut r, ports[i] as u64);
        push_str(&mut r, " (known malware/backdoor port)\n");
        proof {
            assert(r@ =~= head + port_lines(ports@.take(i + 1)));
        }
        i = i + 1;
    }
    proof {
        assert(ports@.take(ports@.len() as int) =~= ports@);
    }
    r
}

/// One line per talker: its address and packet count.
pub open spec fn talker_lines(t: Seq<(Seq<char>, nat)>) -> Seq<char>
    decreases t.len(),
{
    if t.len() == 0 {
        seq![]
    } else {
        talker_lines(t.drop_last()) + "  • "@ + t.last().0 + ": "@ + decimal(t.last().1) + " packets\n"@
    }
}

/// The part of the analysis report on the top talkers.
pub fn talkers_section(top: &Vec<(String, u64)>) -> (r: String)
    ensures
        r@ == "\n🗣️ Top Talkers (by packet count):\n"@ + talker_lines(counts_of(top@)),
{
    let mut r = owned("\n🗣️ Top Talkers (by packet count):\n");
    let ghost head = r@;
    let ghost t = counts_of(top@);
    let mut i: usize = 0;
    proof {
        assert(r@ =~= head + talker_lines(t.take(0)));
    }
    while i < top.len()
        invariant
            i <= top@.len(),
            t == counts_of(top@),
            r@ == head + talker_lines(t.take(i as int)),
        decreases top@.len() - i,
    {
        proof {
            assert(t.take(i + 1).drop_last() =~= t.take(i as int));
        }
        push_str(&mut r, "  • ");
        push_str(&mut r, top[i].0.as_str());
        push_str(&mut r, ": ");
        push_decimal_u64(&mut r, top[i].1);
        push_str(&mut r, " packets\n");
        proof {
            assert(r@ =~= head + talker_lines(t.take(i + 1)));
        }
        i = i + 1;
    }
    proof {
        assert(t.take(top@.len() as int) =~= t);
    }
    r
}

/// The head of the analysis report, with the packet total.
pub fn report_head(total: u64) -> (r: String)
    ensures
        r@ == "🔍 Packet Analysis Report\n═══════════════════════════════════════\n\n📦 Total Packets: "@
            + decimal(total as nat) + "\n\n"@,
{
    let mut r = owned(
        "🔍 Packet Analysis Report\n═══════════════════════════════════════\n\n📦 Total Packets: ",
    );
    push_decimal_u64(&mut r, total);
    push_str(&mut r, "\n\n");
    r
}

// --------------------------------------------------- process correlation

/// The name under which a connection's process is listed: `name (PID p)`.
pub open spec fn process_key(c: ConnectionView) -> Seq<char> {
    c.process_name + " (PID "@ + decimal(c.pid as nat) + ")"@
}

fn process_key_exec(c: &ProcessConnection) -> (r: String)
    ensures
        r@ == process_key(c.view()),
{
    let mut r = owned(c.process_name.as_str());
    push_str(&mut r, " (PID ");
    push_decimal_u64(&mut r, c.pid as u64);
    push_str(&mut r, ")");
    r
}

/// The process names of `cs`, in order.
pub open spec fn process_keys(cs: Seq<ConnectionView>) -> Seq<Seq<char>> {
    cs.map_values(|c: ConnectionView| process_key(c))
}

/// The connections of `cs` whose process is listed as `k`, in order.
pub open spec fn members(cs: Seq<ConnectionView>, k: Seq<char>) -> Seq<ConnectionView>
    decreases cs.len(),
{
    if cs.len() == 0 {
        seq![]
    } else if process_key(cs.last()) == k {
        members(cs.drop_last(), k).push(cs.last())
    } else {
        members(cs.drop_last(), k)
    }
}

/// A connection under its process: addresses and state.
pub open spec fn member_line(c: ConnectionView) -> Seq<char> {
    "   "@ + c.local_addr + " → "@ + c.remote_addr + " ["@ + c.state + "]\n"@
}

/// The lines of the connections `cs`.
pub open spec fn member_lines(cs: Seq<ConnectionView>) -> Seq<char>
    decreases cs.len(),
{
    if cs.len() == 0 {
        seq![]
    } else {
        member_lines(cs.drop_last()) + member_line(cs.last())
    }
}

/// At most five connections of a process, then how many more there are.
pub open spec fn group_block(k: Seq<char>, ms: Seq<ConnectionView>) -> Seq<char> {
    "📦 "@ + k + "\n"@ + member_lines(ms.take(if ms.len() <= 5 { ms.len() as int } else { 5 })) + (if ms.len()
        > 5 {
        "   ... and "@ + decimal((ms.len() - 5) as nat) + " more\n"@
    } else {
        seq![]
    }) + "\n"@
}

/// The blocks of the processes in `groups`, in order.
pub open spec fn groups_text(cs: Seq<ConnectionView>, groups: Seq<(Seq<char>, nat)>) -> Seq<char>
    decreases groups.len(),
{
    if groups.len() == 0 {
        seq![]
    } else {
        groups_text(cs, groups.drop_last()) + group_block(groups.last().0, members(cs, groups.last().0))
    }
}

/// The correlation of connections with processes: the number of connections
/// and, for each process in the order first seen, its connections.
pub open spec fn correlation_report_text(cs: Seq<ConnectionView>) -> Seq<char> {
    "🔗 Process-Network Correlation\n═══════════════════════════════════════\n\n"@ + if cs.len() == 0 {
        "No active network connections found.\n"@
    } else {
        "Found "@ + decimal(cs.len()) + " active connections:\n\n"@ + groups_text(
            cs,
            tally(process_keys(cs)),
        )
    }
}

/// The processes of `conns`, in the order first seen, with how many
/// connections each has.
fn process_tally(conns: &Vec<ProcessConnection>) -> (r: Vec<(String, u64)>)
    ensures
        counts_of(r@) == tally(process_keys(connection_views(conns@))),
{
    let ghost ks = process_keys(connection_views(conns@));
    let mut t: Vec<(String, u64)> = Vec::new();
    let mut j: usize = 0;
    proof {
        assert(counts_of(t@) =~= Seq::<(Seq<char>, nat)>::empty());
        assert(ks.take(0) =~= Seq::<Seq<char>>::empty());
    }
    while j < conns.len()
        invariant
            j <= conns@.len(),
            ks == process_keys(connection_views(conns@)),
            counts_of(t@) == bump_all(seq![], ks.take(j as int)),
            counts_at_most(counts_of(t@), j as nat),
        decreases conns@.len() - j,
    {
        let key = process_key_exec(&conns[j]);
        proof {
            lemma_room_to_count(t@, j as nat);
            lemma_bump_at_most(counts_of(t@), key@, j as nat);
            assert(ks.take(j + 1).drop_last() =~= ks.take(j as int));
            assert(ks.take(j + 1).last() == key@);
        }
        bump_count(&mut t, key.as_str());
        j = j + 1;
    }
    proof {
        assert(ks.take(conns@.len() as int) =~= ks);
    }
    t
}

/// The block of the process listed as `key`.
fn group_block_exec(conns: &Vec<ProcessConnection>, key: &str) -> (r: String)
    ensures
        r@ == group_block(key@, members(connection_views(conns@), key@)),
{
    let ghost cs = connection_views(conns@);
    let mut shown = String::new();
    let mut n: usize = 0;
    let mut j: usize = 0;
    proof {
        assert(cs.take(0) =~= Seq::<ConnectionView>::empty());
        assert(shown@ =~= member_lines(members(cs.take(0), key@).take(0)));
    }
    while j < conns.len()
        invariant
            j <= conns@.len(),
            cs == connection_views(conns@),
            n == members(cs.take(j as int), key@).len(),
            n <= j,
            shown@ == member_lines(
                members(cs.take(j as int), key@).take(
                    if n <= 5 {
                        n as int
                    } else {
                        5
                    },
                ),
            ),
        decreases conns@.len() - j,
    {
        let k = process_key_exec(&conns[j]);
        let ghost before = members(cs.take(j as int), key@);
        proof {
            assert(cs.take(j + 1).drop_last() =~= cs.take(j as int));
            assert(cs.take(j + 1).last() == conns@[j as int].view());
        }
        if str_eq(k.as_str(), key) {
            let ghost now = members(cs.take(j + 1), key@);
            assert(now == before.push(conns@[j as int].view()));
            if n < 5 {
                push_str(&mut shown, "   ");
                push_str(&mut shown, conns[j].local_addr.as_str());
                push_str(&mut shown, " → ");
                push_str(&mut shown, conns[j].remote_addr.as_str());
                push_str(&mut shown, " [");
                push_str(&mut shown, conns[j].state.as_str());
                push_str(&mut shown, "]\n");
                proof {
                    assert(now.take(n + 1).drop_last() =~= before.take(n as int));
                    assert(shown@ =~= member_lines(now.take(n + 1)));
                }
            } else {
                proof {
                    assert(now.take(5) =~= before.take(5));
                }
            }
            n = n + 1;
        }
        j = j + 1;
    }
    proof {
        assert(cs.take(conns@.len() as int) =~= cs);
    }
    let mut r = owned("📦 ");
    push_str(&mut r, key);
    push_str(&mut r, "\n");
    push_str(&mut r, shown.as_str());
    if n > 5 {
        push_str(&mut r, "   ... and ");
        push_decimal_u64(&mut r, (n - 5) as u64);
        push_str(&mut r, " more\n");
    }
    push_str(&mut r, "\n");
    proof {
        assert(r@ =~= group_block(key@, members(cs, key@)));
    }
    r
}

/// The correlation of connections with their processes: how many there are
/// and, for each process in the order first seen, up to five of its
/// connections and how many more it has.
pub fn correlation_report(conns: &Vec<ProcessConnection>) -> (r: String)
    ensures
        r@ == correlation_report_text(connection_views(conns@)),
{
    let mut r = owned("🔗 Process-Network Correlation\n═══════════════════════════════════════\n\n");
    let ghost head = r@;
    let ghost cs = connection_views(conns@);
    if conns.len() == 0 {
        push_str(&mut r, "No active network connections found.\n");
        return r;
    }
    push_str(&mut r, "Found ");
    push_decimal_u64(&mut r, conns.len() as u64);
    push_str(&mut r, " active connections:\n\n");
    let ghost mid = r@;
    let groups = process_tally(conns);
    let ghost g = counts_of(groups@);
    let mut i: usize = 0;
    proof {
        assert(r@ =~= mid + groups_text(cs, g.take(0)));
    }
    while i < groups.len()
        invariant
            i <= groups@.len(),
            g == counts_of(groups@),
            cs == connection_views(conns@),
            r@ == mid + groups_text(cs, g.take(i as int)),
        decreases groups@.len() - i,
    {
        proof {
            assert(g.take(i + 1).drop_last() =~= g.take(i as int));
            assert(g.take(i + 1).last().0 == groups@[i as int].0@);
        }
        let block = group_block_exec(conns, groups[i].0.as_str());
        push_str(&mut r, block.as_str());
        proof {
            assert(r@ =~= mid + groups_text(cs, g.take(i + 1)));
        }
        i = i + 1;
    }
    proof {
        assert(g.take(groups@.len() as int) =~= g);
        assert(r@ =~= correlation_report_text(cs));
    }
    r
}

} // verus!
