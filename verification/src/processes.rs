//! Reading process listings: `ps aux` lines, the name heuristics that flag a
//! process as suspicious, the network files `lsof` lists, and the connections
//! `ss` lists grouped by process id.
use crate::tally::{
    bump_all, bump_count, bump_id_count, counts_at_most, counts_of, id_counts_of, is_ranking,
    lemma_bump_at_most, lemma_key_index, lemma_room_to_count, lemma_tally_counts, occurrences,
    ranked_ids, tally,
};
use crate::text::{
    contains, decimal, join, join_strings, lines, lines_of, owned, push_decimal_u64, push_str,
    replace_all, replace_chars, seqs_of, str_contains, str_eq, string_from_chars, to_chars, trim,
    trim_chars, words, words_of,
};
use crate::traffic::{
    captured_number, captured_number_exec, first_capture, opt_text, pid_pattern,
    process_name_pattern, regex_first_capture,
};
use vstd::prelude::*;

verus! {

// ----------------------------------------------------------- name heuristics

/// An ASCII hexadecimal digit.
pub open spec fn is_hex_digit(c: char) -> bool {
    ('0' <= c && c <= '9') || ('a' <= c && c <= 'f') || ('A' <= c && c <= 'F')
}

/// Every char of `s` is an ASCII hexadecimal digit.
pub open spec fn all_hex(s: Seq<char>) -> bool {
    forall|i: int| 0 <= i < s.len() ==> is_hex_digit(#[trigger] s[i])
}

/// The reasons a process name alone gives for suspicion, in order: a hidden
/// name (a dot and more), `tmp` or `...` in the name, and a name of more than
/// four hexadecimal digits.
pub open spec fn name_reasons(name: Seq<char>) -> Seq<Seq<char>> {
    (if name.len() > 1 && name[0] == '.' {
        seq!["Hidden process (starts with '.')"@]
    } else {
        seq![]
    }) + (if contains(name, "tmp"@) || contains(name, "..."@) {
        seq!["Suspicious name pattern: '"@ + name + "'"@]
    } else {
        seq![]
    }) + (if name.len() > 4 && all_hex(name) {
        seq!["Process name is all hexadecimal characters"@]
    } else {
        seq![]
    })
}

/// A process name is flagged as hidden exactly when it is a dot followed by
/// more; for a suspicious pattern exactly when it contains `tmp` or `...`;
/// as hexadecimal exactly when it has more than four chars, all hexadecimal
/// digits. The reasons come in that order, each at most once.
pub proof fn lemma_name_reasons(name: Seq<char>)
    ensures
        ({
            let r = name_reasons(name);
            let hidden = "Hidden process (starts with '.')"@;
            let pattern = "Suspicious name pattern: '"@ + name + "'"@;
            let hex = "Process name is all hexadecimal characters"@;
            &&& r.contains(hidden) <==> name.len() > 1 && name[0] == '.'
            &&& r.contains(pattern) <==> contains(name, "tmp"@) || contains(name, "..."@)
            &&& r.contains(hex) <==> name.len() > 4 && (forall|i: int|
                0 <= i < name.len() ==> ({
                    let c = #[trigger] name[i];
                    ('0' <= c && c <= '9') || ('a' <= c && c <= 'f') || ('A' <= c && c <= 'F')
                }))
            &&& r.len() == (if name.len() > 1 && name[0] == '.' { 1int } else { 0int }) + (if contains(
                name,
                "tmp"@,
            ) || contains(name, "..."@) {
                1int
            } else {
                0int
            }) + (if name.len() > 4 && all_hex(name) {
                1int
            } else {
                0int
            })
        }),
{
    reveal_strlit("Hidden process (starts with '.')");
    reveal_strlit("Suspicious name pattern: '");
    reveal_strlit("Process name is all hexadecimal characters");
    let hidden = "Hidden process (starts with '.')"@;
    let pattern = "Suspicious name pattern: '"@ + name + "'"@;
    let hex = "Process name is all hexadecimal characters"@;
    assert(hidden[0] != pattern[0] && hidden[0] != hex[0] && pattern[0] != hex[0]);
    let a = if name.len() > 1 && name[0] == '.' { seq![hidden] } else { Seq::<Seq<char>>::empty() };
    let b = if contains(name, "tmp"@) || contains(name, "..."@) { seq![pattern] } else { Seq::<Seq<char>>::empty() };
    let c = if name.len() > 4 && all_hex(name) { seq![hex] } else { Seq::<Seq<char>>::empty() };
    let r = name_reasons(name);
    assert(r == a + b + c);
    assert forall|x: Seq<char>| r.contains(x) implies (a.contains(x) || b.contains(x) || c.contains(x)) by {
        let i = choose|i: int| 0 <= i < r.len() && r[i] == x;
        if i < a.len() {
            assert(r[i] == a[i]);
        } else if i < a.len() + b.len() {
            assert(r[i] == b[i - a.len()]);
        } else {
            assert(r[i] == c[i - a.len() - b.len()]);
        }
    }
    if a.len() > 0 {
        assert(r[0] == hidden);
    }
    if b.len() > 0 {
        assert(r[a.len() as int] == pattern);
    }
    if c.len() > 0 {
        assert(r[(a.len() + b.len()) as int] == hex);
    }
}

/// The reasons a process name alone gives for suspicion.
pub fn name_flags(name: &str) -> (r: Vec<String>)
    ensures
        r@.map_values(|s: String| s@) == name_reasons(name@),
{
    let chars = to_chars(name);
    let mut r: Vec<String> = Vec::new();
    if chars.len() > 1 && chars[0] == '.' {
        r.push(owned("Hidden process (starts with '.')"));
    }
    let ghost first = r@.map_values(|s: String| s@);
    if str_contains(chars.as_slice(), "tmp") || str_contains(chars.as_slice(), "...") {
        let mut m = owned("Suspicious name pattern: '");
        push_str(&mut m, name);
        push_str(&mut m, "'");
        r.push(m);
    }
    let ghost second = r@.map_values(|s: String| s@);
    let mut hex = true;
    let mut i: usize = 0;
    while i < chars.len()
        invariant
            i <= chars@.len(),
            hex == (forall|j: int| 0 <= j < i ==> is_hex_digit(#[trigger] chars@[j])),
        decreases chars@.len() - i,
    {
        let c = chars[i];
        if !(('0' <= c && c <= '9') || ('a' <= c && c <= 'f') || ('A' <= c && c <= 'F')) {
            hex = false;
        }
        i = i + 1;
    }
    if chars.len() > 4 && hex {
        r.push(owned("Process name is all hexadecimal characters"));
    }
    proof {
        let a = if name@.len() > 1 && name@[0] == '.' {
            seq!["Hidden process (starts with '.')"@]
        } else {
            Seq::<Seq<char>>::empty()
        };
        assert(first =~= a);
        assert(r@.map_values(|s: String| s@) =~= name_reasons(name@));
    }
    r
}

// ------------------------------------------------------------------ ps aux

/// A `ps aux` line, its CPU and memory shares kept as the text `ps` printed.
pub struct PsLine {
    pub user: String,
    pub pid: u32,
    pub cpu: String,
    pub mem: String,
    pub vsz_kb: u64,
    pub rss_kb: u64,
    pub tty: String,
    pub stat: String,
    pub start: String,
    pub time: String,
    pub command: String,
}

/// A `ps aux` line as plain values.
pub struct PsLineView {
    pub user: Seq<char>,
    pub pid: u32,
    pub cpu: Seq<char>,
    pub mem: Seq<char>,
    pub vsz_kb: u64,
    pub rss_kb: u64,
    pub tty: Seq<char>,
    pub stat: Seq<char>,
    pub start: Seq<char>,
    pub time: Seq<char>,
    pub command: Seq<char>,
}

impl PsLine {
    pub open spec fn view(&self) -> PsLineView {
        PsLineView {
            user: self.user@,
            pid: self.pid,
            cpu: self.cpu@,
            mem: self.mem@,
            vsz_kb: self.vsz_kb,
            rss_kb: self.rss_kb,
            tty: self.tty@,
            stat: self.stat@,
            start: self.start@,
            time: self.time@,
            command: self.command@,
        }
    }
}

/// The views of a sequence of `ps` lines.
pub open spec fn ps_views(v: Seq<PsLine>) -> Seq<PsLineView> {
    v.map_values(|p: PsLine| p.view())
}

/// The process a `ps aux` line with the fields `parts` describes: it needs
/// eleven fields; numbers that do not parse are zero, and the command is the
/// rest of the line from the eleventh field, its fields joined by spaces.
pub open spec fn ps_line(parts: Seq<Seq<char>>) -> Option<PsLineView> {
    if parts.len() < 11 {
        None
    } else {
        Some(
            PsLineView {
                user: parts[0],
                pid: captured_number(Some(parts[1]), 0xffff_ffff) as u32,
                cpu: parts[2],
                mem: parts[3],
                vsz_kb: captured_number(Some(parts[4]), u64::MAX),
                rss_kb: captured_number(Some(parts[5]), u64::MAX),
                tty: parts[6],
                stat: parts[7],
                start: parts[8],
                time: parts[9],
                command: join(parts.skip(10), " "@),
            },
        )
    }
}

/// The processes the lines `ls` describe, in order.
pub open spec fn ps_lines(ls: Seq<Seq<char>>) -> Seq<PsLineView>
    decreases ls.len(),
{
    if ls.len() == 0 {
        seq![]
    } else {
        let prev = ps_lines(ls.drop_last());
        match ps_line(words(ls.last())) {
            Some(p) => prev.push(p),
            None => prev,
        }
    }
}

/// The lines of `stdout` below its header line.
pub open spec fn body_lines(stdout: Seq<char>) -> Seq<Seq<char>> {
    let ls = lines(stdout);
    if ls.len() == 0 {
        seq![]
    } else {
        ls.drop_first()
    }
}

/// The lines of `stdout` below its header line, as char vectors.
fn body_lines_exec(stdout: &str) -> (r: Vec<Vec<char>>)
    ensures
        seqs_of(r@) == body_lines(stdout@),
{
    let chars = to_chars(stdout);
    let mut ls = lines_of(chars.as_slice());
    if ls.len() > 0 {
        let ghost before = seqs_of(ls@);
        ls.remove(0);
        assert(seqs_of(ls@) =~= before.drop_first());
    }
    ls
}

/// The fields of a line, as strings.
fn fields_of(line: &Vec<char>) -> (r: Vec<String>)
    ensures
        r@.map_values(|s: String| s@) == words(line@),
{
    let ws = words_of(line.as_slice());
    let mut fields: Vec<String> = Vec::new();
    let mut j: usize = 0;
    while j < ws.len()
        invariant
            j <= ws@.len(),
            fields@.len() == j,
            forall|k: int| 0 <= k < j ==> #[trigger] fields@[k]@ == ws@[k]@,
        decreases ws@.len() - j,
    {
        fields.push(string_from_chars(ws[j].as_slice()));
        j = j + 1;
    }
    assert(fields@.map_values(|s: String| s@) =~= seqs_of(ws@));
    fields
}

/// The fields from `start` on, joined by spaces.
fn join_from(fields: &Vec<String>, start: usize) -> (r: String)
    requires
        start <= fields@.len(),
    ensures
        r@ == join(fields@.map_values(|s: String| s@).skip(start as int), " "@),
{
    let mut rest: Vec<String> = Vec::new();
    let mut j: usize = start;
    while j < fields.len()
        invariant
            start <= j <= fields@.len(),
            rest@.len() == j - start,
            forall|k: int| 0 <= k < j - start ==> #[trigger] rest@[k]@ == fields@[start + k]@,
        decreases fields@.len() - j,
    {
        rest.push(owned(fields[j].as_str()));
        j = j + 1;
    }
    assert(rest@.map_values(|s: String| s@) =~= fields@.map_values(|s: String| s@).skip(start as int));
    join_strings(&rest, " ")
}

fn number_field(field: &String, max: u64) -> (r: u64)
    ensures
        r == captured_number(Some(field@), max),
{
    captured_number_exec(Some(field.as_str()), max)
}

/// The process a `ps aux` line with the fields `parts` describes.
pub fn ps_line_from_fields(parts: &Vec<String>) -> (r: Option<PsLine>)
    ensures
        match r {
            Some(p) => ps_line(parts@.map_values(|s: String| s@)) == Some(p.view()),
            None => ps_line(parts@.map_values(|s: String| s@)) is None,
        },
{
    if parts.len() < 11 {
        return None;
    }
    let pid = number_field(&parts[1], 0xffff_ffff);
    Some(
        PsLine {
            user: owned(parts[0].as_str()),
            pid: pid as u32,
            cpu: owned(parts[2].as_str()),
            mem: owned(parts[3].as_str()),
            vsz_kb: number_field(&parts[4], u64::MAX),
            rss_kb: number_field(&parts[5], u64::MAX),
            tty: owned(parts[6].as_str()),
            stat: owned(parts[7].as_str()),
            start: owned(parts[8].as_str()),
            time: owned(parts[9].as_str()),
            command: join_from(parts, 10),
        },
    )
}

/// The processes `ps aux` lists in `stdout`, below its header line.
pub fn parse_ps(stdout: &str) -> (r: Vec<PsLine>)
    ensures
        ps_views(r@) == ps_lines(body_lines(stdout@)),
{
    let ls = body_lines_exec(stdout);
    let ghost all = seqs_of(ls@);
    let mut r: Vec<PsLine> = Vec::new();
    let mut i: usize = 0;
    proof {
        assert(all.take(0) =~= Seq::<Seq<char>>::empty());
        assert(ps_views(r@) =~= Seq::<PsLineView>::empty());
    }
    while i < ls.len()
        invariant
            i <= ls@.len(),
            all == seqs_of(ls@),
            ps_views(r@) == ps_lines(all.take(i as int)),
        decreases ls@.len() - i,
    {
        let fields = fields_of(&ls[i]);
        proof {
            assert(all.take(i + 1).drop_last() =~= all.take(i as int));
            assert(all.take(i + 1).last() == ls@[i as int]@);
        }
        let ghost before = ps_views(r@);
        match ps_line_from_fields(&fields) {
            Some(p) => {
                r.push(p);
                assert(ps_views(r@) =~= before.push(p.view()));
            },
            None => {},
        }
        i = i + 1;
    }
    assert(all.take(ls@.len() as int) =~= all);
    r
}

/// Whether `pattern` matches somewhere in `text`, as the `regex` crate
/// decides it; `None` when the pattern is not a valid expression.
pub uninterp spec fn regex_is_match(pattern: Seq<char>, text: Seq<char>) -> Option<bool>;

/// Compiles `pattern` with `regex::Regex::new` and asks `is_match` of `text`.
/// The answer is named by `regex_is_match`, a function of the pattern and
/// the text alone.
#[verifier::external_body]
fn is_match(pattern: &str, text: &str) -> (r: Option<bool>)
    ensures
        r == regex_is_match(pattern@, text@),
{
    match regex::Regex::new(pattern) {
        Ok(re) => Some(re.is_match(text)),
        Err(_) => None,
    }
}

/// Whether a process passes the text filters: its user contains the user
/// filter, and its command matches the command filter as a regular
/// expression (`matched`), or contains it when the filter is no valid
/// expression (`matched` is `None`).
pub open spec fn passes_text_filters(
    user: Seq<char>,
    command: Seq<char>,
    user_filter: Option<Seq<char>>,
    command_filter: Option<Seq<char>>,
    matched: Option<bool>,
) -> bool {
    (match user_filter {
        Some(u) => contains(user, u),
        None => true,
    }) && (match command_filter {
        Some(c) => match matched {
            Some(b) => b,
            None => contains(command, c),
        },
        None => true,
    })
}

/// Whether a process passes the text filters, given what the command
/// filter, compiled as a regular expression, says of its command.
pub fn text_filters_pass(
    p: &PsLine,
    user_filter: Option<&str>,
    command_filter: Option<&str>,
    matched: Option<bool>,
) -> (r: bool)
    ensures
        r == passes_text_filters(
            p.user@,
            p.command@,
            opt_text(user_filter),
            opt_text(command_filter),
            matched,
        ),
{
    let user_ok = match user_filter {
        Some(u) => {
            let uc = to_chars(p.user.as_str());
            str_contains(uc.as_slice(), u)
        },
        None => true,
    };
    if !user_ok {
        return false;
    }
    match command_filter {
        Some(c) => match matched {
            Some(b) => b,
            None => {
                let cc = to_chars(p.command.as_str());
                str_contains(cc.as_slice(), c)
            },
        },
        None => true,
    }
}

/// Whether a process passes the user and command filters of a listing.
pub fn keep_process(p: &PsLine, user_filter: Option<&str>, command_filter: Option<&str>) -> (r: bool)
    ensures
        r == passes_text_filters(
            p.user@,
            p.command@,
            opt_text(user_filter),
            opt_text(command_filter),
            match command_filter {
                Some(c) => regex_is_match(c@, p.command@),
                None => None,
            },
        ),
{
    let matched = match command_filter {
        Some(c) => is_match(c, p.command.as_str()),
        None => None,
    };
    text_filters_pass(p, user_filter, command_filter, matched)
}

// ------------------------------------------------------------- line helpers

/// The lines of `ls` that contain `needle`, in order.
pub open spec fn lines_with(ls: Seq<Seq<char>>, needle: Seq<char>) -> Seq<Seq<char>>
    decreases ls.len(),
{
    if ls.len() == 0 {
        seq![]
    } else if contains(ls.last(), needle) {
        lines_with(ls.drop_last(), needle).push(ls.last())
    } else {
        lines_with(ls.drop_last(), needle)
    }
}

/// `s` cut to at most `n` items.
pub open spec fn at_most<T>(s: Seq<T>, n: nat) -> Seq<T> {
    if n <= s.len() {
        s.take(n as int)
    } else {
        s
    }
}

/// The first `limit` lines of `text` that contain `needle`.
pub fn lines_mentioning(text: &str, needle: &str, limit: usize) -> (r: Vec<String>)
    ensures
        r@.map_values(|s: String| s@) == at_most(lines_with(lines(text@), needle@), limit as nat),
{
    let chars = to_chars(text);
    let ls = lines_of(chars.as_slice());
    let ghost all = seqs_of(ls@);
    let mut found: Vec<String> = Vec::new();
    let mut i: usize = 0;
    proof {
        assert(all.take(0) =~= Seq::<Seq<char>>::empty());
        assert(found@.map_values(|s: String| s@) =~= Seq::<Seq<char>>::empty());
    }
    while i < ls.len()
        invariant
            i <= ls@.len(),
            all == seqs_of(ls@),
            found@.map_values(|s: String| s@) == lines_with(all.take(i as int), needle@),
        decreases ls@.len() - i,
    {
        proof {
            assert(all.take(i + 1).drop_last() =~= all.take(i as int));
            assert(all.take(i + 1).last() == ls@[i as int]@);
        }
        let ghost before = found@.map_values(|s: String| s@);
        if str_contains(ls[i].as_slice(), needle) {
            found.push(string_from_chars(ls[i].as_slice()));
            assert(found@.map_values(|s: String| s@) =~= before.push(ls@[i as int]@));
        }
        i = i + 1;
    }
    assert(all.take(ls@.len() as int) =~= all);
    let ghost whole = found@.map_values(|s: String| s@);
    found.truncate(limit);
    proof {
        if limit <= whole.len() {
            assert(found@.map_values(|s: String| s@) =~= whole.take(limit as int));
        }
    }
    found
}

/// The first `n` lines of `text`.
pub fn first_lines(text: &str, n: usize) -> (r: Vec<String>)
    ensures
        r@.map_values(|s: String| s@) == at_most(lines(text@), n as nat),
{
    let chars = to_chars(text);
    let ls = lines_of(chars.as_slice());
    let end: usize = if n <= ls.len() {
        n
    } else {
        ls.len()
    };
    let mut r: Vec<String> = Vec::new();
    let mut i: usize = 0;
    while i < end
        invariant
            i <= end <= ls@.len(),
            r@.len() == i,
            forall|k: int| 0 <= k < i ==> #[trigger] r@[k]@ == ls@[k]@,
        decreases end - i,
    {
        r.push(string_from_chars(ls[i].as_slice()));
        i = i + 1;
    }
    proof {
        assert(r@.map_values(|s: String| s@) =~= at_most(seqs_of(ls@), n as nat));
    }
    r
}

/// A process's command line as `/proc/<pid>/cmdline` holds it (arguments
/// separated by NUL), with spaces between the arguments and trimmed.
pub fn command_line_text(raw: &str) -> (r: String)
    ensures
        r@ == trim(replace_all(raw@, seq!['\0'], seq![' '])),
{
    let chars = to_chars(raw);
    let nul = vec!['\0'];
    let space = vec![' '];
    proof {
        assert(nul@ =~= seq!['\0']);
        assert(space@ =~= seq![' ']);
    }
    let replaced = replace_chars(chars.as_slice(), nul.as_slice(), space.as_slice());
    let t = trim_chars(replaced.as_slice());
    string_from_chars(t.as_slice())
}

// --------------------------------------------------------------------- lsof

/// A network file that `lsof -i` lists.
pub struct NetworkFile {
    pub command: String,
    pub pid: u32,
    pub user: String,
    pub fd: String,
    pub file_type: String,
    pub device: String,
    pub size_off: String,
    pub node: String,
    pub name: String,
}

/// A network file as plain values.
pub struct NetworkFileView {
    pub command: Seq<char>,
    pub pid: u32,
    pub user: Seq<char>,
    pub fd: Seq<char>,
    pub file_type: Seq<char>,
    pub device: Seq<char>,
    pub size_off: Seq<char>,
    pub node: Seq<char>,
    pub name: Seq<char>,
}

impl NetworkFile {
    pub open spec fn view(&self) -> NetworkFileView {
        NetworkFileView {
            command: self.command@,
            pid: self.pid,
            user: self.user@,
            fd: self.fd@,
            file_type: self.file_type@,
            device: self.device@,
            size_off: self.size_off@,
            node: self.node@,
            name: self.name@,
        }
    }
}

/// The views of a sequence of network files.
pub open spec fn file_views(v: Seq<NetworkFile>) -> Seq<NetworkFileView> {
    v.map_values(|f: NetworkFile| f.view())
}

/// The network file an `lsof` line with the fields `parts` describes: it
/// needs nine fields; the name is the rest of the line from the ninth.
pub open spec fn lsof_entry(parts: Seq<Seq<char>>) -> Option<NetworkFileView> {
    if parts.len() < 9 {
        None
    } else {
        Some(
            NetworkFileView {
                command: parts[0],
                pid: captured_number(Some(parts[1]), 0xffff_ffff) as u32,
                user: parts[2],
                fd: parts[3],
                file_type: parts[4],
                device: parts[5],
                size_off: parts[6],
                node: parts[7],
                name: join(parts.skip(8), " "@),
            },
        )
    }
}

/// The network files the lines `ls` describe, in order.
pub open spec fn lsof_entries(ls: Seq<Seq<char>>) -> Seq<NetworkFileView>
    decreases ls.len(),
{
    if ls.len() == 0 {
        seq![]
    } else {
        let prev = lsof_entries(ls.drop_last());
        match lsof_entry(words(ls.last())) {
            Some(f) => prev.push(f),
            None => prev,
        }
    }
}

fn lsof_entry_exec(parts: &Vec<String>) -> (r: Option<NetworkFile>)
    ensures
        match r {
            Some(f) => lsof_entry(parts@.map_values(|s: String| s@)) == Some(f.view()),
            None => lsof_entry(parts@.map_values(|s: String| s@)) is None,
        },
{
    if parts.len() < 9 {
        return None;
    }
    let pid = number_field(&parts[1], 0xffff_ffff);
    Some(
        NetworkFile {
            command: owned(parts[0].as_str()),
            pid: pid as u32,
            user: owned(parts[2].as_str()),
            fd: owned(parts[3].as_str()),
            file_type: owned(parts[4].as_str()),
            device: owned(parts[5].as_str()),
            size_off: owned(parts[6].as_str()),
            node: owned(parts[7].as_str()),
            name: join_from(parts, 8),
        },
    )
}

/// The network files `lsof -i` lists in `stdout`, below its header line.
pub fn parse_lsof(stdout: &str) -> (r: Vec<NetworkFile>)
    ensures
        file_views(r@) == lsof_entries(body_lines(stdout@)),
{
    let ls = body_lines_exec(stdout);
    let ghost all = seqs_of(ls@);
    let mut r: Vec<NetworkFile> = Vec::new();
    let mut i: usize = 0;
    proof {
        assert(all.take(0) =~= Seq::<Seq<char>>::empty());
        assert(file_views(r@) =~= Seq::<NetworkFileView>::empty());
    }
    while i < ls.len()
        invariant
            i <= ls@.len(),
            all == seqs_of(ls@),
            file_views(r@) == lsof_entries(all.take(i as int)),
        decreases ls@.len() - i,
    {
        let fields = fields_of(&ls[i]);
        proof {
            assert(all.take(i + 1).drop_last() =~= all.take(i as int));
            assert(all.take(i + 1).last() == ls@[i as int]@);
        }
        let ghost before = file_views(r@);
        match lsof_entry_exec(&fields) {
            Some(f) => {
                r.push(f);
                assert(file_views(r@) =~= before.push(f.view()));
            },
            None => {},
        }
        i = i + 1;
    }
    assert(all.take(ls@.len() as int) =~= all);
    r
}

/// The name under which a file's process is listed: `command (PID p)`.
pub open spec fn file_key(f: NetworkFileView) -> Seq<char> {
    f.command + " (PID "@ + decimal(f.pid as nat) + ")"@
}

fn file_key_exec(f: &NetworkFile) -> (r: String)
    ensures
        r@ == file_key(f.view()),
{
    let mut r = owned(f.command.as_str());
    push_str(&mut r, " (PID ");
    push_decimal_u64(&mut r, f.pid as u64);
    push_str(&mut r, ")");
    r
}

/// The process names of `fs`, in order.
pub open spec fn file_keys(fs: Seq<NetworkFileView>) -> Seq<Seq<char>> {
    fs.map_values(|f: NetworkFileView| file_key(f))
}

/// The files of `fs` whose process is listed as `k`, in order.
pub open spec fn files_of(fs: Seq<NetworkFileView>, k: Seq<char>) -> Seq<NetworkFileView>
    decreases fs.len(),
{
    if fs.len() == 0 {
        seq![]
    } else if file_key(fs.last()) == k {
        files_of(fs.drop_last(), k).push(fs.last())
    } else {
        files_of(fs.drop_last(), k)
    }
}

/// A file under its process: descriptor, type, node and name.
pub open spec fn file_line(f: NetworkFileView) -> Seq<char> {
    "   "@ + f.fd + " "@ + f.file_type + " "@ + f.node + " → "@ + f.name + "\n"@
}

/// The lines of the files `fs`.
pub open spec fn file_lines(fs: Seq<NetworkFileView>) -> Seq<char>
    decreases fs.len(),
{
    if fs.len() == 0 {
        seq![]
    } else {
        file_lines(fs.drop_last()) + file_line(fs.last())
    }
}

/// At most ten files of a process, then how many more there are.
pub open spec fn file_block(k: Seq<char>, ms: Seq<NetworkFileView>) -> Seq<char> {
    "📦 "@ + k + "\n"@ + file_lines(at_most(ms, 10)) + (if ms.len() > 10 {
        "   ... and "@ + decimal((ms.len() - 10) as nat) + " more\n"@
    } else {
        seq![]
    }) + "\n"@
}

/// The blocks of the processes in `groups`, in order.
pub open spec fn file_groups_text(fs: Seq<NetworkFileView>, groups: Seq<(Seq<char>, nat)>) -> Seq<char>
    decreases groups.len(),
{
    if groups.len() == 0 {
        seq![]
    } else {
        file_groups_text(fs, groups.drop_last()) + file_block(groups.last().0, files_of(fs, groups.last().0))
    }
}

/// The report on network files: how many files and processes, then each
/// process, in the order first seen, with its files.
pub open spec fn lsof_report_text(fs: Seq<NetworkFileView>) -> Seq<char> {
    let groups = tally(file_keys(fs));
    "🔌 Network File Descriptors ("@ + decimal(fs.len()) + " files, "@ + decimal(groups.len())
        + " processes)\n═══════════════════════════════════════\n\n"@ + file_groups_text(fs, groups)
}

/// The processes of `files`, in the order first seen, with how many files
/// each has.
fn file_tally(files: &Vec<NetworkFile>) -> (r: Vec<(String, u64)>)
    ensures
        counts_of(r@) == tally(file_keys(file_views(files@))),
{
    let ghost ks = file_keys(file_views(files@));
    let mut t: Vec<(String, u64)> = Vec::new();
    let mut j: usize = 0;
    proof {
        assert(counts_of(t@) =~= Seq::<(Seq<char>, nat)>::empty());
        assert(ks.take(0) =~= Seq::<Seq<char>>::empty());
    }
    while j < files.len()
        invariant
            j <= files@.len(),
            ks == file_keys(file_views(files@)),
            counts_of(t@) == bump_all(seq![], ks.take(j as int)),
            counts_at_most(counts_of(t@), j as nat),
        decreases files@.len() - j,
    {
        let key = file_key_exec(&files[j]);
        proof {
            lemma_room_to_count(t@, j as nat);
            lemma_bump_at_most(counts_of(t@), key@, j as nat);
            assert(ks.take(j + 1).drop_last() =~= ks.take(j as int));
            assert(ks.take(j + 1).last() == key@);
        }
        bump_count(&mut t, key.as_str());
        j = j + 1;
    }
    proof {
        assert(ks.take(files@.len() as int) =~= ks);
    }
    t
}

/// The block of the process listed as `key`.
fn file_block_exec(files: &Vec<NetworkFile>, key: &str) -> (r: String)
    ensures
        r@ == file_block(key@, files_of(file_views(files@), key@)),
{
    let ghost fs = file_views(files@);
    let mut shown = String::new();
    let mut n: usize = 0;
    let mut j: usize = 0;
    proof {
        assert(fs.take(0) =~= Seq::<NetworkFileView>::empty());
        assert(shown@ =~= file_lines(at_most(files_of(fs.take(0), key@), 10)));
    }
    while j < files.len()
        invariant
            j <= files@.len(),
            fs == file_views(files@),
            n == files_of(fs.take(j as int), key@).len(),
            n <= j,
            shown@ == file_lines(at_most(files_of(fs.take(j as int), key@), 10)),
        decreases files@.len() - j,
    {
        let k = file_key_exec(&files[j]);
        let ghost before = files_of(fs.take(j as int), key@);
        proof {
            assert(fs.take(j + 1).drop_last() =~= fs.take(j as int));
            assert(fs.take(j + 1).last() == files@[j as int].view());
        }
        if str_eq(k.as_str(), key) {
            let ghost now = files_of(fs.take(j + 1), key@);
            assert(now == before.push(files@[j as int].view()));
            if n < 10 {
                push_str(&mut shown, "   ");
                push_str(&mut shown, files[j].fd.as_str());
                push_str(&mut shown, " ");
                push_str(&mut shown, files[j].file_type.as_str());
                push_str(&mut shown, " ");
                push_str(&mut shown, files[j].node.as_str());
                push_str(&mut shown, " → ");
                push_str(&mut shown, files[j].name.as_str());
                push_str(&mut shown, "\n");
                proof {
                    let v = files@[j as int].view();
                    let am = at_most(before, 10);
                    assert(at_most(now, 10) =~= am.push(v));
                    assert(am.push(v).drop_last() =~= am);
                    assert(file_lines(am.push(v)) == file_lines(am) + file_line(v));
                    assert(shown@ =~= file_lines(am) + file_line(v));
                }
            } else {
                proof {
                    assert(at_most(now, 10) =~= at_most(before, 10));
                }
            }
            n = n + 1;
        }
        j = j + 1;
    }
    proof {
        assert(fs.take(files@.len() as int) =~= fs);
    }
    let mut r = owned("📦 ");
    push_str(&mut r, key);
    push_str(&mut r, "\n");
    push_str(&mut r, shown.as_str());
    if n > 10 {
        push_str(&mut r, "   ... and ");
        push_decimal_u64(&mut r, (n - 10) as u64);
        push_str(&mut r, " more\n");
    }
    push_str(&mut r, "\n");
    proof {
        assert(r@ =~= file_block(key@, files_of(fs, key@)));
    }
    r
}

/// The report on network files: how many files and processes there are,
/// then each process, in the order first seen, with up to ten of its files
/// and how many more it has.
pub fn lsof_report(files: &Vec<NetworkFile>) -> (r: String)
    ensures
        r@ == lsof_report_text(file_views(files@)),
{
    let ghost fs = file_views(files@);
    let groups = file_tally(files);
    let ghost g = counts_of(groups@);
    let mut r = owned("🔌 Network File Descriptors (");
    push_decimal_u64(&mut r, files.len() as u64);
    push_str(&mut r, " files, ");
    push_decimal_u64(&mut r, groups.len() as u64);
    push_str(&mut r, " processes)\n═══════════════════════════════════════\n\n");
    let ghost mid = r@;
    let mut i: usize = 0;
    proof {
        assert(r@ =~= mid + file_groups_text(fs, g.take(0)));
    }
    while i < groups.len()
        invariant
            i <= groups@.len(),
            g == counts_of(groups@),
            fs == file_views(files@),
            r@ == mid + file_groups_text(fs, g.take(i as int)),
        decreases groups@.len() - i,
    {
        proof {
            assert(g.take(i + 1).drop_last() =~= g.take(i as int));
            assert(g.take(i + 1).last().0 == groups@[i as int].0@);
        }
        let block = file_block_exec(files, groups[i].0.as_str());
        push_str(&mut r, block.as_str());
        proof {
            assert(r@ =~= mid + file_groups_text(fs, g.take(i + 1)));
        }
        i = i + 1;
    }
    proof {
        assert(g.take(groups@.len() as int) =~= g);
        assert(r@ =~= lsof_report_text(fs));
    }
    r
}

// ----------------------------------------------------- connections by pid

/// A connection that `ss -tunap` lists, with its process id and name.
pub struct PidConnection {
    pub pid: u32,
    pub process: String,
    pub protocol: String,
    pub state: String,
    pub local: String,
    pub remote: String,
}

/// A connection by pid as plain values.
pub struct PidConnectionView {
    pub pid: u32,
    pub process: Seq<char>,
    pub protocol: Seq<char>,
    pub state: Seq<char>,
    pub local: Seq<char>,
    pub remote: Seq<char>,
}

impl PidConnection {
    pub open spec fn view(&self) -> PidConnectionView {
        PidConnectionView {
            pid: self.pid,
            process: self.process@,
            protocol: self.protocol@,
            state: self.state@,
            local: self.local@,
            remote: self.remote@,
        }
    }
}

/// The views of a sequence of connections by pid.
pub open spec fn pid_views(v: Seq<PidConnection>) -> Seq<PidConnectionView> {
    v.map_values(|c: PidConnection| c.view())
}

/// The connection an `ss -tunap` line with fields `parts` describes, given
/// what the pid and name patterns captured in its process column (an empty
/// column when there is none): it needs six fields and a pid above zero, and
/// when `target` is given, a pid equal to it cut to 32 bits.
pub open spec fn pid_connection_of(
    parts: Seq<Seq<char>>,
    pid_capture: Option<Seq<char>>,
    name_capture: Option<Seq<char>>,
    target: Option<u64>,
) -> Option<PidConnectionView> {
    let pid = captured_number(pid_capture, 0xffff_ffff) as u32;
    if parts.len() < 6 || pid == 0 || (target is Some && pid != target->0 as u32) {
        None
    } else {
        Some(
            PidConnectionView {
                pid,
                process: match name_capture {
                    Some(n) => n,
                    None => "unknown"@,
                },
                protocol: parts[0],
                state: parts[1],
                local: parts[4],
                remote: parts[5],
            },
        )
    }
}

/// The process column of an `ss` line: its seventh field, or empty.
pub open spec fn users_field(parts: Seq<Seq<char>>) -> Seq<char> {
    if parts.len() > 6 {
        parts[6]
    } else {
        seq![]
    }
}

/// The connection an `ss -tunap` line describes.
pub open spec fn ss_pid_connection(line: Seq<char>, target: Option<u64>) -> Option<PidConnectionView> {
    let parts = words(line);
    pid_connection_of(
        parts,
        regex_first_capture(pid_pattern(), users_field(parts)),
        regex_first_capture(process_name_pattern(), users_field(parts)),
        target,
    )
}

/// The connections the lines `ls` describe, in order.
pub open spec fn ss_pid_connections(ls: Seq<Seq<char>>, target: Option<u64>) -> Seq<PidConnectionView>
    decreases ls.len(),
{
    if ls.len() == 0 {
        seq![]
    } else {
        let prev = ss_pid_connections(ls.drop_last(), target);
        match ss_pid_connection(ls.last(), target) {
            Some(c) => prev.push(c),
            None => prev,
        }
    }
}

/// The connection an `ss -tunap` line with the fields `parts` describes,
/// given the pid and process name captured from its process column.
pub fn pid_connection_from_fields(
    parts: &Vec<String>,
    pid_capture: Option<&str>,
    name_capture: Option<&str>,
    target: Option<u64>,
) -> (r: Option<PidConnection>)
    ensures
        match r {
            Some(c) => pid_connection_of(
                parts@.map_values(|s: String| s@),
                opt_text(pid_capture),
                opt_text(name_capture),
                target,
            ) == Some(c.view()),
            None => pid_connection_of(
                parts@.map_values(|s: String| s@),
                opt_text(pid_capture),
                opt_text(name_capture),
                target,
            ) is None,
        },
{
    let pid = captured_number_exec(pid_capture, 0xffff_ffff) as u32;
    if parts.len() < 6 || pid == 0 {
        return None;
    }
    match target {
        Some(t) => {
            if pid != t as u32 {
                return None;
            }
        },
        None => {},
    }
    let process = match name_capture {
        Some(n) => owned(n),
        None => owned("unknown"),
    };
    Some(
        PidConnection {
            pid,
            process,
            protocol: owned(parts[0].as_str()),
            state: owned(parts[1].as_str()),
            local: owned(parts[4].as_str()),
            remote: owned(parts[5].as_str()),
        },
    )
}

/// The connections `ss -tunap` lists in `stdout` below its header line, each
/// with its pid and process; those of `target` alone when it is given.
pub fn parse_pid_connections(stdout: &str, target: Option<u64>) -> (r: Vec<PidConnection>)
    ensures
        pid_views(r@) == ss_pid_connections(body_lines(stdout@), target),
{
    let ls = body_lines_exec(stdout);
    let ghost all = seqs_of(ls@);
    let mut r: Vec<PidConnection> = Vec::new();
    let mut i: usize = 0;
    proof {
        assert(all.take(0) =~= Seq::<Seq<char>>::empty());
        assert(pid_views(r@) =~= Seq::<PidConnectionView>::empty());
    }
    while i < ls.len()
        invariant
            i <= ls@.len(),
            all == seqs_of(ls@),
            pid_views(r@) == ss_pid_connections(all.take(i as int), target),
        decreases ls@.len() - i,
    {
        let fields = fields_of(&ls[i]);
        let ghost parts = fields@.map_values(|s: String| s@);
        proof {
            assert(all.take(i + 1).drop_last() =~= all.take(i as int));
            assert(all.take(i + 1).last() == ls@[i as int]@);
        }
        let found = if fields.len() >= 6 {
            let users = if fields.len() > 6 {
                owned(fields[6].as_str())
            } else {
                String::new()
            };
            proof {
                assert(users@ =~= users_field(parts));
            }
            let pid_cap = first_capture("pid=(\\d+)", users.as_str());
            let name_cap = first_capture("\\(\"([^\"]+)\"", users.as_str());
            let p = match &pid_cap {
                Some(c) => Some(c.as_str()),
                None => None,
            };
            let n = match &name_cap {
                Some(c) => Some(c.as_str()),
                None => None,
            };
            pid_connection_from_fields(&fields, p, n, target)
        } else {
            pid_connection_from_fields(&fields, None, None, target)
        };
        let ghost before = pid_views(r@);
        match found {
            Some(c) => {
                r.push(c);
                assert(pid_views(r@) =~= before.push(c.view()));
            },
            None => {},
        }
        i = i + 1;
    }
    assert(all.take(ls@.len() as int) =~= all);
    r
}

/// The pids of `cs`, in order.
pub open spec fn pids_of(cs: Seq<PidConnectionView>) -> Seq<u32> {
    cs.map_values(|c: PidConnectionView| c.pid)
}

/// The connections of `cs` that belong to `pid`, in order.
pub open spec fn connections_of(cs: Seq<PidConnectionView>, pid: u32) -> Seq<PidConnectionView>
    decreases cs.len(),
{
    if cs.len() == 0 {
        seq![]
    } else if cs.last().pid == pid {
        connections_of(cs.drop_last(), pid).push(cs.last())
    } else {
        connections_of(cs.drop_last(), pid)
    }
}

/// A connection under its process: protocol, addresses and state.
pub open spec fn pid_line(c: PidConnectionView) -> Seq<char> {
    "   "@ + c.protocol + " "@ + c.local + " → "@ + c.remote + " ["@ + c.state + "]\n"@
}

/// The lines of the connections `cs`.
pub open spec fn pid_lines(cs: Seq<PidConnectionView>) -> Seq<char>
    decreases cs.len(),
{
    if cs.len() == 0 {
        seq![]
    } else {
        pid_lines(cs.drop_last()) + pid_line(cs.last())
    }
}

/// The block of one process: the name of its first connection, its pid and
/// number of connections, then up to five of them and how many more.
pub open spec fn pid_block(pid: u32, ms: Seq<PidConnectionView>) -> Seq<char> {
    "📦 "@ + ms[0].process + " (PID "@ + decimal(pid as nat) + ") - "@ + decimal(ms.len())
        + " connections\n"@ + pid_lines(at_most(ms, 5)) + (if ms.len() > 5 {
        "   ... and "@ + decimal((ms.len() - 5) as nat) + " more\n"@
    } else {
        seq![]
    }) + "\n"@
}

/// The blocks of the processes in `ranked`, in order.
pub open spec fn pid_blocks(cs: Seq<PidConnectionView>, ranked: Seq<(u32, nat)>) -> Seq<char>
    decreases ranked.len(),
{
    if ranked.len() == 0 {
        seq![]
    } else {
        pid_blocks(cs, ranked.drop_last()) + pid_block(ranked.last().0, connections_of(cs, ranked.last().0))
    }
}

/// The report on connections by process, with the processes in the order
/// `ranked`: the totals, the first twenty processes, and how many more there
/// are.
pub open spec fn pid_report_text(cs: Seq<PidConnectionView>, ranked: Seq<(u32, nat)>) -> Seq<char> {
    "🔗 PID-Network Correlation ("@ + decimal(cs.len()) + " connections, "@ + decimal(ranked.len())
        + " processes)\n═══════════════════════════════════════\n\n"@ + pid_blocks(cs, at_most(ranked, 20))
        + (if ranked.len() > 20 {
        "\n... and "@ + decimal((ranked.len() - 20) as nat) + " more processes\n"@
    } else {
        seq![]
    })
}

/// The processes of `conns`, in the order first seen, with how many
/// connections each has.
fn pid_tally(conns: &Vec<PidConnection>) -> (r: Vec<(u32, u64)>)
    ensures
        id_counts_of(r@) == tally(pids_of(pid_views(conns@))),
{
    let ghost ks = pids_of(pid_views(conns@));
    let mut t: Vec<(u32, u64)> = Vec::new();
    let mut j: usize = 0;
    proof {
        assert(id_counts_of(t@) =~= Seq::<(u32, nat)>::empty());
        assert(ks.take(0) =~= Seq::<u32>::empty());
    }
    while j < conns.len()
        invariant
            j <= conns@.len(),
            ks == pids_of(pid_views(conns@)),
            id_counts_of(t@) == bump_all(seq![], ks.take(j as int)),
            counts_at_most(id_counts_of(t@), j as nat),
        decreases conns@.len() - j,
    {
        let key = conns[j].pid;
        proof {
            lemma_bump_at_most(id_counts_of(t@), key, j as nat);
            assert(ks.take(j + 1).drop_last() =~= ks.take(j as int));
            assert(ks.take(j + 1).last() == key);
        }
        bump_id_count(&mut t, key);
        j = j + 1;
    }
    proof {
        assert(ks.take(conns@.len() as int) =~= ks);
    }
    t
}

/// The block of the process `pid`.
fn pid_block_exec(conns: &Vec<PidConnection>, pid: u32) -> (r: String)
    requires
        connections_of(pid_views(conns@), pid).len() > 0,
    ensures
        r@ == pid_block(pid, connections_of(pid_views(conns@), pid)),
{
    let ghost cs = pid_views(conns@);
    let mut shown = String::new();
    let mut first: usize = 0;
    let mut n: usize = 0;
    let mut j: usize = 0;
    proof {
        assert(cs.take(0) =~= Seq::<PidConnectionView>::empty());
        assert(shown@ =~= pid_lines(at_most(connections_of(cs.take(0), pid), 5)));
    }
    while j < conns.len()
        invariant
            j <= conns@.len(),
            cs == pid_views(conns@),
            n == connections_of(cs.take(j as int), pid).len(),
            n <= j,
            first < conns@.len() || n == 0,
            n > 0 ==> connections_of(cs.take(j as int), pid)[0] == conns@[first as int].view(),
            shown@ == pid_lines(at_most(connections_of(cs.take(j as int), pid), 5)),
        decreases conns@.len() - j,
    {
        let ghost before = connections_of(cs.take(j as int), pid);
        proof {
            assert(cs.take(j + 1).drop_last() =~= cs.take(j as int));
            assert(cs.take(j + 1).last() == conns@[j as int].view());
        }
        if conns[j].pid == pid {
            let ghost now = connections_of(cs.take(j + 1), pid);
            assert(now == before.push(conns@[j as int].view()));
            if n == 0 {
                first = j;
            }
            if n < 5 {
                push_str(&mut shown, "   ");
                push_str(&mut shown, conns[j].protocol.as_str());
                push_str(&mut shown, " ");
                push_str(&mut shown, conns[j].local.as_str());
                push_str(&mut shown, " → ");
                push_str(&mut shown, conns[j].remote.as_str());
                push_str(&mut shown, " [");
                push_str(&mut shown, conns[j].state.as_str());
                push_str(&mut shown, "]\n");
                proof {
                    let v = conns@[j as int].view();
                    let am = at_most(before, 5);
                    assert(at_most(now, 5) =~= am.push(v));
                    assert(am.push(v).drop_last() =~= am);
                    assert(pid_lines(am.push(v)) == pid_lines(am) + pid_line(v));
                    assert(shown@ =~= pid_lines(am) + pid_line(v));
                }
            } else {
                proof {
                    assert(at_most(now, 5) =~= at_most(before, 5));
                }
            }
            n = n + 1;
        }
        j = j + 1;
    }
    proof {
        assert(cs.take(conns@.len() as int) =~= cs);
    }
    let mut r = owned("📦 ");
    push_str(&mut r, conns[first].process.as_str());
    push_str(&mut r, " (PID ");
    push_decimal_u64(&mut r, pid as u64);
    push_str(&mut r, ") - ");
    push_decimal_u64(&mut r, n as u64);
    push_str(&mut r, " connections\n");
    push_str(&mut r, shown.as_str());
    if n > 5 {
        push_str(&mut r, "   ... and ");
        push_decimal_u64(&mut r, (n - 5) as u64);
        push_str(&mut r, " more\n");
    }
    push_str(&mut r, "\n");
    proof {
        assert(r@ =~= pid_block(pid, connections_of(cs, pid)));
    }
    r
}

proof fn lemma_pid_occurrences(cs: Seq<PidConnectionView>, pid: u32)
    ensures
        occurrences(pids_of(cs), pid) == connections_of(cs, pid).len(),
    decreases cs.len(),
{
    if cs.len() > 0 {
        lemma_pid_occurrences(cs.drop_last(), pid);
        assert(pids_of(cs).drop_last() =~= pids_of(cs.drop_last()));
    }
}

/// Every process a ranking of the pid tally lists has a connection.
proof fn lemma_ranked_pid_has_connections(
    p: Seq<(u32, nat)>,
    cs: Seq<PidConnectionView>,
    i: int,
)
    requires
        is_ranking(p, tally(pids_of(cs))),
        0 <= i < p.len(),
    ensures
        connections_of(cs, p[i].0).len() > 0,
{
    broadcast use vstd::seq_lib::group_to_multiset_ensures;

    let t = tally(pids_of(cs));
    assert(p.contains(p[i]));
    assert(t.to_multiset().count(p[i]) > 0);
    assert(t.contains(p[i]));
    lemma_key_index(t, p[i].0);
    lemma_tally_counts(pids_of(cs), p[i].0);
    lemma_pid_occurrences(cs, p[i].0);
}

/// The report on connections by process: the numbers of connections and
/// processes, then the twenty processes with the most connections, most
/// first, each with up to five of its connections, and how many processes
/// more there are. Processes with equal numbers come in any order: the
/// report follows some ranking of the pid tally.
pub fn pid_report(conns: &Vec<PidConnection>) -> (r: String)
    ensures
        exists|p: Seq<(u32, nat)>|
            #![trigger is_ranking(p, tally(pids_of(pid_views(conns@))))]
            is_ranking(p, tally(pids_of(pid_views(conns@)))) && r@ == pid_report_text(
                pid_views(conns@),
                p,
            ),
{
    let ghost cs = pid_views(conns@);
    let t = pid_tally(conns);
    let ranked = ranked_ids(&t);
    let ghost p = id_counts_of(ranked@);
    let mut r = owned("🔗 PID-Network Correlation (");
    push_decimal_u64(&mut r, conns.len() as u64);
    push_str(&mut r, " connections, ");
    push_decimal_u64(&mut r, ranked.len() as u64);
    push_str(&mut r, " processes)\n═══════════════════════════════════════\n\n");
    let ghost mid = r@;
    let end: usize = if ranked.len() <= 20 {
        ranked.len()
    } else {
        20
    };
    let mut i: usize = 0;
    proof {
        assert(r@ =~= mid + pid_blocks(cs, p.take(0)));
    }
    while i < end
        invariant
            i <= end <= ranked@.len(),
            end == (if ranked@.len() <= 20 {
                ranked@.len()
            } else {
                20
            }),
            p == id_counts_of(ranked@),
            cs == pid_views(conns@),
            is_ranking(p, tally(pids_of(cs))),
            r@ == mid + pid_blocks(cs, p.take(i as int)),
        decreases end - i,
    {
        proof {
            assert(p.take(i + 1).drop_last() =~= p.take(i as int));
            assert(p.take(i + 1).last().0 == ranked@[i as int].0);
            assert(p[i as int].0 == ranked@[i as int].0);
            lemma_ranked_pid_has_connections(p, cs, i as int);
        }
        let block = pid_block_exec(conns, ranked[i].0);
        push_str(&mut r, block.as_str());
        proof {
            assert(r@ =~= mid + pid_blocks(cs, p.take(i + 1)));
        }
        i = i + 1;
    }
    proof {
        assert(p.take(end as int) =~= at_most(p, 20));
    }
    if ranked.len() > 20 {
        push_str(&mut r, "\n... and ");
        push_decimal_u64(&mut r, (ranked.len() - 20) as u64);
        push_str(&mut r, " more processes\n");
    }
    proof {
        assert(r@ =~= pid_report_text(cs, p));
    }
    r
}

} // verus!
