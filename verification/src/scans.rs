//! Summaries of security scanner reports (chkrootkit, rkhunter, lynis).
//!
//! Each report is read line by line: a line is trimmed, blank lines are
//! skipped, and the lower-case form of the trimmed line decides whether it is
//! flagged. Flagged lines are kept, trimmed, behind a marker, and counted.
use crate::text::{
    char_position, contains, decimal, index_of, lemma_index_of, lines, lines_of, lowercase, owned, push_decimal, push_str, seqs_of,
    slice_range, str_contains, string_from_chars, to_chars, to_lowercase, trim, trim_chars,
};
use vstd::prelude::*;

verus! {

/// The text views of a sequence of strings.
pub open spec fn texts(v: Seq<String>) -> Seq<Seq<char>> {
    v.map_values(|s: String| s@)
}

/// `marker` followed by `t`.
fn marked(marker: &str, t: &Vec<char>) -> (r: String)
    ensures
        r@ == marker@ + t@,
{
    let mut r = owned(marker);
    let ts = string_from_chars(t.as_slice());
    push_str(&mut r, ts.as_str());
    r
}

/// A line trimmed, and the lower-case form of the trimmed line.
fn trimmed_and_lowered(line: &Vec<char>) -> (r: (Vec<char>, Vec<char>))
    ensures
        r.0@ == trim(line@),
        r.1@ == lowercase(trim(line@)),
{
    let t = trim_chars(line.as_slice());
    let ts = string_from_chars(t.as_slice());
    let lower = to_lowercase(ts.as_str());
    (t, to_chars(lower.as_str()))
}

/// The lines of a report, as the scanners' output is split.
fn report_lines(stdout: &str) -> (r: Vec<Vec<char>>)
    ensures
        seqs_of(r@) == lines(stdout@),
{
    let chars = to_chars(stdout);
    lines_of(chars.as_slice())
}

// ---------------------------------------------------------------- chkrootkit

/// A chkrootkit line (lower-cased) that counts as a warning.
pub open spec fn chkrootkit_warning(n: Seq<char>) -> bool {
    ||| contains(n, "warning"@)
    ||| contains(n, "vulnerable"@)
    ||| contains(n, "suspicious"@)
    ||| contains(n, "rootkit"@)
    ||| contains(n, "malware"@)
    ||| contains(n, "not found"@)
    ||| contains(n, "!!!"@)
}

/// Findings, warning count and infection count after reading `ls`.
pub open spec fn chkrootkit_tally(ls: Seq<Seq<char>>) -> (Seq<Seq<char>>, nat, nat)
    decreases ls.len(),
{
    if ls.len() == 0 {
        (seq![], 0nat, 0nat)
    } else {
        let prev = chkrootkit_tally(ls.drop_last());
        let t = trim(ls.last());
        let n = lowercase(t);
        if t.len() == 0 {
            prev
        } else if contains(n, "infected"@) {
            (prev.0.push("🔴 "@ + t), prev.1, prev.2 + 1)
        } else if chkrootkit_warning(n) {
            (prev.0.push("🟡 "@ + t), prev.1 + 1, prev.2)
        } else if contains(n, "found"@) && !contains(n, "not found"@) {
            (prev.0.push("ℹ️  "@ + t), prev.1, prev.2)
        } else {
            prev
        }
    }
}

/// The one-line verdict on a chkrootkit run.
pub open spec fn chkrootkit_summary(findings: nat, warnings: nat, infected: nat) -> Seq<char> {
    if findings == 0 {
        "✅ chkrootkit scan completed. No obvious infections or warnings detected."@
    } else if infected > 0 {
        "🔴 CRITICAL: chkrootkit detected "@ + decimal(infected) + " infection(s) and "@ + decimal(
            warnings,
        ) + " warning(s). Immediate review required!"@
    } else if warnings > 0 {
        "🟡 chkrootkit flagged "@ + decimal(warnings) + " warning(s). Review recommended."@
    } else {
        "ℹ️  chkrootkit completed with "@ + decimal(findings) + " informational finding(s)."@
    }
}

/// Summarises a chkrootkit report: the verdict and the flagged lines, each
/// behind its marker (infection, warning or information).
pub fn summarize_chkrootkit(stdout: &str) -> (r: (String, Vec<String>))
    ensures
        texts(r.1@) == chkrootkit_tally(lines(stdout@)).0,
        r.0@ == chkrootkit_summary(
            chkrootkit_tally(lines(stdout@)).0.len(),
            chkrootkit_tally(lines(stdout@)).1,
            chkrootkit_tally(lines(stdout@)).2,
        ),
{
    let ls = report_lines(stdout);
    let ghost all = seqs_of(ls@);
    let mut findings: Vec<String> = Vec::new();
    let mut warnings: usize = 0;
    let mut infected: usize = 0;
    let mut i: usize = 0;
    assert(all.take(0) =~= Seq::<Seq<char>>::empty());
    assert(texts(findings@) =~= Seq::<Seq<char>>::empty());
    while i < ls.len()
        invariant
            i <= ls@.len(),
            all == seqs_of(ls@),
            findings@.len() <= i,
            warnings <= i,
            infected <= i,
            texts(findings@) == chkrootkit_tally(all.take(i as int)).0,
            warnings == chkrootkit_tally(all.take(i as int)).1,
            infected == chkrootkit_tally(all.take(i as int)).2,
        decreases ls.len() - i,
    {
        let (t, n) = trimmed_and_lowered(&ls[i]);
        proof {
            assert(all.take(i + 1).drop_last() =~= all.take(i as int));
            assert(all.take(i + 1).last() == ls@[i as int]@);
        }
        let ghost before = texts(findings@);
        if t.len() == 0 {
        } else if str_contains(n.as_slice(), "infected") {
            infected = infected + 1;
            findings.push(marked("🔴 ", &t));
            assert(texts(findings@) =~= before.push("🔴 "@ + t@));
        } else if str_contains(n.as_slice(), "warning") || str_contains(n.as_slice(), "vulnerable")
            || str_contains(n.as_slice(), "suspicious") || str_contains(n.as_slice(), "rootkit")
            || str_contains(n.as_slice(), "malware") || str_contains(n.as_slice(), "not found")
            || str_contains(n.as_slice(), "!!!") {
            warnings = warnings + 1;
            findings.push(marked("🟡 ", &t));
            assert(texts(findings@) =~= before.push("🟡 "@ + t@));
        } else if str_contains(n.as_slice(), "found") && !str_contains(n.as_slice(), "not found") {
            findings.push(marked("ℹ️  ", &t));
            assert(texts(findings@) =~= before.push("ℹ️  "@ + t@));
        }
        i = i + 1;
    }
    assert(all.take(ls@.len() as int) =~= all);
    let summary = if findings.len() == 0 {
        owned("✅ chkrootkit scan completed. No obvious infections or warnings detected.")
    } else if infected > 0 {
        let mut s = owned("🔴 CRITICAL: chkrootkit detected ");
        push_decimal(&mut s, infected);
        push_str(&mut s, " infection(s) and ");
        push_decimal(&mut s, warnings);
        push_str(&mut s, " warning(s). Immediate review required!");
        s
    } else if warnings > 0 {
        let mut s = owned("🟡 chkrootkit flagged ");
        push_decimal(&mut s, warnings);
        push_str(&mut s, " warning(s). Review recommended.");
        s
    } else {
        let mut s = owned("ℹ️  chkrootkit completed with ");
        push_decimal(&mut s, findings.len());
        push_str(&mut s, " informational finding(s).");
        s
    };
    (summary, findings)
}

// ------------------------------------------------------------------ rkhunter

/// An rkhunter line (lower-cased) that counts as a critical finding.
pub open spec fn rkhunter_critical(n: Seq<char>) -> bool {
    ||| contains(n, "infection"@)
    ||| contains(n, "rootkit"@)
    ||| contains(n, "backdoor"@)
    ||| (contains(n, "found"@) && !contains(n, "not found"@))
}

/// An rkhunter line (lower-cased) reporting a changed file property.
pub open spec fn rkhunter_changed(n: Seq<char>) -> bool {
    ||| contains(n, "properties have changed"@)
    ||| contains(n, "file property"@)
    ||| contains(n, "inode changed"@)
}

/// Findings, warning count and critical count after reading `ls`.
pub open spec fn rkhunter_tally(ls: Seq<Seq<char>>) -> (Seq<Seq<char>>, nat, nat)
    decreases ls.len(),
{
    if ls.len() == 0 {
        (seq![], 0nat, 0nat)
    } else {
        let prev = rkhunter_tally(ls.drop_last());
        let t = trim(ls.last());
        let n = lowercase(t);
        if t.len() == 0 {
            prev
        } else if contains(n, "warning"@) && contains(n, "["@) {
            (prev.0.push("🟡 "@ + t), prev.1 + 1, prev.2)
        } else if rkhunter_critical(n) {
            (prev.0.push("🔴 "@ + t), prev.1, prev.2 + 1)
        } else if rkhunter_changed(n) {
            (prev.0.push("🟡 "@ + t), prev.1 + 1, prev.2)
        } else {
            prev
        }
    }
}

/// The one-line verdict on an rkhunter run.
pub open spec fn rkhunter_summary(findings: nat, warnings: nat, critical: nat) -> Seq<char> {
    if findings == 0 {
        "✅ rkhunter scan completed. No warnings or infections detected."@
    } else if critical > 0 {
        "🔴 CRITICAL: rkhunter detected "@ + decimal(critical) + " critical issue(s) and "@
            + decimal(warnings) + " warning(s). Immediate review required!"@
    } else if warnings > 0 {
        "🟡 rkhunter flagged "@ + decimal(warnings) + " warning(s). Review recommended."@
    } else {
        "ℹ️  rkhunter completed with "@ + decimal(findings) + " informational finding(s)."@
    }
}

/// Summarises an rkhunter report: the verdict and the flagged lines, each
/// behind its marker (critical or warning).
pub fn summarize_rkhunter(stdout: &str) -> (r: (String, Vec<String>))
    ensures
        texts(r.1@) == rkhunter_tally(lines(stdout@)).0,
        r.0@ == rkhunter_summary(
            rkhunter_tally(lines(stdout@)).0.len(),
            rkhunter_tally(lines(stdout@)).1,
            rkhunter_tally(lines(stdout@)).2,
        ),
{
    let ls = report_lines(stdout);
    let ghost all = seqs_of(ls@);
    let mut findings: Vec<String> = Vec::new();
    let mut warnings: usize = 0;
    let mut critical: usize = 0;
    let mut i: usize = 0;
    assert(all.take(0) =~= Seq::<Seq<char>>::empty());
    assert(texts(findings@) =~= Seq::<Seq<char>>::empty());
    while i < ls.len()
        invariant
            i <= ls@.len(),
            all == seqs_of(ls@),
            findings@.len() <= i,
            warnings <= i,
            critical <= i,
            texts(findings@) == rkhunter_tally(all.take(i as int)).0,
            warnings == rkhunter_tally(all.take(i as int)).1,
            critical == rkhunter_tally(all.take(i as int)).2,
        decreases ls.len() - i,
    {
        let (t, n) = trimmed_and_lowered(&ls[i]);
        proof {
            assert(all.take(i + 1).drop_last() =~= all.take(i as int));
            assert(all.take(i + 1).last() == ls@[i as int]@);
        }
        let ghost before = texts(findings@);
        if t.len() == 0 {
        } else if str_contains(n.as_slice(), "warning") && str_contains(n.as_slice(), "[") {
            warnings = warnings + 1;
            findings.push(marked("🟡 ", &t));
            assert(texts(findings@) =~= before.push("🟡 "@ + t@));
        } else if str_contains(n.as_slice(), "infection") || str_contains(n.as_slice(), "rootkit")
            || str_contains(n.as_slice(), "backdoor") || (str_contains(n.as_slice(), "found")
            && !str_contains(n.as_slice(), "not found")) {
            critical = critical + 1;
            findings.push(marked("🔴 ", &t));
            assert(texts(findings@) =~= before.push("🔴 "@ + t@));
        } else if str_contains(n.as_slice(), "properties have changed") || str_contains(
            n.as_slice(),
            "file property",
        ) || str_contains(n.as_slice(), "inode changed") {
            warnings = warnings + 1;
            findings.push(marked("🟡 ", &t));
            assert(texts(findings@) =~= before.push("🟡 "@ + t@));
        }
        i = i + 1;
    }
    assert(all.take(ls@.len() as int) =~= all);
    let summary = if findings.len() == 0 {
        owned("✅ rkhunter scan completed. No warnings or infections detected.")
    } else if critical > 0 {
        let mut s = owned("🔴 CRITICAL: rkhunter detected ");
        push_decimal(&mut s, critical);
        push_str(&mut s, " critical issue(s) and ");
        push_decimal(&mut s, warnings);
        push_str(&mut s, " warning(s). Immediate review required!");
        s
    } else if warnings > 0 {
        let mut s = owned("🟡 rkhunter flagged ");
        push_decimal(&mut s, warnings);
        push_str(&mut s, " warning(s). Review recommended.");
        s
    } else {
        let mut s = owned("ℹ️  rkhunter completed with ");
        push_decimal(&mut s, findings.len());
        push_str(&mut s, " informational finding(s).");
        s
    };
    (summary, findings)
}

// --------------------------------------------------------------------- lynis

/// What a lynis report has yielded so far.
pub struct LynisTally {
    pub findings: Seq<Seq<char>>,
    pub suggestions: Seq<Seq<char>>,
    pub warnings: nat,
    pub suggestion_count: nat,
    pub hardening_index: Option<Seq<char>>,
}

/// A lynis line (lower-cased) that counts as a warning without a `[` tag.
pub open spec fn lynis_weakness(n: Seq<char>) -> bool {
    ||| contains(n, "vulnerable"@)
    ||| contains(n, "weak"@)
    ||| contains(n, "not found"@)
    ||| contains(n, "outdated"@)
}

/// The trimmed line names the hardening index and holds both brackets.
pub open spec fn names_hardening_index(t: Seq<char>, n: Seq<char>) -> bool {
    &&& contains(n, "hardening index"@)
    &&& contains(n, "["@)
    &&& index_of(t, '[') >= 0
    &&& index_of(t, ']') >= 0
}

/// The bracketed hardening index of a line that names it: from its first `[`
/// to its first `]`, both included.
pub open spec fn bracketed(t: Seq<char>) -> Seq<char> {
    t.subrange(index_of(t, '['), index_of(t, ']') + 1)
}

/// A line whose first `]` comes well before its first `[` cannot be sliced
/// (the byte range would run backwards).
pub open spec fn lynis_line_ok(line: Seq<char>) -> bool {
    names_hardening_index(trim(line), lowercase(trim(line))) ==> index_of(trim(line), '[')
        <= index_of(trim(line), ']') + 1
}

/// Every line of the report can be read.
pub open spec fn lynis_report_ok(stdout: Seq<char>) -> bool {
    forall|i: int| 0 <= i < lines(stdout).len() ==> lynis_line_ok(#[trigger] lines(stdout)[i])
}

/// The tally after reading `ls`.
pub open spec fn lynis_tally(ls: Seq<Seq<char>>) -> LynisTally
    decreases ls.len(),
{
    if ls.len() == 0 {
        LynisTally {
            findings: seq![],
            suggestions: seq![],
            warnings: 0,
            suggestion_count: 0,
            hardening_index: None,
        }
    } else {
        let prev = lynis_tally(ls.drop_last());
        let t = trim(ls.last());
        let n = lowercase(t);
        let p = LynisTally {
            hardening_index: if names_hardening_index(t, n) {
                Some(bracketed(t))
            } else {
                prev.hardening_index
            },
            ..prev
        };
        if t.len() == 0 {
            prev
        } else if contains(n, "warning"@) && contains(n, "["@) {
            LynisTally { findings: p.findings.push("🟡 "@ + t), warnings: p.warnings + 1, ..p }
        } else if contains(n, "suggestion"@) && contains(n, "["@) {
            LynisTally {
                suggestions: p.suggestions.push("💡 "@ + t),
                suggestion_count: p.suggestion_count + 1,
                ..p
            }
        } else if lynis_weakness(n) {
            LynisTally { findings: p.findings.push("🟡 "@ + t), warnings: p.warnings + 1, ..p }
        } else if contains(n, "recommendation"@) {
            LynisTally { suggestions: p.suggestions.push("💡 "@ + t), ..p }
        } else {
            p
        }
    }
}

/// The one-line verdict on a lynis audit.
pub open spec fn lynis_summary(warnings: nat, suggestions: nat) -> Seq<char> {
    if warnings == 0 && suggestions == 0 {
        "✅ lynis audit completed. System appears well-configured with no major warnings."@
    } else if warnings > 0 {
        "🟡 lynis found "@ + decimal(warnings) + " warning(s) and "@ + decimal(suggestions)
            + " suggestion(s). Review recommended for security hardening."@
    } else {
        "ℹ️  lynis completed with "@ + decimal(suggestions) + " suggestion(s) for improvement."@
    }
}

/// Whether every line of a lynis report can be read (see `lynis_line_ok`).
pub fn lynis_report_readable(stdout: &str) -> (b: bool)
    ensures
        b == lynis_report_ok(stdout@),
{
    let ls = report_lines(stdout);
    let ghost all = seqs_of(ls@);
    let mut i: usize = 0;
    while i < ls.len()
        invariant
            i <= ls@.len(),
            all == seqs_of(ls@),
            all == lines(stdout@),
            forall|j: int| 0 <= j < i ==> lynis_line_ok(#[trigger] all[j]),
        decreases ls.len() - i,
    {
        let (t, n) = trimmed_and_lowered(&ls[i]);
        proof {
            assert(all[i as int] == ls@[i as int]@);
        }
        if str_contains(n.as_slice(), "hardening index") && str_contains(n.as_slice(), "[") {
            match (char_position(t.as_slice(), '['), char_position(t.as_slice(), ']')) {
                (Some(start), Some(end)) => {
                    if start > end && start - end > 1 {
                        assert(!lynis_line_ok(all[i as int]));
                        return false;
                    }
                },
                _ => {},
            }
        }
        i = i + 1;
    }
    true
}

/// The bracketed part of a line that names the hardening index, when it
/// holds both brackets.
fn bracketed_part(t: &Vec<char>, Ghost(n): Ghost<Seq<char>>) -> (r: Option<String>)
    requires
        n == lowercase(t@),
        contains(n, "hardening index"@),
        contains(n, "["@),
        names_hardening_index(t@, n) ==> index_of(t@, '[') <= index_of(t@, ']') + 1,
    ensures
        match r {
            Some(b) => names_hardening_index(t@, n) && b@ == bracketed(t@),
            None => !names_hardening_index(t@, n),
        },
{
    match char_position(t.as_slice(), '[') {
        Some(start) => match char_position(t.as_slice(), ']') {
            Some(end) => {
                proof {
                    lemma_index_of(t@, ']');
                }
                let len = t.len();
                assert(end < len);
                let stop: usize = end + 1;
                let b = slice_range(t.as_slice(), start, stop);
                Some(string_from_chars(b.as_slice()))
            },
            None => None,
        },
        None => None,
    }
}

/// Summarises a lynis audit: the verdict, the flagged lines, the suggestions
/// and the last hardening index named (`[..]` included).
pub fn summarize_lynis(stdout: &str) -> (r: (String, Vec<String>, Vec<String>, Option<String>))
    requires
        lynis_report_ok(stdout@),
    ensures
        texts(r.1@) == lynis_tally(lines(stdout@)).findings,
        texts(r.2@) == lynis_tally(lines(stdout@)).suggestions,
        r.3 is Some <==> lynis_tally(lines(stdout@)).hardening_index is Some,
        r.3 is Some ==> r.3->0@ == lynis_tally(lines(stdout@)).hardening_index->0,
        r.0@ == lynis_summary(
            lynis_tally(lines(stdout@)).warnings,
            lynis_tally(lines(stdout@)).suggestion_count,
        ),
{
    let ls = report_lines(stdout);
    let ghost all = seqs_of(ls@);
    let mut findings: Vec<String> = Vec::new();
    let mut suggestions: Vec<String> = Vec::new();
    let mut warnings: usize = 0;
    let mut suggestion_count: usize = 0;
    let mut hardening_index: Option<String> = None;
    let mut i: usize = 0;
    assert(all.take(0) =~= Seq::<Seq<char>>::empty());
    assert(texts(findings@) =~= Seq::<Seq<char>>::empty());
    assert(texts(suggestions@) =~= Seq::<Seq<char>>::empty());
    while i < ls.len()
        invariant
            i <= ls@.len(),
            all == seqs_of(ls@),
            all == lines(stdout@),
            lynis_report_ok(stdout@),
            warnings <= i,
            suggestion_count <= i,
            texts(findings@) == lynis_tally(all.take(i as int)).findings,
            texts(suggestions@) == lynis_tally(all.take(i as int)).suggestions,
            warnings == lynis_tally(all.take(i as int)).warnings,
            suggestion_count == lynis_tally(all.take(i as int)).suggestion_count,
            hardening_index is Some <==> lynis_tally(all.take(i as int)).hardening_index is Some,
            hardening_index is Some ==> hardening_index->0@ == lynis_tally(
                all.take(i as int),
            ).hardening_index->0,
        decreases ls.len() - i,
    {
        let (t, n) = trimmed_and_lowered(&ls[i]);
        proof {
            assert(all.take(i + 1).drop_last() =~= all.take(i as int));
            assert(all.take(i + 1).last() == ls@[i as int]@);
            assert(lynis_line_ok(lines(stdout@)[i as int]));
        }
        if str_contains(n.as_slice(), "hardening index") && str_contains(n.as_slice(), "[") {
            proof {
                assert(all[i as int] == ls@[i as int]@);
            }
            match bracketed_part(&t, Ghost(n@)) {
                Some(b) => {
                    hardening_index = Some(b);
                },
                None => {},
            }
        }
        let ghost before_f = texts(findings@);
        let ghost before_s = texts(suggestions@);
        if t.len() == 0 {
        } else if str_contains(n.as_slice(), "warning") && str_contains(n.as_slice(), "[") {
            warnings = warnings + 1;
            findings.push(marked("🟡 ", &t));
            assert(texts(findings@) =~= before_f.push("🟡 "@ + t@));
        } else if str_contains(n.as_slice(), "suggestion") && str_contains(n.as_slice(), "[") {
            suggestion_count = suggestion_count + 1;
            suggestions.push(marked("💡 ", &t));
            assert(texts(suggestions@) =~= before_s.push("💡 "@ + t@));
        } else if str_contains(n.as_slice(), "vulnerable") || str_contains(n.as_slice(), "weak")
            || str_contains(n.as_slice(), "not found") || str_contains(n.as_slice(), "outdated") {
            warnings = warnings + 1;
            findings.push(marked("🟡 ", &t));
            assert(texts(findings@) =~= before_f.push("🟡 "@ + t@));
        } else if str_contains(n.as_slice(), "recommendation") {
            suggestions.push(marked("💡 ", &t));
            assert(texts(suggestions@) =~= before_s.push("💡 "@ + t@));
        }
        i = i + 1;
    }
    assert(all.take(ls@.len() as int) =~= all);
    let summary = if warnings == 0 && suggestion_count == 0 {
        owned("✅ lynis audit completed. System appears well-configured with no major warnings.")
    } else if warnings > 0 {
        let mut s = owned("🟡 lynis found ");
        push_decimal(&mut s, warnings);
        push_str(&mut s, " warning(s) and ");
        push_decimal(&mut s, suggestion_count);
        push_str(&mut s, " suggestion(s). Review recommended for security hardening.");
        s
    } else {
        let mut s = owned("ℹ️  lynis completed with ");
        push_decimal(&mut s, suggestion_count);
        push_str(&mut s, " suggestion(s) for improvement.");
        s
    };
    (summary, findings, suggestions, hardening_index)
}

/// A line chkrootkit's summary flags: not blank, and its lower-cased trimmed
/// text names an infection, a warning, or something found.
pub open spec fn chkrootkit_flagged(line: Seq<char>) -> bool {
    let t = trim(line);
    let n = lowercase(t);
    t.len() > 0 && (contains(n, "infected"@) || chkrootkit_warning(n) || (contains(n, "found"@)
        && !contains(n, "not found"@)))
}

/// A line that reports an infection.
pub open spec fn chkrootkit_infection(line: Seq<char>) -> bool {
    trim(line).len() > 0 && contains(lowercase(trim(line)), "infected"@)
}

/// chkrootkit's findings are empty exactly when no line is flagged, so the
/// all-clear verdict comes exactly then; an infection is counted exactly when
/// some line reports one, and then the findings are not empty, so the verdict
/// is the critical one.
pub proof fn lemma_chkrootkit_verdict(ls: Seq<Seq<char>>)
    ensures
        (chkrootkit_tally(ls).0.len() == 0) <==> (forall|i: int|
            0 <= i < ls.len() ==> !chkrootkit_flagged(#[trigger] ls[i])),
        (chkrootkit_tally(ls).2 > 0) <==> (exists|i: int|
            0 <= i < ls.len() && chkrootkit_infection(#[trigger] ls[i])),
        chkrootkit_tally(ls).2 > 0 ==> chkrootkit_tally(ls).0.len() > 0,
    decreases ls.len(),
{
    if ls.len() > 0 {
        let d = ls.drop_last();
        lemma_chkrootkit_verdict(d);
        lemma_chkrootkit_counts(d);
        assert forall|i: int| 0 <= i < d.len() implies d[i] == ls[i] by {}
        if exists|i: int| 0 <= i < ls.len() && chkrootkit_infection(#[trigger] ls[i]) {
            let i = choose|i: int| 0 <= i < ls.len() && chkrootkit_infection(#[trigger] ls[i]);
            if i < d.len() {
                assert(chkrootkit_infection(d[i]));
            }
        }
        if chkrootkit_tally(d).2 > 0 {
            let i = choose|i: int| 0 <= i < d.len() && chkrootkit_infection(#[trigger] d[i]);
            assert(chkrootkit_infection(ls[i]));
        }
        if chkrootkit_tally(ls).0.len() != 0 {
            if chkrootkit_tally(d).0.len() == 0 {
                assert(chkrootkit_flagged(ls[ls.len() - 1]));
            } else {
                let i = choose|i: int| 0 <= i < d.len() && chkrootkit_flagged(#[trigger] d[i]);
                assert(chkrootkit_flagged(ls[i]));
            }
        } else {
            assert forall|i: int| 0 <= i < ls.len() implies !chkrootkit_flagged(#[trigger] ls[i]) by {
                if i < d.len() {
                    assert(!chkrootkit_flagged(d[i]));
                }
            }
        }
    }
}

/// The verdict of a chkrootkit report starts with the all-clear mark exactly
/// when no line of the report is flagged, and with the critical mark exactly
/// when some line reports an infection.
pub proof fn lemma_chkrootkit_markers(stdout: Seq<char>)
    ensures
        ({
            let t = chkrootkit_tally(lines(stdout));
            let s = chkrootkit_summary(t.0.len(), t.1, t.2);
            &&& "✅"@.is_prefix_of(s) <==> (forall|i: int|
                0 <= i < lines(stdout).len() ==> !chkrootkit_flagged(#[trigger] lines(stdout)[i]))
            &&& "🔴 CRITICAL"@.is_prefix_of(s) <==> (exists|i: int|
                0 <= i < lines(stdout).len() && chkrootkit_infection(#[trigger] lines(stdout)[i]))
        }),
{
    let ls = lines(stdout);
    lemma_chkrootkit_verdict(ls);
    let t = chkrootkit_tally(ls);
    let s = chkrootkit_summary(t.0.len(), t.1, t.2);
    reveal_strlit("✅");
    reveal_strlit("🔴 CRITICAL");
    reveal_strlit("✅ chkrootkit scan completed. No obvious infections or warnings detected.");
    reveal_strlit("🔴 CRITICAL: chkrootkit detected ");
    reveal_strlit("🟡 chkrootkit flagged ");
    reveal_strlit("ℹ️  chkrootkit completed with ");
    if t.0.len() == 0 {
        assert("✅"@.is_prefix_of(s)) by {
            assert(s.take(1) =~= "✅"@);
        }
        assert(!"🔴 CRITICAL"@.is_prefix_of(s)) by {
            assert(s[0] != "🔴 CRITICAL"@[0]);
        }
    } else if t.2 > 0 {
        let head = "🔴 CRITICAL: chkrootkit detected "@;
        assert(s.take(10) =~= "🔴 CRITICAL"@) by {
            assert forall|k: int| 0 <= k < 10 implies s[k] == head[k] by {}
        }
        assert(!"✅"@.is_prefix_of(s)) by {
            assert(s[0] != "✅"@[0]);
        }
    } else if t.1 > 0 {
        let head = "🟡 chkrootkit flagged "@;
        assert(s[0] == head[0]);
        assert(!"✅"@.is_prefix_of(s)) by {
            assert(s[0] != "✅"@[0]);
        }
        assert(!"🔴 CRITICAL"@.is_prefix_of(s)) by {
            assert(s[0] != "🔴 CRITICAL"@[0]);
        }
    } else {
        let head = "ℹ️  chkrootkit completed with "@;
        assert(s[0] == head[0]);
        assert(!"✅"@.is_prefix_of(s)) by {
            assert(s[0] != "✅"@[0]);
        }
        assert(!"🔴 CRITICAL"@.is_prefix_of(s)) by {
            assert(s[0] != "🔴 CRITICAL"@[0]);
        }
    }
}

/// A lynis report in which no line naming the hardening index has a `]`
/// before its first `[` can be read whole, so `summarize_lynis` takes it.
pub proof fn lemma_lynis_ordered_brackets(stdout: Seq<char>)
    requires
        forall|i: int|
            0 <= i < lines(stdout).len() && contains(lowercase(trim(#[trigger] lines(stdout)[i])), "hardening index"@)
                ==> index_of(trim(lines(stdout)[i]), ']') < 0 || index_of(trim(lines(stdout)[i]), '[')
                < index_of(trim(lines(stdout)[i]), ']'),
    ensures
        lynis_report_ok(stdout),
{
    assert forall|i: int| 0 <= i < lines(stdout).len() implies lynis_line_ok(#[trigger] lines(stdout)[i]) by {
        let t = trim(lines(stdout)[i]);
        if names_hardening_index(t, lowercase(t)) {
            assert(index_of(t, ']') >= 0);
        }
    }
}

/// Reading one more chkrootkit line: a blank line changes nothing; a line
/// whose lower-cased trimmed text contains `infected` is listed with 🔴 and
/// counted as an infection; otherwise one containing `warning`,
/// `vulnerable`, `suspicious`, `rootkit`, `malware`, `not found` or `!!!` is
/// listed with 🟡 and counted as a warning; otherwise one containing `found`
/// is listed with ℹ️ and counted as neither; any other line changes nothing.
pub proof fn lemma_chkrootkit_line(ls: Seq<Seq<char>>, line: Seq<char>)
    ensures
        ({
            let before = chkrootkit_tally(ls);
            let after = chkrootkit_tally(ls.push(line));
            let t = trim(line);
            let n = lowercase(t);
            let warning = contains(n, "warning"@) || contains(n, "vulnerable"@) || contains(
                n,
                "suspicious"@,
            ) || contains(n, "rootkit"@) || contains(n, "malware"@) || contains(n, "not found"@)
                || contains(n, "!!!"@);
            &&& t.len() == 0 ==> after == before
            &&& t.len() > 0 && contains(n, "infected"@) ==> after == (
                before.0.push("🔴 "@ + t),
                before.1,
                before.2 + 1,
            )
            &&& t.len() > 0 && !contains(n, "infected"@) && warning ==> after == (
                before.0.push("🟡 "@ + t),
                before.1 + 1,
                before.2,
            )
            &&& t.len() > 0 && !contains(n, "infected"@) && !warning && contains(n, "found"@)
                ==> after == (before.0.push("ℹ️  "@ + t), before.1, before.2)
            &&& t.len() > 0 && !contains(n, "infected"@) && !warning && !contains(n, "found"@)
                ==> after == before
        }),
{
    assert(ls.push(line).drop_last() =~= ls);
}

/// Reading one more rkhunter line: a blank line changes nothing; a line
/// whose lower-cased trimmed text holds `warning` and `[` is a warning (🟡);
/// otherwise one holding `infection`, `rootkit`, `backdoor`, or `found`
/// without `not found`, is critical (🔴); otherwise one holding `properties
/// have changed`, `file property` or `inode changed` is a warning (🟡); any
/// other line changes nothing.
pub proof fn lemma_rkhunter_line(ls: Seq<Seq<char>>, line: Seq<char>)
    ensures
        ({
            let before = rkhunter_tally(ls);
            let after = rkhunter_tally(ls.push(line));
            let t = trim(line);
            let n = lowercase(t);
            let tagged = contains(n, "warning"@) && contains(n, "["@);
            let critical = contains(n, "infection"@) || contains(n, "rootkit"@) || contains(n, "backdoor"@)
                || (contains(n, "found"@) && !contains(n, "not found"@));
            let changed = contains(n, "properties have changed"@) || contains(n, "file property"@)
                || contains(n, "inode changed"@);
            &&& t.len() == 0 ==> after == before
            &&& t.len() > 0 && tagged ==> after == (before.0.push("🟡 "@ + t), before.1 + 1, before.2)
            &&& t.len() > 0 && !tagged && critical ==> after == (
                before.0.push("🔴 "@ + t),
                before.1,
                before.2 + 1,
            )
            &&& t.len() > 0 && !tagged && !critical && changed ==> after == (
                before.0.push("🟡 "@ + t),
                before.1 + 1,
                before.2,
            )
            &&& t.len() > 0 && !tagged && !critical && !changed ==> after == before
        }),
{
    assert(ls.push(line).drop_last() =~= ls);
}

/// Reading one more lynis line that is not blank: one whose lower-cased
/// trimmed text holds `warning` and `[` is a warning (🟡); otherwise one
/// holding `suggestion` and `[` is a counted suggestion (💡); otherwise one
/// holding `vulnerable`, `weak`, `not found` or `outdated` is a warning (🟡);
/// otherwise one holding `recommendation` is listed as a suggestion (💡)
/// without being counted. A line naming the hardening index with both
/// brackets sets it to its bracketed part; a blank line changes nothing.
pub proof fn lemma_lynis_line(ls: Seq<Seq<char>>, line: Seq<char>)
    ensures
        ({
            let b = lynis_tally(ls);
            let a = lynis_tally(ls.push(line));
            let t = trim(line);
            let n = lowercase(t);
            let warning = contains(n, "warning"@) && contains(n, "["@);
            let suggestion = contains(n, "suggestion"@) && contains(n, "["@);
            let weak = contains(n, "vulnerable"@) || contains(n, "weak"@) || contains(n, "not found"@)
                || contains(n, "outdated"@);
            let recommendation = contains(n, "recommendation"@);
            &&& t.len() == 0 ==> a == b
            &&& t.len() > 0 ==> a.hardening_index == if contains(n, "hardening index"@) && contains(
                n,
                "["@,
            ) && index_of(t, '[') >= 0 && index_of(t, ']') >= 0 {
                Some(t.subrange(index_of(t, '['), index_of(t, ']') + 1))
            } else {
                b.hardening_index
            }
            &&& t.len() > 0 && (warning || (!suggestion && weak)) ==> a.findings == b.findings.push(
                "🟡 "@ + t,
            ) && a.warnings == b.warnings + 1 && a.suggestions == b.suggestions
                && a.suggestion_count == b.suggestion_count
            &&& t.len() > 0 && !warning && suggestion ==> a.suggestions == b.suggestions.push(
                "💡 "@ + t,
            ) && a.suggestion_count == b.suggestion_count + 1 && a.findings == b.findings
                && a.warnings == b.warnings
            &&& t.len() > 0 && !warning && !suggestion && !weak && recommendation ==> a.suggestions
                == b.suggestions.push("💡 "@ + t) && a.suggestion_count == b.suggestion_count
                && a.findings == b.findings && a.warnings == b.warnings
            &&& t.len() > 0 && !warning && !suggestion && !weak && !recommendation ==> a.suggestions
                == b.suggestions && a.suggestion_count == b.suggestion_count && a.findings
                == b.findings && a.warnings == b.warnings
        }),
{
    assert(ls.push(line).drop_last() =~= ls);
}

/// Every warning and infection chkrootkit counts is among the flagged lines.
pub proof fn lemma_chkrootkit_counts(ls: Seq<Seq<char>>)
    ensures
        chkrootkit_tally(ls).1 + chkrootkit_tally(ls).2 <= chkrootkit_tally(ls).0.len(),
    decreases ls.len(),
{
    if ls.len() > 0 {
        lemma_chkrootkit_counts(ls.drop_last());
    }
}

/// The lines rkhunter flags are exactly its warnings and critical findings.
pub proof fn lemma_rkhunter_counts(ls: Seq<Seq<char>>)
    ensures
        rkhunter_tally(ls).1 + rkhunter_tally(ls).2 == rkhunter_tally(ls).0.len(),
    decreases ls.len(),
{
    if ls.len() > 0 {
        lemma_rkhunter_counts(ls.drop_last());
    }
}

/// The lines lynis flags are exactly its warnings, and every counted
/// suggestion is listed.
pub proof fn lemma_lynis_counts(ls: Seq<Seq<char>>)
    ensures
        lynis_tally(ls).warnings == lynis_tally(ls).findings.len(),
        lynis_tally(ls).suggestion_count <= lynis_tally(ls).suggestions.len(),
    decreases ls.len(),
{
    if ls.len() > 0 {
        lemma_lynis_counts(ls.drop_last());
    }
}

} // verus!
