use spai::scans::{summarize_chkrootkit, summarize_lynis, summarize_rkhunter};
use spai::text::{truncate, truncate_str, truncate_string};

#[test]
fn chkrootkit_flags_infections_and_warnings() {
    let out = "Checking `amd':    not found\nChecking `ls': not infected\n\nSearching for suspicious files... nothing found\n";
    let (summary, findings) = summarize_chkrootkit(out);
    assert_eq!(
        summary,
        "🔴 CRITICAL: chkrootkit detected 1 infection(s) and 2 warning(s). Immediate review required!"
    );
    assert_eq!(
        findings,
        vec![
            "🟡 Checking `amd':    not found".to_string(),
            "🔴 Checking `ls': not infected".to_string(),
            "🟡 Searching for suspicious files... nothing found".to_string(),
        ]
    );
}

#[test]
fn chkrootkit_clean_run() {
    let (summary, findings) = summarize_chkrootkit("ROOTDIR is `/'\n   \nChecking `basename'... done\n");
    assert_eq!(summary, "✅ chkrootkit scan completed. No obvious infections or warnings detected.");
    assert!(findings.is_empty());
}

#[test]
fn chkrootkit_informational_only() {
    let (summary, findings) = summarize_chkrootkit("  Found some files  \r\n");
    assert_eq!(summary, "ℹ️  chkrootkit completed with 1 informational finding(s).");
    assert_eq!(findings, vec!["ℹ️  Found some files".to_string()]);
}

#[test]
fn rkhunter_counts_critical_and_warnings() {
    let out = "Checking for rootkits [ Warning ]\n/usr/bin/ls [ OK ]\nPossible rootkit: Xzibit found\nFile properties have changed\n";
    let (summary, findings) = summarize_rkhunter(out);
    assert_eq!(
        summary,
        "🔴 CRITICAL: rkhunter detected 1 critical issue(s) and 2 warning(s). Immediate review required!"
    );
    assert_eq!(findings.len(), 3);
    assert_eq!(findings[1], "🔴 Possible rootkit: Xzibit found");
}

#[test]
fn rkhunter_warnings_only() {
    let (summary, findings) = summarize_rkhunter("Checking /dev [ Warning ]\n");
    assert_eq!(summary, "🟡 rkhunter flagged 1 warning(s). Review recommended.");
    assert_eq!(findings, vec!["🟡 Checking /dev [ Warning ]".to_string()]);
}

#[test]
fn rkhunter_clean_run() {
    let (summary, findings) = summarize_rkhunter("System checks summary\n[ OK ]\n");
    assert_eq!(summary, "✅ rkhunter scan completed. No warnings or infections detected.");
    assert!(findings.is_empty());
}

#[test]
fn lynis_reads_warnings_suggestions_and_index() {
    let out = "  Hardening index : 67 [#############       ]\n  Warning: ssh [SSH-7408]\n  Suggestion: install fail2ban [DEB-0880]\n  Consider hardening, see recommendation\n";
    let (summary, findings, suggestions, index) = summarize_lynis(out);
    assert_eq!(
        summary,
        "🟡 lynis found 1 warning(s) and 1 suggestion(s). Review recommended for security hardening."
    );
    assert_eq!(findings, vec!["🟡 Warning: ssh [SSH-7408]".to_string()]);
    assert_eq!(
        suggestions,
        vec![
            "💡 Suggestion: install fail2ban [DEB-0880]".to_string(),
            "💡 Consider hardening, see recommendation".to_string(),
        ]
    );
    assert_eq!(index, Some("[#############       ]".to_string()));
}

#[test]
fn lynis_suggestions_only_and_clean() {
    let (summary, _, _, index) = summarize_lynis("Suggestion: enable auditd [ACCT-9628]\n");
    assert_eq!(summary, "ℹ️  lynis completed with 1 suggestion(s) for improvement.");
    assert_eq!(index, None);
    let (clean, f, s, _) = summarize_lynis("all good\n");
    assert_eq!(clean, "✅ lynis audit completed. System appears well-configured with no major warnings.");
    assert!(f.is_empty() && s.is_empty());
}

#[test]
fn truncate_marks_the_cut() {
    assert_eq!(truncate("abcdef", 3), "abc\n...[truncated]...");
    assert_eq!(truncate("abc", 5), "abc");
    assert_eq!(truncate("abc", 3), "abc");
}

#[test]
fn truncate_string_keeps_room_for_the_ellipsis() {
    assert_eq!(truncate_string("abcdefgh", 5), "ab...");
    assert_eq!(truncate_string("ab", 1), "...");
    assert_eq!(truncate_string("short", 10), "short");
    assert_eq!(truncate_str("abcdefgh", 6), "abc...");
}

#[test]
fn chkrootkit_verdict_marks() {
    let (clean, _) = summarize_chkrootkit("nothing to see\n");
    assert!(clean.starts_with("✅"));
    let (critical, _) = summarize_chkrootkit("INFECTED: bad\n");
    assert!(critical.starts_with("🔴 CRITICAL"));
    let (warned, _) = summarize_chkrootkit("Warning: odd\n");
    assert!(!warned.starts_with("✅") && !warned.starts_with("🔴 CRITICAL"));
}
