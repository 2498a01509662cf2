//! The guardrail that holds an agent to the consent policies of the domains
//! its input mentions.
use vstd::prelude::*;
use crate::guardrails::{GuardrailResult, GuardrailView};
use crate::solid::consent::{asks, ConsentValue, DomainConsentPolicy};
use crate::solid::identity::{parse_url, url_parse};
use crate::text::{
    decimal, join, join_strings, owned, push_decimal, push_str, starts_with, starts_with_chars,
    to_chars,
};

verus! {

/// The pattern that picks URL candidates out of free text.
pub open spec fn url_pattern() -> Seq<char> {
    "https?://[^\\s<>\"')]+|www\\.[^\\s<>\"')]+"@
}

/// The non-overlapping matches of `pattern` in `text`, left to right, as the
/// `regex` crate finds them; `None` when `pattern` is not a valid expression.
pub uninterp spec fn regex_matches(pattern: Seq<char>, text: Seq<char>) -> Option<Seq<Seq<char>>>;

/// Compiles `pattern` with `regex::Regex::new` and collects `find_iter` over
/// `text`. What the matches are is named by `regex_matches`, a function of the
/// pattern and the text alone.
#[verifier::external_body]
fn find_matches(pattern: &str, text: &str) -> (r: Option<Vec<String>>)
    ensures
        match r {
            Some(v) => regex_matches(pattern@, text@) == Some(v@.map_values(|s: String| s@)),
            None => regex_matches(pattern@, text@) is None,
        },
{
    match regex::Regex::new(pattern) {
        Ok(re) => Some(re.find_iter(text).map(|m| m.as_str().to_string()).collect()),
        Err(_) => None,
    }
}

/// A candidate starting with `www.` gets an `https://` prefix.
pub open spec fn normalized_url(c: Seq<char>) -> Seq<char> {
    if starts_with(c, "www."@) {
        "https://"@ + c
    } else {
        c
    }
}

/// For each candidate that parses as a URL (after normalization), its domain.
pub open spec fn scanned_domains(cands: Seq<Seq<char>>) -> Seq<Option<Seq<char>>>
    decreases cands.len(),
{
    if cands.len() == 0 {
        seq![]
    } else {
        let prior = scanned_domains(cands.drop_last());
        match url_parse(normalized_url(cands.last())) {
            Some(u) => prior.push(u.1),
            None => prior,
        }
    }
}

/// The URLs mentioned in `text`: one entry per candidate that parses, holding
/// its domain when it has one.
pub open spec fn mentioned_urls(text: Seq<char>) -> Seq<Option<Seq<char>>> {
    match regex_matches(url_pattern(), text) {
        Some(cands) => scanned_domains(cands),
        None => seq![],
    }
}

/// Views of a sequence of optional strings.
pub open spec fn opt_views(v: Seq<Option<String>>) -> Seq<Option<Seq<char>>> {
    v.map_values(|o: Option<String>| match o {
        Some(s) => Some(s@),
        None => None,
    })
}

/// Finds the URLs in `text` and the domain of each.
pub fn scan_urls(text: &str) -> (r: Vec<Option<String>>)
    ensures
        opt_views(r@) == mentioned_urls(text@),
{
    let mut r: Vec<Option<String>> = Vec::new();
    let found = find_matches("https?://[^\\s<>\"')]+|www\\.[^\\s<>\"')]+", text);
    let cands = match found {
        Some(v) => v,
        None => {
            assert(opt_views(r@) =~= Seq::<Option<Seq<char>>>::empty());
            return r;
        },
    };
    let ghost cv = cands@.map_values(|s: String| s@);
    let mut i: usize = 0;
    while i < cands.len()
        invariant
            i <= cands@.len(),
            cv == cands@.map_values(|s: String| s@),
            opt_views(r@) == scanned_domains(cv.take(i as int)),
        decreases cands@.len() - i,
    {
        let c = to_chars(cands[i].as_str());
        let www = to_chars("www.");
        let url = if starts_with_chars(c.as_slice(), www.as_slice()) {
            let mut u = owned("https://");
            push_str(&mut u, cands[i].as_str());
            u
        } else {
            owned(cands[i].as_str())
        };
        proof {
            assert(cv.take(i + 1).drop_last() =~= cv.take(i as int));
            assert(cv.take(i + 1).last() == cands@[i as int]@);
            assert(url@ == normalized_url(cands@[i as int]@));
        }
        let ghost before = r@;
        match parse_url(url.as_str()) {
            Some(u) => {
                let d = u.domain;
                r.push(d);
                assert(opt_views(r@) =~= opt_views(before).push(
                    match d {
                        Some(s) => Some(s@),
                        None => None,
                    },
                ));
            },
            None => {},
        }
        i = i + 1;
    }
    assert(cv.take(cands@.len() as int) =~= cv);
    r
}

/// Reasoning given when a domain is fully blocked.
pub open spec fn blocked_reasoning(domain: Seq<char>) -> Seq<char> {
    "Domain '"@ + domain
        + "' is blocked by user consent policy. All cookie categories (essential, functional, analytics, advertising) are denied. Agent is not permitted to access this domain."@
}

/// Suggestion given when a domain is fully blocked.
pub open spec fn blocked_suggestion(domain: Seq<char>) -> Seq<char> {
    "Remove references to '"@ + domain
        + "' or ask user to update consent manifest at their Pod."@
}

/// Reasoning given when a domain needs the user's approval.
pub open spec fn approval_reasoning(domain: Seq<char>, categories: Seq<Seq<char>>) -> Seq<char> {
    "Domain '"@ + domain + "' requires user consent approval for: "@ + join(categories, ", "@)
        + ". Cannot proceed without explicit user permission."@
}

/// Suggestion given when a domain needs the user's approval.
pub open spec fn approval_suggestion(domain: Seq<char>) -> Seq<char> {
    "Request user approval for accessing '"@ + domain + "' or update consent manifest."@
}

/// The outcome that one domain's policy forces, if any.
pub open spec fn forced_outcome(domain: Seq<char>, policy: DomainConsentPolicy) -> Option<
    GuardrailView,
> {
    if policy.blocked() {
        Some((false, true, blocked_reasoning(domain), Some(blocked_suggestion(domain))))
    } else if policy.needs_approval() {
        Some(
            (
                false,
                false,
                approval_reasoning(domain, policy.asking_categories()),
                Some(approval_suggestion(domain)),
            ),
        )
    } else {
        None
    }
}

/// A domain needs the user's approval exactly when one of its four
/// categories asks the user; the categories named in the approval request are
/// exactly those that ask. Such a domain, unless every category is denied,
/// fails the guardrail without tripping it; a domain where no category asks
/// and not all are denied lets the scan go on; a fully denied one trips it.
pub proof fn lemma_consent_outcomes(domain: Seq<char>, p: DomainConsentPolicy)
    ensures
        ({
            let ask = ConsentValue::AskUser;
            let any_ask = p.essential == ask || p.functional == ask || p.analytics == ask
                || p.advertising == ask;
            let all_denied = p.essential == ConsentValue::Deny && p.functional == ConsentValue::Deny
                && p.analytics == ConsentValue::Deny && p.advertising == ConsentValue::Deny;
            &&& p.needs_approval() <==> any_ask
            &&& p.asking_categories().len() > 0 <==> any_ask
            &&& p.asking_categories().contains("essential"@) <==> p.essential == ask
            &&& p.asking_categories().contains("functional"@) <==> p.functional == ask
            &&& p.asking_categories().contains("analytics"@) <==> p.analytics == ask
            &&& p.asking_categories().contains("advertising"@) <==> p.advertising == ask
            &&& all_denied ==> (forced_outcome(domain, p) matches Some(g) && !g.0 && g.1)
            &&& any_ask ==> (forced_outcome(domain, p) matches Some(g) && !g.0 && !g.1 && g.2
                == approval_reasoning(domain, p.asking_categories()))
            &&& !any_ask && !all_denied ==> forced_outcome(domain, p) is None
        }),
{
    reveal_strlit("essential");
    reveal_strlit("functional");
    reveal_strlit("analytics");
    reveal_strlit("advertising");
    let c = p.asking_categories();
    let names = seq!["essential"@, "functional"@, "analytics"@, "advertising"@];
    assert(names[0][0] != names[1][0] && names[0][0] != names[2][0] && names[0][0] != names[3][0]);
    assert(names[1][0] != names[2][0] && names[1][0] != names[3][0] && names[2][1] != names[3][1]);
    assert forall|x: Seq<char>| c.contains(x) implies (x == names[0] && p.essential == ConsentValue::AskUser)
        || (x == names[1] && p.functional == ConsentValue::AskUser) || (x == names[2] && p.analytics
        == ConsentValue::AskUser) || (x == names[3] && p.advertising == ConsentValue::AskUser) by {
        let i = choose|i: int| 0 <= i < c.len() && c[i] == x;
        let a = asks(p.essential, names[0]);
        let b = asks(p.functional, names[1]);
        let d = asks(p.analytics, names[2]);
        let e = asks(p.advertising, names[3]);
        assert(c == a + b + d + e);
        if i < a.len() {
            assert(c[i] == a[i]);
        } else if i < a.len() + b.len() {
            assert(c[i] == b[i - a.len()]);
        } else if i < a.len() + b.len() + d.len() {
            assert(c[i] == d[i - a.len() - b.len()]);
        } else {
            assert(c[i] == e[i - a.len() - b.len() - d.len()]);
        }
    }
    let a = asks(p.essential, names[0]);
    let b = asks(p.functional, names[1]);
    let d = asks(p.analytics, names[2]);
    let e = asks(p.advertising, names[3]);
    if p.essential == ConsentValue::AskUser {
        assert(c[0] == names[0]);
    }
    if p.functional == ConsentValue::AskUser {
        assert(c[a.len() as int] == names[1]);
    }
    if p.analytics == ConsentValue::AskUser {
        assert(c[(a.len() + b.len()) as int] == names[2]);
    }
    if p.advertising == ConsentValue::AskUser {
        assert(c[(a.len() + b.len() + d.len()) as int] == names[3]);
    }
}

/// Decides the guardrail outcome that one domain's policy forces: a blocked
/// domain trips the guardrail, a domain needing approval fails it, and any
/// other domain lets the scan go on (`None`).
pub fn consent_verdict(domain: &str, policy: &DomainConsentPolicy) -> (r: Option<GuardrailResult>)
    ensures
        match r {
            Some(g) => forced_outcome(domain@, *policy) == Some(g@),
            None => forced_outcome(domain@, *policy) is None,
        },
{
    if policy.is_blocked() {
        let mut reasoning = owned("Domain '");
        push_str(&mut reasoning, domain);
        push_str(
            &mut reasoning,
            "' is blocked by user consent policy. All cookie categories (essential, functional, analytics, advertising) are denied. Agent is not permitted to access this domain.",
        );
        let mut suggestion = owned("Remove references to '");
        push_str(&mut suggestion, domain);
        push_str(&mut suggestion, "' or ask user to update consent manifest at their Pod.");
        return Some(GuardrailResult::tripwire(reasoning).with_suggestion(suggestion));
    }
    if policy.requires_user_approval() {
        let unconfigured = policy.unconfigured_categories();
        let mut reasoning = owned("Domain '");
        push_str(&mut reasoning, domain);
        push_str(&mut reasoning, "' requires user consent approval for: ");
        let joined = join_strings(&unconfigured, ", ");
        push_str(&mut reasoning, joined.as_str());
        push_str(&mut reasoning, ". Cannot proceed without explicit user permission.");
        let mut suggestion = owned("Request user approval for accessing '");
        push_str(&mut suggestion, domain);
        push_str(&mut suggestion, "' or update consent manifest.");
        return Some(GuardrailResult::fail(reasoning).with_suggestion(suggestion));
    }
    None
}

/// The passing result when the input names no URL.
pub fn no_urls_result() -> (r: GuardrailResult)
    ensures
        r.passed,
        !r.tripwire_triggered,
        r.reasoning@ == "No URLs detected in input"@,
        r.suggested_modification is None,
{
    GuardrailResult::pass(owned("No URLs detected in input"))
}

/// The passing result when every one of `count` URLs complies.
pub fn all_urls_comply(count: usize) -> (r: GuardrailResult)
    ensures
        r.passed,
        !r.tripwire_triggered,
        r.reasoning@ == "All "@ + decimal(count as nat) + " URL(s) comply with user consent policy"@,
        r.suggested_modification is None,
{
    let mut reasoning = owned("All ");
    push_decimal(&mut reasoning, count);
    push_str(&mut reasoning, " URL(s) comply with user consent policy");
    GuardrailResult::pass(reasoning)
}

} // verus!
