//! The router pattern: a router agent names the specialist that should
//! answer, and that specialist answers. This module holds the prompts and the
//! reading of the router's decision.
use vstd::prelude::*;
use crate::text::{contains, join, join_strings, lowercase, owned, push_str, str_contains, to_chars, to_lowercase};

verus! {

/// How `Debug` renders a string: quoted, with special chars escaped.
pub uninterp spec fn debug_quoted(s: Seq<char>) -> Seq<char>;

/// Renders `s` with `format!("{:?}", s)`; the result depends on `s` alone.
#[verifier::external_body]
fn debug_quote(s: &str) -> (r: String)
    ensures
        r@ == debug_quoted(s@),
{
    format!("{:?}", s)
}

/// How `Debug` renders a list of domain names.
pub open spec fn debug_list(domains: Seq<Seq<char>>) -> Seq<char> {
    "["@ + join(domains.map_values(|d: Seq<char>| debug_quoted(d)), ", "@) + "]"@
}

/// The prompt of the router agent.
pub open spec fn routing_prompt(domains: Seq<Seq<char>>, input: Seq<char>) -> Seq<char> {
    "You are a routing agent. Analyze this request and determine which specialist should handle it.\n\nAvailable specialists: "@
        + debug_list(domains) + "\n\nRequest: "@ + input
        + "\n\nRespond with the domain you're routing to in the format: 'Route to [domain]'"@
}

/// The prompt of the chosen specialist.
pub open spec fn specialist_prompt(domain: Seq<char>, input: Seq<char>) -> Seq<char> {
    "You are a "@ + domain + " specialist. Handle this request:\n\n"@ + input
}

/// The answer when no specialist was named.
pub open spec fn unrouted_answer(router_answer: Seq<char>) -> Seq<char> {
    "No specialist matched. Router response:\n\n"@ + router_answer
}

/// The lower-cased answer names `domain` explicitly.
pub open spec fn names_explicitly(lower: Seq<char>, domain: Seq<char>) -> bool {
    let d = lowercase(domain);
    ||| contains(lower, "route to "@ + d)
    ||| contains(lower, "routing to "@ + d)
    ||| contains(lower, "specialist: "@ + d)
    ||| contains(lower, "domain: "@ + d)
}

/// The lower-cased answer mentions `domain`.
pub open spec fn mentions(lower: Seq<char>, domain: Seq<char>) -> bool {
    contains(lower, lowercase(domain))
}

/// Index of the first domain that the answer names explicitly, or the
/// number of domains.
pub open spec fn first_explicit(lower: Seq<char>, domains: Seq<Seq<char>>) -> int
    decreases domains.len(),
{
    if domains.len() == 0 {
        0
    } else if names_explicitly(lower, domains[0]) {
        0
    } else {
        1 + first_explicit(lower, domains.drop_first())
    }
}

/// Index of the first domain that the answer mentions, or the number of
/// domains.
pub open spec fn first_mentioned(lower: Seq<char>, domains: Seq<Seq<char>>) -> int
    decreases domains.len(),
{
    if domains.len() == 0 {
        0
    } else if mentions(lower, domains[0]) {
        0
    } else {
        1 + first_mentioned(lower, domains.drop_first())
    }
}

/// The domain the router's answer chooses: the first domain it names
/// explicitly, else the first it mentions, else none.
pub open spec fn routed_domain(answer: Seq<char>, domains: Seq<Seq<char>>) -> Option<Seq<char>> {
    let lower = lowercase(answer);
    let e = first_explicit(lower, domains);
    let m = first_mentioned(lower, domains);
    if e < domains.len() {
        Some(domains[e])
    } else if m < domains.len() {
        Some(domains[m])
    } else {
        None
    }
}

proof fn lemma_first_explicit(lower: Seq<char>, domains: Seq<Seq<char>>, i: int)
    requires
        0 <= i <= domains.len(),
        i < domains.len() ==> names_explicitly(lower, domains[i]),
        forall|j: int| 0 <= j < i ==> !names_explicitly(lower, #[trigger] domains[j]),
    ensures
        first_explicit(lower, domains) == i,
    decreases domains.len(),
{
    if domains.len() > 0 && i > 0 {
        let d = domains.drop_first();
        assert forall|j: int| 0 <= j < i - 1 implies !names_explicitly(lower, #[trigger] d[j]) by {
            assert(d[j] == domains[j + 1]);
        }
        lemma_first_explicit(lower, d, i - 1);
    }
}

proof fn lemma_first_mentioned(lower: Seq<char>, domains: Seq<Seq<char>>, i: int)
    requires
        0 <= i <= domains.len(),
        i < domains.len() ==> mentions(lower, domains[i]),
        forall|j: int| 0 <= j < i ==> !mentions(lower, #[trigger] domains[j]),
    ensures
        first_mentioned(lower, domains) == i,
    decreases domains.len(),
{
    if domains.len() > 0 && i > 0 {
        let d = domains.drop_first();
        assert forall|j: int| 0 <= j < i - 1 implies !mentions(lower, #[trigger] d[j]) by {
            assert(d[j] == domains[j + 1]);
        }
        lemma_first_mentioned(lower, d, i - 1);
    }
}

fn names_explicitly_exec(lower: &Vec<char>, domain: &str) -> (b: bool)
    ensures
        b == names_explicitly(lower@, domain@),
{
    let d = to_lowercase(domain);
    let mut a = owned("route to ");
    push_str(&mut a, d.as_str());
    let mut b = owned("routing to ");
    push_str(&mut b, d.as_str());
    let mut c = owned("specialist: ");
    push_str(&mut c, d.as_str());
    let mut e = owned("domain: ");
    push_str(&mut e, d.as_str());
    str_contains(lower.as_slice(), a.as_str()) || str_contains(lower.as_slice(), b.as_str())
        || str_contains(lower.as_slice(), c.as_str()) || str_contains(lower.as_slice(), e.as_str())
}

/// The specialist domain chosen by the router's answer, looked up among
/// `domains` in order.
pub fn parse_routing(router_output: &str, domains: &Vec<String>) -> (r: Option<String>)
    ensures
        match r {
            Some(d) => routed_domain(router_output@, domains@.map_values(|s: String| s@)) == Some(d@),
            None => routed_domain(router_output@, domains@.map_values(|s: String| s@)) is None,
        },
{
    let ghost dv = domains@.map_values(|s: String| s@);
    let lower_s = to_lowercase(router_output);
    let lower = to_chars(lower_s.as_str());
    let mut i: usize = 0;
    while i < domains.len()
        invariant
            i <= dv.len(),
            dv == domains@.map_values(|s: String| s@),
            lower@ == lowercase(router_output@),
            forall|j: int| 0 <= j < i ==> !names_explicitly(lower@, #[trigger] dv[j]),
        decreases dv.len() - i,
    {
        if names_explicitly_exec(&lower, domains[i].as_str()) {
            proof {
                lemma_first_explicit(lower@, dv, i as int);
            }
            return Some(domains[i].clone());
        }
        i = i + 1;
    }
    proof {
        lemma_first_explicit(lower@, dv, dv.len() as int);
    }
    let mut k: usize = 0;
    while k < domains.len()
        invariant
            k <= dv.len(),
            dv == domains@.map_values(|s: String| s@),
            lower@ == lowercase(router_output@),
            first_explicit(lower@, dv) == dv.len(),
            forall|j: int| 0 <= j < k ==> !mentions(lower@, #[trigger] dv[j]),
        decreases dv.len() - k,
    {
        let d = to_lowercase(domains[k].as_str());
        if str_contains(lower.as_slice(), d.as_str()) {
            proof {
                lemma_first_mentioned(lower@, dv, k as int);
            }
            return Some(domains[k].clone());
        }
        k = k + 1;
    }
    proof {
        lemma_first_mentioned(lower@, dv, dv.len() as int);
    }
    None
}

/// Builds the prompt of the router agent.
pub fn make_routing_prompt(domains: &Vec<String>, input: &str) -> (r: String)
    ensures
        r@ == routing_prompt(domains@.map_values(|s: String| s@), input@),
{
    let ghost dv = domains@.map_values(|s: String| s@);
    let mut quoted: Vec<String> = Vec::new();
    let mut i: usize = 0;
    while i < domains.len()
        invariant
            i <= dv.len(),
            dv == domains@.map_values(|s: String| s@),
            quoted@.map_values(|s: String| s@) == dv.map_values(|d: Seq<char>| debug_quoted(d)).take(
                i as int,
            ),
        decreases dv.len() - i,
    {
        let ghost before = quoted@.map_values(|s: String| s@);
        quoted.push(debug_quote(domains[i].as_str()));
        assert(quoted@.map_values(|s: String| s@) =~= before.push(debug_quoted(dv[i as int])));
        assert(dv.map_values(|d: Seq<char>| debug_quoted(d)).take(i + 1) =~= dv.map_values(
            |d: Seq<char>| debug_quoted(d),
        ).take(i as int).push(debug_quoted(dv[i as int])));
        i = i + 1;
    }
    assert(dv.map_values(|d: Seq<char>| debug_quoted(d)).take(dv.len() as int) =~= dv.map_values(
        |d: Seq<char>| debug_quoted(d),
    ));
    let list = join_strings(&quoted, ", ");
    let mut s = owned(
        "You are a routing agent. Analyze this request and determine which specialist should handle it.\n\nAvailable specialists: ",
    );
    push_str(&mut s, "[");
    push_str(&mut s, list.as_str());
    push_str(&mut s, "]");
    push_str(&mut s, "\n\nRequest: ");
    push_str(&mut s, input);
    push_str(&mut s, "\n\nRespond with the domain you're routing to in the format: 'Route to [domain]'");
    s
}

/// Builds the prompt of a specialist.
pub fn make_specialist_prompt(domain: &str, input: &str) -> (r: String)
    ensures
        r@ == specialist_prompt(domain@, input@),
{
    let mut s = owned("You are a ");
    push_str(&mut s, domain);
    push_str(&mut s, " specialist. Handle this request:\n\n");
    push_str(&mut s, input);
    s
}

/// Builds the answer given when no specialist was named.
pub fn make_unrouted_answer(router_answer: &str) -> (r: String)
    ensures
        r@ == unrouted_answer(router_answer@),
{
    let mut s = owned("No specialist matched. Router response:\n\n");
    push_str(&mut s, router_answer);
    s
}

/// The reason of the handoff that routes a request to a specialist.
pub fn routing_reason(domain: &str) -> (r: String)
    ensures
        r@ == "Routing to "@ + domain@ + " specialist"@,
{
    let mut s = owned("Routing to ");
    push_str(&mut s, domain);
    push_str(&mut s, " specialist");
    s
}

/// A domain that the router's answer names explicitly is chosen over any
/// domain it merely mentions, and the chosen domain is always one of the
/// given domains.
pub proof fn lemma_routing_choice(answer: Seq<char>, domains: Seq<Seq<char>>, i: int)
    requires
        0 <= i < domains.len(),
        names_explicitly(lowercase(answer), domains[i]),
    ensures
        routed_domain(answer, domains) is Some,
        names_explicitly(lowercase(answer), routed_domain(answer, domains)->0),
        domains.contains(routed_domain(answer, domains)->0),
{
    lemma_first_bound(lowercase(answer), domains, i);
}

/// The router's answer (lower-cased) names a domain explicitly when it
/// says `route to `, `routing to `, `specialist: ` or `domain: ` followed
/// by the lower-cased domain. The answer is routed to the first domain so
/// named; when none is, to the first domain it contains; when it contains
/// none, to no domain.
pub proof fn lemma_routing_rules(answer: Seq<char>, domains: Seq<Seq<char>>)
    ensures
        ({
            let lower = lowercase(answer);
            let named = |d: Seq<char>|
                contains(lower, "route to "@ + lowercase(d)) || contains(
                    lower,
                    "routing to "@ + lowercase(d),
                ) || contains(lower, "specialist: "@ + lowercase(d)) || contains(
                    lower,
                    "domain: "@ + lowercase(d),
                );
            &&& forall|i: int|
                0 <= i < domains.len() && named(#[trigger] domains[i]) && (forall|j: int|
                    0 <= j < i ==> !named(domains[j])) ==> routed_domain(answer, domains) == Some(
                    domains[i],
                )
            &&& forall|i: int|
                0 <= i < domains.len() && (forall|j: int| 0 <= j < domains.len() ==> !named(domains[j]))
                    && contains(lower, lowercase(#[trigger] domains[i])) && (forall|j: int|
                    0 <= j < i ==> !contains(lower, lowercase(domains[j]))) ==> routed_domain(
                    answer,
                    domains,
                ) == Some(domains[i])
            &&& (forall|j: int|
                0 <= j < domains.len() ==> !named(domains[j]) && !contains(lower, lowercase(domains[j])))
                ==> routed_domain(answer, domains) is None
        }),
{
    let lower = lowercase(answer);
    lemma_first_explicit_at(lower, domains);
    lemma_first_mentioned_at(lower, domains);
}

proof fn lemma_first_explicit_at(lower: Seq<char>, domains: Seq<Seq<char>>)
    ensures
        0 <= first_explicit(lower, domains) <= domains.len(),
        forall|j: int| 0 <= j < first_explicit(lower, domains) ==> !names_explicitly(lower, #[trigger] domains[j]),
        first_explicit(lower, domains) < domains.len() ==> names_explicitly(
            lower,
            domains[first_explicit(lower, domains)],
        ),
    decreases domains.len(),
{
    if domains.len() > 0 && !names_explicitly(lower, domains[0]) {
        let d = domains.drop_first();
        lemma_first_explicit_at(lower, d);
        assert forall|j: int| 0 <= j < first_explicit(lower, domains) implies !names_explicitly(
            lower,
            #[trigger] domains[j],
        ) by {
            if j > 0 {
                assert(domains[j] == d[j - 1]);
            }
        }
        if first_explicit(lower, d) < d.len() {
            assert(d[first_explicit(lower, d)] == domains[first_explicit(lower, domains)]);
        }
    }
}

proof fn lemma_first_mentioned_at(lower: Seq<char>, domains: Seq<Seq<char>>)
    ensures
        0 <= first_mentioned(lower, domains) <= domains.len(),
        forall|j: int| 0 <= j < first_mentioned(lower, domains) ==> !mentions(lower, #[trigger] domains[j]),
        first_mentioned(lower, domains) < domains.len() ==> mentions(
            lower,
            domains[first_mentioned(lower, domains)],
        ),
    decreases domains.len(),
{
    if domains.len() > 0 && !mentions(lower, domains[0]) {
        let d = domains.drop_first();
        lemma_first_mentioned_at(lower, d);
        assert forall|j: int| 0 <= j < first_mentioned(lower, domains) implies !mentions(
            lower,
            #[trigger] domains[j],
        ) by {
            if j > 0 {
                assert(domains[j] == d[j - 1]);
            }
        }
        if first_mentioned(lower, d) < d.len() {
            assert(d[first_mentioned(lower, d)] == domains[first_mentioned(lower, domains)]);
        }
    }
}

proof fn lemma_first_bound(lower: Seq<char>, domains: Seq<Seq<char>>, i: int)
    requires
        0 <= i < domains.len(),
        names_explicitly(lower, domains[i]),
    ensures
        0 <= first_explicit(lower, domains) <= i,
        names_explicitly(lower, domains[first_explicit(lower, domains)]),
    decreases domains.len(),
{
    if i > 0 && !names_explicitly(lower, domains[0]) {
        let d = domains.drop_first();
        assert(d[i - 1] == domains[i]);
        lemma_first_bound(lower, d, i - 1);
        assert(d[first_explicit(lower, d)] == domains[first_explicit(lower, domains)]);
    }
}

} // verus!
