//! Consent policies for the cookie and beacon categories of web domains.
use vstd::prelude::*;
use crate::solid::identity::ParsedUrl;
use crate::text::{owned, push_str, str_eq, trim_trailing_slashes, without_trailing_slashes};

verus! {

/// Consent value for a cookie/beacon category.
#[derive(Debug, Clone, Copy, PartialEq, Eq, Structural)]
pub enum ConsentValue {
    /// Allow this category.
    Allow,
    /// Deny this category.
    Deny,
    /// Ask the user for permission.
    AskUser,
}

/// The consent value that a literal names; anything unknown denies.
pub open spec fn consent_of(s: Seq<char>) -> ConsentValue {
    if s == "Allow"@ || s == "allow"@ || s == "ALLOW"@ {
        ConsentValue::Allow
    } else if s == "Deny"@ || s == "deny"@ || s == "DENY"@ {
        ConsentValue::Deny
    } else if s == "AskUser"@ || s == "askUser"@ || s == "ASK_USER"@ {
        ConsentValue::AskUser
    } else {
        ConsentValue::Deny
    }
}

/// The consent literals: `Allow`, `allow` and `ALLOW` allow; `Deny`,
/// `deny` and `DENY` deny; `AskUser`, `askUser` and `ASK_USER` ask the user;
/// every other text denies.
pub proof fn lemma_consent_literals(s: Seq<char>)
    ensures
        (s == "Allow"@ || s == "allow"@ || s == "ALLOW"@) ==> consent_of(s) == ConsentValue::Allow,
        (s == "AskUser"@ || s == "askUser"@ || s == "ASK_USER"@) ==> consent_of(s)
            == ConsentValue::AskUser,
        !(s == "Allow"@ || s == "allow"@ || s == "ALLOW"@ || s == "AskUser"@ || s == "askUser"@
            || s == "ASK_USER"@) ==> consent_of(s) == ConsentValue::Deny,
{
    reveal_strlit("Allow");
    reveal_strlit("allow");
    reveal_strlit("ALLOW");
    reveal_strlit("Deny");
    reveal_strlit("deny");
    reveal_strlit("DENY");
    reveal_strlit("AskUser");
    reveal_strlit("askUser");
    reveal_strlit("ASK_USER");
    if s == "AskUser"@ || s == "askUser"@ || s == "ASK_USER"@ {
        assert(s != "Allow"@ && s != "allow"@ && s != "ALLOW"@) by {
            assert(s[1] != "Allow"@[1]);
            assert(s[1] != "allow"@[1]);
            assert(s[1] != "ALLOW"@[1]);
        }
        assert(s != "Deny"@ && s != "deny"@ && s != "DENY"@) by {
            assert(s[0] != "Deny"@[0]);
            assert(s[0] != "deny"@[0]);
            assert(s[0] != "DENY"@[0]);
        }
    }
}

impl ConsentValue {
    /// Parses a consent literal; unknown literals deny, for safety.
    pub fn from_str(s: &str) -> (r: ConsentValue)
        ensures
            r == consent_of(s@),
    {
        if str_eq(s, "Allow") || str_eq(s, "allow") || str_eq(s, "ALLOW") {
            ConsentValue::Allow
        } else if str_eq(s, "Deny") || str_eq(s, "deny") || str_eq(s, "DENY") {
            ConsentValue::Deny
        } else if str_eq(s, "AskUser") || str_eq(s, "askUser") || str_eq(s, "ASK_USER") {
            ConsentValue::AskUser
        } else {
            ConsentValue::Deny
        }
    }

    /// The consent value of a query binding: a literal is parsed, a missing
    /// binding (or one that is not a literal) denies.
    pub fn from_binding(literal: Option<&str>) -> (r: ConsentValue)
        ensures
            r == (match literal {
                Some(s) => consent_of(s@),
                None => ConsentValue::Deny,
            }),
    {
        match literal {
            Some(s) => ConsentValue::from_str(s),
            None => ConsentValue::Deny,
        }
    }
}

/// Consent policy of one domain.
#[derive(Debug, Clone)]
pub struct DomainConsentPolicy {
    /// Domain name.
    pub domain: String,
    /// Essential cookies (login, cart, ...).
    pub essential: ConsentValue,
    /// Functional cookies (preferences, language).
    pub functional: ConsentValue,
    /// Analytics cookies (tracking, metrics).
    pub analytics: ConsentValue,
    /// Advertising cookies (personalization, cross-site).
    pub advertising: ConsentValue,
}

/// The category name when its value asks the user, else nothing.
pub open spec fn asks(v: ConsentValue, name: Seq<char>) -> Seq<Seq<char>> {
    if v == ConsentValue::AskUser {
        seq![name]
    } else {
        seq![]
    }
}

impl DomainConsentPolicy {
    /// Every category is denied.
    pub open spec fn blocked(&self) -> bool {
        &&& self.essential == ConsentValue::Deny
        &&& self.functional == ConsentValue::Deny
        &&& self.analytics == ConsentValue::Deny
        &&& self.advertising == ConsentValue::Deny
    }

    /// Some category asks the user.
    pub open spec fn needs_approval(&self) -> bool {
        ||| self.essential == ConsentValue::AskUser
        ||| self.functional == ConsentValue::AskUser
        ||| self.analytics == ConsentValue::AskUser
        ||| self.advertising == ConsentValue::AskUser
    }

    /// Names of the categories that ask the user, in declaration order.
    pub open spec fn asking_categories(&self) -> Seq<Seq<char>> {
        asks(self.essential, "essential"@) + asks(self.functional, "functional"@) + asks(
            self.analytics,
            "analytics"@,
        ) + asks(self.advertising, "advertising"@)
    }

    /// Whether the domain is completely blocked.
    pub fn is_blocked(&self) -> (b: bool)
        ensures
            b == self.blocked(),
    {
        self.essential == ConsentValue::Deny && self.functional == ConsentValue::Deny
            && self.analytics == ConsentValue::Deny && self.advertising == ConsentValue::Deny
    }

    /// Whether any category requires user approval.
    pub fn requires_user_approval(&self) -> (b: bool)
        ensures
            b == self.needs_approval(),
    {
        self.essential == ConsentValue::AskUser || self.functional == ConsentValue::AskUser
            || self.analytics == ConsentValue::AskUser || self.advertising
            == ConsentValue::AskUser
    }

    /// Categories that require user approval, in declaration order.
    pub fn unconfigured_categories(&self) -> (r: Vec<String>)
        ensures
            r@.map_values(|s: String| s@) == self.asking_categories(),
    {
        let mut categories: Vec<String> = Vec::new();
        if self.essential == ConsentValue::AskUser {
            categories.push(owned("essential"));
        }
        if self.functional == ConsentValue::AskUser {
            categories.push(owned("functional"));
        }
        if self.analytics == ConsentValue::AskUser {
            categories.push(owned("analytics"));
        }
        if self.advertising == ConsentValue::AskUser {
            categories.push(owned("advertising"));
        }
        assert(categories@.map_values(|s: String| s@) =~= self.asking_categories());
        categories
    }

    /// The policy used where the manifest holds none for a domain: essential
    /// cookies allowed, everything else denied.
    pub fn fallback(domain: String) -> (p: DomainConsentPolicy)
        ensures
            p.domain@ == domain@,
            p.essential == ConsentValue::Allow,
            p.functional == ConsentValue::Deny,
            p.analytics == ConsentValue::Deny,
            p.advertising == ConsentValue::Deny,
    {
        DomainConsentPolicy {
            domain,
            essential: ConsentValue::Allow,
            functional: ConsentValue::Deny,
            analytics: ConsentValue::Deny,
            advertising: ConsentValue::Deny,
        }
    }
}

/// The text of the SPARQL query that selects the policy of `domain` (the
/// domain is inserted as it is, between quotes).
pub open spec fn policy_query_text(domain: Seq<char>) -> Seq<char> {
    "\n            PREFIX consent: <https://w3id.org/consent#>\n\n            SELECT ?essential ?functional ?analytics ?advertising\n            WHERE {\n                ?policy a consent:DomainConsent ;\n                        consent:domain \""@ + domain + "\" ;\n                        consent:essential ?essential ;\n                        consent:functional ?functional ;\n                        consent:analytics ?analytics ;\n                        consent:advertising ?advertising .\n            }\n            "@
}

/// The SPARQL query that selects the four consent values of `domain`.
pub fn policy_query(domain: &str) -> (q: String)
    ensures
        q@ == policy_query_text(domain@),
{
    let mut q = owned("\n            PREFIX consent: <https://w3id.org/consent#>\n\n            SELECT ?essential ?functional ?analytics ?advertising\n            WHERE {\n                ?policy a consent:DomainConsent ;\n                        consent:domain \"");
    push_str(&mut q, domain);
    push_str(&mut q, "\" ;\n                        consent:essential ?essential ;\n                        consent:functional ?functional ;\n                        consent:analytics ?analytics ;\n                        consent:advertising ?advertising .\n            }\n            ");
    q
}

/// Where the consent manifest of a Pod lives.
pub fn manifest_url(pod_iri: &str) -> (u: String)
    ensures
        u@ == trim_trailing_slashes(pod_iri@) + "/consents/browser-agent.ttl"@,
{
    let mut u = without_trailing_slashes(pod_iri);
    push_str(&mut u, "/consents/browser-agent.ttl");
    u
}

/// The RDF store of `oxigraph`.
#[verifier::external_type_specification]
#[verifier::external_body]
pub struct ExStore(oxigraph::store::Store);

/// The quads `store` holds, each as its N-Quads text.
pub uninterp spec fn store_quads(store: oxigraph::store::Store) -> Set<Seq<char>>;

/// A domain that can stand between the quotes of a SPARQL string literal
/// as it is: it holds no quote, backslash or line break.
pub open spec fn plain_domain(d: Seq<char>) -> bool {
    forall|i: int| 0 <= i < d.len() ==> d[i] != '"' && d[i] != '\\' && d[i] != '\n' && d[i] != '\r'
}

/// The message of the error for a domain that cannot stand in a query.
pub open spec fn unquotable_message(d: Seq<char>) -> Seq<char> {
    "Domain cannot be placed in a consent query: "@ + d
}

/// Whether `domain` holds no quote, backslash or line break.
pub fn is_plain_domain(domain: &str) -> (b: bool)
    ensures
        b == plain_domain(domain@),
{
    let cs = crate::text::to_chars(domain);
    let mut i: usize = 0;
    while i < cs.len()
        invariant
            i <= cs@.len(),
            cs@ == domain@,
            forall|j: int| 0 <= j < i ==> cs@[j] != '"' && cs@[j] != '\\' && cs@[j] != '\n' && cs@[j] != '\r',
        decreases cs@.len() - i,
    {
        let c = cs[i];
        if c == '"' || c == '\\' || c == '\n' || c == '\r' {
            return false;
        }
        i = i + 1;
    }
    true
}

/// A new, empty in-memory store from `oxigraph::store::Store::new`; `None` when
/// the store cannot be created.
#[verifier::external_body]
fn new_store() -> (r: Option<oxigraph::store::Store>)
    ensures
        r matches Some(st) ==> store_quads(st) == Set::<Seq<char>>::empty(),
{
    oxigraph::store::Store::new().ok()
}

/// The plain view of a solution: each variable with the value of its literal.
pub open spec fn solution_bindings(sol: Vec<(String, Option<String>)>) -> Seq<(Seq<char>, Option<Seq<char>>)> {
    sol@.map_values(|e: (String, Option<String>)| (e.0@, opt_seq(e.1)))
}

/// Parses `query` with `oxigraph::sparql::Query::parse`, evaluates it on
/// `store` and converts the first solution of a `SELECT` to (variable,
/// literal value) pairs; the error's text when parsing or evaluation fails.
/// Only the policy query of a plain domain is handed over; it parses, and its
/// basic graph pattern has no match in an empty store, so there it gives no
/// solution. Which solution comes first on a store that holds quads rests on
/// the order in which the store walks them, and is not stated.
#[verifier::external_body]
fn first_solution(store: &oxigraph::store::Store, query: &str) -> (r: Result<
    Option<Vec<(String, Option<String>)>>,
    String,
>)
    requires
        exists|d: Seq<char>| plain_domain(d) && query@ == policy_query_text(d),
    ensures
        store_quads(*store) == Set::<Seq<char>>::empty() ==> r matches Ok(None),
{
    let q = oxigraph::sparql::Query::parse(query, None).map_err(|e| e.to_string())?;
    match store.query(q).map_err(|e| e.to_string())? {
        oxigraph::sparql::QueryResults::Solutions(mut s) => match s.next() {
            Some(Ok(sol)) => Ok(Some(sol.iter().map(|(v, t)| (v.as_str().to_string(), match t {
                oxigraph::model::Term::Literal(l) => Some(l.value().to_string()),
                _ => None,
            })).collect())),
            Some(Err(e)) => Err(e.to_string()),
            None => Ok(None),
        },
        _ => Ok(None),
    }
}

/// The value bound to `var` in a solution: that of its first pair.
pub open spec fn binding(bs: Seq<(Seq<char>, Option<Seq<char>>)>, var: Seq<char>) -> Option<Seq<char>>
    decreases bs.len(),
{
    if bs.len() == 0 {
        None
    } else if bs[0].0 == var {
        bs[0].1
    } else {
        binding(bs.drop_first(), var)
    }
}

/// The value bound to `var` in a solution.
fn binding_exec(bs: &Vec<(String, Option<String>)>, var: &str) -> (r: Option<String>)
    ensures
        opt_seq(r) == binding(bs@.map_values(|e: (String, Option<String>)| (e.0@, opt_seq(e.1))), var@),
{
    let ghost v = bs@.map_values(|e: (String, Option<String>)| (e.0@, opt_seq(e.1)));
    let mut i: usize = 0;
    assert(v.skip(0) =~= v);
    while i < bs.len()
        invariant
            i <= bs@.len(),
            v == bs@.map_values(|e: (String, Option<String>)| (e.0@, opt_seq(e.1))),
            binding(v, var@) == binding(v.skip(i as int), var@),
        decreases bs@.len() - i,
    {
        assert(v.skip(i as int)[0] == v[i as int]);
        if str_eq(bs[i].0.as_str(), var) {
            return match &bs[i].1 {
                Some(x) => Some(owned(x.as_str())),
                None => None,
            };
        }
        assert(v.skip(i as int).drop_first() =~= v.skip(i + 1));
        i = i + 1;
    }
    None
}

/// The consent value of an optional binding.
pub open spec fn binding_consent(b: Option<Seq<char>>) -> ConsentValue {
    match b {
        Some(s) => consent_of(s),
        None => ConsentValue::Deny,
    }
}

/// The text of an optional string.
pub open spec fn opt_seq(o: Option<String>) -> Option<Seq<char>> {
    match o {
        Some(s) => Some(s@),
        None => None,
    }
}

impl DomainConsentPolicy {
    /// The policy of `domain` from the bindings of its four categories
    /// (essential, functional, analytics, advertising).
    pub fn from_bindings(
        domain: &str,
        essential: Option<String>,
        functional: Option<String>,
        analytics: Option<String>,
        advertising: Option<String>,
    ) -> (p: DomainConsentPolicy)
        ensures
            p.domain@ == domain@,
            p.essential == binding_consent(opt_seq(essential)),
            p.functional == binding_consent(opt_seq(functional)),
            p.analytics == binding_consent(opt_seq(analytics)),
            p.advertising == binding_consent(opt_seq(advertising)),
    {
        DomainConsentPolicy {
            domain: owned(domain),
            essential: ConsentValue::from_binding(as_str_opt(&essential)),
            functional: ConsentValue::from_binding(as_str_opt(&functional)),
            analytics: ConsentValue::from_binding(as_str_opt(&analytics)),
            advertising: ConsentValue::from_binding(as_str_opt(&advertising)),
        }
    }
}

fn as_str_opt(o: &Option<String>) -> (r: Option<&str>)
    ensures
        match r {
            Some(s) => opt_seq(*o) == Some(s@),
            None => o is None,
        },
{
    match o {
        Some(s) => Some(s.as_str()),
        None => None,
    }
}

/// The consent manifest kept in a user's Pod, held in a local RDF store.
pub struct ConsentManifest {
    pod_iri: ParsedUrl,
    store: oxigraph::store::Store,
    default_policy: DomainConsentPolicy,
}

impl ConsentManifest {
    /// The store is never written, so it stays as empty as it was created.
    #[verifier::type_invariant]
    closed spec fn store_empty(&self) -> bool {
        store_quads(self.store) == Set::<Seq<char>>::empty()
    }

    /// The Pod the manifest belongs to.
    pub closed spec fn pod_spec(&self) -> (Seq<char>, Option<Seq<char>>) {
        self.pod_iri@
    }

    /// The policy used for domains the manifest does not name.
    pub closed spec fn default_spec(&self) -> DomainConsentPolicy {
        self.default_policy
    }

    /// A manifest for the Pod at `pod_iri`, with an empty store and the default
    /// policy (essential cookies allowed, everything else denied, for every
    /// domain `*`). Fails when the store cannot be created.
    pub fn new(pod_iri: ParsedUrl) -> (r: Result<ConsentManifest, String>)
        ensures
            r matches Ok(m) ==> {
                &&& m.pod_spec() == pod_iri@
                &&& m.default_spec().domain@ == "*"@
                &&& m.default_spec().essential == ConsentValue::Allow
                &&& m.default_spec().functional == ConsentValue::Deny
                &&& m.default_spec().analytics == ConsentValue::Deny
                &&& m.default_spec().advertising == ConsentValue::Deny
            },
            r matches Err(e) ==> e@ == "Failed to create RDF store"@,
    {
        match new_store() {
            Some(store) => Ok(ConsentManifest {
                pod_iri,
                store,
                default_policy: DomainConsentPolicy::fallback(owned("*")),
            }),
            None => Err(owned("Failed to create RDF store")),
        }
    }

    /// The default policy.
    pub fn default_policy(&self) -> (p: &DomainConsentPolicy)
        ensures
            *p == self.default_spec(),
    {
        &self.default_policy
    }

    /// The policy a query's answer gives for `domain`: the consent values of
    /// its first solution, else (no solution) the default policy under the
    /// domain's name; the query's error when it failed.
    pub fn policy_from_answer(
        &self,
        domain: &str,
        answer: Result<Option<Vec<(String, Option<String>)>>, String>,
    ) -> (r: Result<DomainConsentPolicy, String>)
        ensures
            match answer {
                Ok(Some(sol)) => r matches Ok(p) && p.domain@ == domain@ && p.essential
                    == binding_consent(binding(solution_bindings(sol), "essential"@)) && p.functional
                    == binding_consent(binding(solution_bindings(sol), "functional"@)) && p.analytics
                    == binding_consent(binding(solution_bindings(sol), "analytics"@)) && p.advertising
                    == binding_consent(binding(solution_bindings(sol), "advertising"@)),
                Ok(None) => r matches Ok(p) && p.domain@ == domain@ && p.essential
                    == self.default_spec().essential && p.functional
                    == self.default_spec().functional && p.analytics
                    == self.default_spec().analytics && p.advertising
                    == self.default_spec().advertising,
                Err(e) => r matches Err(m) && m@ == e@,
            },
    {
        match answer {
            Ok(Some(solution)) => Ok(
                DomainConsentPolicy::from_bindings(
                    domain,
                    binding_exec(&solution, "essential"),
                    binding_exec(&solution, "functional"),
                    binding_exec(&solution, "analytics"),
                    binding_exec(&solution, "advertising"),
                ),
            ),
            Ok(None) => Ok(self.policy_or_default(domain)),
            Err(e) => Err(e),
        }
    }

    /// The policy of `domain`: the one the store holds for it, else the default
    /// policy under the domain's name; the query's error when it fails. A
    /// domain with a quote, backslash or line break cannot stand in the query
    /// and is refused. The store of a manifest is empty, so for every other
    /// domain this is the default policy.
    pub fn policy_for_domain(&self, domain: &str) -> (r: Result<DomainConsentPolicy, String>)
        ensures
            !plain_domain(domain@) ==> (r matches Err(m) && m@ == unquotable_message(domain@)),
            plain_domain(domain@) ==> (r matches Ok(p) && p.domain@ == domain@ && p.essential
                == self.default_spec().essential && p.functional == self.default_spec().functional
                && p.analytics == self.default_spec().analytics && p.advertising
                == self.default_spec().advertising),
    {
        proof {
            use_type_invariant(self);
        }
        if !is_plain_domain(domain) {
            let mut m = owned("Domain cannot be placed in a consent query: ");
            push_str(&mut m, domain);
            return Err(m);
        }
        let query = policy_query(domain);
        let answer = first_solution(&self.store, query.as_str());
        self.policy_from_answer(domain, answer)
    }

    /// The default policy under the name of `domain`.
    pub fn policy_or_default(&self, domain: &str) -> (p: DomainConsentPolicy)
        ensures
            p.domain@ == domain@,
            p.essential == self.default_spec().essential,
            p.functional == self.default_spec().functional,
            p.analytics == self.default_spec().analytics,
            p.advertising == self.default_spec().advertising,
    {
        DomainConsentPolicy {
            domain: owned(domain),
            essential: self.default_policy.essential,
            functional: self.default_policy.functional,
            analytics: self.default_policy.analytics,
            advertising: self.default_policy.advertising,
        }
    }

    /// Accepts an updated policy for a domain. The store is left as it is.
    pub fn update_domain_policy(&self, policy: DomainConsentPolicy) -> (r: Result<(), String>)
        ensures
            r is Ok,
    {
        Ok(())
    }
}

} // verus!
