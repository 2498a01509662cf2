//! DPoP-bound tokens and the per-issuer token cache of the Solid-OIDC client.
use crate::text::{owned, push_str, trim_trailing_slashes, without_trailing_slashes};
use crate::types::now_millis;
use vstd::prelude::*;

verus! {

/// A token counts as expired this many milliseconds before its expiry.
pub const EXPIRY_MARGIN_MS: i64 = 300_000;

/// Lifetime given to a freshly obtained token, in milliseconds.
pub const TOKEN_LIFETIME_MS: i64 = 3_600_000;

/// A DPoP-bound access token.
#[derive(Debug)]
pub struct DPoPBoundToken {
    /// Access token.
    pub access_token: String,
    /// Refresh token.
    pub refresh_token: Option<String>,
    /// ID token.
    pub id_token: String,
    /// Expiration time, in milliseconds since the Unix epoch.
    pub expires_at: i64,
    /// Whether the token is DPoP-bound.
    pub dpop_bound: bool,
}

/// The plain content of a token.
pub struct TokenView {
    pub access_token: Seq<char>,
    pub refresh_token: Option<Seq<char>>,
    pub id_token: Seq<char>,
    pub expires_at: int,
    pub dpop_bound: bool,
}

impl View for DPoPBoundToken {
    type V = TokenView;

    open spec fn view(&self) -> TokenView {
        TokenView {
            access_token: self.access_token@,
            refresh_token: match self.refresh_token {
                Some(r) => Some(r@),
                None => None,
            },
            id_token: self.id_token@,
            expires_at: self.expires_at as int,
            dpop_bound: self.dpop_bound,
        }
    }
}

/// At time `now` (ms), a token expiring at `expires_at` has less than five
/// minutes left, or none.
pub open spec fn expired_by(expires_at: int, now: int) -> bool {
    now + EXPIRY_MARGIN_MS >= expires_at
}

/// A token expired at some time stays expired at every later time.
pub proof fn lemma_expiry_is_final(expires_at: int, t1: int, t2: int)
    requires
        expired_by(expires_at, t1),
        t1 <= t2,
    ensures
        expired_by(expires_at, t2),
{
}

impl Clone for DPoPBoundToken {
    fn clone(&self) -> (r: Self)
        ensures
            r@ == self@,
    {
        DPoPBoundToken {
            access_token: self.access_token.clone(),
            refresh_token: match &self.refresh_token {
                Some(t) => Some(t.clone()),
                None => None,
            },
            id_token: self.id_token.clone(),
            expires_at: self.expires_at,
            dpop_bound: self.dpop_bound,
        }
    }
}

impl DPoPBoundToken {
    /// Whether the token is expired, or about to, at time `now_ms`.
    pub fn expired_at(&self, now_ms: i64) -> (b: bool)
        ensures
            b == expired_by(self.expires_at as int, now_ms as int),
    {
        (now_ms as i128) + (EXPIRY_MARGIN_MS as i128) >= (self.expires_at as i128)
    }

    /// Whether the token is expired or about to expire (less than five minutes
    /// left), by the clock. What the clock reads is not stated, so neither is
    /// the answer; `expired_at` decides for a given time.
    pub fn is_expired(&self) -> (b: bool) {
        self.expired_at(now_millis())
    }

    /// The value of the `Authorization` header that presents this token.
    pub fn authorization(&self) -> (s: String)
        ensures
            s@ == "DPoP "@ + self.access_token@,
    {
        let mut s = owned("DPoP ");
        push_str(&mut s, self.access_token.as_str());
        s
    }

    /// The token granted by an authentication reply at time `now_ms`: missing
    /// access and ID tokens become empty, and it expires an hour later.
    pub fn from_reply(
        access_token: Option<String>,
        refresh_token: Option<String>,
        id_token: Option<String>,
        now_ms: i64,
    ) -> (t: DPoPBoundToken)
        requires
            now_ms + TOKEN_LIFETIME_MS <= i64::MAX,
        ensures
            t.access_token@ == (match access_token {
                Some(a) => a@,
                None => Seq::<char>::empty(),
            }),
            t.refresh_token == refresh_token,
            t.id_token@ == (match id_token {
                Some(a) => a@,
                None => Seq::<char>::empty(),
            }),
            t.expires_at == now_ms + TOKEN_LIFETIME_MS,
            t.dpop_bound,
    {
        DPoPBoundToken {
            access_token: match access_token {
                Some(a) => a,
                None => String::new(),
            },
            refresh_token,
            id_token: match id_token {
                Some(a) => a,
                None => String::new(),
            },
            expires_at: now_ms + TOKEN_LIFETIME_MS,
            dpop_bound: true,
        }
    }
}

/// The token endpoint assumed for an issuer: the issuer without trailing
/// slashes, then `/token`.
pub fn token_endpoint(issuer: &str) -> (r: String)
    ensures
        r@ == trim_trailing_slashes(issuer@) + "/token"@,
{
    let mut r = without_trailing_slashes(issuer);
    push_str(&mut r, "/token");
    r
}

/// Tokens cached per OIDC issuer; an issuer appears at most once.
pub struct TokenCache {
    entries: Vec<(String, DPoPBoundToken)>,
}

/// The token cached for `issuer` among `entries`.
pub open spec fn cached(entries: Seq<(Seq<char>, TokenView)>, issuer: Seq<char>) -> Option<TokenView>
    decreases entries.len(),
{
    if entries.len() == 0 {
        None
    } else if entries.last().0 == issuer {
        Some(entries.last().1)
    } else {
        cached(entries.drop_last(), issuer)
    }
}

impl TokenCache {
    /// The entries as plain values.
    pub closed spec fn entries_view(&self) -> Seq<(Seq<char>, TokenView)> {
        self.entries@.map_values(|e: (String, DPoPBoundToken)| (e.0@, e.1@))
    }

    /// The token cached for `issuer`, if any.
    pub open spec fn lookup(&self, issuer: Seq<char>) -> Option<TokenView> {
        cached(self.entries_view(), issuer)
    }

    /// Number of issuers with a cached token.
    pub closed spec fn size(&self) -> nat {
        self.entries@.len()
    }

    /// No issuer appears twice.
    #[verifier::type_invariant]
    closed spec fn distinct_issuers(&self) -> bool {
        forall|i: int, j: int|
            0 <= i < j < self.entries@.len() ==> self.entries@[i].0@ != self.entries@[j].0@
    }

    /// An empty cache.
    pub fn new() -> (c: TokenCache)
        ensures
            forall|k: Seq<char>| c.lookup(k) is None,
            c.size() == 0,
    {
        let c = TokenCache { entries: Vec::new() };
        assert forall|k: Seq<char>| c.lookup(k) is None by {
            assert(c.entries_view().len() == 0);
        }
        c
    }

    proof fn lemma_cached_at(&self, k: Seq<char>, i: int)
        requires
            0 <= i < self.entries@.len(),
            self.entries@[i].0@ == k,
            self.distinct_issuers(),
        ensures
            self.lookup(k) == Some(self.entries@[i].1@),
    {
        let ev = self.entries_view();
        lemma_cached_unique(ev, k, i);
    }

    proof fn lemma_not_cached(&self, k: Seq<char>)
        requires
            forall|i: int| 0 <= i < self.entries@.len() ==> self.entries@[i].0@ != k,
        ensures
            self.lookup(k) is None,
    {
        let ev = self.entries_view();
        lemma_cached_absent(ev, k);
    }

    fn position(&self, issuer: &str) -> (r: Option<usize>)
        ensures
            match r {
                Some(i) => i < self.entries@.len() && self.entries@[i as int].0@ == issuer@,
                None => forall|i: int|
                    0 <= i < self.entries@.len() ==> self.entries@[i].0@ != issuer@,
            },
    {
        let mut i: usize = 0;
        while i < self.entries.len()
            invariant
                i <= self.entries@.len(),
                forall|j: int| 0 <= j < i ==> self.entries@[j].0@ != issuer@,
            decreases self.entries.len() - i,
        {
            if crate::text::str_eq(self.entries[i].0.as_str(), issuer) {
                return Some(i);
            }
            i = i + 1;
        }
        None
    }

    /// The token cached for `issuer` when it is not expired at `now_ms`.
    pub fn valid_token(&self, issuer: &str, now_ms: i64) -> (r: Option<DPoPBoundToken>)
        ensures
            match self.lookup(issuer@) {
                Some(t) => if expired_by(t.expires_at, now_ms as int) {
                    r is None
                } else {
                    r is Some && r->0@ == t
                },
                None => r is None,
            },
    {
        proof {
            use_type_invariant(self);
        }
        match self.position(issuer) {
            Some(i) => {
                proof {
                    self.lemma_cached_at(issuer@, i as int);
                }
                let t = &self.entries[i].1;
                if t.expired_at(now_ms) {
                    None
                } else {
                    Some(t.clone())
                }
            },
            None => {
                proof {
                    self.lemma_not_cached(issuer@);
                }
                None
            },
        }
    }

    /// Caches `token` for `issuer`, replacing any token cached for it.
    pub fn insert(&mut self, issuer: String, token: DPoPBoundToken)
        ensures
            final(self).lookup(issuer@) == Some(token@),
            forall|k: Seq<char>| k != issuer@ ==> final(self).lookup(k) == old(self).lookup(k),
    {
        proof {
            use_type_invariant(&*self);
        }
        let ghost k0 = issuer@;
        let ghost tv = token@;
        let ghost before = *self;
        match self.position(issuer.as_str()) {
            Some(i) => {
                let mut entries = Vec::new();
                std::mem::swap(&mut entries, &mut self.entries);
                let ghost old_entries = entries@;
                entries.set(i, (issuer, token));
                assert forall|a: int, b: int|
                    0 <= a < b < entries@.len() implies entries@[a].0@ != entries@[b].0@ by {
                    if a != i && b != i {
                        assert(old_entries[a].0@ != old_entries[b].0@);
                    } else if a == i {
                        assert(old_entries[i as int].0@ != old_entries[b].0@);
                    } else {
                        assert(old_entries[a].0@ != old_entries[i as int].0@);
                    }
                }
                self.entries = entries;
                proof {
                    self.lemma_cached_at(k0, i as int);
                    assert forall|k: Seq<char>| k != k0 implies self.lookup(k) == before.lookup(k) by {
                        if exists|j: int| 0 <= j < self.entries@.len() && self.entries@[j].0@ == k {
                            let j = choose|j: int| 0 <= j < self.entries@.len() && self.entries@[j].0@ == k;
                            self.lemma_cached_at(k, j);
                            before.lemma_cached_at(k, j);
                        } else {
                            self.lemma_not_cached(k);
                            assert forall|j: int| 0 <= j < before.entries@.len() implies before.entries@[j].0@ != k by {
                                if j != i {
                                    assert(self.entries@[j] == before.entries@[j]);
                                }
                            }
                            before.lemma_not_cached(k);
                        }
                    }
                }
            },
            None => {
                let mut entries = Vec::new();
                std::mem::swap(&mut entries, &mut self.entries);
                let ghost old_entries = entries@;
                entries.push((issuer, token));
                assert forall|a: int, b: int|
                    0 <= a < b < entries@.len() implies entries@[a].0@ != entries@[b].0@ by {
                    if b < old_entries.len() {
                        assert(old_entries[a].0@ != old_entries[b].0@);
                    }
                }
                self.entries = entries;
                proof {
                    self.lemma_cached_at(k0, old_entries.len() as int);
                    assert forall|k: Seq<char>| k != k0 implies self.lookup(k) == before.lookup(k) by {
                        assert(self.entries_view().drop_last() =~= before.entries_view());
                    }
                }
            },
        }
    }

    /// Drops every cached token.
    pub fn clear(&mut self)
        ensures
            forall|k: Seq<char>| final(self).lookup(k) is None,
            final(self).size() == 0,
    {
        self.entries = Vec::new();
        assert forall|k: Seq<char>| self.lookup(k) is None by {
            assert(self.entries_view().len() == 0);
        }
    }
}

/// With distinct issuers, the entry at `i` is the one found for its issuer.
proof fn lemma_cached_unique(ev: Seq<(Seq<char>, TokenView)>, k: Seq<char>, i: int)
    requires
        0 <= i < ev.len(),
        ev[i].0 == k,
        forall|a: int, b: int| 0 <= a < b < ev.len() ==> ev[a].0 != ev[b].0,
    ensures
        cached(ev, k) == Some(ev[i].1),
    decreases ev.len(),
{
    if i < ev.len() - 1 {
        assert(ev.last().0 != k);
        lemma_cached_unique(ev.drop_last(), k, i);
    }
}

/// An issuer with no entry has no cached token.
proof fn lemma_cached_absent(ev: Seq<(Seq<char>, TokenView)>, k: Seq<char>)
    requires
        forall|i: int| 0 <= i < ev.len() ==> ev[i].0 != k,
    ensures
        cached(ev, k) is None,
    decreases ev.len(),
{
    if ev.len() > 0 {
        lemma_cached_absent(ev.drop_last(), k);
    }
}

} // verus!
