//! Identifiers, token accounting, and the clock.
use vstd::prelude::*;

verus! {

/// The UUID `id` (as `Uuid::as_u128` reads it, big-endian) is of version 4
/// with the RFC 4122 variant: its version nibble is 4 and the two top bits of
/// its variant byte are 10.
pub open spec fn is_v4_uuid(id: u128) -> bool {
    id & 0xF000_C000_0000_0000_0000u128 == 0x4000_8000_0000_0000_0000u128
}

/// A fresh random identifier from `uuid::Uuid::new_v4`, as a `u128`. The
/// crate masks random bits so that the version and variant bits read as
/// version 4, RFC 4122; the random bits themselves are not stated.
#[verifier::external_body]
pub(crate) fn fresh_uuid() -> (id: u128)
    ensures
        is_v4_uuid(id),
{
    uuid::Uuid::new_v4().as_u128()
}

/// The lower-case hexadecimal digit of `d` (0 to 15).
pub open spec fn hex_char(d: int) -> char {
    if d < 10 {
        (48 + d) as char
    } else {
        (87 + d) as char
    }
}

/// The `k`-th hexadecimal digit of `id`, counted from the most significant.
pub open spec fn uuid_nibble(id: u128, k: int) -> int {
    ((id as int) / (vstd::arithmetic::power2::pow2((4 * (31 - k)) as nat) as int)) % 16
}

/// The number of hyphens before position `i` of a UUID's text.
pub open spec fn hyphens_before(i: int) -> int {
    (if i > 8 { 1int } else { 0 }) + (if i > 13 { 1int } else { 0 }) + (if i > 18 { 1int } else { 0 }) + (
    if i > 23 {
        1int
    } else {
        0
    })
}

/// The hyphenated lower-case text of a UUID, as `uuid::Uuid`'s `Display` writes
/// it: its 32 hexadecimal digits, most significant first, in groups of 8, 4,
/// 4, 4 and 12 separated by `-`.
pub open spec fn uuid_text(id: u128) -> Seq<char> {
    Seq::new(
        36,
        |i: int|
            if i == 8 || i == 13 || i == 18 || i == 23 {
                '-'
            } else {
                hex_char(uuid_nibble(id, i - hyphens_before(i)))
            },
    )
}

/// Formats `id` with `uuid::Uuid::from_u128(id).to_string()`.
#[verifier::external_body]
pub(crate) fn uuid_string(id: u128) -> (s: String)
    ensures
        s@ == uuid_text(id),
{
    uuid::Uuid::from_u128(id).to_string()
}

/// What `uuid::Uuid::parse_str` yields for `s`: the UUID's value, or the
/// text of the parse error.
pub uninterp spec fn uuid_parse(s: Seq<char>) -> Result<u128, Seq<char>>;

/// Parses `s` with `uuid::Uuid::parse_str`.
#[verifier::external_body]
pub(crate) fn parse_uuid(s: &str) -> (r: Result<u128, String>)
    ensures
        match r {
            Ok(v) => uuid_parse(s@) == Ok::<u128, Seq<char>>(v),
            Err(e) => uuid_parse(s@) == Err::<u128, Seq<char>>(e@),
        },
{
    match uuid::Uuid::parse_str(s) {
        Ok(u) => Ok(u.as_u128()),
        Err(e) => Err(e.to_string()),
    }
}

/// The current time, in milliseconds since the Unix epoch, from
/// `chrono::Utc::now`. Nothing is promised of its value.
#[verifier::external_body]
pub(crate) fn now_millis() -> i64 {
    chrono::Utc::now().timestamp_millis()
}

/// The current time, in whole seconds since the Unix epoch, from
/// `chrono::Utc::now().timestamp()`. Nothing is promised of its value.
#[verifier::external_body]
pub(crate) fn now_seconds() -> i64 {
    chrono::Utc::now().timestamp()
}

/// The duration of `secs` whole seconds, as `Duration::from_secs` builds it.
pub uninterp spec fn duration_of_secs(secs: u64) -> std::time::Duration;

/// Calls `Duration::from_secs`.
#[verifier::external_body]
pub(crate) fn duration_from_secs(secs: u64) -> (d: std::time::Duration)
    ensures
        d == duration_of_secs(secs),
{
    std::time::Duration::from_secs(secs)
}

/// Identifier of an agent instance.
#[derive(Debug, Clone, Copy, PartialEq, Eq, Hash, Structural)]
pub struct AgentId(pub u128);

/// Identifier of a conversation session.
#[derive(Debug, Clone, Copy, PartialEq, Eq, Hash, Structural)]
pub struct SessionId(pub u128);

/// Identifier of a conversation turn.
#[derive(Debug, Clone, Copy, PartialEq, Eq, Hash, Structural)]
pub struct TurnId(pub u128);

/// Identifier of a trace.
#[derive(Debug, Clone, Copy, PartialEq, Eq, Hash, Structural)]
pub struct TraceId(pub u128);

/// Identifier of a span within a trace.
#[derive(Debug, Clone, Copy, PartialEq, Eq, Hash, Structural)]
pub struct SpanId(pub u128);

/// Identifier of an approval request.
#[derive(Debug, Clone, Copy, PartialEq, Eq, Hash, Structural)]
pub struct ApprovalId(pub u128);

/// Identifier of a user.
#[derive(Debug, Clone, Copy, PartialEq, Eq, Hash, Structural)]
pub struct UserId(pub u128);

impl AgentId {
    /// A fresh random agent identifier.
    pub fn new() -> (id: AgentId)
        ensures
            is_v4_uuid(id.0),
    {
        AgentId(fresh_uuid())
    }

    /// Text of this identifier.
    pub fn to_text(&self) -> (s: String)
        ensures
            s@ == uuid_text(self.0),
    {
        uuid_string(self.0)
    }
}

impl SessionId {
    /// A fresh random session identifier.
    pub fn new() -> (id: SessionId)
        ensures
            is_v4_uuid(id.0),
    {
        SessionId(fresh_uuid())
    }
}

impl TurnId {
    /// A fresh random turn identifier.
    pub fn new() -> (id: TurnId)
        ensures
            is_v4_uuid(id.0),
    {
        TurnId(fresh_uuid())
    }
}

impl TraceId {
    /// A fresh random trace identifier.
    pub fn new() -> (id: TraceId)
        ensures
            is_v4_uuid(id.0),
    {
        TraceId(fresh_uuid())
    }
}

impl SpanId {
    /// A fresh random span identifier.
    pub fn new() -> (id: SpanId)
        ensures
            is_v4_uuid(id.0),
    {
        SpanId(fresh_uuid())
    }
}

impl ApprovalId {
    /// A fresh random approval identifier.
    pub fn new() -> (id: ApprovalId)
        ensures
            is_v4_uuid(id.0),
    {
        ApprovalId(fresh_uuid())
    }
}

impl UserId {
    /// A fresh random user identifier.
    pub fn new() -> (id: UserId)
        ensures
            is_v4_uuid(id.0),
    {
        UserId(fresh_uuid())
    }
}

/// Token usage of one or more model calls.
#[derive(Debug, Clone, Copy, PartialEq, Eq, Structural)]
pub struct TokenUsage {
    /// Tokens in the prompt.
    pub prompt_tokens: u64,
    /// Tokens in the completion.
    pub completion_tokens: u64,
    /// Prompt and completion tokens together.
    pub total_tokens: u64,
}

impl TokenUsage {
    /// No tokens.
    pub open spec fn spec_zero() -> TokenUsage {
        TokenUsage { prompt_tokens: 0, completion_tokens: 0, total_tokens: 0 }
    }

    /// Usage of one call; the total saturates at `u64::MAX`.
    pub fn new(prompt_tokens: u64, completion_tokens: u64) -> (u: TokenUsage)
        ensures
            u.prompt_tokens == prompt_tokens,
            u.completion_tokens == completion_tokens,
            u.total_tokens == (if prompt_tokens + completion_tokens <= u64::MAX {
                (prompt_tokens + completion_tokens) as u64
            } else {
                u64::MAX
            }),
    {
        TokenUsage {
            prompt_tokens,
            completion_tokens,
            total_tokens: prompt_tokens.saturating_add(completion_tokens),
        }
    }

    /// No tokens.
    pub fn zero() -> (u: TokenUsage)
        ensures
            u.prompt_tokens == 0 && u.completion_tokens == 0 && u.total_tokens == 0,
    {
        TokenUsage { prompt_tokens: 0, completion_tokens: 0, total_tokens: 0 }
    }

    /// Adds another usage to this one, each count saturating at `u64::MAX`.
    pub fn add(&mut self, other: TokenUsage)
        ensures
            final(self).prompt_tokens == sat_add(old(self).prompt_tokens, other.prompt_tokens),
            final(self).completion_tokens == sat_add(
                old(self).completion_tokens,
                other.completion_tokens,
            ),
            final(self).total_tokens == sat_add(old(self).total_tokens, other.total_tokens),
    {
        self.prompt_tokens = self.prompt_tokens.saturating_add(other.prompt_tokens);
        self.completion_tokens = self.completion_tokens.saturating_add(other.completion_tokens);
        self.total_tokens = self.total_tokens.saturating_add(other.total_tokens);
    }
}

impl Default for TokenUsage {
    fn default() -> (u: TokenUsage)
        ensures
            u.prompt_tokens == 0 && u.completion_tokens == 0 && u.total_tokens == 0,
    {
        TokenUsage::zero()
    }
}

/// `a + b`, saturating at `u64::MAX`.
pub open spec fn sat_add(a: u64, b: u64) -> u64 {
    if a + b <= u64::MAX {
        (a + b) as u64
    } else {
        u64::MAX
    }
}

} // verus!
