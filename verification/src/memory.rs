//! Agent memory: editable blocks that move in and out of the context window,
//! blocks shared between agents, and a perpetual message history.
use vstd::prelude::*;
use std::collections::HashMap;
use crate::error::{is_config_error, Error};
use crate::text::{contains, decimal, owned, push_decimal, push_str, to_chars, str_contains};
use crate::types::{fresh_uuid, is_v4_uuid, now_millis, uuid_string, uuid_text, AgentId};

verus! {

broadcast use vstd::std_specs::hash::group_hash_axioms;

/// Identifier of a memory block.
#[derive(Debug, Clone, Copy, PartialEq, Eq, Hash, Structural)]
pub struct MemoryBlockId(pub u128);

impl MemoryBlockId {
    /// A fresh random block identifier.
    pub fn new() -> (id: MemoryBlockId)
        ensures
            is_v4_uuid(id.0),
    {
        MemoryBlockId(fresh_uuid())
    }

    /// Text of this identifier.
    pub fn to_text(&self) -> (s: String)
        ensures
            s@ == uuid_text(self.0),
    {
        uuid_string(self.0)
    }
}

/// A persistent, editable chunk of agent memory. Timestamps are milliseconds
/// since the Unix epoch.
#[derive(Debug)]
pub struct MemoryBlock {
    /// Unique identifier.
    pub id: MemoryBlockId,
    /// Human-readable label ("persona", "organization", ...).
    pub label: String,
    /// What this block holds.
    pub description: String,
    /// The content, editable by the agent.
    pub value: String,
    /// Maximum size of `value` in characters.
    pub max_size: Option<usize>,
    /// Whether the block is in the context window.
    pub in_context: bool,
    /// Creation time.
    pub created_at: i64,
    /// Last modification time.
    pub updated_at: i64,
    /// Custom fields.
    pub metadata: HashMap<String, String>,
}

/// Mathematical view of a memory block.
pub struct BlockView {
    pub id: MemoryBlockId,
    pub label: Seq<char>,
    pub description: Seq<char>,
    pub value: Seq<char>,
    pub max_size: Option<usize>,
    pub in_context: bool,
    pub created_at: i64,
    pub updated_at: i64,
    pub metadata: Map<String, String>,
}

impl View for MemoryBlock {
    type V = BlockView;

    open spec fn view(&self) -> BlockView {
        BlockView {
            id: self.id,
            label: self.label@,
            description: self.description@,
            value: self.value@,
            max_size: self.max_size,
            in_context: self.in_context,
            created_at: self.created_at,
            updated_at: self.updated_at,
            metadata: self.metadata@,
        }
    }
}

impl Clone for MemoryBlock {
    fn clone(&self) -> (r: Self)
        ensures
            r@ == self@,
    {
        MemoryBlock {
            id: self.id,
            label: self.label.clone(),
            description: self.description.clone(),
            value: self.value.clone(),
            max_size: self.max_size,
            in_context: self.in_context,
            created_at: self.created_at,
            updated_at: self.updated_at,
            metadata: self.metadata.clone(),
        }
    }
}

/// Whether `value` fits the block's size limit.
pub open spec fn fits(max_size: Option<usize>, value: Seq<char>) -> bool {
    match max_size {
        Some(max) => value.len() <= max,
        None => true,
    }
}

/// The message of the error raised when a value exceeds a block's limit.
pub open spec fn too_large_message(label: Seq<char>, max: usize, value: Seq<char>) -> Seq<char> {
    "Memory block '"@ + label + "' value exceeds max size "@ + decimal(max as nat) + " (got "@
        + decimal(value.len()) + ")"@
}

/// The block after a successful value update at time `t`.
pub open spec fn with_value(b: BlockView, value: Seq<char>, t: i64) -> BlockView {
    BlockView { value, updated_at: t, ..b }
}

/// The block with its context flag set at time `t`.
pub open spec fn with_context(b: BlockView, in_context: bool, t: i64) -> BlockView {
    BlockView { in_context, updated_at: t, ..b }
}

impl MemoryBlock {
    /// A new in-context block with the given label and value, no description,
    /// no size limit and no metadata, stamped with the current time.
    pub fn new(label: String, value: String) -> (b: MemoryBlock)
        ensures
            b.label@ == label@,
            b.value@ == value@,
            b.description@ == Seq::<char>::empty(),
            b.max_size is None,
            b.in_context,
            b.created_at == b.updated_at,
            b.metadata@ == Map::<String, String>::empty(),
    {
        let now = now_millis();
        MemoryBlock {
            id: MemoryBlockId::new(),
            label,
            description: String::new(),
            value,
            max_size: None,
            in_context: true,
            created_at: now,
            updated_at: now,
            metadata: HashMap::new(),
        }
    }

    /// A new in-context block with a description.
    pub fn with_description(label: String, description: String, value: String) -> (b: MemoryBlock)
        ensures
            b.label@ == label@,
            b.value@ == value@,
            b.description@ == description@,
            b.max_size is None,
            b.in_context,
            b.created_at == b.updated_at,
            b.metadata@ == Map::<String, String>::empty(),
    {
        let mut block = MemoryBlock::new(label, value);
        block.description = description;
        block
    }

    /// Replaces the value. A value longer (in characters) than the block's limit is
    /// refused and leaves the block unchanged; otherwise the modification time
    /// is refreshed.
    pub fn update_value(&mut self, new_value: String) -> (r: Result<(), Error>)
        ensures
            fits(old(self).max_size, new_value@) ==> r is Ok && final(self)@ == with_value(
                old(self)@,
                new_value@,
                final(self).updated_at,
            ),
            !fits(old(self).max_size, new_value@) ==> final(self)@ == old(self)@ && is_config_error(
                r,
                too_large_message(old(self).label@, old(self).max_size->0, new_value@),
            ),
    {
        match self.max_size {
            Some(max) => {
                let len = to_chars(new_value.as_str()).len();
                if len > max {
                    let mut m = owned("Memory block '");
                    push_str(&mut m, self.label.as_str());
                    push_str(&mut m, "' value exceeds max size ");
                    push_decimal(&mut m, max);
                    push_str(&mut m, " (got ");
                    push_decimal(&mut m, len);
                    push_str(&mut m, ")");
                    return Err(Error::Config(m));
                }
            },
            None => {},
        }
        self.value = new_value;
        self.updated_at = now_millis();
        Ok(())
    }

    /// Appends a line to the value, subject to the size limit.
    pub fn append(&mut self, content: String) -> (r: Result<(), Error>)
        ensures
            ({
                let nv = old(self).value@ + "\n"@ + content@;
                &&& fits(old(self).max_size, nv) ==> r is Ok && final(self)@ == with_value(
                    old(self)@,
                    nv,
                    final(self).updated_at,
                )
                &&& !fits(old(self).max_size, nv) ==> final(self)@ == old(self)@ && is_config_error(
                    r,
                    too_large_message(old(self).label@, old(self).max_size->0, nv),
                )
            }),
    {
        let mut nv = owned(self.value.as_str());
        push_str(&mut nv, "\n");
        push_str(&mut nv, content.as_str());
        self.update_value(nv)
    }

    /// Moves the block in or out of the context window, refreshing its
    /// modification time.
    pub fn set_in_context(&mut self, in_context: bool)
        ensures
            final(self)@ == with_context(old(self)@, in_context, final(self).updated_at),
    {
        self.in_context = in_context;
        self.updated_at = now_millis();
    }

    /// Size of the value in characters.
    pub fn size(&self) -> (n: usize)
        ensures
            n == self.value@.len(),
    {
        to_chars(self.value.as_str()).len()
    }
}


/// Backend that persists memory.
#[derive(Debug, Clone)]
pub enum StorageBackend {
    /// SQLite database (default).
    Sqlite { path: String },
    /// PostgreSQL database.
    Postgres { connection_string: String },
    /// In-memory only (no persistence).
    Memory,
}

/// Memory hierarchy configuration.
#[derive(Debug, Clone)]
pub struct MemoryConfig {
    /// Maximum total size of in-context memory, in characters.
    pub max_context_size: usize,
    /// Agents may move blocks in and out of context.
    pub enable_agentic_control: bool,
    /// A sleep-time agent processes memory in the background.
    pub enable_sleeptime: bool,
    /// Where memory is persisted.
    pub storage_backend: StorageBackend,
}

impl Default for MemoryConfig {
    /// 8000 characters of context, agentic control on, no sleep-time agent, SQLite
    /// at `spai_memory.db`.
    fn default() -> (c: MemoryConfig)
        ensures
            c.max_context_size == 8000,
            c.enable_agentic_control,
            !c.enable_sleeptime,
            c.storage_backend matches StorageBackend::Sqlite { path } && path@ == "spai_memory.db"@,
    {
        MemoryConfig {
            max_context_size: 8000,
            enable_agentic_control: true,
            enable_sleeptime: false,
            storage_backend: StorageBackend::Sqlite { path: owned("spai_memory.db") },
        }
    }
}

/// One message of an agent's perpetual history. The timestamp is in
/// milliseconds since the Unix epoch.
#[derive(Debug)]
pub struct MessageEntry {
    /// Unique message id.
    pub id: u128,
    /// When the message was recorded.
    pub timestamp: i64,
    /// Role (user, assistant, system, tool).
    pub role: String,
    /// Content.
    pub content: String,
    /// Tool call information.
    pub tool_calls: Option<Vec<String>>,
    /// Custom fields.
    pub metadata: HashMap<String, String>,
}

/// Mathematical view of a message.
pub struct MessageView {
    pub id: u128,
    pub timestamp: i64,
    pub role: Seq<char>,
    pub content: Seq<char>,
    pub tool_calls: Option<Seq<String>>,
    pub metadata: Map<String, String>,
}

impl View for MessageEntry {
    type V = MessageView;

    open spec fn view(&self) -> MessageView {
        MessageView {
            id: self.id,
            timestamp: self.timestamp,
            role: self.role@,
            content: self.content@,
            tool_calls: match self.tool_calls {
                Some(v) => Some(v@),
                None => None,
            },
            metadata: self.metadata@,
        }
    }
}

impl Clone for MessageEntry {
    fn clone(&self) -> (r: Self)
        ensures
            r@ == self@,
    {
        let tool_calls = match &self.tool_calls {
            Some(v) => {
                let mut c: Vec<String> = Vec::new();
                let mut i: usize = 0;
                while i < v.len()
                    invariant
                        i <= v@.len(),
                        c@ == v@.take(i as int),
                    decreases v@.len() - i,
                {
                    c.push(v[i].clone());
                    assert(v@.take(i + 1) =~= v@.take(i as int).push(v@[i as int]));
                    i = i + 1;
                }
                assert(v@.take(v@.len() as int) =~= v@);
                Some(c)
            },
            None => None,
        };
        MessageEntry {
            id: self.id,
            timestamp: self.timestamp,
            role: self.role.clone(),
            content: self.content.clone(),
            tool_calls,
            metadata: self.metadata.clone(),
        }
    }
}

/// Views of a sequence of blocks.
pub open spec fn block_views(v: Seq<MemoryBlock>) -> Seq<BlockView> {
    v.map_values(|b: MemoryBlock| b@)
}

/// Views of a sequence of messages.
pub open spec fn message_views(v: Seq<MessageEntry>) -> Seq<MessageView> {
    v.map_values(|m: MessageEntry| m@)
}

/// No two blocks share an id.
pub open spec fn unique_ids(bs: Seq<BlockView>) -> bool {
    forall|i: int, j: int|
        0 <= i < bs.len() && 0 <= j < bs.len() && #[trigger] bs[i].id == #[trigger] bs[j].id ==> i
            == j
}

/// Some block has this id.
pub open spec fn has_block(bs: Seq<BlockView>, id: MemoryBlockId) -> bool {
    exists|i: int| 0 <= i < bs.len() && #[trigger] bs[i].id == id
}

/// Position of the block with this id.
pub open spec fn block_index(bs: Seq<BlockView>, id: MemoryBlockId) -> int {
    choose|i: int| 0 <= i < bs.len() && #[trigger] bs[i].id == id
}

/// The block with this id, if any.
pub open spec fn find_block(bs: Seq<BlockView>, id: MemoryBlockId) -> Option<BlockView> {
    if has_block(bs, id) {
        Some(bs[block_index(bs, id)])
    } else {
        None
    }
}

/// The blocks after inserting `b`: a block with the same id is replaced in
/// place, otherwise `b` is added at the end.
pub open spec fn upsert(bs: Seq<BlockView>, b: BlockView) -> Seq<BlockView> {
    if has_block(bs, b.id) {
        bs.update(block_index(bs, b.id), b)
    } else {
        bs.push(b)
    }
}

/// The in-context blocks, in order.
pub open spec fn in_context_of(bs: Seq<BlockView>) -> Seq<BlockView>
    decreases bs.len(),
{
    if bs.len() == 0 {
        seq![]
    } else if bs.last().in_context {
        in_context_of(bs.drop_last()).push(bs.last())
    } else {
        in_context_of(bs.drop_last())
    }
}

/// The blocks out of context, in order.
pub open spec fn out_of_context_of(bs: Seq<BlockView>) -> Seq<BlockView>
    decreases bs.len(),
{
    if bs.len() == 0 {
        seq![]
    } else if !bs.last().in_context {
        out_of_context_of(bs.drop_last()).push(bs.last())
    } else {
        out_of_context_of(bs.drop_last())
    }
}

/// Total size in characters of the in-context blocks whose id is not `skip`.
pub open spec fn context_total_except(bs: Seq<BlockView>, skip: Option<MemoryBlockId>) -> nat
    decreases bs.len(),
{
    if bs.len() == 0 {
        0
    } else {
        context_total_except(bs.drop_last(), skip) + if bs.last().in_context && skip != Some(
            bs.last().id,
        ) {
            bs.last().value.len()
        } else {
            0
        }
    }
}

/// Total size in characters of the in-context blocks.
pub open spec fn context_total(bs: Seq<BlockView>) -> nat {
    context_total_except(bs, None)
}

/// The message of the error raised for an unknown block.
pub open spec fn not_found_message(id: MemoryBlockId) -> Seq<char> {
    "Memory block "@ + uuid_text(id.0) + " not found"@
}

/// The message of the error raised when a block does not fit in the context.
pub open spec fn context_full_message(label: Seq<char>, current: nat, size: nat, max: usize) -> Seq<char> {
    "Adding block '"@ + label + "' would exceed max context size ("@ + decimal(current) + " + "@
        + decimal(size) + " > "@ + decimal(max as nat) + ")"@
}

/// The messages whose content contains `query`, in order.
pub open spec fn matching_messages(ms: Seq<MessageView>, query: Seq<char>) -> Seq<MessageView>
    decreases ms.len(),
{
    if ms.len() == 0 {
        seq![]
    } else if contains(ms.last().content, query) {
        matching_messages(ms.drop_last(), query).push(ms.last())
    } else {
        matching_messages(ms.drop_last(), query)
    }
}

/// The last `limit` messages (all of them when there are fewer).
pub open spec fn recent_messages(ms: Seq<MessageView>, limit: nat) -> Seq<MessageView> {
    if limit >= ms.len() {
        ms
    } else {
        ms.skip(ms.len() - limit)
    }
}

/// Total size clamped to what a `usize` holds.
pub open spec fn capped(n: nat) -> nat {
    if n <= usize::MAX {
        n
    } else {
        usize::MAX as nat
    }
}

/// The outcome of replacing the value of block `id` by `nv` in `bs`, giving
/// `after` and result `r`; `missing` is the message for an unknown id.
pub open spec fn value_update(
    bs: Seq<BlockView>,
    id: MemoryBlockId,
    nv: Seq<char>,
    after: Seq<BlockView>,
    r: Result<(), Error>,
    missing: Seq<char>,
) -> bool {
    match find_block(bs, id) {
        None => after == bs && is_config_error(r, missing),
        Some(b) => {
            let k = block_index(bs, id);
            if fits(b.max_size, nv) {
                r is Ok && after == bs.update(k, with_value(b, nv, after[k].updated_at))
            } else {
                after == bs && is_config_error(r, too_large_message(b.label, b.max_size->0, nv))
            }
        },
    }
}

/// The shared blocks that `ids` name and `pool` holds, in the order of `ids`.
pub open spec fn resolved(ids: Seq<MemoryBlockId>, pool: Seq<BlockView>) -> Seq<BlockView>
    decreases ids.len(),
{
    if ids.len() == 0 {
        seq![]
    } else {
        let rest = resolved(ids.drop_last(), pool);
        match find_block(pool, ids.last()) {
            Some(b) => rest.push(b),
            None => rest,
        }
    }
}

/// Abstract state of an agent's memory.
#[verifier::ext_equal]
pub struct MemoryModel {
    /// Agent the memory belongs to.
    pub agent_id: AgentId,
    /// Configuration.
    pub config: MemoryConfig,
    /// Owned blocks, in insertion order.
    pub blocks: Seq<BlockView>,
    /// Ids of attached shared blocks, in attachment order.
    pub shared: Seq<MemoryBlockId>,
    /// Message history, oldest first.
    pub messages: Seq<MessageView>,
}

/// Owned block ids are unique and no shared id is attached twice.
pub open spec fn model_wf(m: MemoryModel) -> bool {
    unique_ids(m.blocks) && m.shared.no_duplicates()
}

/// Memory manager of one agent.
#[derive(Debug, Clone)]
pub struct AgentMemory {
    agent_id: AgentId,
    blocks: Vec<MemoryBlock>,
    shared_blocks: Vec<MemoryBlockId>,
    config: MemoryConfig,
    message_history: Vec<MessageEntry>,
}

impl View for AgentMemory {
    type V = MemoryModel;

    closed spec fn view(&self) -> MemoryModel {
        MemoryModel {
            agent_id: self.agent_id,
            config: self.config,
            blocks: block_views(self.blocks@),
            shared: self.shared_blocks@,
            messages: message_views(self.message_history@),
        }
    }
}

/// Finds the position of the block with this id in a block vector.
fn position_of(blocks: &Vec<MemoryBlock>, id: MemoryBlockId) -> (r: Option<usize>)
    requires
        unique_ids(block_views(blocks@)),
    ensures
        match r {
            Some(i) => i < blocks@.len() && blocks@[i as int].id == id && has_block(
                block_views(blocks@),
                id,
            ) && block_index(block_views(blocks@), id) == i,
            None => !has_block(block_views(blocks@), id),
        },
{
    let ghost bs = block_views(blocks@);
    let mut i: usize = 0;
    while i < blocks.len()
        invariant
            i <= blocks@.len(),
            bs == block_views(blocks@),
            unique_ids(bs),
            forall|j: int| 0 <= j < i ==> blocks@[j].id != id,
        decreases blocks@.len() - i,
    {
        if blocks[i].id == id {
            assert(bs[i as int].id == id);
            let ghost k = block_index(bs, id);
            assert(bs[k].id == bs[i as int].id);
            return Some(i);
        }
        i = i + 1;
    }
    assert forall|j: int| 0 <= j < bs.len() implies #[trigger] bs[j].id != id by {
        assert(bs[j].id == blocks@[j].id);
    }
    None
}

/// Inserts a block, replacing the block with the same id in place.
fn upsert_block(blocks: &mut Vec<MemoryBlock>, block: MemoryBlock)
    requires
        unique_ids(block_views(old(blocks)@)),
    ensures
        unique_ids(block_views(final(blocks)@)),
        block_views(final(blocks)@) == upsert(block_views(old(blocks)@), block@),
{
    let id = block.id;
    let ghost bv = block@;
    let ghost old_bs = block_views(blocks@);
    match position_of(blocks, id) {
        Some(i) => {
            blocks.set(i, block);
            assert(block_views(blocks@) =~= old_bs.update(i as int, bv));
        },
        None => {
            blocks.push(block);
            let ghost nb = block_views(blocks@);
            assert(nb =~= old_bs.push(bv));
            assert forall|a: int, b: int|
                0 <= a < nb.len() && 0 <= b < nb.len() && #[trigger] nb[a].id == #[trigger] nb[b].id
                implies a == b by {
                if a == old_bs.len() as int && b < old_bs.len() {
                    assert(old_bs[b].id == id);
                }
                if b == old_bs.len() as int && a < old_bs.len() {
                    assert(old_bs[a].id == id);
                }
            }
        },
    }
}

/// Replaces the value of the block at position `i`.
fn update_at(blocks: &mut Vec<MemoryBlock>, i: usize, new_value: String) -> (r: Result<(), Error>)
    requires
        i < old(blocks)@.len(),
        unique_ids(block_views(old(blocks)@)),
    ensures
        unique_ids(block_views(final(blocks)@)),
        ({
            let bs = block_views(old(blocks)@);
            let after = block_views(final(blocks)@);
            let b = bs[i as int];
            if fits(b.max_size, new_value@) {
                r is Ok && after == bs.update(
                    i as int,
                    with_value(b, new_value@, after[i as int].updated_at),
                )
            } else {
                after == bs && is_config_error(
                    r,
                    too_large_message(b.label, b.max_size->0, new_value@),
                )
            }
        }),
{
    let ghost bs = block_views(blocks@);
    let mut b = blocks[i].clone();
    let r = b.update_value(new_value);
    match r {
        Ok(()) => {
            blocks.set(i, b);
            let ghost after = block_views(blocks@);
            assert(after =~= bs.update(i as int, after[i as int]));
            assert forall|x: int, y: int|
                0 <= x < after.len() && 0 <= y < after.len() && #[trigger] after[x].id
                    == #[trigger] after[y].id implies x == y by {
                assert(after[x].id == bs[x].id);
                assert(after[y].id == bs[y].id);
            }
            Ok(())
        },
        Err(e) => {
            assert(block_views(blocks@) =~= bs);
            Err(e)
        },
    }
}

/// Sets the context flag of the block at position `i`.
fn set_context_at(blocks: &mut Vec<MemoryBlock>, i: usize, in_context: bool)
    requires
        i < old(blocks)@.len(),
        unique_ids(block_views(old(blocks)@)),
    ensures
        unique_ids(block_views(final(blocks)@)),
        ({
            let bs = block_views(old(blocks)@);
            let after = block_views(final(blocks)@);
            after == bs.update(
                i as int,
                with_context(bs[i as int], in_context, after[i as int].updated_at),
            )
        }),
{
    let ghost bs = block_views(blocks@);
    let mut b = blocks[i].clone();
    b.set_in_context(in_context);
    blocks.set(i, b);
    let ghost after = block_views(blocks@);
    assert(after =~= bs.update(i as int, after[i as int]));
    assert forall|x: int, y: int|
        0 <= x < after.len() && 0 <= y < after.len() && #[trigger] after[x].id
            == #[trigger] after[y].id implies x == y by {
        assert(after[x].id == bs[x].id);
        assert(after[y].id == bs[y].id);
    }
}

/// A copy of the block with this id.
fn find_copy(blocks: &Vec<MemoryBlock>, id: MemoryBlockId) -> (r: Option<MemoryBlock>)
    requires
        unique_ids(block_views(blocks@)),
    ensures
        match r {
            Some(b) => find_block(block_views(blocks@), id) == Some(b@),
            None => find_block(block_views(blocks@), id) is None,
        },
{
    match position_of(blocks, id) {
        Some(i) => Some(blocks[i].clone()),
        None => None,
    }
}

/// The error for an unknown owned block.
fn not_found(id: MemoryBlockId) -> (e: Error)
    ensures
        e matches Error::Config(m) && m@ == not_found_message(id),
{
    let mut m = owned("Memory block ");
    let t = id.to_text();
    push_str(&mut m, t.as_str());
    push_str(&mut m, " not found");
    Error::Config(m)
}

/// Dropping the last block of a prefix gives the shorter prefix.
proof fn lemma_take_last<T>(s: Seq<T>, i: int)
    requires
        0 <= i < s.len(),
    ensures
        s.take(i + 1).drop_last() == s.take(i),
        s.take(i + 1).last() == s[i],
{
    assert(s.take(i + 1).drop_last() =~= s.take(i));
}

/// Skipping an id that no block has changes no total.
proof fn lemma_skip_absent(bs: Seq<BlockView>, id: MemoryBlockId)
    requires
        !has_block(bs, id),
    ensures
        context_total_except(bs, Some(id)) == context_total(bs),
    decreases bs.len(),
{
    if bs.len() > 0 {
        let d = bs.drop_last();
        assert(!has_block(d, id)) by {
            if has_block(d, id) {
                let j = choose|j: int| 0 <= j < d.len() && #[trigger] d[j].id == id;
                assert(bs[j].id == id);
            }
        }
        assert(bs[bs.len() - 1].id != id);
        lemma_skip_absent(d, id);
    }
}

/// The in-context total splits into the block at `k` and all the others.
proof fn lemma_total_split(bs: Seq<BlockView>, k: int)
    requires
        unique_ids(bs),
        0 <= k < bs.len(),
    ensures
        context_total(bs) == context_total_except(bs, Some(bs[k].id)) + if bs[k].in_context {
            bs[k].value.len()
        } else {
            0
        },
    decreases bs.len(),
{
    let id = bs[k].id;
    let d = bs.drop_last();
    assert(unique_ids(d)) by {
        assert forall|a: int, b: int|
            0 <= a < d.len() && 0 <= b < d.len() && #[trigger] d[a].id == #[trigger] d[b].id
            implies a == b by {
            assert(bs[a].id == bs[b].id);
        }
    }
    if k == bs.len() - 1 {
        assert(!has_block(d, id)) by {
            if has_block(d, id) {
                let j = choose|j: int| 0 <= j < d.len() && #[trigger] d[j].id == id;
                assert(bs[j].id == bs[k].id);
            }
        }
        lemma_skip_absent(d, id);
    } else {
        assert(d[k] == bs[k]);
        lemma_total_split(d, k);
        assert(bs.last().id != id) by {
            assert(bs[bs.len() - 1].id != bs[k].id);
        }
    }
}

/// Changing the skipped block leaves the total of the others unchanged.
proof fn lemma_except_update(bs: Seq<BlockView>, k: int, b: BlockView)
    requires
        0 <= k < bs.len(),
        b.id == bs[k].id,
    ensures
        context_total_except(bs.update(k, b), Some(b.id)) == context_total_except(bs, Some(b.id)),
    decreases bs.len(),
{
    let u = bs.update(k, b);
    if k == bs.len() - 1 {
        assert(u.drop_last() =~= bs.drop_last());
    } else {
        assert(u.drop_last() =~= bs.drop_last().update(k, b));
        lemma_except_update(bs.drop_last(), k, b);
    }
}

/// Removing an element keeps ids unique.
proof fn lemma_remove_unique(bs: Seq<BlockView>, k: int)
    requires
        unique_ids(bs),
        0 <= k < bs.len(),
    ensures
        unique_ids(bs.remove(k)),
        !has_block(bs.remove(k), bs[k].id),
{
    let r = bs.remove(k);
    assert forall|a: int, b: int|
        0 <= a < r.len() && 0 <= b < r.len() && #[trigger] r[a].id == #[trigger] r[b].id implies a
        == b by {
        let a2 = if a < k { a } else { a + 1 };
        let b2 = if b < k { b } else { b + 1 };
        assert(r[a] == bs[a2]);
        assert(r[b] == bs[b2]);
    }
    if has_block(r, bs[k].id) {
        let j = choose|j: int| 0 <= j < r.len() && #[trigger] r[j].id == bs[k].id;
        let j2 = if j < k { j } else { j + 1 };
        assert(r[j] == bs[j2]);
    }
}

/// In-context size of `blocks`, skipping block `skip`, clamped to `usize`,
/// and whether the true total exceeds `usize::MAX`.
fn context_total_of(blocks: &Vec<MemoryBlock>, skip: Option<MemoryBlockId>) -> (r: (usize, bool))
    ensures
        r.0 == capped(context_total_except(block_views(blocks@), skip)),
        r.1 == (context_total_except(block_views(blocks@), skip) > usize::MAX),
{
    let ghost bs = block_views(blocks@);
    let mut acc: usize = 0;
    let mut over = false;
    let mut i: usize = 0;
    while i < blocks.len()
        invariant
            i <= blocks@.len(),
            bs == block_views(blocks@),
            acc == capped(context_total_except(bs.take(i as int), skip)),
            over == (context_total_except(bs.take(i as int), skip) > usize::MAX),
        decreases blocks@.len() - i,
    {
        proof {
            lemma_take_last(bs, i as int);
        }
        let b = &blocks[i];
        let skipped = match skip {
            Some(s) => s == b.id,
            None => false,
        };
        if b.in_context && !skipped {
            let size = b.size();
            if !over {
                match acc.checked_add(size) {
                    Some(t) => {
                        acc = t;
                    },
                    None => {
                        acc = usize::MAX;
                        over = true;
                    },
                }
            }
        }
        i = i + 1;
    }
    assert(bs.take(blocks@.len() as int) =~= bs);
    (acc, over)
}

/// The blocks of `blocks` whose context flag equals `flag`, copied in order.
fn blocks_with_context(blocks: &Vec<MemoryBlock>, flag: bool) -> (r: Vec<MemoryBlock>)
    ensures
        flag ==> block_views(r@) == in_context_of(block_views(blocks@)),
        !flag ==> block_views(r@) == out_of_context_of(block_views(blocks@)),
{
    let ghost bs = block_views(blocks@);
    let mut out: Vec<MemoryBlock> = Vec::new();
    let mut i: usize = 0;
    while i < blocks.len()
        invariant
            i <= blocks@.len(),
            bs == block_views(blocks@),
            flag ==> block_views(out@) == in_context_of(bs.take(i as int)),
            !flag ==> block_views(out@) == out_of_context_of(bs.take(i as int)),
        decreases blocks@.len() - i,
    {
        proof {
            lemma_take_last(bs, i as int);
        }
        let ghost before = block_views(out@);
        if blocks[i].in_context == flag {
            out.push(blocks[i].clone());
            assert(block_views(out@) =~= before.push(bs[i as int]));
        }
        i = i + 1;
    }
    assert(bs.take(blocks@.len() as int) =~= bs);
    out
}

/// Copies of the messages from position `start` on.
fn copy_messages_from(ms: &Vec<MessageEntry>, start: usize) -> (r: Vec<MessageEntry>)
    requires
        start <= ms@.len(),
    ensures
        message_views(r@) == message_views(ms@).skip(start as int),
{
    let ghost all = message_views(ms@);
    let mut out: Vec<MessageEntry> = Vec::new();
    let mut i: usize = start;
    while i < ms.len()
        invariant
            start <= i <= ms@.len(),
            all == message_views(ms@),
            message_views(out@) == all.subrange(start as int, i as int),
        decreases ms@.len() - i,
    {
        let ghost before = message_views(out@);
        out.push(ms[i].clone());
        assert(message_views(out@) =~= before.push(all[i as int]));
        assert(all.subrange(start as int, i + 1) =~= all.subrange(start as int, i as int).push(
            all[i as int],
        ));
        i = i + 1;
    }
    assert(all.subrange(start as int, ms@.len() as int) =~= all.skip(start as int));
    out
}

/// The outcome of moving block `id` of `bs` into (`into`) or out of the
/// context window, giving blocks `after` and result `r`; `max` is the
/// configured maximum in-context size.
pub open spec fn context_move(
    bs: Seq<BlockView>,
    id: MemoryBlockId,
    into: bool,
    max: usize,
    after: Seq<BlockView>,
    r: Result<(), Error>,
) -> bool {
    match find_block(bs, id) {
        None => after == bs && is_config_error(r, not_found_message(id)),
        Some(b) => {
            let k = block_index(bs, id);
            let current = context_total_except(bs, Some(id));
            let size = b.value.len();
            if into && current + size > max {
                after == bs && is_config_error(
                    r,
                    context_full_message(b.label, capped(current), size, max),
                )
            } else {
                r is Ok && after == bs.update(k, with_context(b, into, after[k].updated_at))
            }
        },
    }
}

/// The other parts of the memory are as they were.
pub open spec fn same_but_blocks(a: MemoryModel, b: MemoryModel) -> bool {
    &&& a.agent_id == b.agent_id
    &&& a.config == b.config
    &&& a.shared == b.shared
    &&& a.messages == b.messages
}

impl AgentMemory {
    /// Memory is well formed.
    pub open spec fn wf(&self) -> bool {
        model_wf(self@)
    }

    /// Agent this memory belongs to.
    pub fn agent_id(&self) -> (id: AgentId)
        ensures
            id == self@.agent_id,
    {
        self.agent_id
    }

    /// Configuration.
    pub fn config(&self) -> (c: &MemoryConfig)
        ensures
            *c == self@.config,
    {
        &self.config
    }

    /// Empty memory for an agent.
    pub fn new(agent_id: AgentId, config: MemoryConfig) -> (m: AgentMemory)
        ensures
            m.wf(),
            m@.agent_id == agent_id,
            m@.config == config,
            m@.blocks == Seq::<BlockView>::empty(),
            m@.shared == Seq::<MemoryBlockId>::empty(),
            m@.messages == Seq::<MessageView>::empty(),
    {
        let m = AgentMemory {
            agent_id,
            blocks: Vec::new(),
            shared_blocks: Vec::new(),
            config,
            message_history: Vec::new(),
        };
        assert(m@.blocks =~= Seq::<BlockView>::empty());
        assert(m@.messages =~= Seq::<MessageView>::empty());
        m
    }

    /// Adds a block (replacing a block with the same id) and returns its id.
    pub fn add_block(&mut self, block: MemoryBlock) -> (r: Result<MemoryBlockId, Error>)
        requires
            old(self).wf(),
        ensures
            final(self).wf(),
            r == Ok::<MemoryBlockId, Error>(block.id),
            final(self)@.blocks == upsert(old(self)@.blocks, block@),
            same_but_blocks(final(self)@, old(self)@),
    {
        let id = block.id;
        upsert_block(&mut self.blocks, block);
        Ok(id)
    }

    /// A copy of the block with this id, if any.
    pub fn get_block(&self, id: MemoryBlockId) -> (r: Option<MemoryBlock>)
        requires
            self.wf(),
        ensures
            match r {
                Some(b) => find_block(self@.blocks, id) == Some(b@),
                None => find_block(self@.blocks, id) is None,
            },
    {
        find_copy(&self.blocks, id)
    }

    /// Replaces the value of a block, subject to its size limit.
    pub fn update_block(&mut self, id: MemoryBlockId, new_value: String) -> (r: Result<(), Error>)
        requires
            old(self).wf(),
        ensures
            final(self).wf(),
            value_update(
                old(self)@.blocks,
                id,
                new_value@,
                final(self)@.blocks,
                r,
                not_found_message(id),
            ),
            same_but_blocks(final(self)@, old(self)@),
    {
        match position_of(&self.blocks, id) {
            Some(i) => update_at(&mut self.blocks, i, new_value),
            None => Err(not_found(id)),
        }
    }

    /// Deletes a block.
    pub fn delete_block(&mut self, id: MemoryBlockId) -> (r: Result<(), Error>)
        requires
            old(self).wf(),
        ensures
            final(self).wf(),
            !has_block(final(self)@.blocks, id),
            match find_block(old(self)@.blocks, id) {
                None => final(self)@ == old(self)@ && is_config_error(r, not_found_message(id)),
                Some(_) => r is Ok && final(self)@.blocks == old(self)@.blocks.remove(
                    block_index(old(self)@.blocks, id),
                ),
            },
            same_but_blocks(final(self)@, old(self)@),
    {
        let ghost bs = self@.blocks;
        match position_of(&self.blocks, id) {
            Some(i) => {
                let _removed = self.blocks.remove(i);
                assert(self@.blocks =~= bs.remove(i as int));
                proof {
                    lemma_remove_unique(bs, i as int);
                }
                Ok(())
            },
            None => Err(not_found(id)),
        }
    }

    /// Attaches a block of the shared manager by id; attaching twice has no
    /// further effect.
    pub fn attach_shared_block(&mut self, block_id: MemoryBlockId)
        requires
            old(self).wf(),
        ensures
            final(self).wf(),
            final(self)@.shared == if old(self)@.shared.contains(block_id) {
                old(self)@.shared
            } else {
                old(self)@.shared.push(block_id)
            },
            final(self)@.agent_id == old(self)@.agent_id,
            final(self)@.config == old(self)@.config,
            final(self)@.blocks == old(self)@.blocks,
            final(self)@.messages == old(self)@.messages,
    {
        let ghost s = self.shared_blocks@;
        let mut i: usize = 0;
        while i < self.shared_blocks.len()
            invariant
                i <= s.len(),
                s == self.shared_blocks@,
                self.wf(),
                forall|j: int| 0 <= j < i ==> s[j] != block_id,
            decreases s.len() - i,
        {
            if self.shared_blocks[i] == block_id {
                assert(s[i as int] == block_id);
                return;
            }
            i = i + 1;
        }
        self.shared_blocks.push(block_id);
        assert forall|a: int, b: int|
            0 <= a < self.shared_blocks@.len() && 0 <= b < self.shared_blocks@.len() && a != b
            implies self.shared_blocks@[a] != self.shared_blocks@[b] by {
            if a == s.len() as int {
                assert(s[b] != block_id);
            }
            if b == s.len() as int {
                assert(s[a] != block_id);
            }
        }
    }

    /// Copies of the in-context blocks.
    pub fn in_context_blocks(&self) -> (r: Vec<MemoryBlock>)
        ensures
            block_views(r@) == in_context_of(self@.blocks),
    {
        blocks_with_context(&self.blocks, true)
    }

    /// Copies of the blocks out of context.
    pub fn out_of_context_blocks(&self) -> (r: Vec<MemoryBlock>)
        ensures
            block_views(r@) == out_of_context_of(self@.blocks),
    {
        blocks_with_context(&self.blocks, false)
    }

    /// Total size in characters of the in-context blocks (clamped to `usize`).
    pub fn context_size(&self) -> (n: usize)
        ensures
            n == capped(context_total(self@.blocks)),
    {
        context_total_of(&self.blocks, None).0
    }

    /// Moves a block out of the context window.
    pub fn move_out_of_context(&mut self, id: MemoryBlockId) -> (r: Result<(), Error>)
        requires
            old(self).wf(),
        ensures
            final(self).wf(),
            context_move(
                old(self)@.blocks,
                id,
                false,
                old(self)@.config.max_context_size,
                final(self)@.blocks,
                r,
            ),
            same_but_blocks(final(self)@, old(self)@),
    {
        match position_of(&self.blocks, id) {
            Some(i) => {
                set_context_at(&mut self.blocks, i, false);
                Ok(())
            },
            None => Err(not_found(id)),
        }
    }

    /// Moves a block into the context window, unless the in-context total
    /// would then exceed the configured maximum.
    pub fn move_into_context(&mut self, id: MemoryBlockId) -> (r: Result<(), Error>)
        requires
            old(self).wf(),
        ensures
            final(self).wf(),
            r is Ok ==> context_total(final(self)@.blocks) <= old(self)@.config.max_context_size,
            r is Ok ==> context_total(final(self)@.blocks) == context_total_except(
                old(self)@.blocks,
                Some(id),
            ) + find_block(old(self)@.blocks, id)->0.value.len(),
            context_move(
                old(self)@.blocks,
                id,
                true,
                old(self)@.config.max_context_size,
                final(self)@.blocks,
                r,
            ),
            same_but_blocks(final(self)@, old(self)@),
    {
        let ghost bs = self@.blocks;
        let (current, over) = context_total_of(&self.blocks, Some(id));
        match position_of(&self.blocks, id) {
            None => Err(not_found(id)),
            Some(i) => {
                let size = self.blocks[i].size();
                let max = self.config.max_context_size;
                let too_big = over || (current as u128) + (size as u128) > (max as u128);
                if too_big {
                    let mut m = owned("Adding block '");
                    push_str(&mut m, self.blocks[i].label.as_str());
                    push_str(&mut m, "' would exceed max context size (");
                    push_decimal(&mut m, current);
                    push_str(&mut m, " + ");
                    push_decimal(&mut m, size);
                    push_str(&mut m, " > ");
                    push_decimal(&mut m, max);
                    push_str(&mut m, ")");
                    Err(Error::Config(m))
                } else {
                    set_context_at(&mut self.blocks, i, true);
                    proof {
                        let after = self@.blocks;
                        lemma_except_update(bs, i as int, after[i as int]);
                        assert(after == bs.update(i as int, after[i as int]));
                        lemma_total_split(after, i as int);
                    }
                    Ok(())
                }
            },
        }
    }

    /// Replaces the message history with `messages`, oldest first (as a
    /// history restored from storage).
    pub fn replace_messages(&mut self, messages: Vec<MessageEntry>)
        requires
            old(self).wf(),
        ensures
            final(self).wf(),
            final(self)@.messages == message_views(messages@),
            final(self)@.agent_id == old(self)@.agent_id,
            final(self)@.config == old(self)@.config,
            final(self)@.blocks == old(self)@.blocks,
            final(self)@.shared == old(self)@.shared,
    {
        self.message_history = messages;
    }

    /// Records a message in the history and returns its fresh id.
    pub fn add_message(&mut self, role: String, content: String) -> (id: u128)
        requires
            old(self).wf(),
        ensures
            final(self).wf(),
            final(self)@.messages == old(self)@.messages.push(
                MessageView {
                    id,
                    timestamp: final(self)@.messages.last().timestamp,
                    role: role@,
                    content: content@,
                    tool_calls: None,
                    metadata: Map::empty(),
                },
            ),
            final(self)@.agent_id == old(self)@.agent_id,
            final(self)@.config == old(self)@.config,
            final(self)@.blocks == old(self)@.blocks,
            final(self)@.shared == old(self)@.shared,
    {
        let ghost before = self@.messages;
        let id = fresh_uuid();
        let message = MessageEntry {
            id,
            timestamp: now_millis(),
            role,
            content,
            tool_calls: None,
            metadata: HashMap::new(),
        };
        let ghost mv = message@;
        self.message_history.push(message);
        assert(self@.messages =~= before.push(mv));
        id
    }

    /// Copies of the last `limit` messages (all of them when there are fewer),
    /// oldest first.
    pub fn get_recent_messages(&self, limit: usize) -> (r: Vec<MessageEntry>)
        ensures
            message_views(r@) == recent_messages(self@.messages, limit as nat),
    {
        let n = self.message_history.len();
        let start = if limit >= n {
            0
        } else {
            n - limit
        };
        let r = copy_messages_from(&self.message_history, start);
        assert(self@.messages.skip(0) =~= self@.messages);
        r
    }

    /// Copies of the messages whose content contains `query`, in order.
    pub fn search_messages(&self, query: &str) -> (r: Vec<MessageEntry>)
        ensures
            message_views(r@) == matching_messages(self@.messages, query@),
    {
        let ghost ms = self@.messages;
        let mut out: Vec<MessageEntry> = Vec::new();
        let mut i: usize = 0;
        while i < self.message_history.len()
            invariant
                i <= ms.len(),
                ms == message_views(self.message_history@),
                message_views(out@) == matching_messages(ms.take(i as int), query@),
            decreases ms.len() - i,
        {
            proof {
                lemma_take_last(ms, i as int);
            }
            let ghost before = message_views(out@);
            let chars = to_chars(self.message_history[i].content.as_str());
            if str_contains(chars.as_slice(), query) {
                out.push(self.message_history[i].clone());
                assert(message_views(out@) =~= before.push(ms[i as int]));
            }
            i = i + 1;
        }
        assert(ms.take(ms.len() as int) =~= ms);
        out
    }

    /// Copies of the owned blocks followed, when a shared manager is given,
    /// by the attached shared blocks that it holds, in attachment order.
    pub fn all_blocks(&self, shared_memory_manager: Option<&SharedMemoryManager>) -> (r: Vec<
        MemoryBlock,
    >)
        ensures
            block_views(r@) == self@.blocks + match shared_memory_manager {
                Some(m) => resolved(self@.shared, m@),
                None => Seq::<BlockView>::empty(),
            },
    {
        let ghost own = self@.blocks;
        let mut out = copy_blocks(&self.blocks);
        match shared_memory_manager {
            None => {
                assert(own + Seq::<BlockView>::empty() =~= own);
            },
            Some(manager) => {
                let ghost ids = self@.shared;
                let mut j: usize = 0;
                while j < self.shared_blocks.len()
                    invariant
                        j <= ids.len(),
                        ids == self.shared_blocks@,
                        block_views(out@) == own + resolved(ids.take(j as int), manager@),
                    decreases ids.len() - j,
                {
                    proof {
                        lemma_take_last(ids, j as int);
                    }
                    let ghost before = block_views(out@);
                    match manager.get_block(self.shared_blocks[j]) {
                        Some(b) => {
                            out.push(b);
                            assert(block_views(out@) =~= before.push(
                                find_block(manager@, ids[j as int])->0,
                            ));
                        },
                        None => {},
                    }
                    j = j + 1;
                }
                assert(ids.take(ids.len() as int) =~= ids);
            },
        }
        out
    }
}

/// Copies of the given blocks, in order.
fn copy_blocks(v: &Vec<MemoryBlock>) -> (r: Vec<MemoryBlock>)
    ensures
        block_views(r@) == block_views(v@),
{
    let ghost own = block_views(v@);
    let mut out: Vec<MemoryBlock> = Vec::new();
    let mut i: usize = 0;
    while i < v.len()
        invariant
            i <= own.len(),
            own == block_views(v@),
            block_views(out@) == own.take(i as int),
        decreases own.len() - i,
    {
        let ghost before = block_views(out@);
        out.push(v[i].clone());
        assert(block_views(out@) =~= before.push(own[i as int]));
        assert(own.take(i + 1) =~= own.take(i as int).push(own[i as int]));
        i = i + 1;
    }
    assert(own.take(own.len() as int) =~= own);
    out
}

/// Blocks shared between the agents that attach them.
#[derive(Debug)]
pub struct SharedMemoryManager {
    blocks: Vec<MemoryBlock>,
}

impl View for SharedMemoryManager {
    type V = Seq<BlockView>;

    closed spec fn view(&self) -> Seq<BlockView> {
        block_views(self.blocks@)
    }
}

/// In blocks with unique ids, the block at `k` is the one found under its id.
pub proof fn lemma_index_unique(bs: Seq<BlockView>, k: int)
    requires
        unique_ids(bs),
        0 <= k < bs.len(),
    ensures
        has_block(bs, bs[k].id),
        block_index(bs, bs[k].id) == k,
        find_block(bs, bs[k].id) == Some(bs[k]),
{
    assert(bs[k].id == bs[k].id);
    let j = block_index(bs, bs[k].id);
    assert(bs[j].id == bs[k].id);
}

/// After an upsert, the block is found under its id.
proof fn lemma_upsert_finds(bs: Seq<BlockView>, b: BlockView)
    requires
        unique_ids(upsert(bs, b)),
    ensures
        find_block(upsert(bs, b), b.id) == Some(b),
{
    let u = upsert(bs, b);
    if has_block(bs, b.id) {
        let k = block_index(bs, b.id);
        assert(u[k] == b);
        lemma_index_unique(u, k);
    } else {
        assert(u[bs.len() as int] == b);
        lemma_index_unique(u, bs.len() as int);
    }
}

impl Clone for SharedMemoryManager {
    fn clone(&self) -> (r: Self)
        ensures
            r@ == self@,
    {
        proof {
            use_type_invariant(self);
        }
        SharedMemoryManager { blocks: copy_blocks(&self.blocks) }
    }
}

impl SharedMemoryManager {
    #[verifier::type_invariant]
    spec fn ids_unique(self) -> bool {
        unique_ids(block_views(self.blocks@))
    }

    /// An empty manager.
    pub fn new() -> (m: SharedMemoryManager)
        ensures
            m@ == Seq::<BlockView>::empty(),
    {
        let m = SharedMemoryManager { blocks: Vec::new() };
        assert(m@ =~= Seq::<BlockView>::empty());
        m
    }

    /// Creates an in-context shared block and returns its id.
    pub fn create_block(&mut self, label: String, description: String, value: String) -> (id:
        MemoryBlockId)
        ensures
            ({
                let b = find_block(final(self)@, id)->0;
                &&& find_block(final(self)@, id) is Some
                &&& final(self)@ == upsert(old(self)@, b)
                &&& b.label == label@
                &&& b.description == description@
                &&& b.value == value@
                &&& b.max_size is None
                &&& b.in_context
                &&& b.created_at == b.updated_at
                &&& b.metadata == Map::<String, String>::empty()
            }),
    {
        proof {
            use_type_invariant(&*self);
        }
        let block = MemoryBlock::with_description(label, description, value);
        let id = block.id;
        let ghost bv = block@;
        let mut blocks: Vec<MemoryBlock> = Vec::new();
        std::mem::swap(&mut blocks, &mut self.blocks);
        upsert_block(&mut blocks, block);
        self.blocks = blocks;
        proof {
            lemma_upsert_finds(old(self)@, bv);
        }
        id
    }

    /// A copy of the shared block with this id, if any.
    pub fn get_block(&self, id: MemoryBlockId) -> (r: Option<MemoryBlock>)
        ensures
            match r {
                Some(b) => find_block(self@, id) == Some(b@),
                None => find_block(self@, id) is None,
            },
    {
        proof {
            use_type_invariant(self);
        }
        find_copy(&self.blocks, id)
    }

    /// Replaces the value of a shared block, subject to its size limit.
    pub fn update_block(&mut self, id: MemoryBlockId, new_value: String) -> (r: Result<(), Error>)
        ensures
            value_update(old(self)@, id, new_value@, final(self)@, r, shared_not_found_message(id)),
    {
        proof {
            use_type_invariant(&*self);
        }
        match position_of(&self.blocks, id) {
            Some(i) => {
                let mut blocks: Vec<MemoryBlock> = Vec::new();
                std::mem::swap(&mut blocks, &mut self.blocks);
                let r = update_at(&mut blocks, i, new_value);
                self.blocks = blocks;
                r
            },
            None => {
                let mut m = owned("Shared block ");
                let t = id.to_text();
                push_str(&mut m, t.as_str());
                push_str(&mut m, " not found");
                Err(Error::Config(m))
            },
        }
    }
}

/// The message of the error raised for an unknown shared block.
pub open spec fn shared_not_found_message(id: MemoryBlockId) -> Seq<char> {
    "Shared block "@ + uuid_text(id.0) + " not found"@
}

/// Reading a block back after a successful write gives the written value:
/// when a value update of block `id` succeeds, the block found under `id`
/// afterwards holds `nv` and keeps its label, limit and context flag.
pub proof fn lemma_read_after_write(
    bs: Seq<BlockView>,
    id: MemoryBlockId,
    nv: Seq<char>,
    after: Seq<BlockView>,
    r: Result<(), Error>,
    missing: Seq<char>,
)
    requires
        unique_ids(bs),
        value_update(bs, id, nv, after, r, missing),
        r is Ok,
    ensures
        find_block(after, id) is Some,
        find_block(after, id)->0.value == nv,
        find_block(after, id)->0.label == find_block(bs, id)->0.label,
        find_block(after, id)->0.max_size == find_block(bs, id)->0.max_size,
        find_block(after, id)->0.in_context == find_block(bs, id)->0.in_context,
{
    let k = block_index(bs, id);
    assert(after[k].id == id);
    assert forall|a: int, b: int|
        0 <= a < after.len() && 0 <= b < after.len() && #[trigger] after[a].id
            == #[trigger] after[b].id implies a == b by {
        assert(after[a].id == bs[a].id);
        assert(after[b].id == bs[b].id);
    }
    lemma_index_unique(after, k);
}

/// A block just added is found under its id, whatever was there before.
pub proof fn lemma_added_is_found(bs: Seq<BlockView>, b: BlockView)
    requires
        unique_ids(upsert(bs, b)),
    ensures
        find_block(upsert(bs, b), b.id) == Some(b),
{
    lemma_upsert_finds(bs, b);
}

/// Every block is either in the context window or out of it.
pub proof fn lemma_context_partition(bs: Seq<BlockView>)
    ensures
        in_context_of(bs).len() + out_of_context_of(bs).len() == bs.len(),
    decreases bs.len(),
{
    if bs.len() > 0 {
        lemma_context_partition(bs.drop_last());
    }
}

/// A block is stale at time `now` (milliseconds) when it was last changed
/// more than an hour before and its label is not one of the standing blocks
/// (`persona`, `organization`, `system`).
pub open spec fn stale(b: BlockView, now: i64) -> bool {
    &&& now - b.updated_at > 3_600_000
    &&& b.label != "persona"@
    &&& b.label != "organization"@
    &&& b.label != "system"@
}

/// `after` is `before` with every stale in-context block moved out of the
/// context window.
pub open spec fn archived(before: Seq<BlockView>, now: i64, after: Seq<BlockView>) -> bool {
    &&& after.len() == before.len()
    &&& forall|i: int|
        0 <= i < before.len() ==> if before[i].in_context && stale(before[i], now) {
            #[trigger] after[i] == with_context(before[i], false, after[i].updated_at)
        } else {
            after[i] == before[i]
        }
}

impl AgentMemory {
    /// Moves every stale in-context block out of the context window.
    pub fn archive_stale(&mut self, now: i64)
        requires
            old(self).wf(),
        ensures
            final(self).wf(),
            archived(old(self)@.blocks, now, final(self)@.blocks),
            same_but_blocks(final(self)@, old(self)@),
    {
        let ghost bs = self@.blocks;
        let mut i: usize = 0;
        while i < self.blocks.len()
            invariant
                i <= bs.len(),
                self.wf(),
                self@.blocks.len() == bs.len(),
                same_but_blocks(self@, old(self)@),
                bs == old(self)@.blocks,
                forall|j: int|
                    0 <= j < i ==> if bs[j].in_context && stale(bs[j], now) {
                        #[trigger] self@.blocks[j] == with_context(
                            bs[j],
                            false,
                            self@.blocks[j].updated_at,
                        )
                    } else {
                        self@.blocks[j] == bs[j]
                    },
                forall|j: int| i <= j < bs.len() ==> #[trigger] self@.blocks[j] == bs[j],
            decreases bs.len() - i,
        {
            assert(self@.blocks[i as int] == self.blocks@[i as int]@);
            let b = &self.blocks[i];
            let age: i128 = now as i128 - b.updated_at as i128;
            let standing = crate::text::str_eq(b.label.as_str(), "persona")
                || crate::text::str_eq(b.label.as_str(), "organization")
                || crate::text::str_eq(b.label.as_str(), "system");
            if b.in_context && age > 3_600_000 && !standing {
                let ghost prev = self@.blocks;
                set_context_at(&mut self.blocks, i, false);
                assert forall|j: int| 0 <= j < bs.len() && j != i implies #[trigger] self@.blocks[j]
                    == prev[j] by {}
            }
            i = i + 1;
        }
    }
}

/// Archival keeps every block, in place: the persona, organization and
/// system blocks and every block changed within the last hour (3,600,000
/// ms) stay as they are, as do blocks already out of context; every other
/// in-context block leaves the context window, keeping its id, label and
/// value.
pub proof fn lemma_archival(before: Seq<BlockView>, now: i64, after: Seq<BlockView>)
    requires
        archived(before, now, after),
    ensures
        after.len() == before.len(),
        forall|i: int|
            0 <= i < before.len() && (before[i].label == "persona"@ || before[i].label == "organization"@
                || before[i].label == "system"@ || now - before[i].updated_at <= 3_600_000
                || !before[i].in_context) ==> #[trigger] after[i] == before[i],
        forall|i: int|
            0 <= i < before.len() && before[i].in_context && before[i].label != "persona"@
                && before[i].label != "organization"@ && before[i].label != "system"@ && now
                - before[i].updated_at > 3_600_000 ==> !(#[trigger] after[i]).in_context
                && after[i].id == before[i].id && after[i].label == before[i].label && after[i].value
                == before[i].value,
{
    assert forall|i: int|
        0 <= i < before.len() && (before[i].label == "persona"@ || before[i].label == "organization"@
            || before[i].label == "system"@ || now - before[i].updated_at <= 3_600_000
            || !before[i].in_context) implies #[trigger] after[i] == before[i] by {
        assert(!(before[i].in_context && stale(before[i], now)));
    }
    assert forall|i: int|
        0 <= i < before.len() && before[i].in_context && before[i].label != "persona"@
            && before[i].label != "organization"@ && before[i].label != "system"@ && now
            - before[i].updated_at > 3_600_000 implies !(#[trigger] after[i]).in_context
            && after[i].id == before[i].id && after[i].label == before[i].label && after[i].value
            == before[i].value by {
        assert(stale(before[i], now));
    }
}

/// Message views have one entry per message.
pub proof fn lemma_message_views_len(v: Seq<MessageEntry>)
    ensures
        message_views(v).len() == v.len(),
{
}

} // verus!
