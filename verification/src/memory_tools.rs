//! Tools through which an agent manages its own memory: editing blocks,
//! moving them in and out of the context window, listing them, and searching
//! the message history.
use vstd::prelude::*;
use vstd::utf8::*;
use crate::error::Error;
use crate::json::{json_str, member_views, push_member, str_member, Json, JsonView, json_views};
use crate::memory::{
    block_views, context_move, context_total, capped, in_context_of, matching_messages,
    message_views, not_found_message, out_of_context_of, same_but_blocks, value_update, AgentMemory,
    BlockView, MemoryBlock, MemoryBlockId, MessageEntry, MessageView,
};
use crate::text::{byte_len, cut_preview, decimal, owned, preview, push_decimal, push_str};
use crate::tools::{make_property, property, JsonSchema, ToolOutput};
use crate::types::uuid_text;

verus! {

/// What `serde_json` makes of a JSON string literal holding a UUID: its
/// value, or the text of the error.
pub uninterp spec fn uuid_from_json(text: Seq<char>) -> Result<u128, Seq<char>>;

/// Parses JSON text as a UUID with `serde_json::from_str::<uuid::Uuid>`.
#[verifier::external_body]
fn parse_uuid_json(text: &str) -> (r: Result<u128, String>)
    ensures
        match r {
            Ok(v) => uuid_from_json(text@) == Ok::<u128, Seq<char>>(v),
            Err(e) => uuid_from_json(text@) == Err::<u128, Seq<char>>(e@),
        },
{
    match serde_json::from_str::<uuid::Uuid>(text) {
        Ok(u) => Ok(u.as_u128()),
        Err(e) => Err(e.to_string()),
    }
}

/// The block id that a tool parameter names, read as a JSON string.
pub open spec fn block_id_of(param: Seq<char>) -> Result<u128, Seq<char>> {
    uuid_from_json("\""@ + param + "\""@)
}

/// Reads a block id from a tool parameter; a malformed id is a
/// serialization error.
pub fn parse_block_id(param: &str) -> (r: Result<MemoryBlockId, Error>)
    ensures
        match block_id_of(param@) {
            Ok(v) => r == Ok::<MemoryBlockId, Error>(MemoryBlockId(v)),
            Err(m) => r matches Err(Error::Serialization(t)) && t@ == m,
        },
{
    let mut quoted = owned("\"");
    push_str(&mut quoted, param);
    push_str(&mut quoted, "\"");
    match parse_uuid_json(quoted.as_str()) {
        Ok(v) => Ok(MemoryBlockId(v)),
        Err(e) => Err(Error::Serialization(e)),
    }
}

/// The error for a missing parameter of a tool.
fn missing(tool: &str, what: &str) -> (e: Error)
    ensures
        e matches Error::ToolExecution { tool: t, message: m } && t@ == tool@ && m@ == what@,
{
    Error::ToolExecution { tool: owned(tool), message: owned(what) }
}

/// `r` is the error of tool `tool` with message `msg`.
pub open spec fn tool_error(r: Result<ToolOutput, Error>, tool: Seq<char>, msg: Seq<char>) -> bool {
    match r {
        Err(Error::ToolExecution { tool: t, message: m }) => t@ == tool && m@ == msg,
        _ => false,
    }
}

/// `r` is a serialization error with message `msg`.
pub open spec fn serialization_error(r: Result<ToolOutput, Error>, msg: Seq<char>) -> bool {
    match r {
        Err(Error::Serialization(m)) => m@ == msg,
        _ => false,
    }
}

/// `r` is a success with this text and data.
pub open spec fn succeeded_with(r: Result<ToolOutput, Error>, content: Seq<char>, data: JsonView) -> bool {
    match r {
        Ok(o) => o.success && o.content@ == content && o.error is None && match o.data {
            Some(d) => d@ == data,
            None => false,
        },
        Err(_) => false,
    }
}

/// The unit result matching a tool result.
pub open spec fn unit_of(r: Result<ToolOutput, Error>) -> Result<(), Error> {
    match r {
        Ok(_) => Ok(()),
        Err(e) => Err(e),
    }
}

/// Data naming a block: `{"block_id": ...}`.
pub open spec fn block_id_data(id: Seq<char>) -> JsonView {
    JsonView::Object(seq![("block_id"@, JsonView::Str(id))])
}

fn make_block_id_data(id: &str) -> (j: Json)
    ensures
        j@ == block_id_data(id@),
{
    let mut m: Vec<(String, Json)> = Vec::new();
    assert(member_views(m@) =~= Seq::<(Seq<char>, JsonView)>::empty());
    push_member(&mut m, "block_id", json_str(id));
    assert(member_views(m@) =~= seq![("block_id"@, JsonView::Str(id@))]);
    Json::Object(m)
}

/// The `update_memory` tool: replaces the value of the block named by the
/// `block_id` parameter with the `new_value` parameter.
pub fn update_memory(memory: &mut AgentMemory, params: &Json) -> (r: Result<ToolOutput, Error>)
    requires
        old(memory).wf(),
    ensures
        final(memory).wf(),
        same_but_blocks(final(memory)@, old(memory)@),
        match (str_member(params@, "block_id"@), str_member(params@, "new_value"@)) {
            (None, _) => final(memory)@ == old(memory)@ && tool_error(
                r,
                "update_memory"@,
                "Missing block_id"@,
            ),
            (Some(_), None) => final(memory)@ == old(memory)@ && tool_error(
                r,
                "update_memory"@,
                "Missing new_value"@,
            ),
            (Some(b), Some(v)) => match block_id_of(b) {
                Err(m) => final(memory)@ == old(memory)@ && serialization_error(r, m),
                Ok(id) => {
                    &&& value_update(
                        old(memory)@.blocks,
                        MemoryBlockId(id),
                        v,
                        final(memory)@.blocks,
                        unit_of(r),
                        not_found_message(MemoryBlockId(id)),
                    )
                    &&& r is Ok ==> succeeded_with(
                        r,
                        "Successfully updated memory block "@ + b,
                        block_id_data(b),
                    )
                },
            },
        },
{
    let block_id = match params.get_str("block_id") {
        Some(b) => b,
        None => return Err(missing("update_memory", "Missing block_id")),
    };
    let new_value = match params.get_str("new_value") {
        Some(v) => v,
        None => return Err(missing("update_memory", "Missing new_value")),
    };
    let id = match parse_block_id(block_id.as_str()) {
        Ok(id) => id,
        Err(e) => return Err(e),
    };
    match memory.update_block(id, new_value) {
        Ok(()) => {},
        Err(e) => return Err(e),
    }
    let mut msg = owned("Successfully updated memory block ");
    push_str(&mut msg, block_id.as_str());
    Ok(ToolOutput::success_with_data(msg, make_block_id_data(block_id.as_str())))
}

/// The tools that move a block in or out of the context window: read the
/// `block_id` parameter and move the block.
fn move_tool(memory: &mut AgentMemory, params: &Json, into: bool) -> (r: Result<ToolOutput, Error>)
    requires
        old(memory).wf(),
    ensures
        final(memory).wf(),
        same_but_blocks(final(memory)@, old(memory)@),
        ({
            let tool = if into {
                "move_into_context"@
            } else {
                "move_out_of_context"@
            };
            match str_member(params@, "block_id"@) {
                None => final(memory)@ == old(memory)@ && tool_error(r, tool, "Missing block_id"@),
                Some(b) => match block_id_of(b) {
                    Err(m) => final(memory)@ == old(memory)@ && serialization_error(r, m),
                    Ok(id) => {
                        &&& context_move(
                            old(memory)@.blocks,
                            MemoryBlockId(id),
                            into,
                            old(memory)@.config.max_context_size,
                            final(memory)@.blocks,
                            unit_of(r),
                        )
                        &&& r is Ok ==> succeeded_with(
                            r,
                            "Moved memory block "@ + b + if into {
                                " into context"@
                            } else {
                                " out of context"@
                            },
                            block_id_data(b),
                        )
                    },
                },
            }
        }),
{
    let tool = if into {
        "move_into_context"
    } else {
        "move_out_of_context"
    };
    let block_id = match params.get_str("block_id") {
        Some(b) => b,
        None => return Err(missing(tool, "Missing block_id")),
    };
    let id = match parse_block_id(block_id.as_str()) {
        Ok(id) => id,
        Err(e) => return Err(e),
    };
    let moved = if into {
        memory.move_into_context(id)
    } else {
        memory.move_out_of_context(id)
    };
    match moved {
        Ok(()) => {},
        Err(e) => return Err(e),
    }
    let mut msg = owned("Moved memory block ");
    push_str(&mut msg, block_id.as_str());
    if into {
        push_str(&mut msg, " into context");
    } else {
        push_str(&mut msg, " out of context");
    }
    Ok(ToolOutput::success_with_data(msg, make_block_id_data(block_id.as_str())))
}

/// The `move_out_of_context` tool.
pub fn move_out_of_context(memory: &mut AgentMemory, params: &Json) -> (r: Result<ToolOutput, Error>)
    requires
        old(memory).wf(),
    ensures
        final(memory).wf(),
        same_but_blocks(final(memory)@, old(memory)@),
        match str_member(params@, "block_id"@) {
            None => final(memory)@ == old(memory)@ && tool_error(
                r,
                "move_out_of_context"@,
                "Missing block_id"@,
            ),
            Some(b) => match block_id_of(b) {
                Err(m) => final(memory)@ == old(memory)@ && serialization_error(r, m),
                Ok(id) => {
                    &&& context_move(
                        old(memory)@.blocks,
                        MemoryBlockId(id),
                        false,
                        old(memory)@.config.max_context_size,
                        final(memory)@.blocks,
                        unit_of(r),
                    )
                    &&& r is Ok ==> succeeded_with(
                        r,
                        "Moved memory block "@ + b + " out of context"@,
                        block_id_data(b),
                    )
                },
            },
        },
{
    move_tool(memory, params, false)
}

/// The `move_into_context` tool.
pub fn move_into_context(memory: &mut AgentMemory, params: &Json) -> (r: Result<ToolOutput, Error>)
    requires
        old(memory).wf(),
    ensures
        final(memory).wf(),
        same_but_blocks(final(memory)@, old(memory)@),
        match str_member(params@, "block_id"@) {
            None => final(memory)@ == old(memory)@ && tool_error(
                r,
                "move_into_context"@,
                "Missing block_id"@,
            ),
            Some(b) => match block_id_of(b) {
                Err(m) => final(memory)@ == old(memory)@ && serialization_error(r, m),
                Ok(id) => {
                    &&& context_move(
                        old(memory)@.blocks,
                        MemoryBlockId(id),
                        true,
                        old(memory)@.config.max_context_size,
                        final(memory)@.blocks,
                        unit_of(r),
                    )
                    &&& r is Ok ==> succeeded_with(
                        r,
                        "Moved memory block "@ + b + " into context"@,
                        block_id_data(b),
                    )
                },
            },
        },
{
    move_tool(memory, params, true)
}

/// A block's value can be previewed: it is at most 100 bytes long or its
/// 100th byte ends a char.
pub open spec fn previewable(b: BlockView) -> bool {
    byte_len(b.value) <= 100 || is_char_boundary(encode_utf8(b.value), 100)
}

/// What the listing says of one block.
pub open spec fn block_info(b: BlockView, in_context: bool) -> JsonView {
    JsonView::Object(
        seq![
            ("description"@, JsonView::Str(b.description)),
            ("id"@, JsonView::Str(uuid_text(b.id.0))),
            ("in_context"@, JsonView::Bool(in_context)),
            ("label"@, JsonView::Str(b.label)),
            ("size"@, JsonView::UInt(b.value.len() as u64)),
            ("value_preview"@, JsonView::Str(preview(b.value, 100))),
        ],
    )
}

/// The text of a listing.
pub open spec fn listing_text(total: nat, inside: nat, outside: nat, size: nat, max: nat) -> Seq<char> {
    "Found "@ + decimal(total) + " memory blocks ("@ + decimal(inside) + " in context, "@
        + decimal(outside) + " archived)\nContext usage: "@ + decimal(size) + "/"@ + decimal(max)
}

fn make_block_info(b: &MemoryBlock, in_context: bool) -> (j: Json)
    requires
        previewable(b@),
    ensures
        j@ == block_info(b@, in_context),
{
    let mut m: Vec<(String, Json)> = Vec::new();
    assert(member_views(m@) =~= Seq::<(Seq<char>, JsonView)>::empty());
    push_member(&mut m, "description", json_str(b.description.as_str()));
    push_member(&mut m, "id", Json::Str(b.id.to_text()));
    push_member(&mut m, "in_context", Json::Bool(in_context));
    push_member(&mut m, "label", json_str(b.label.as_str()));
    let size = b.size();
    push_member(&mut m, "size", Json::UInt(size as u64));
    push_member(&mut m, "value_preview", Json::Str(cut_preview(b.value.as_str(), 100)));
    assert(member_views(m@) =~= seq![
        ("description"@, JsonView::Str(b@.description)),
        ("id"@, JsonView::Str(uuid_text(b@.id.0))),
        ("in_context"@, JsonView::Bool(in_context)),
        ("label"@, JsonView::Str(b@.label)),
        ("size"@, JsonView::UInt(b@.value.len() as u64)),
        ("value_preview"@, JsonView::Str(preview(b@.value, 100))),
    ]);
    Json::Object(m)
}

/// The `list_memory_blocks` tool: the in-context blocks, then the blocks out
/// of context, with the in-context usage.
pub fn list_memory_blocks(memory: &AgentMemory) -> (o: ToolOutput)
    requires
        forall|i: int| 0 <= i < memory@.blocks.len() ==> previewable(#[trigger] memory@.blocks[i]),
    ensures
        ({
            let ins = in_context_of(memory@.blocks);
            let outs = out_of_context_of(memory@.blocks);
            let size = capped(context_total(memory@.blocks));
            let max = memory@.config.max_context_size;
            &&& o.success
            &&& o.error is None
            &&& o.content@ == listing_text(ins.len() + outs.len(), ins.len(), outs.len(), size, max as nat)
            &&& o.data matches Some(d) && d@ == JsonView::Object(
                seq![
                    ("blocks"@, JsonView::Array(
                        ins.map_values(|b: BlockView| block_info(b, true)) + outs.map_values(
                            |b: BlockView| block_info(b, false),
                        ),
                    )),
                    ("context_size"@, JsonView::UInt(size as u64)),
                    ("max_context_size"@, JsonView::UInt(max as u64)),
                ],
            )
        }),
{
    let ins = memory.in_context_blocks();
    let outs = memory.out_of_context_blocks();
    proof {
        lemma_sub_previewable(memory@.blocks);
    }
    let ghost iv = block_views(ins@);
    let ghost ov = block_views(outs@);
    let ghost want = iv.map_values(|b: BlockView| block_info(b, true)) + ov.map_values(
        |b: BlockView| block_info(b, false),
    );
    let mut infos: Vec<Json> = Vec::new();
    let mut i: usize = 0;
    while i < ins.len()
        invariant
            i <= ins@.len(),
            iv == block_views(ins@),
            forall|k: int| 0 <= k < iv.len() ==> previewable(#[trigger] iv[k]),
            json_views(infos@) == iv.map_values(|b: BlockView| block_info(b, true)).take(i as int),
        decreases ins@.len() - i,
    {
        assert(iv[i as int] == ins@[i as int]@);
        let j = make_block_info(&ins[i], true);
        let ghost before = infos@;
        infos.push(j);
        assert(infos@.subrange(0, infos@.len() - 1) =~= before);
        assert(iv.map_values(|b: BlockView| block_info(b, true)).take(i + 1) =~= iv.map_values(
            |b: BlockView| block_info(b, true),
        ).take(i as int).push(block_info(iv[i as int], true)));
        i = i + 1;
    }
    let mut k: usize = 0;
    while k < outs.len()
        invariant
            k <= outs@.len(),
            ins@.len() == iv.len(),
            ov == block_views(outs@),
            forall|x: int| 0 <= x < ov.len() ==> previewable(#[trigger] ov[x]),
            json_views(infos@) == iv.map_values(|b: BlockView| block_info(b, true)) + ov.map_values(
                |b: BlockView| block_info(b, false),
            ).take(k as int),
        decreases outs@.len() - k,
    {
        assert(ov[k as int] == outs@[k as int]@);
        let j = make_block_info(&outs[k], false);
        let ghost before = infos@;
        infos.push(j);
        assert(infos@.subrange(0, infos@.len() - 1) =~= before);
        assert(ov.map_values(|b: BlockView| block_info(b, false)).take(k + 1) =~= ov.map_values(
            |b: BlockView| block_info(b, false),
        ).take(k as int).push(block_info(ov[k as int], false)));
        k = k + 1;
    }
    assert(iv.map_values(|b: BlockView| block_info(b, true)).take(iv.len() as int) =~= iv.map_values(
        |b: BlockView| block_info(b, true),
    ));
    assert(ov.map_values(|b: BlockView| block_info(b, false)).take(ov.len() as int) =~= ov.map_values(
        |b: BlockView| block_info(b, false),
    ));
    let size = memory.context_size();
    let max = memory.config().max_context_size;
    let n_in = ins.len();
    let n_out = outs.len();
    proof {
        crate::memory::lemma_context_partition(memory@.blocks);
        assert(memory@.config.max_context_size == max);
    }
    proof {
        crate::json::lemma_json_views_len(infos@);
    }
    let total = infos.len();
    let mut msg = owned("Found ");
    push_decimal(&mut msg, total);
    push_str(&mut msg, " memory blocks (");
    push_decimal(&mut msg, n_in);
    push_str(&mut msg, " in context, ");
    push_decimal(&mut msg, n_out);
    push_str(&mut msg, " archived)\nContext usage: ");
    push_decimal(&mut msg, size);
    push_str(&mut msg, "/");
    push_decimal(&mut msg, max);
    let mut data: Vec<(String, Json)> = Vec::new();
    assert(member_views(data@) =~= Seq::<(Seq<char>, JsonView)>::empty());
    push_member(&mut data, "blocks", Json::Array(infos));
    push_member(&mut data, "context_size", Json::UInt(size as u64));
    push_member(&mut data, "max_context_size", Json::UInt(max as u64));
    assert(json_views(infos@) =~= want);
    assert(member_views(data@) =~= seq![
        ("blocks"@, JsonView::Array(want)),
        ("context_size"@, JsonView::UInt(size as u64)),
        ("max_context_size"@, JsonView::UInt(max as u64)),
    ]);
    assert(msg@ =~= listing_text(total as nat, n_in as nat, n_out as nat, size as nat, max as nat));
    ToolOutput::success_with_data(msg, Json::Object(data))
}

/// Blocks that are in or out of context are previewable when all blocks are.
proof fn lemma_sub_previewable(bs: Seq<BlockView>)
    requires
        forall|i: int| 0 <= i < bs.len() ==> previewable(#[trigger] bs[i]),
    ensures
        forall|i: int|
            0 <= i < in_context_of(bs).len() ==> previewable(#[trigger] in_context_of(bs)[i]),
        forall|i: int|
            0 <= i < out_of_context_of(bs).len() ==> previewable(#[trigger] out_of_context_of(bs)[i]),
    decreases bs.len(),
{
    if bs.len() > 0 {
        let d = bs.drop_last();
        assert forall|i: int| 0 <= i < d.len() implies previewable(#[trigger] d[i]) by {
            assert(d[i] == bs[i]);
        }
        lemma_sub_previewable(d);
        assert(previewable(bs[bs.len() - 1]));
        let ci = in_context_of(bs);
        let co = out_of_context_of(bs);
        assert forall|i: int| 0 <= i < ci.len() implies previewable(#[trigger] ci[i]) by {
            if i < in_context_of(d).len() {
                assert(ci[i] == in_context_of(d)[i]);
            } else {
                assert(ci[i] == bs.last());
            }
        }
        assert forall|i: int| 0 <= i < co.len() implies previewable(#[trigger] co[i]) by {
            if i < out_of_context_of(d).len() {
                assert(co[i] == out_of_context_of(d)[i]);
            } else {
                assert(co[i] == bs.last());
            }
        }
    }
}

/// The RFC 3339 text of a time given in milliseconds since the Unix epoch,
/// as `chrono` writes it; none for a time out of `chrono`'s range.
pub uninterp spec fn rfc3339_text(millis: i64) -> Option<Seq<char>>;

/// Formats a time with `chrono::DateTime::from_timestamp_millis` and
/// `to_rfc3339`.
#[verifier::external_body]
fn rfc3339(millis: i64) -> (r: Option<String>)
    ensures
        match r {
            Some(t) => rfc3339_text(millis) == Some(t@),
            None => rfc3339_text(millis) is None,
        },
{
    chrono::DateTime::from_timestamp_millis(millis).map(|d| d.to_rfc3339())
}

/// A message's content can be previewed: it is at most 200 bytes long or
/// its 200th byte ends a char.
pub open spec fn message_previewable(m: MessageView) -> bool {
    byte_len(m.content) <= 200 || is_char_boundary(encode_utf8(m.content), 200)
}

/// Every message that a search for `q` finds can be previewed.
pub open spec fn matches_previewable(ms: Seq<MessageView>, q: Seq<char>) -> bool {
    forall|i: int|
        0 <= i < matching_messages(ms, q).len() ==> message_previewable(#[trigger] matching_messages(ms, q)[i])
}

/// Whether every message a search for `query` finds can be previewed (the
/// preview cuts at byte 200, which must end a char).
pub fn search_previewable(memory: &AgentMemory, query: &str) -> (b: bool)
    ensures
        b == matches_previewable(memory@.messages, query@),
{
    let found = memory.search_messages(query);
    let ghost fv = message_views(found@);
    let mut i: usize = 0;
    while i < found.len()
        invariant
            i <= found@.len(),
            fv == message_views(found@),
            fv == matching_messages(memory@.messages, query@),
            forall|k: int| 0 <= k < i ==> message_previewable(#[trigger] fv[k]),
        decreases found@.len() - i,
    {
        assert(fv[i as int] == found@[i as int]@);
        let c = found[i].content.as_str();
        assert(c@ == fv[i as int].content);
        if !(c.as_bytes().len() <= 200 || c.is_char_boundary(200)) {
            assert(!message_previewable(fv[i as int]));
            return false;
        }
        assert(message_previewable(fv[i as int]));
        i = i + 1;
    }
    true
}

/// Whether every block of `memory` can be previewed (the preview cuts at
/// byte 100, which must end a char).
pub fn blocks_previewable(memory: &AgentMemory) -> (b: bool)
    ensures
        b == (forall|i: int| 0 <= i < memory@.blocks.len() ==> previewable(#[trigger] memory@.blocks[i])),
{
    let bs = memory.all_blocks(None);
    let ghost bv = block_views(bs@);
    assert(bv =~= memory@.blocks);
    let mut i: usize = 0;
    while i < bs.len()
        invariant
            i <= bs@.len(),
            bv == block_views(bs@),
            bv == memory@.blocks,
            forall|k: int| 0 <= k < i ==> previewable(#[trigger] bv[k]),
        decreases bs@.len() - i,
    {
        assert(bv[i as int] == bs@[i as int]@);
        let v = bs[i].value.as_str();
        assert(v@ == bv[i as int].value);
        if !(v.as_bytes().len() <= 100 || v.is_char_boundary(100)) {
            assert(!previewable(bv[i as int]));
            return false;
        }
        assert(previewable(bv[i as int]));
        i = i + 1;
    }
    true
}

/// What a search result says of one message (the time is null when it
/// cannot be written).
pub open spec fn message_info(m: MessageView) -> JsonView {
    JsonView::Object(
        seq![
            ("content_preview"@, JsonView::Str(preview(m.content, 200))),
            ("role"@, JsonView::Str(m.role)),
            ("timestamp"@, match rfc3339_text(m.timestamp) {
                Some(t) => JsonView::Str(t),
                None => JsonView::Null,
            }),
        ],
    )
}

fn make_message_info(m: &MessageEntry) -> (j: Json)
    requires
        message_previewable(m@),
    ensures
        j@ == message_info(m@),
{
    let mut o: Vec<(String, Json)> = Vec::new();
    assert(member_views(o@) =~= Seq::<(Seq<char>, JsonView)>::empty());
    push_member(&mut o, "content_preview", Json::Str(cut_preview(m.content.as_str(), 200)));
    push_member(&mut o, "role", json_str(m.role.as_str()));
    let ts = match rfc3339(m.timestamp) {
        Some(t) => Json::Str(t),
        None => Json::Null,
    };
    push_member(&mut o, "timestamp", ts);
    assert(member_views(o@) =~= seq![
        ("content_preview"@, JsonView::Str(preview(m@.content, 200))),
        ("role"@, JsonView::Str(m@.role)),
        ("timestamp"@, match rfc3339_text(m@.timestamp) {
            Some(t) => JsonView::Str(t),
            None => JsonView::Null,
        }),
    ]);
    Json::Object(o)
}

/// The `search_messages` tool: the messages whose content contains the
/// `query` parameter.
pub fn search_messages(memory: &AgentMemory, params: &Json) -> (r: Result<ToolOutput, Error>)
    requires
        str_member(params@, "query"@) matches Some(q) ==> matches_previewable(memory@.messages, q),
    ensures
        match str_member(params@, "query"@) {
            None => tool_error(r, "search_messages"@, "Missing query"@),
            Some(q) => {
                let found = matching_messages(memory@.messages, q);
                succeeded_with(
                    r,
                    "Found "@ + decimal(found.len()) + " messages matching '"@ + q + "'"@,
                    JsonView::Object(
                        seq![
                            ("count"@, JsonView::UInt(found.len() as u64)),
                            ("query"@, JsonView::Str(q)),
                            ("results"@, JsonView::Array(
                                found.map_values(|m: MessageView| message_info(m)),
                            )),
                        ],
                    ),
                )
            },
        },
{
    let query = match params.get_str("query") {
        Some(q) => q,
        None => return Err(missing("search_messages", "Missing query")),
    };
    let results = memory.search_messages(query.as_str());
    let ghost rv = message_views(results@);
    let mut infos: Vec<Json> = Vec::new();
    let mut i: usize = 0;
    while i < results.len()
        invariant
            i <= results@.len(),
            rv == message_views(results@),
            forall|k: int| 0 <= k < rv.len() ==> message_previewable(#[trigger] rv[k]),
            json_views(infos@) == rv.map_values(|m: MessageView| message_info(m)).take(i as int),
        decreases results@.len() - i,
    {
        assert(rv[i as int] == results@[i as int]@);
        let j = make_message_info(&results[i]);
        let ghost before = infos@;
        infos.push(j);
        assert(infos@.subrange(0, infos@.len() - 1) =~= before);
        assert(rv.map_values(|m: MessageView| message_info(m)).take(i + 1) =~= rv.map_values(
            |m: MessageView| message_info(m),
        ).take(i as int).push(message_info(rv[i as int])));
        i = i + 1;
    }
    assert(rv.map_values(|m: MessageView| message_info(m)).take(rv.len() as int) =~= rv.map_values(
        |m: MessageView| message_info(m),
    ));
    let n = results.len();
    let mut msg = owned("Found ");
    push_decimal(&mut msg, n);
    push_str(&mut msg, " messages matching '");
    push_str(&mut msg, query.as_str());
    push_str(&mut msg, "'");
    let mut data: Vec<(String, Json)> = Vec::new();
    assert(member_views(data@) =~= Seq::<(Seq<char>, JsonView)>::empty());
    push_member(&mut data, "count", Json::UInt(n as u64));
    push_member(&mut data, "query", json_str(query.as_str()));
    push_member(&mut data, "results", Json::Array(infos));
    assert(member_views(data@) =~= seq![
        ("count"@, JsonView::UInt(n as u64)),
        ("query"@, JsonView::Str(query@)),
        ("results"@, JsonView::Array(rv.map_values(|m: MessageView| message_info(m)))),
    ]);
    Ok(ToolOutput::success_with_data(msg, Json::Object(data)))
}


/// A schema of string properties, all required, in the given order.
fn string_schema(names: &Vec<&str>, descriptions: &Vec<&str>) -> (s: JsonSchema)
    requires
        names@.len() == descriptions@.len(),
    ensures
        s.schema_type@ == "object"@,
        s.properties matches Some(p) && member_views(p@) == Seq::new(
            names@.len(),
            |i: int| (names@[i]@, property("string"@, descriptions@[i]@)),
        ),
        s.required matches Some(r) && r@.map_values(|x: String| x@) == names@.map_values(
            |x: &str| x@,
        ),
{
    let ghost want = Seq::new(names@.len(), |i: int| (names@[i]@, property("string"@, descriptions@[i]@)));
    let mut props: Vec<(String, Json)> = Vec::new();
    let mut req: Vec<String> = Vec::new();
    let mut i: usize = 0;
    while i < names.len()
        invariant
            i <= names@.len(),
            names@.len() == descriptions@.len(),
            want == Seq::new(names@.len(), |i: int| (names@[i]@, property("string"@, descriptions@[i]@))),
            member_views(props@) == want.take(i as int),
            req@.map_values(|x: String| x@) == names@.map_values(|x: &str| x@).take(i as int),
        decreases names@.len() - i,
    {
        push_member(&mut props, names[i], make_property("string", descriptions[i]));
        assert(want.take(i + 1) =~= want.take(i as int).push(want[i as int]));
        let ghost before = req@.map_values(|x: String| x@);
        req.push(owned(names[i]));
        assert(req@.map_values(|x: String| x@) =~= before.push(names@[i as int]@));
        assert(names@.map_values(|x: &str| x@).take(i + 1) =~= names@.map_values(|x: &str| x@).take(
            i as int,
        ).push(names@[i as int]@));
        i = i + 1;
    }
    assert(want.take(want.len() as int) =~= want);
    assert(names@.map_values(|x: &str| x@).take(names@.len() as int) =~= names@.map_values(
        |x: &str| x@,
    ));
    JsonSchema::object(props).with_required(req)
}

/// Parameters of `update_memory`: the block id and its new content.
pub fn update_memory_schema() -> (s: JsonSchema)
    ensures
        s.schema_type@ == "object"@,
        s.properties matches Some(p) && member_views(p@) == seq![
            ("block_id"@, property("string"@, "The ID of the memory block to update"@)),
            ("new_value"@, property("string"@, "The new content for this memory block"@)),
        ],
        s.required matches Some(r) && r@.map_values(|x: String| x@) == seq![
            "block_id"@,
            "new_value"@,
        ],
{
    let names = vec!["block_id", "new_value"];
    let descriptions = vec!["The ID of the memory block to update", "The new content for this memory block"];
    let s = string_schema(&names, &descriptions);
    assert(names@.map_values(|x: &str| x@) =~= seq!["block_id"@, "new_value"@]);
    s
}

/// Parameters of the move tools: the block id.
pub fn move_schema(into: bool) -> (s: JsonSchema)
    ensures
        s.schema_type@ == "object"@,
        s.properties matches Some(p) && member_views(p@) == seq![
            ("block_id"@, property(
                "string"@,
                if into {
                    "The ID of the memory block to move into context"@
                } else {
                    "The ID of the memory block to move out of context"@
                },
            )),
        ],
        s.required matches Some(r) && r@.map_values(|x: String| x@) == seq!["block_id"@],
{
    let names = vec!["block_id"];
    let descriptions = if into {
        vec!["The ID of the memory block to move into context"]
    } else {
        vec!["The ID of the memory block to move out of context"]
    };
    let s = string_schema(&names, &descriptions);
    assert(names@.map_values(|x: &str| x@) =~= seq!["block_id"@]);
    s
}

/// Parameters of `search_messages`: the query.
pub fn search_messages_schema() -> (s: JsonSchema)
    ensures
        s.schema_type@ == "object"@,
        s.properties matches Some(p) && member_views(p@) == seq![
            ("query"@, property("string"@, "The text to search for in message history"@)),
        ],
        s.required matches Some(r) && r@.map_values(|x: String| x@) == seq!["query"@],
{
    let names = vec!["query"];
    let descriptions = vec!["The text to search for in message history"];
    let s = string_schema(&names, &descriptions);
    assert(names@.map_values(|x: &str| x@) =~= seq!["query"@]);
    s
}

} // verus!
