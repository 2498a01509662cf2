//! Background memory care: archiving stale blocks, summarizing the
//! conversation, and noting questions asked again and again. The caller runs
//! the timer; each pass here works on the memory it is given.
use vstd::prelude::*;
use std::time::Duration;
use crate::error::Error;
use crate::memory::{
    archived, block_views, find_block, in_context_of, lemma_index_unique, message_views,
    not_found_message, same_but_blocks, unique_ids, upsert, value_update, AgentMemory, BlockView,
    MemoryBlock, MessageEntry, MessageView,
};
use crate::orchestrator::consensus::count_of;
use crate::text::{
    byte_len, decimal, join, join_strings, lowercase, owned, push_decimal, push_str, seqs_of,
    str_eq, string_from_chars, to_chars, to_lowercase, words, words_of,
};
use crate::types::{duration_from_secs, duration_of_secs};

verus! {

/// When and how the background passes run.
#[derive(Debug)]
pub struct SleepTimeConfig {
    /// Time between passes.
    pub consolidation_interval: Duration,
    /// Fewest messages for a pass to do anything.
    pub min_messages_for_consolidation: usize,
    /// In-context size above which stale blocks are archived.
    pub context_warning_threshold: usize,
    /// Summarize the conversation.
    pub enable_summarization: bool,
    /// Look for repeated questions.
    pub enable_pattern_detection: bool,
}

impl Default for SleepTimeConfig {
    /// Every five minutes, from 20 messages on, archiving above 6000 bytes,
    /// summarizing and detecting patterns.
    fn default() -> (c: SleepTimeConfig)
        ensures
            c.consolidation_interval == duration_of_secs(300),
            c.min_messages_for_consolidation == 20,
            c.context_warning_threshold == 6000,
            c.enable_summarization,
            c.enable_pattern_detection,
    {
        SleepTimeConfig {
            consolidation_interval: duration_from_secs(300),
            min_messages_for_consolidation: 20,
            context_warning_threshold: 6000,
            enable_summarization: true,
            enable_pattern_detection: true,
        }
    }
}

impl Clone for SleepTimeConfig {
    fn clone(&self) -> (c: Self)
        ensures
            c == *self,
    {
        SleepTimeConfig {
            consolidation_interval: self.consolidation_interval,
            min_messages_for_consolidation: self.min_messages_for_consolidation,
            context_warning_threshold: self.context_warning_threshold,
            enable_summarization: self.enable_summarization,
            enable_pattern_detection: self.enable_pattern_detection,
        }
    }
}

/// The first block with this label.
pub open spec fn first_labeled(bs: Seq<BlockView>, label: Seq<char>) -> Option<BlockView>
    decreases bs.len(),
{
    if bs.len() == 0 {
        None
    } else if bs[0].label == label {
        Some(bs[0])
    } else {
        first_labeled(bs.drop_first(), label)
    }
}

/// Number of messages with this role.
pub open spec fn role_count(ms: Seq<MessageView>, role: Seq<char>) -> nat
    decreases ms.len(),
{
    if ms.len() == 0 {
        0
    } else {
        role_count(ms.drop_last(), role) + if ms.last().role == role {
            1nat
        } else {
            0nat
        }
    }
}

/// All words of the messages, in order.
pub open spec fn all_words(ms: Seq<MessageView>) -> Seq<Seq<char>>
    decreases ms.len(),
{
    if ms.len() == 0 {
        seq![]
    } else {
        all_words(ms.drop_last()) + words(ms.last().content)
    }
}

/// Key topics: the lower-cased words longer than five bytes, each once, at
/// most ten, in order of appearance.
pub open spec fn keywords(ws: Seq<Seq<char>>) -> Seq<Seq<char>>
    decreases ws.len(),
{
    if ws.len() == 0 {
        seq![]
    } else {
        let k = keywords(ws.drop_last());
        let w = lowercase(ws.last());
        if byte_len(ws.last()) > 5 && !k.contains(w) && k.len() < 10 {
            k.push(w)
        } else {
            k
        }
    }
}

/// Summary of the given messages.
pub open spec fn summary_of(ms: Seq<MessageView>) -> Seq<char> {
    "Summary of recent conversation:\n"@ + "- "@ + decimal(role_count(ms, "user"@))
        + " user messages, "@ + decimal(role_count(ms, "assistant"@)) + " assistant responses\n"@
        + "- Key topics: "@ + join(keywords(all_words(ms)), ", "@) + "\n"@
}

/// The question key of a message: its first 50 chars, lower-cased.
pub open spec fn question_key(m: MessageView) -> Seq<char> {
    lowercase(if m.content.len() <= 50 {
        m.content
    } else {
        m.content.take(50)
    })
}

/// The question keys of the user messages, in order.
pub open spec fn question_keys(ms: Seq<MessageView>) -> Seq<Seq<char>>
    decreases ms.len(),
{
    if ms.len() == 0 {
        seq![]
    } else if ms.last().role == "user"@ {
        question_keys(ms.drop_last()).push(question_key(ms.last()))
    } else {
        question_keys(ms.drop_last())
    }
}

/// The keys among the first `n` that occur at least three times in `ks`,
/// each once, in order of first occurrence.
pub open spec fn repeated_keys(ks: Seq<Seq<char>>, n: int) -> Seq<Seq<char>>
    decreases n,
{
    if n <= 0 {
        seq![]
    } else {
        let r = repeated_keys(ks, n - 1);
        if !ks.take(n - 1).contains(ks[n - 1]) && count_of(ks, ks[n - 1]) >= 3 {
            r.push(ks[n - 1])
        } else {
            r
        }
    }
}

/// The key topics are at most ten lower-cased words longer than five
/// bytes, none twice; while fewer than ten are taken, every such word is.
pub proof fn lemma_keywords(ws: Seq<Seq<char>>)
    ensures
        keywords(ws).len() <= 10,
        forall|i: int, j: int| 0 <= i < j < keywords(ws).len() ==> keywords(ws)[i] != keywords(ws)[j],
        forall|x: Seq<char>|
            keywords(ws).contains(x) ==> exists|i: int|
                0 <= i < ws.len() && byte_len(ws[i]) > 5 && x == lowercase(#[trigger] ws[i]),
        keywords(ws).len() < 10 ==> forall|i: int|
            0 <= i < ws.len() && byte_len(ws[i]) > 5 ==> keywords(ws).contains(lowercase(#[trigger] ws[i])),
    decreases ws.len(),
{
    if ws.len() > 0 {
        let d = ws.drop_last();
        lemma_keywords(d);
        let k = keywords(d);
        let r = keywords(ws);
        let w = lowercase(ws.last());
        assert forall|i: int| 0 <= i < d.len() implies #[trigger] d[i] == ws[i] by {}
        assert forall|x: Seq<char>| r.contains(x) implies exists|i: int|
            0 <= i < ws.len() && byte_len(ws[i]) > 5 && x == lowercase(#[trigger] ws[i]) by {
            let m = choose|m: int| 0 <= m < r.len() && r[m] == x;
            if m < k.len() {
                assert(k[m] == x);
                assert(k.contains(x));
                let i = choose|i: int| 0 <= i < d.len() && byte_len(d[i]) > 5 && x == lowercase(#[trigger] d[i]);
                assert(ws[i] == d[i]);
            } else {
                assert(x == lowercase(ws[ws.len() - 1]));
            }
        }
        if r.len() < 10 {
            assert forall|i: int| 0 <= i < ws.len() && byte_len(ws[i]) > 5 implies r.contains(
                lowercase(#[trigger] ws[i]),
            ) by {
                if i < d.len() {
                    assert(d[i] == ws[i]);
                    assert(k.contains(lowercase(d[i])));
                    let m = choose|m: int| 0 <= m < k.len() && k[m] == lowercase(d[i]);
                    assert(r[m] == k[m]);
                } else if k.contains(w) {
                    let m = choose|m: int| 0 <= m < k.len() && k[m] == w;
                    assert(r[m] == k[m]);
                } else {
                    assert(r[k.len() as int] == w);
                }
            }
        }
    }
}

/// The repeated questions among the first `n` keys are those that occur at
/// least three times in all the keys, each once, in order of first
/// occurrence.
pub proof fn lemma_repeated_keys(ks: Seq<Seq<char>>, n: int)
    requires
        0 <= n <= ks.len(),
    ensures
        forall|x: Seq<char>|
            repeated_keys(ks, n).contains(x) ==> count_of(ks, x) >= 3 && ks.take(n).contains(x),
        forall|i: int|
            0 <= i < n && count_of(ks, #[trigger] ks[i]) >= 3 ==> repeated_keys(ks, n).contains(ks[i]),
        forall|i: int, j: int|
            0 <= i < j < repeated_keys(ks, n).len() ==> repeated_keys(ks, n)[i] != repeated_keys(ks, n)[j],
    decreases n,
{
    if n > 0 {
        lemma_repeated_keys(ks, n - 1);
        let p = repeated_keys(ks, n - 1);
        let r = repeated_keys(ks, n);
        let x0 = ks[n - 1];
        assert forall|x: Seq<char>| r.contains(x) implies count_of(ks, x) >= 3 && ks.take(n).contains(x) by {
            let m = choose|m: int| 0 <= m < r.len() && r[m] == x;
            if m < p.len() {
                assert(p[m] == x);
                assert(p.contains(x));
                let t = ks.take(n - 1);
                assert(t.contains(x));
                let q = choose|q: int| 0 <= q < t.len() && t[q] == x;
                assert(ks.take(n)[q] == x);
            } else {
                assert(ks.take(n)[n - 1] == x);
            }
        }
        assert forall|i: int| 0 <= i < n && count_of(ks, #[trigger] ks[i]) >= 3 implies r.contains(ks[i]) by {
            if i < n - 1 {
                assert(p.contains(ks[i]));
                let m = choose|m: int| 0 <= m < p.len() && p[m] == ks[i];
                assert(r[m] == p[m]);
            } else if ks.take(n - 1).contains(x0) {
                let t = ks.take(n - 1);
                let q = choose|q: int| 0 <= q < t.len() && t[q] == x0;
                assert(ks[q] == x0);
                assert(p.contains(ks[q]));
                let m = choose|m: int| 0 <= m < p.len() && p[m] == ks[q];
                assert(r[m] == p[m]);
            } else {
                assert(r[p.len() as int] == x0);
            }
        }
        assert forall|i: int, j: int| 0 <= i < j < r.len() implies r[i] != r[j] by {
            if j == p.len() && r.len() > p.len() {
                assert(r[j] == x0);
                assert(r[i] == p[i]);
                if p[i] == x0 {
                    assert(p.contains(x0));
                }
            } else {
                assert(r[i] == p[i] && r[j] == p[j]);
            }
        }
    }
}

/// A question is identified by the first 50 chars of a user message,
/// lower-cased: each user message adds its key after those of the messages
/// before it, and a message of any other role adds none. Each summary counts
/// the messages of one role: one more message of that role counts one more.
pub proof fn lemma_question_keys(ms: Seq<MessageView>, m: MessageView, role: Seq<char>)
    ensures
        question_keys(seq![]) == Seq::<Seq<char>>::empty(),
        m.role == "user"@ ==> question_keys(ms.push(m)) == question_keys(ms).push(
            lowercase(if m.content.len() > 50 { m.content.subrange(0, 50) } else { m.content }),
        ),
        m.role != "user"@ ==> question_keys(ms.push(m)) == question_keys(ms),
        role_count(ms.push(m), role) == role_count(ms, role) + if m.role == role { 1int } else { 0int },
        role_count(seq![], role) == 0,
{
    assert(ms.push(m).drop_last() =~= ms);
    if m.content.len() > 50 {
        assert(m.content.take(50) =~= m.content.subrange(0, 50));
    }
}

/// The text noting repeated questions.
pub open spec fn patterns_text(keys: Seq<Seq<char>>) -> Seq<char> {
    "Detected repeated questions:\n"@ + join(keys.map_values(|k: Seq<char>| "- "@ + k), "\n"@)
}

/// What a pass does, given the settings, the number of recent messages and
/// the in-context size: whether it runs at all, and then whether it archives,
/// summarizes and looks for patterns.
pub open spec fn pass_plan(c: SleepTimeConfig, messages: nat, context: nat) -> (bool, bool, bool, bool) {
    if messages < c.min_messages_for_consolidation {
        (false, false, false, false)
    } else {
        (true, context > c.context_warning_threshold, c.enable_summarization, c.enable_pattern_detection)
    }
}

/// A pass runs exactly when there are at least the configured number of
/// recent messages. A pass that runs archives exactly when the in-context
/// size is above the warning threshold, summarizes exactly when summarization
/// is enabled, and looks for patterns exactly when pattern detection is
/// enabled; a pass that does not run does none of these.
pub proof fn lemma_pass_plan(c: SleepTimeConfig, messages: nat, context: nat)
    ensures
        ({
            let (run, archive, summarize, detect) = pass_plan(c, messages, context);
            &&& run <==> messages >= c.min_messages_for_consolidation
            &&& run ==> (archive <==> context > c.context_warning_threshold)
            &&& run ==> (summarize <==> c.enable_summarization)
            &&& run ==> (detect <==> c.enable_pattern_detection)
            &&& !run ==> !archive && !summarize && !detect
        }),
{
}

/// Plans a pass: whether it runs, archives, summarizes and looks for
/// patterns.
pub fn plan_pass(config: &SleepTimeConfig, messages: usize, context: usize) -> (r: (bool, bool, bool, bool))
    ensures
        r == pass_plan(*config, messages as nat, context as nat),
        r.0 <==> messages >= config.min_messages_for_consolidation,
        r.0 ==> (r.1 <==> context > config.context_warning_threshold),
        r.0 ==> (r.2 <==> config.enable_summarization),
        r.0 ==> (r.3 <==> config.enable_pattern_detection),
        !r.0 ==> !r.1 && !r.2 && !r.3,
{
    if messages < config.min_messages_for_consolidation {
        (false, false, false, false)
    } else {
        (
            true,
            context > config.context_warning_threshold,
            config.enable_summarization,
            config.enable_pattern_detection,
        )
    }
}

/// Position of the first block labeled `label`.
fn first_labeled_index(bs: &Vec<MemoryBlock>, label: &str) -> (r: Option<usize>)
    ensures
        match r {
            Some(i) => i < bs@.len() && first_labeled(block_views(bs@), label@) == Some(
                block_views(bs@)[i as int],
            ),
            None => first_labeled(block_views(bs@), label@) is None,
        },
{
    let ghost v = block_views(bs@);
    let mut i: usize = 0;
    assert(v.skip(0) =~= v);
    while i < bs.len()
        invariant
            i <= v.len(),
            v == block_views(bs@),
            first_labeled(v, label@) == first_labeled(v.skip(i as int), label@),
        decreases v.len() - i,
    {
        assert(v.skip(i as int)[0] == v[i as int]);
        if str_eq(bs[i].label.as_str(), label) {
            return Some(i);
        }
        assert(v.skip(i as int).drop_first() =~= v.skip(i + 1));
        i = i + 1;
    }
    None
}

/// Every block among the in-context ones is one of the blocks.
proof fn lemma_in_context_sub(bs: Seq<BlockView>)
    ensures
        forall|i: int|
            0 <= i < in_context_of(bs).len() ==> exists|j: int|
                0 <= j < bs.len() && #[trigger] in_context_of(bs)[i] == bs[j],
    decreases bs.len(),
{
    if bs.len() > 0 {
        let d = bs.drop_last();
        lemma_in_context_sub(d);
        let c = in_context_of(bs);
        let cd = in_context_of(d);
        assert forall|i: int| 0 <= i < c.len() implies exists|j: int|
            0 <= j < bs.len() && #[trigger] c[i] == bs[j] by {
            if i < cd.len() {
                let j = choose|j: int| 0 <= j < d.len() && cd[i] == d[j];
                assert(c[i] == cd[i]);
                assert(bs[j] == d[j]);
            } else {
                assert(c[i] == bs[bs.len() - 1]);
            }
        }
    }
}

proof fn lemma_first_labeled_sub(bs: Seq<BlockView>, label: Seq<char>)
    ensures
        first_labeled(bs, label) matches Some(b) ==> exists|j: int| 0 <= j < bs.len() && b == bs[j],
    decreases bs.len(),
{
    if bs.len() > 0 && bs[0].label != label {
        lemma_first_labeled_sub(bs.drop_first(), label);
        if let Some(b) = first_labeled(bs.drop_first(), label) {
            let j = choose|j: int| 0 <= j < bs.drop_first().len() && b == bs.drop_first()[j];
            assert(bs[j + 1] == b);
        }
    }
}

/// The in-context block labeled `label` that a pass would rewrite is found
/// under its id among all blocks.
proof fn lemma_labeled_found(bs: Seq<BlockView>, label: Seq<char>)
    requires
        unique_ids(bs),
    ensures
        first_labeled(in_context_of(bs), label) matches Some(b) ==> find_block(bs, b.id) == Some(b),
{
    if let Some(b) = first_labeled(in_context_of(bs), label) {
        lemma_first_labeled_sub(in_context_of(bs), label);
        lemma_in_context_sub(bs);
        let j = choose|j: int| 0 <= j < in_context_of(bs).len() && b == in_context_of(bs)[j];
        let k = choose|k: int| 0 <= k < bs.len() && #[trigger] in_context_of(bs)[j] == bs[k];
        lemma_index_unique(bs, k);
    }
}

/// Writes `text` into the in-context block labeled `label`, or, when there
/// is none, adds a new in-context block with that label and description.
/// `append` adds the text on a new line after the block's value instead of
/// replacing it.
fn write_labeled(memory: &mut AgentMemory, label: &str, description: &str, text: String, append: bool) -> (r:
    Result<(), Error>)
    requires
        old(memory).wf(),
    ensures
        final(memory).wf(),
        same_but_blocks(final(memory)@, old(memory)@),
        match first_labeled(in_context_of(old(memory)@.blocks), label@) {
            Some(b) => value_update(
                old(memory)@.blocks,
                b.id,
                if append {
                    b.value + "\n"@ + text@
                } else {
                    text@
                },
                final(memory)@.blocks,
                r,
                not_found_message(b.id),
            ),
            None => r is Ok && exists|nb: BlockView|
                #[trigger] upsert(old(memory)@.blocks, nb) == final(memory)@.blocks && nb.label
                    == label@ && nb.description == description@ && nb.value == text@
                    && nb.in_context && nb.max_size is None,
        },
{
    proof {
        lemma_labeled_found(memory@.blocks, label@);
    }
    let blocks = memory.in_context_blocks();
    match first_labeled_index(&blocks, label) {
        Some(i) => {
            let id = blocks[i].id;
            let value = if append {
                let mut v = owned(blocks[i].value.as_str());
                push_str(&mut v, "\n");
                push_str(&mut v, text.as_str());
                v
            } else {
                text
            };
            memory.update_block(id, value)
        },
        None => {
            let block = MemoryBlock::with_description(owned(label), owned(description), text);
            let ghost nb = block@;
            let _ = memory.add_block(block);
            Ok(())
        },
    }
}

/// Builds the summary of the first 50 messages.
fn build_summary(messages: &Vec<MessageEntry>) -> (s: String)
    requires
        messages@.len() >= 50,
    ensures
        s@ == summary_of(message_views(messages@).take(50)),
{
    let ghost ms = message_views(messages@).take(50);
    let mut users: usize = 0;
    let mut assistants: usize = 0;
    let mut kws: Vec<String> = Vec::new();
    let mut i: usize = 0;
    while i < 50
        invariant
            i <= 50,
            messages@.len() >= 50,
            ms == message_views(messages@).take(50),
            users == role_count(ms.take(i as int), "user"@),
            assistants == role_count(ms.take(i as int), "assistant"@),
            users <= i,
            assistants <= i,
            kws@.map_values(|k: String| k@) == keywords(all_words(ms.take(i as int))),
        decreases 50 - i,
    {
        assert(ms.take(i + 1).drop_last() =~= ms.take(i as int));
        assert(ms.take(i + 1).last() == messages@[i as int]@);
        let m = &messages[i];
        if str_eq(m.role.as_str(), "user") {
            users = users + 1;
        }
        if str_eq(m.role.as_str(), "assistant") {
            assistants = assistants + 1;
        }
        let chars = to_chars(m.content.as_str());
        let ws = words_of(chars.as_slice());
        let ghost pre = all_words(ms.take(i as int));
        let ghost wv = seqs_of(ws@);
        let mut j: usize = 0;
        while j < ws.len()
            invariant
                j <= wv.len(),
                wv == seqs_of(ws@),
                kws@.map_values(|k: String| k@) == keywords(pre + wv.take(j as int)),
            decreases wv.len() - j,
        {
            assert((pre + wv.take(j + 1)).drop_last() =~= pre + wv.take(j as int));
            assert((pre + wv.take(j + 1)).last() == ws@[j as int]@);
            let word = string_from_chars(ws[j].as_slice());
            let lw = to_lowercase(word.as_str());
            let long = word.as_str().as_bytes().len() > 5;
            let mut seen = false;
            let mut k: usize = 0;
            while k < kws.len()
                invariant
                    k <= kws@.len(),
                    seen == exists|x: int| 0 <= x < k && (#[trigger] kws@[x])@ == lw@,
                decreases kws@.len() - k,
            {
                if str_eq(kws[k].as_str(), lw.as_str()) {
                    seen = true;
                }
                k = k + 1;
            }
            proof {
                let kv = kws@.map_values(|k: String| k@);
                if seen {
                    let x = choose|x: int| 0 <= x < kws@.len() && (#[trigger] kws@[x])@ == lw@;
                    assert(kv[x] == lw@);
                } else {
                    assert forall|x: int| 0 <= x < kv.len() implies kv[x] != lw@ by {
                        assert(kv[x] == kws@[x]@);
                    }
                }
            }
            if long && !seen && kws.len() < 10 {
                let ghost before = kws@.map_values(|k: String| k@);
                kws.push(lw);
                assert(kws@.map_values(|k: String| k@) =~= before.push(lowercase(wv[j as int])));
            }
            j = j + 1;
        }
        assert(wv.take(wv.len() as int) =~= wv);
        i = i + 1;
    }
    assert(ms.take(50) =~= ms);
    let mut s = owned("Summary of recent conversation:\n");
    push_str(&mut s, "- ");
    push_decimal(&mut s, users);
    push_str(&mut s, " user messages, ");
    push_decimal(&mut s, assistants);
    push_str(&mut s, " assistant responses\n");
    push_str(&mut s, "- Key topics: ");
    let joined = join_strings(&kws, ", ");
    push_str(&mut s, joined.as_str());
    push_str(&mut s, "\n");
    s
}

/// What summarizing the messages `msgs` does to the blocks `before`: with
/// fewer than 50 messages nothing; otherwise the summary of the first 50 is
/// appended to the in-context `conversation_summary` block, or a new such
/// block holds it.
pub open spec fn summary_outcome(
    before: Seq<BlockView>,
    msgs: Seq<MessageView>,
    after: Seq<BlockView>,
    r: Result<(), Error>,
) -> bool {
    if msgs.len() < 50 {
        r is Ok && after == before
    } else {
        let text = summary_of(msgs.take(50));
        match first_labeled(in_context_of(before), "conversation_summary"@) {
            Some(b) => value_update(before, b.id, b.value + "\n"@ + text, after, r, not_found_message(b.id)),
            None => r is Ok && exists|nb: BlockView|
                #[trigger] upsert(before, nb) == after && nb.label == "conversation_summary"@
                    && nb.description == "Automatically generated summary of conversation history"@
                    && nb.value == text && nb.in_context && nb.max_size is None,
        }
    }
}

/// What noting the repeated questions of `msgs` does to the blocks
/// `before`: with none repeated nothing; otherwise the in-context
/// `detected_patterns` block gets their list as its value, or a new such
/// block holds it.
pub open spec fn patterns_outcome(
    before: Seq<BlockView>,
    msgs: Seq<MessageView>,
    after: Seq<BlockView>,
    r: Result<(), Error>,
) -> bool {
    let keys = question_keys(msgs);
    let rep = repeated_keys(keys, keys.len() as int);
    if rep.len() == 0 {
        r is Ok && after == before
    } else {
        let text = patterns_text(rep);
        match first_labeled(in_context_of(before), "detected_patterns"@) {
            Some(b) => value_update(before, b.id, text, after, r, not_found_message(b.id)),
            None => r is Ok && exists|nb: BlockView|
                #[trigger] upsert(before, nb) == after && nb.label == "detected_patterns"@
                    && nb.description == "Patterns detected in conversation by sleep-time agent"@
                    && nb.value == text && nb.in_context && nb.max_size is None,
        }
    }
}

/// The steps of a pass that runs, with the plan `plan`: the blocks after
/// archiving (when planned), after summarizing (when planned) with its
/// result `r1`, and after noting patterns (when planned and summarizing did
/// not fail); a failing step ends the pass with its error.
pub open spec fn pass_steps(
    plan: (bool, bool, bool, bool),
    before: Seq<BlockView>,
    now: i64,
    msgs: Seq<MessageView>,
    archived_blocks: Seq<BlockView>,
    summarized_blocks: Seq<BlockView>,
    r1: Result<(), Error>,
    after: Seq<BlockView>,
    r: Result<(), Error>,
) -> bool {
    &&& if plan.1 {
        archived(before, now, archived_blocks)
    } else {
        archived_blocks == before
    }
    &&& if plan.2 {
        summary_outcome(archived_blocks, msgs, summarized_blocks, r1)
    } else {
        r1 is Ok && summarized_blocks == archived_blocks
    }
    &&& if r1 is Err {
        r == r1 && after == summarized_blocks
    } else if plan.3 {
        patterns_outcome(summarized_blocks, msgs, after, r)
    } else {
        r is Ok && after == summarized_blocks
    }
}

/// Summarizes the first 50 of the given messages into the in-context
/// `conversation_summary` block: appended to it when it exists, otherwise a
/// new block. Fewer than 50 messages change nothing.
pub fn perform_summarization(memory: &mut AgentMemory, messages: &Vec<MessageEntry>) -> (r: Result<
    (),
    Error,
>)
    requires
        old(memory).wf(),
    ensures
        final(memory).wf(),
        same_but_blocks(final(memory)@, old(memory)@),
        messages@.len() < 50 ==> r is Ok && final(memory)@ == old(memory)@,
        messages@.len() >= 50 ==> {
            let text = summary_of(message_views(messages@).take(50));
            match first_labeled(in_context_of(old(memory)@.blocks), "conversation_summary"@) {
                Some(b) => value_update(
                    old(memory)@.blocks,
                    b.id,
                    b.value + "\n"@ + text,
                    final(memory)@.blocks,
                    r,
                    not_found_message(b.id),
                ),
                None => r is Ok && exists|nb: BlockView|
                    #[trigger] upsert(old(memory)@.blocks, nb) == final(memory)@.blocks
                        && nb.label == "conversation_summary"@ && nb.description
                        == "Automatically generated summary of conversation history"@ && nb.value
                        == text && nb.in_context && nb.max_size is None,
            }
        },
        summary_outcome(old(memory)@.blocks, message_views(messages@), final(memory)@.blocks, r),
{
    if messages.len() < 50 {
        return Ok(());
    }
    let summary = build_summary(messages);
    write_labeled(
        memory,
        "conversation_summary",
        "Automatically generated summary of conversation history",
        summary,
        true,
    )
}

/// The question keys of the user messages.
fn collect_keys(messages: &Vec<MessageEntry>) -> (r: Vec<String>)
    ensures
        r@.map_values(|k: String| k@) == question_keys(message_views(messages@)),
{
    let ghost ms = message_views(messages@);
    let mut out: Vec<String> = Vec::new();
    let mut i: usize = 0;
    while i < messages.len()
        invariant
            i <= ms.len(),
            ms == message_views(messages@),
            out@.map_values(|k: String| k@) == question_keys(ms.take(i as int)),
        decreases ms.len() - i,
    {
        assert(ms.take(i + 1).drop_last() =~= ms.take(i as int));
        assert(ms.take(i + 1).last() == messages@[i as int]@);
        if str_eq(messages[i].role.as_str(), "user") {
            let chars = to_chars(messages[i].content.as_str());
            let n = if chars.len() <= 50 {
                chars.len()
            } else {
                50
            };
            let head = string_from_chars(crate::text::slice_range(chars.as_slice(), 0, n).as_slice());
            assert(head@ =~= if chars@.len() <= 50 {
                chars@
            } else {
                chars@.take(50)
            });
            let key = to_lowercase(head.as_str());
            let ghost before = out@.map_values(|k: String| k@);
            out.push(key);
            assert(out@.map_values(|k: String| k@) =~= before.push(question_key(ms[i as int])));
        }
        i = i + 1;
    }
    assert(ms.take(ms.len() as int) =~= ms);
    out
}

/// Number of keys equal to `k`.
fn count_key(keys: &Vec<String>, k: &str) -> (n: usize)
    ensures
        n == count_of(keys@.map_values(|s: String| s@), k@),
{
    let ghost kv = keys@.map_values(|s: String| s@);
    let mut n: usize = 0;
    let mut i: usize = 0;
    while i < keys.len()
        invariant
            i <= kv.len(),
            kv == keys@.map_values(|s: String| s@),
            n == count_of(kv.take(i as int), k@),
            n <= i,
        decreases kv.len() - i,
    {
        assert(kv.take(i + 1).drop_last() =~= kv.take(i as int));
        assert(kv.take(i + 1).last() == keys@[i as int]@);
        if str_eq(keys[i].as_str(), k) {
            n = n + 1;
        }
        i = i + 1;
    }
    assert(kv.take(kv.len() as int) =~= kv);
    n
}

/// The keys asked at least three times, each once, in order of first asking.
fn repeated(keys: &Vec<String>) -> (r: Vec<String>)
    ensures
        r@.map_values(|k: String| k@) == repeated_keys(
            keys@.map_values(|s: String| s@),
            keys@.len() as int,
        ),
{
    let ghost kv = keys@.map_values(|s: String| s@);
    let mut out: Vec<String> = Vec::new();
    let mut i: usize = 0;
    while i < keys.len()
        invariant
            i <= kv.len(),
            kv == keys@.map_values(|s: String| s@),
            out@.map_values(|k: String| k@) == repeated_keys(kv, i as int),
        decreases kv.len() - i,
    {
        let mut earlier = false;
        let mut j: usize = 0;
        while j < i
            invariant
                j <= i,
                i < kv.len(),
                kv == keys@.map_values(|s: String| s@),
                earlier == exists|x: int| 0 <= x < j && kv[x] == kv[i as int],
            decreases i - j,
        {
            assert(kv[j as int] == keys@[j as int]@);
            assert(kv[i as int] == keys@[i as int]@);
            if str_eq(keys[j].as_str(), keys[i].as_str()) {
                earlier = true;
            }
            proof {
                if !earlier {
                    assert forall|x: int| 0 <= x < j + 1 implies kv[x] != kv[i as int] by {}
                }
            }
            j = j + 1;
        }
        proof {
            if earlier {
                let x = choose|x: int| 0 <= x < i && kv[x] == kv[i as int];
                assert(kv.take(i as int)[x] == kv[i as int]);
            } else {
                assert forall|x: int| 0 <= x < kv.take(i as int).len() implies kv.take(
                    i as int,
                )[x] != kv[i as int] by {
                    assert(kv.take(i as int)[x] == kv[x]);
                }
            }
        }
        if !earlier && count_key(keys, keys[i].as_str()) >= 3 {
            let ghost before = out@.map_values(|k: String| k@);
            out.push(keys[i].clone());
            assert(out@.map_values(|k: String| k@) =~= before.push(kv[i as int]));
        }
        i = i + 1;
    }
    out
}

/// Notes the questions of user messages asked at least three times (by
/// their first 50 chars, lower-cased) in the in-context `detected_patterns`
/// block, replacing its value, or in a new block. Nothing changes when no
/// question repeats.
pub fn detect_patterns(memory: &mut AgentMemory, messages: &Vec<MessageEntry>) -> (r: Result<
    (),
    Error,
>)
    requires
        old(memory).wf(),
    ensures
        final(memory).wf(),
        same_but_blocks(final(memory)@, old(memory)@),
        ({
            let keys = question_keys(message_views(messages@));
            let rep = repeated_keys(keys, keys.len() as int);
            if rep.len() == 0 {
                r is Ok && final(memory)@ == old(memory)@
            } else {
                let text = patterns_text(rep);
                match first_labeled(in_context_of(old(memory)@.blocks), "detected_patterns"@) {
                    Some(b) => value_update(
                        old(memory)@.blocks,
                        b.id,
                        text,
                        final(memory)@.blocks,
                        r,
                        not_found_message(b.id),
                    ),
                    None => r is Ok && exists|nb: BlockView|
                        #[trigger] upsert(old(memory)@.blocks, nb) == final(memory)@.blocks
                            && nb.label == "detected_patterns"@ && nb.description
                            == "Patterns detected in conversation by sleep-time agent"@ && nb.value
                            == text && nb.in_context && nb.max_size is None,
                }
            }
        }),
        patterns_outcome(old(memory)@.blocks, message_views(messages@), final(memory)@.blocks, r),
{
    let keys = collect_keys(messages);
    let rep = repeated(&keys);
    if rep.len() == 0 {
        return Ok(());
    }
    let ghost rv = rep@.map_values(|k: String| k@);
    let mut lines: Vec<String> = Vec::new();
    let mut i: usize = 0;
    while i < rep.len()
        invariant
            i <= rv.len(),
            rv == rep@.map_values(|k: String| k@),
            lines@.map_values(|l: String| l@) == rv.map_values(|k: Seq<char>| "- "@ + k).take(
                i as int,
            ),
        decreases rv.len() - i,
    {
        let mut l = owned("- ");
        push_str(&mut l, rep[i].as_str());
        let ghost before = lines@.map_values(|l: String| l@);
        lines.push(l);
        assert(lines@.map_values(|l: String| l@) =~= before.push("- "@ + rv[i as int]));
        assert(rv.map_values(|k: Seq<char>| "- "@ + k).take(i + 1) =~= rv.map_values(
            |k: Seq<char>| "- "@ + k,
        ).take(i as int).push("- "@ + rv[i as int]));
        i = i + 1;
    }
    assert(rv.map_values(|k: Seq<char>| "- "@ + k).take(rv.len() as int) =~= rv.map_values(
        |k: Seq<char>| "- "@ + k,
    ));
    let joined = join_strings(&lines, "\n");
    let mut text = owned("Detected repeated questions:\n");
    push_str(&mut text, joined.as_str());
    write_labeled(
        memory,
        "detected_patterns",
        "Patterns detected in conversation by sleep-time agent",
        text,
        false,
    )
}

/// Moves the stale in-context blocks out of the context window, as of now.
pub fn perform_archival(memory: &mut AgentMemory)
    requires
        old(memory).wf(),
    ensures
        final(memory).wf(),
        exists|now: i64| #[trigger] archived(old(memory)@.blocks, now, final(memory)@.blocks),
        same_but_blocks(final(memory)@, old(memory)@),
{
    let now = crate::types::now_millis();
    memory.archive_stale(now);
}

/// One background pass at time `now`: with too few recent messages (of the
/// last 1000) nothing happens; otherwise stale blocks are archived when the
/// in-context size is above the warning threshold, then the conversation is
/// summarized and repeated questions noted, as the settings ask. The first
/// failing step ends the pass with its error.
pub fn consolidate_memory(memory: &mut AgentMemory, config: &SleepTimeConfig, now: i64) -> (r: Result<
    (),
    Error,
>)
    requires
        old(memory).wf(),
    ensures
        final(memory).wf(),
        same_but_blocks(final(memory)@, old(memory)@),
        !pass_plan(
            *config,
            crate::memory::recent_messages(old(memory)@.messages, 1000).len(),
            crate::memory::capped(crate::memory::context_total(old(memory)@.blocks)),
        ).0 ==> r is Ok && final(memory)@ == old(memory)@,
        pass_plan(
            *config,
            crate::memory::recent_messages(old(memory)@.messages, 1000).len(),
            crate::memory::capped(crate::memory::context_total(old(memory)@.blocks)),
        ).0 ==> exists|a: Seq<BlockView>, s: Seq<BlockView>, r1: Result<(), Error>|
            #[trigger] pass_steps(
                pass_plan(
                    *config,
                    crate::memory::recent_messages(old(memory)@.messages, 1000).len(),
                    crate::memory::capped(crate::memory::context_total(old(memory)@.blocks)),
                ),
                old(memory)@.blocks,
                now,
                crate::memory::recent_messages(old(memory)@.messages, 1000),
                a,
                s,
                r1,
                final(memory)@.blocks,
                r,
            ),
{
    let recent = memory.get_recent_messages(1000);
    proof {
        crate::memory::lemma_message_views_len(recent@);
    }
    let ghost msgs = message_views(recent@);
    let ghost before = memory@.blocks;
    let size = memory.context_size();
    let (run, archive, summarize, detect) = plan_pass(config, recent.len(), size);
    let ghost plan = (run, archive, summarize, detect);
    if !run {
        return Ok(());
    }
    if archive {
        memory.archive_stale(now);
    }
    let ghost a = memory@.blocks;
    let mut r1: Result<(), Error> = Ok(());
    if summarize {
        r1 = perform_summarization(memory, &recent);
    }
    let ghost s = memory@.blocks;
    if r1.is_err() {
        assert(pass_steps(plan, before, now, msgs, a, s, r1, memory@.blocks, r1));
        return r1;
    }
    let r = if detect {
        detect_patterns(memory, &recent)
    } else {
        Ok(())
    };
    assert(pass_steps(plan, before, now, msgs, a, s, r1, memory@.blocks, r));
    r
}

/// The state of a background agent serving a primary agent. The caller runs
/// the timer task while the agent is running.
#[derive(Debug)]
pub struct SleepTimeAgent {
    primary_agent_id: crate::types::AgentId,
    config: SleepTimeConfig,
    running: bool,
}

impl SleepTimeAgent {
    /// A stopped background agent.
    pub fn new(primary_agent_id: crate::types::AgentId, config: SleepTimeConfig) -> (a: SleepTimeAgent)
        ensures
            a.primary_spec() == primary_agent_id,
            a.config_spec() == config,
            !a.is_running_spec(),
    {
        SleepTimeAgent { primary_agent_id, config, running: false }
    }

    /// Whether the agent is running.
    pub closed spec fn is_running_spec(&self) -> bool {
        self.running
    }

    /// The agent served.
    pub closed spec fn primary_spec(&self) -> crate::types::AgentId {
        self.primary_agent_id
    }

    /// The settings.
    pub closed spec fn config_spec(&self) -> SleepTimeConfig {
        self.config
    }

    /// The agent served.
    pub fn primary_agent_id(&self) -> (id: crate::types::AgentId)
        ensures
            id == self.primary_spec(),
    {
        self.primary_agent_id
    }

    /// The settings.
    pub fn config(&self) -> (c: &SleepTimeConfig)
        ensures
            *c == self.config_spec(),
    {
        &self.config
    }

    /// Whether the agent is running.
    pub fn is_running(&self) -> (b: bool)
        ensures
            b == self.is_running_spec(),
    {
        self.running
    }

    /// Starts the agent; fails when it is already running.
    pub fn start(&mut self) -> (r: Result<(), Error>)
        ensures
            final(self).is_running_spec(),
            final(self).config_spec() == old(self).config_spec(),
            final(self).primary_spec() == old(self).primary_spec(),
            old(self).is_running_spec() ==> (r matches Err(Error::Config(m)) && m@
                == "Sleep-time agent is already running"@),
            !old(self).is_running_spec() ==> r is Ok,
    {
        if self.running {
            return Err(Error::Config(owned("Sleep-time agent is already running")));
        }
        self.running = true;
        Ok(())
    }

    /// Stops the agent.
    pub fn stop(&mut self)
        ensures
            !final(self).is_running_spec(),
            final(self).config_spec() == old(self).config_spec(),
            final(self).primary_spec() == old(self).primary_spec(),
    {
        self.running = false;
    }
}

} // verus!
