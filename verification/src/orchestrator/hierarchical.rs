//! The hierarchical pattern: a lead agent splits a task into subtasks, the
//! subagents work on them, and the lead combines their answers. This module
//! holds the prompts, the reading of subtasks from the lead's answer, and the
//! assignment of subtasks to subagents.
use vstd::prelude::*;
use crate::orchestrator::pattern::{output_views, AgentOutput, OutputView};
use crate::text::{
    decimal, join, join_strings, lines, lines_of, owned, push_decimal, push_str, seqs_of,
    slice_range, starts_with, starts_with_chars, string_from_chars, to_chars, trim, trim_chars,
};

verus! {

/// An ASCII digit.
pub open spec fn is_ascii_digit(c: char) -> bool {
    '0' <= c && c <= '9'
}

/// A char that leads a list item: a digit, `.`, `-`, `*` or a space.
pub open spec fn is_marker(c: char) -> bool {
    is_ascii_digit(c) || c == '.' || c == '-' || c == '*' || c == ' '
}

/// `s` without its leading list-marker chars.
pub open spec fn strip_markers(s: Seq<char>) -> Seq<char>
    decreases s.len(),
{
    if s.len() > 0 && is_marker(s[0]) {
        strip_markers(s.drop_first())
    } else {
        s
    }
}

/// A line is a list item: once trimmed, it starts with `- `, `* `, or a digit.
pub open spec fn is_list_item(line: Seq<char>) -> bool {
    let t = trim(line);
    ||| starts_with(t, "- "@)
    ||| starts_with(t, "* "@)
    ||| starts_with(t, "1."@)
    ||| starts_with(t, "2."@)
    ||| starts_with(t, "3."@)
    ||| (t.len() > 0 && is_ascii_digit(t[0]))
}

/// The text of a list item.
pub open spec fn item_text(line: Seq<char>) -> Seq<char> {
    trim(strip_markers(trim(line)))
}

/// The non-empty texts of the list items among `ls`, in order.
pub open spec fn items_of(ls: Seq<Seq<char>>) -> Seq<Seq<char>>
    decreases ls.len(),
{
    if ls.len() == 0 {
        seq![]
    } else {
        let rest = items_of(ls.drop_last());
        if is_list_item(ls.last()) && item_text(ls.last()).len() > 0 {
            rest.push(item_text(ls.last()))
        } else {
            rest
        }
    }
}

/// The subtasks that a decomposition lists.
pub open spec fn subtasks_of(decomposition: Seq<char>) -> Seq<Seq<char>> {
    items_of(lines(decomposition))
}

/// A line names a subtask when, once trimmed, it starts with a `- ` or `* `
/// bullet or with a digit (`1.`, `2)`, ...), and text is left once the list
/// markers are stripped.
pub open spec fn names_subtask(line: Seq<char>) -> bool {
    let t = trim(line);
    &&& (starts_with(t, "- "@) || starts_with(t, "* "@) || (t.len() > 0 && '0' <= t[0] && t[0] <= '9'))
    &&& item_text(line).len() > 0
}

/// Reading the subtasks line by line: no line gives none; a line that names
/// a subtask adds its text after those of the lines before it; any other line
/// adds nothing.
pub proof fn lemma_subtasks_by_line(ls: Seq<Seq<char>>, line: Seq<char>)
    ensures
        items_of(seq![]) == Seq::<Seq<char>>::empty(),
        names_subtask(line) ==> items_of(ls.push(line)) == items_of(ls).push(item_text(line)),
        !names_subtask(line) ==> items_of(ls.push(line)) == items_of(ls),
{
    reveal_strlit("1.");
    reveal_strlit("2.");
    reveal_strlit("3.");
    reveal_strlit("- ");
    reveal_strlit("* ");
    assert(ls.push(line).drop_last() =~= ls);
    let t = trim(line);
    if starts_with(t, "1."@) || starts_with(t, "2."@) || starts_with(t, "3."@) {
        assert(t.subrange(0, 2)[0] == t[0]);
    }
}

/// The text of a list item is its trimmed line with the leading run of list
/// markers (digits, `.`, `-`, `*`, spaces) cut off, then trimmed.
pub proof fn lemma_item_text(line: Seq<char>)
    ensures
        exists|k: int|
            0 <= k <= trim(line).len() && (forall|j: int|
                0 <= j < k ==> ({
                    let c = #[trigger] trim(line)[j];
                    ('0' <= c && c <= '9') || c == '.' || c == '-' || c == '*' || c == ' '
                })) && (k < trim(line).len() ==> !({
                let c = trim(line)[k];
                ('0' <= c && c <= '9') || c == '.' || c == '-' || c == '*' || c == ' '
            })) && item_text(line) == trim(trim(line).skip(k)),
{
    let k = lemma_strip_markers(trim(line));
    assert(0 <= k <= trim(line).len());
}

/// Stripping the markers cuts off the longest leading run of marker chars.
proof fn lemma_strip_markers(s: Seq<char>) -> (k: int)
    ensures
        0 <= k <= s.len(),
        forall|j: int| 0 <= j < k ==> is_marker(#[trigger] s[j]),
        k < s.len() ==> !is_marker(s[k]),
        strip_markers(s) == s.skip(k),
    decreases s.len(),
{
    if s.len() > 0 && is_marker(s[0]) {
        let k1 = lemma_strip_markers(s.drop_first());
        assert(s.drop_first().skip(k1) =~= s.skip(k1 + 1));
        assert forall|j: int| 0 <= j < k1 + 1 implies is_marker(#[trigger] s[j]) by {
            if j > 0 {
                assert(s[j] == s.drop_first()[j - 1]);
            }
        }
        k1 + 1
    } else {
        assert(s.skip(0) =~= s);
        0
    }
}

fn is_ascii_digit_exec(c: char) -> (b: bool)
    ensures
        b == is_ascii_digit(c),
{
    '0' <= c && c <= '9'
}

fn strip_markers_exec(v: &Vec<char>) -> (r: Vec<char>)
    ensures
        r@ == strip_markers(v@),
{
    let mut i: usize = 0;
    assert(v@.skip(0) =~= v@);
    while i < v.len() && (is_ascii_digit_exec(v[i]) || v[i] == '.' || v[i] == '-' || v[i] == '*'
        || v[i] == ' ')
        invariant
            i <= v@.len(),
            strip_markers(v@) == strip_markers(v@.skip(i as int)),
        decreases v@.len() - i,
    {
        assert(v@.skip(i as int).drop_first() =~= v@.skip(i + 1));
        i = i + 1;
    }
    assert(v@.subrange(i as int, v@.len() as int) =~= v@.skip(i as int));
    slice_range(v.as_slice(), i, v.len())
}

/// The subtasks listed in the lead agent's decomposition: the non-empty
/// texts of its lines that are list items, in order.
pub fn parse_subtasks(decomposition: &str) -> (r: Vec<String>)
    ensures
        r@.map_values(|s: String| s@) == subtasks_of(decomposition@),
{
    let chars = to_chars(decomposition);
    let ls = lines_of(chars.as_slice());
    let ghost lv = seqs_of(ls@);
    let mut out: Vec<String> = Vec::new();
    let mut i: usize = 0;
    while i < ls.len()
        invariant
            i <= lv.len(),
            lv == seqs_of(ls@),
            out@.map_values(|s: String| s@) == items_of(lv.take(i as int)),
        decreases lv.len() - i,
    {
        assert(lv.take(i + 1).drop_last() =~= lv.take(i as int));
        assert(lv.take(i + 1).last() == ls@[i as int]@);
        let t = trim_chars(ls[i].as_slice());
        let item = starts_with_chars(t.as_slice(), to_chars("- ").as_slice())
            || starts_with_chars(t.as_slice(), to_chars("* ").as_slice())
            || starts_with_chars(t.as_slice(), to_chars("1.").as_slice())
            || starts_with_chars(t.as_slice(), to_chars("2.").as_slice())
            || starts_with_chars(t.as_slice(), to_chars("3.").as_slice())
            || (t.len() > 0 && is_ascii_digit_exec(t[0]));
        if item {
            let stripped = strip_markers_exec(&t);
            let text = trim_chars(stripped.as_slice());
            if text.len() > 0 {
                let ghost before = out@.map_values(|s: String| s@);
                out.push(string_from_chars(text.as_slice()));
                assert(out@.map_values(|s: String| s@) =~= before.push(text@));
            }
        }
        i = i + 1;
    }
    assert(lv.take(lv.len() as int) =~= lv);
    out
}

/// The prompt asking the lead agent to split the task for `n` subagents.
pub open spec fn decomposition_prompt(n: nat, input: Seq<char>) -> Seq<char> {
    "You are the lead coordinator. "@
        + "Decompose this "@ + "task into "@ + decimal(n)
        + " subtasks for your subagents:\n\n"@ + input
}

/// The prompt of a subagent working on `subtask`.
pub open spec fn subtask_prompt(input: Seq<char>, subtask: Seq<char>) -> Seq<char> {
    "Original task: "@ + input + "\n\nYour assigned subtask: "@ + subtask
        + "\n\nProvide your analysis:"@
}

/// One subagent's section of the synthesis prompt.
pub open spec fn output_section(o: OutputView) -> Seq<char> {
    "### "@ + o.agent_name + "\n"@ + o.content
}

/// The prompt asking the lead agent to combine the subagents' answers.
pub open spec fn combine_prompt(input: Seq<char>, outputs: Seq<OutputView>) -> Seq<char> {
    "Original task: "@ + input + "\n\nSubagent outputs:\n"@ + join(
        outputs.map_values(|o: OutputView| output_section(o)),
        "\n\n"@,
    ) + "\n\nSynthesize these into a comprehensive final answer:"@
}

/// The subtasks given to `n` subagents in order: subagent `i` gets subtask
/// `i` modulo the number of subtasks; with no subtasks no subagent is asked.
pub open spec fn assignment(subtasks: Seq<Seq<char>>, n: nat) -> Seq<Seq<char>> {
    if subtasks.len() == 0 {
        seq![]
    } else {
        Seq::new(n, |i: int| subtasks[i % (subtasks.len() as int)])
    }
}

/// Each of `n` subagents gets a subtask, in turn: subagent `i` gets the
/// subtask at `i` modulo their number, so when there are at least as many
/// subagents as subtasks every subtask is handed out, the first ones to the
/// first subagents; with no subtasks nobody gets one.
pub proof fn lemma_assignment(subtasks: Seq<Seq<char>>, n: nat)
    ensures
        subtasks.len() == 0 ==> assignment(subtasks, n).len() == 0,
        subtasks.len() > 0 ==> assignment(subtasks, n).len() == n,
        forall|i: int|
            0 <= i < n && i < subtasks.len() ==> #[trigger] assignment(subtasks, n)[i] == subtasks[i],
        subtasks.len() > 0 ==> forall|i: int|
            subtasks.len() <= i < n ==> #[trigger] assignment(subtasks, n)[i] == assignment(
                subtasks,
                n,
            )[i - subtasks.len()],
{
    if subtasks.len() > 0 {
        let m = subtasks.len() as int;
        assert forall|i: int| m <= i < n implies #[trigger] assignment(subtasks, n)[i] == assignment(
            subtasks,
            n,
        )[i - m] by {
            vstd::arithmetic::div_mod::lemma_mod_sub_multiples_vanish(i, m);
        }
        assert forall|i: int| 0 <= i < n && i < m implies #[trigger] assignment(subtasks, n)[i] == subtasks[i] by {
            vstd::arithmetic::div_mod::lemma_small_mod(i as nat, m as nat);
        }
    }
}

/// Builds the prompt asking the lead agent to split the task.
pub fn make_decomposition_prompt(n: usize, input: &str) -> (r: String)
    ensures
        r@ == decomposition_prompt(n as nat, input@),
{
    let mut s = owned("You are the lead coordinator. ");
    push_str(&mut s, "Decompose this ");
    push_str(&mut s, "task into ");
    push_decimal(&mut s, n);
    push_str(&mut s, " subtasks for your subagents:\n\n");
    push_str(&mut s, input);
    s
}

/// Builds the prompt of a subagent.
pub fn make_subtask_prompt(input: &str, subtask: &str) -> (r: String)
    ensures
        r@ == subtask_prompt(input@, subtask@),
{
    let mut s = owned("Original task: ");
    push_str(&mut s, input);
    push_str(&mut s, "\n\nYour assigned subtask: ");
    push_str(&mut s, subtask);
    push_str(&mut s, "\n\nProvide your analysis:");
    s
}

/// Builds the prompt asking the lead agent to combine the answers.
pub fn make_combine_prompt(input: &str, outputs: &Vec<AgentOutput>) -> (r: String)
    ensures
        r@ == combine_prompt(input@, output_views(outputs@)),
{
    let ghost os = output_views(outputs@);
    let mut parts: Vec<String> = Vec::new();
    let mut i: usize = 0;
    while i < outputs.len()
        invariant
            i <= os.len(),
            os == output_views(outputs@),
            parts@.map_values(|p: String| p@) == os.map_values(|o: OutputView| output_section(o)).take(
                i as int,
            ),
        decreases os.len() - i,
    {
        let mut p = owned("### ");
        push_str(&mut p, outputs[i].agent_name.as_str());
        push_str(&mut p, "\n");
        push_str(&mut p, outputs[i].content.as_str());
        let ghost before = parts@.map_values(|p: String| p@);
        parts.push(p);
        assert(parts@.map_values(|p: String| p@) =~= before.push(output_section(os[i as int])));
        assert(os.map_values(|o: OutputView| output_section(o)).take(i + 1) =~= os.map_values(
            |o: OutputView| output_section(o),
        ).take(i as int).push(output_section(os[i as int])));
        i = i + 1;
    }
    assert(os.map_values(|o: OutputView| output_section(o)).take(os.len() as int) =~= os.map_values(
        |o: OutputView| output_section(o),
    ));
    let joined = join_strings(&parts, "\n\n");
    let mut s = owned("Original task: ");
    push_str(&mut s, input);
    push_str(&mut s, "\n\nSubagent outputs:\n");
    push_str(&mut s, joined.as_str());
    push_str(&mut s, "\n\nSynthesize these into a comprehensive final answer:");
    s
}

/// The subtask of each of `n` subagents that is asked, in order.
pub fn assign_subtasks(subtasks: &Vec<String>, n: usize) -> (r: Vec<String>)
    ensures
        r@.map_values(|s: String| s@) == assignment(subtasks@.map_values(|s: String| s@), n as nat),
{
    let ghost sv = subtasks@.map_values(|s: String| s@);
    let mut out: Vec<String> = Vec::new();
    if subtasks.len() == 0 {
        assert(out@.map_values(|s: String| s@) =~= Seq::<Seq<char>>::empty());
        return out;
    }
    let mut i: usize = 0;
    while i < n
        invariant
            i <= n,
            sv == subtasks@.map_values(|s: String| s@),
            sv.len() > 0,
            out@.map_values(|s: String| s@) == assignment(sv, n as nat).take(i as int),
        decreases n - i,
    {
        let ghost before = out@.map_values(|s: String| s@);
        let k = i % subtasks.len();
        let t = subtasks[k].clone();
        assert(t@ == sv[k as int]);
        assert(assignment(sv, n as nat)[i as int] == sv[k as int]);
        out.push(t);
        assert(out@.map_values(|s: String| s@) =~= before.push(sv[k as int]));
        assert(assignment(sv, n as nat).take(i + 1) =~= assignment(sv, n as nat).take(i as int).push(
            sv[k as int],
        ));
        i = i + 1;
    }
    assert(assignment(sv, n as nat).take(n as int) =~= assignment(sv, n as nat));
    out
}

/// The reason of the handoff that delegates a subtask.
pub fn delegation_reason(subtask: &str) -> (r: String)
    ensures
        r@ == "Delegating subtask: "@ + subtask@,
{
    let mut s = owned("Delegating subtask: ");
    push_str(&mut s, subtask);
    s
}

/// Every subtask read from a decomposition is non-empty and trimmed, and is
/// the text of one of its lines.
pub proof fn lemma_subtasks_nonempty(ls: Seq<Seq<char>>)
    ensures
        forall|i: int|
            0 <= i < items_of(ls).len() ==> (#[trigger] items_of(ls)[i]).len() > 0 && exists|j: int|
                0 <= j < ls.len() && items_of(ls)[i] == item_text(ls[j]),
    decreases ls.len(),
{
    if ls.len() > 0 {
        let d = ls.drop_last();
        lemma_subtasks_nonempty(d);
        let r = items_of(d);
        assert forall|i: int| 0 <= i < items_of(ls).len() implies (#[trigger] items_of(ls)[i]).len()
            > 0 && exists|j: int| 0 <= j < ls.len() && items_of(ls)[i] == item_text(ls[j]) by {
            if i < r.len() {
                let j = choose|j: int| 0 <= j < d.len() && r[i] == item_text(d[j]);
                assert(items_of(ls)[i] == r[i]);
                assert(ls[j] == d[j]);
            } else {
                assert(items_of(ls)[i] == item_text(ls[ls.len() - 1]));
            }
        }
    }
}

} // verus!
