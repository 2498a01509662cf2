//! Combining the answers of agents that ran in parallel.
use vstd::prelude::*;
use crate::orchestrator::config::AggregationStrategy;
use crate::orchestrator::pattern::{output_views, AgentOutput, OutputView};
use crate::text::{byte_len, chars_eq, join, join_strings, lines, lines_of, owned, push_str, seqs_of, string_from_chars, to_chars};

verus! {

/// The section of one agent in a concatenation.
pub open spec fn section(o: OutputView) -> Seq<char> {
    "## "@ + o.agent_name + "\n\n"@ + o.content
}

/// Position of the longest answer; among equally long answers the last.
pub open spec fn longest_index(os: Seq<OutputView>) -> int
    decreases os.len(),
{
    if os.len() <= 1 {
        0
    } else {
        let k = longest_index(os.drop_last());
        if byte_len(os.last().content) >= byte_len(os[k].content) {
            os.len() - 1
        } else {
            k
        }
    }
}

/// All lines of all answers, in order.
pub open spec fn all_lines(os: Seq<OutputView>) -> Seq<Seq<char>>
    decreases os.len(),
{
    if os.len() == 0 {
        seq![]
    } else {
        all_lines(os.drop_last()) + lines(os.last().content)
    }
}

/// The lines, each distinct line at its first occurrence.
pub open spec fn distinct_lines(ls: Seq<Seq<char>>) -> Seq<Seq<char>>
    decreases ls.len(),
{
    if ls.len() == 0 {
        seq![]
    } else {
        let d = distinct_lines(ls.drop_last());
        if d.contains(ls.last()) {
            d
        } else {
            d.push(ls.last())
        }
    }
}

/// The combined answer.
pub open spec fn aggregated(s: AggregationStrategy, os: Seq<OutputView>) -> Seq<char> {
    match s {
        AggregationStrategy::Concatenate => join(
            os.map_values(|o: OutputView| section(o)),
            "\n\n---\n\n"@,
        ),
        AggregationStrategy::First => if os.len() > 0 {
            os[0].content
        } else {
            seq![]
        },
        AggregationStrategy::Longest => if os.len() > 0 {
            os[longest_index(os)].content
        } else {
            seq![]
        },
        AggregationStrategy::Merge => join(distinct_lines(all_lines(os)), "\n"@),
        AggregationStrategy::Synthesize => join(
            os.map_values(|o: OutputView| o.content),
            "\n\n"@,
        ),
    }
}

proof fn lemma_longest_in_range(os: Seq<OutputView>)
    ensures
        os.len() > 0 ==> 0 <= longest_index(os) < os.len(),
    decreases os.len(),
{
    if os.len() > 1 {
        lemma_longest_in_range(os.drop_last());
    }
}

/// The first strategy gives the first answer, and the longest strategy an
/// answer at least as long (in bytes) as every other and longer than every
/// answer after it; with no answers both give the empty text.
pub proof fn lemma_pick_strategies(os: Seq<OutputView>)
    ensures
        os.len() == 0 ==> aggregated(AggregationStrategy::First, os).len() == 0
            && aggregated(AggregationStrategy::Longest, os).len() == 0,
        os.len() > 0 ==> aggregated(AggregationStrategy::First, os) == os[0].content,
        os.len() > 0 ==> exists|k: int|
            0 <= k < os.len() && aggregated(AggregationStrategy::Longest, os) == #[trigger] os[k].content
                && (forall|j: int| 0 <= j < os.len() ==> byte_len(#[trigger] os[j].content) <= byte_len(os[k].content))
                && (forall|j: int| k < j < os.len() ==> byte_len(#[trigger] os[j].content) < byte_len(os[k].content)),
{
    if os.len() > 0 {
        lemma_longest_is_longest(os);
        let k = longest_index(os);
        assert(aggregated(AggregationStrategy::Longest, os) == os[k].content);
    }
}

proof fn lemma_longest_is_longest(os: Seq<OutputView>)
    requires
        os.len() > 0,
    ensures
        0 <= longest_index(os) < os.len(),
        forall|j: int| 0 <= j < os.len() ==> byte_len(#[trigger] os[j].content) <= byte_len(
            os[longest_index(os)].content,
        ),
        forall|j: int| longest_index(os) < j < os.len() ==> byte_len(#[trigger] os[j].content) < byte_len(
            os[longest_index(os)].content,
        ),
    decreases os.len(),
{
    if os.len() > 1 {
        let d = os.drop_last();
        lemma_longest_is_longest(d);
        let k = longest_index(d);
        let n = os.len() - 1;
        assert(d[k] == os[k]);
        if byte_len(os[n].content) >= byte_len(os[k].content) {
            assert(longest_index(os) == n);
            assert forall|j: int| 0 <= j < os.len() implies byte_len(#[trigger] os[j].content) <= byte_len(
                os[n].content,
            ) by {
                if j < n {
                    assert(d[j] == os[j]);
                }
            }
        } else {
            assert(longest_index(os) == k);
            assert forall|j: int| 0 <= j < os.len() implies byte_len(#[trigger] os[j].content) <= byte_len(
                os[k].content,
            ) by {
                if j < n {
                    assert(d[j] == os[j]);
                }
            }
            assert forall|j: int| k < j < os.len() implies byte_len(#[trigger] os[j].content) < byte_len(
                os[k].content,
            ) by {
                if j < n {
                    assert(d[j] == os[j]);
                }
            }
        }
    }
}

/// Keeping each distinct line once keeps every line and repeats none.
proof fn lemma_distinct_lines(ls: Seq<Seq<char>>)
    ensures
        forall|i: int| 0 <= i < ls.len() ==> distinct_lines(ls).contains(#[trigger] ls[i]),
        forall|x: Seq<char>| distinct_lines(ls).contains(x) ==> ls.contains(x),
        forall|i: int, j: int|
            0 <= i < j < distinct_lines(ls).len() ==> distinct_lines(ls)[i] != distinct_lines(ls)[j],
    decreases ls.len(),
{
    if ls.len() > 0 {
        let d = ls.drop_last();
        lemma_distinct_lines(d);
        let r = distinct_lines(ls);
        let rd = distinct_lines(d);
        assert forall|i: int| 0 <= i < ls.len() implies r.contains(#[trigger] ls[i]) by {
            if i < d.len() {
                assert(rd.contains(d[i]));
                let k = choose|k: int| 0 <= k < rd.len() && rd[k] == d[i];
                assert(r[k] == rd[k]);
            } else {
                if !rd.contains(ls.last()) {
                    assert(r[rd.len() as int] == ls.last());
                }
            }
        }
        assert forall|x: Seq<char>| r.contains(x) implies ls.contains(x) by {
            let k = choose|k: int| 0 <= k < r.len() && r[k] == x;
            if k < rd.len() {
                assert(rd[k] == x);
                assert(rd.contains(x));
                assert(d.contains(x));
                let m = choose|m: int| 0 <= m < d.len() && d[m] == x;
                assert(ls[m] == x);
            } else {
                assert(ls[ls.len() - 1] == x);
            }
        }
    }
}

/// The merge strategy joins with line breaks a list of lines that holds
/// every line of every answer, only such lines, and none twice.
pub proof fn lemma_merge_strategy(os: Seq<OutputView>)
    ensures
        exists|d: Seq<Seq<char>>|
            #[trigger] join(d, "\n"@) == aggregated(AggregationStrategy::Merge, os) && (forall|i: int, j: int|
                0 <= i < os.len() && 0 <= j < lines(os[i].content).len() ==> d.contains(
                    #[trigger] lines(os[i].content)[j],
                )) && (forall|x: Seq<char>|
                d.contains(x) ==> exists|i: int| 0 <= i < os.len() && #[trigger] lines(os[i].content).contains(x))
                && (forall|i: int, k: int| 0 <= i < k < d.len() ==> d[i] != d[k]),
{
    let ls = all_lines(os);
    let d = distinct_lines(ls);
    lemma_distinct_lines(ls);
    lemma_all_lines(os);
    assert forall|i: int, j: int|
        0 <= i < os.len() && 0 <= j < lines(os[i].content).len() implies d.contains(
        #[trigger] lines(os[i].content)[j],
    ) by {
        let x = lines(os[i].content)[j];
        assert(ls.contains(x));
        let m = choose|m: int| 0 <= m < ls.len() && ls[m] == x;
        assert(d.contains(ls[m]));
    }
    assert forall|x: Seq<char>| d.contains(x) implies exists|i: int|
        0 <= i < os.len() && #[trigger] lines(os[i].content).contains(x) by {
        assert(ls.contains(x));
    }
    assert(join(d, "\n"@) == aggregated(AggregationStrategy::Merge, os));
}

/// The lines of all answers are exactly the lines of each answer.
proof fn lemma_all_lines(os: Seq<OutputView>)
    ensures
        forall|i: int, j: int|
            0 <= i < os.len() && 0 <= j < lines(os[i].content).len() ==> all_lines(os).contains(
                #[trigger] lines(os[i].content)[j],
            ),
        forall|x: Seq<char>|
            all_lines(os).contains(x) ==> exists|i: int|
                0 <= i < os.len() && #[trigger] lines(os[i].content).contains(x),
    decreases os.len(),
{
    if os.len() > 0 {
        let d = os.drop_last();
        lemma_all_lines(d);
        let a = all_lines(d);
        let l = lines(os.last().content);
        assert(all_lines(os) == a + l);
        assert forall|i: int, j: int|
            0 <= i < os.len() && 0 <= j < lines(os[i].content).len() implies all_lines(os).contains(
            #[trigger] lines(os[i].content)[j],
        ) by {
            if i < d.len() {
                assert(d[i] == os[i]);
                let x = lines(d[i].content)[j];
                assert(a.contains(x));
                let m = choose|m: int| 0 <= m < a.len() && a[m] == x;
                assert((a + l)[m] == x);
            } else {
                assert((a + l)[a.len() + j] == l[j]);
            }
        }
        assert forall|x: Seq<char>| all_lines(os).contains(x) implies exists|i: int|
            0 <= i < os.len() && #[trigger] lines(os[i].content).contains(x) by {
            let m = choose|m: int| 0 <= m < (a + l).len() && (a + l)[m] == x;
            if m < a.len() {
                assert(a[m] == x);
                assert(a.contains(x));
                let i = choose|i: int| 0 <= i < d.len() && #[trigger] lines(d[i].content).contains(x);
                assert(d[i] == os[i]);
                assert(lines(os[i].content).contains(x));
            } else {
                assert(l[m - a.len()] == x);
                assert(lines(os[os.len() - 1].content).contains(x));
            }
        }
    }
}

/// Combines the answers of agents according to a strategy.
pub fn aggregate(strategy: AggregationStrategy, outputs: &Vec<AgentOutput>) -> (r: String)
    ensures
        r@ == aggregated(strategy, output_views(outputs@)),
{
    let ghost os = output_views(outputs@);
    match strategy {
        AggregationStrategy::Concatenate => {
            let mut parts: Vec<String> = Vec::new();
            let mut i: usize = 0;
            while i < outputs.len()
                invariant
                    i <= os.len(),
                    os == output_views(outputs@),
                    parts@.map_values(|p: String| p@) == os.map_values(
                        |o: OutputView| section(o),
                    ).take(i as int),
                decreases os.len() - i,
            {
                let mut s = owned("## ");
                push_str(&mut s, outputs[i].agent_name.as_str());
                push_str(&mut s, "\n\n");
                push_str(&mut s, outputs[i].content.as_str());
                let ghost before = parts@.map_values(|p: String| p@);
                parts.push(s);
                assert(parts@.map_values(|p: String| p@) =~= before.push(section(os[i as int])));
                assert(os.map_values(|o: OutputView| section(o)).take(i + 1) =~= os.map_values(
                    |o: OutputView| section(o),
                ).take(i as int).push(section(os[i as int])));
                i = i + 1;
            }
            assert(os.map_values(|o: OutputView| section(o)).take(os.len() as int) =~= os.map_values(
                |o: OutputView| section(o),
            ));
            join_strings(&parts, "\n\n---\n\n")
        },
        AggregationStrategy::First => {
            if outputs.len() > 0 {
                outputs[0].content.clone()
            } else {
                String::new()
            }
        },
        AggregationStrategy::Longest => {
            if outputs.len() == 0 {
                return String::new();
            }
            let mut best: usize = 0;
            let mut best_len: usize = outputs[0].content.as_str().as_bytes().len();
            let mut i: usize = 1;
            while i < outputs.len()
                invariant
                    1 <= i <= os.len(),
                    os == output_views(outputs@),
                    best == longest_index(os.take(i as int)),
                    best < i,
                    best_len == byte_len(os[best as int].content),
                decreases os.len() - i,
            {
                assert(os.take(i + 1).drop_last() =~= os.take(i as int));
                let l = outputs[i].content.as_str().as_bytes().len();
                if l >= best_len {
                    best = i;
                    best_len = l;
                }
                i = i + 1;
            }
            assert(os.take(os.len() as int) =~= os);
            outputs[best].content.clone()
        },
        AggregationStrategy::Merge => {
            let mut seen: Vec<Vec<char>> = Vec::new();
            let mut i: usize = 0;
            while i < outputs.len()
                invariant
                    i <= os.len(),
                    os == output_views(outputs@),
                    seqs_of(seen@) == distinct_lines(all_lines(os.take(i as int))),
                decreases os.len() - i,
            {
                assert(os.take(i + 1).drop_last() =~= os.take(i as int));
                let chars = to_chars(outputs[i].content.as_str());
                let ls = lines_of(chars.as_slice());
                let ghost pre = all_lines(os.take(i as int));
                let ghost lv = seqs_of(ls@);
                let mut j: usize = 0;
                while j < ls.len()
                    invariant
                        j <= lv.len(),
                        lv == seqs_of(ls@),
                        seqs_of(seen@) == distinct_lines(pre + lv.take(j as int)),
                    decreases lv.len() - j,
                {
                    assert((pre + lv.take(j + 1)).drop_last() =~= pre + lv.take(j as int));
                    assert((pre + lv.take(j + 1)).last() == lv[j as int]);
                    let mut found = false;
                    let mut k: usize = 0;
                    while k < seen.len()
                        invariant
                            k <= seen@.len(),
                            found == exists|m: int| 0 <= m < k && seqs_of(seen@)[m] == lv[j as int],
                            lv == seqs_of(ls@),
                            j < lv.len(),
                        decreases seen@.len() - k,
                    {
                        assert(seqs_of(seen@)[k as int] == seen@[k as int]@);
                        assert(lv[j as int] == ls@[j as int]@);
                        if chars_eq(seen[k].as_slice(), ls[j].as_slice()) {
                            found = true;
                        }
                        proof {
                            if !found {
                                assert forall|m: int| 0 <= m < k + 1 implies seqs_of(seen@)[m]
                                    != lv[j as int] by {}
                            }
                        }
                        k = k + 1;
                    }
                    if !found {
                        let ghost before = seqs_of(seen@);
                        seen.push(ls[j].clone());
                        assert(seqs_of(seen@) =~= before.push(lv[j as int]));
                    }
                    proof {
                        let d = seqs_of(seen@);
                        if found {
                            let m = choose|m: int| 0 <= m < seen@.len() && seqs_of(seen@)[m] == lv[j as int];
                            assert(distinct_lines(pre + lv.take(j as int)).contains(lv[j as int]));
                        }
                    }
                    j = j + 1;
                }
                assert(lv.take(lv.len() as int) =~= lv);
                assert(lv == lines(os[i as int].content));
                assert(os.take(i + 1).last() == os[i as int]);
                j = 0;
                i = i + 1;
            }
            assert(os.take(os.len() as int) =~= os);
            let mut parts: Vec<String> = Vec::new();
            let mut k: usize = 0;
            while k < seen.len()
                invariant
                    k <= seen@.len(),
                    parts@.map_values(|p: String| p@) == seqs_of(seen@).take(k as int),
                decreases seen@.len() - k,
            {
                let ghost before = parts@.map_values(|p: String| p@);
                parts.push(string_from_chars(seen[k].as_slice()));
                assert(parts@.map_values(|p: String| p@) =~= before.push(seqs_of(seen@)[k as int]));
                assert(seqs_of(seen@).take(k + 1) =~= seqs_of(seen@).take(k as int).push(
                    seqs_of(seen@)[k as int],
                ));
                k = k + 1;
            }
            assert(seqs_of(seen@).take(seen@.len() as int) =~= seqs_of(seen@));
            join_strings(&parts, "\n")
        },
        AggregationStrategy::Synthesize => {
            let mut parts: Vec<String> = Vec::new();
            let mut i: usize = 0;
            while i < outputs.len()
                invariant
                    i <= os.len(),
                    os == output_views(outputs@),
                    parts@.map_values(|p: String| p@) == os.map_values(|o: OutputView| o.content).take(
                        i as int,
                    ),
                decreases os.len() - i,
            {
                let ghost before = parts@.map_values(|p: String| p@);
                parts.push(outputs[i].content.clone());
                assert(parts@.map_values(|p: String| p@) =~= before.push(os[i as int].content));
                assert(os.map_values(|o: OutputView| o.content).take(i + 1) =~= os.map_values(
                    |o: OutputView| o.content,
                ).take(i as int).push(os[i as int].content));
                i = i + 1;
            }
            assert(os.map_values(|o: OutputView| o.content).take(os.len() as int) =~= os.map_values(
                |o: OutputView| o.content,
            ));
            join_strings(&parts, "\n\n")
        },
    }
}

} // verus!
