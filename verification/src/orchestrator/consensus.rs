//! The consensus pattern: agents answer independently and the most common
//! position wins. This module reads each answer's position and counts them;
//! the share of agreement is left to the caller.
use vstd::prelude::*;
use crate::text::{
    contains, decimal, join, join_strings, lines, lines_of, lowercase, owned, push_decimal,
    push_str, str_contains, str_eq, string_from_chars, to_chars, to_lowercase,
};

verus! {

/// The position that the first decision keyword found in a lower-cased
/// answer stands for, keywords tried in a fixed order.
pub open spec fn keyword_vote(lower: Seq<char>) -> Option<Seq<char>> {
    if contains(lower, "yes"@) || contains(lower, "approve"@) || contains(lower, "agree"@)
        || contains(lower, "support"@) {
        Some("yes"@)
    } else if contains(lower, "no"@) || contains(lower, "reject"@) || contains(
        lower,
        "disagree"@,
    ) || contains(lower, "oppose"@) {
        Some("no"@)
    } else if contains(lower, "uncertain"@) || contains(lower, "maybe"@) {
        Some("uncertain"@)
    } else {
        None
    }
}

/// The first line of an answer, or the answer itself when it has none.
pub open spec fn first_line(r: Seq<char>) -> Seq<char> {
    if lines(r).len() > 0 {
        lines(r)[0]
    } else {
        r
    }
}

/// The position an answer takes: its decision keyword's position, or else
/// its first line.
pub open spec fn vote_of(r: Seq<char>) -> Seq<char> {
    match keyword_vote(lowercase(r)) {
        Some(v) => v,
        None => first_line(r),
    }
}

/// How an answer votes, by the words its lower-cased text contains: `yes`,
/// `approve`, `agree` or `support` vote yes; failing those, `no`, `reject`,
/// `disagree` or `oppose` vote no; failing those, `uncertain` or `maybe` vote
/// uncertain; an answer with none of them takes its first line (the answer
/// itself when it has no line) as its position.
pub proof fn lemma_vote_words(r: Seq<char>)
    ensures
        ({
            let n = lowercase(r);
            let yes = contains(n, "yes"@) || contains(n, "approve"@) || contains(n, "agree"@)
                || contains(n, "support"@);
            let no = contains(n, "no"@) || contains(n, "reject"@) || contains(n, "disagree"@)
                || contains(n, "oppose"@);
            let unsure = contains(n, "uncertain"@) || contains(n, "maybe"@);
            &&& yes ==> vote_of(r) == "yes"@
            &&& !yes && no ==> vote_of(r) == "no"@
            &&& !yes && !no && unsure ==> vote_of(r) == "uncertain"@
            &&& !yes && !no && !unsure ==> vote_of(r) == if lines(r).len() > 0 {
                lines(r)[0]
            } else {
                r
            }
        }),
{
}

/// How many positions equal `v`.
pub open spec fn count_of(votes: Seq<Seq<char>>, v: Seq<char>) -> nat
    decreases votes.len(),
{
    if votes.len() == 0 {
        0
    } else {
        count_of(votes.drop_last(), v) + if votes.last() == v {
            1nat
        } else {
            0nat
        }
    }
}

/// The positions taken by the answers.
pub open spec fn votes_of(responses: Seq<Seq<char>>) -> Seq<Seq<char>> {
    responses.map_values(|r: Seq<char>| vote_of(r))
}

/// The position of one answer.
pub fn vote(response: &str) -> (v: String)
    ensures
        v@ == vote_of(response@),
{
    let lower = to_lowercase(response);
    let l = to_chars(lower.as_str());
    proof {
        reveal_strlit("yes");
        reveal_strlit("no");
        reveal_strlit("uncertain");
    }
    if str_contains(l.as_slice(), "yes") || str_contains(l.as_slice(), "approve")
        || str_contains(l.as_slice(), "agree") || str_contains(l.as_slice(), "support") {
        owned("yes")
    } else if str_contains(l.as_slice(), "no") || str_contains(l.as_slice(), "reject")
        || str_contains(l.as_slice(), "disagree") || str_contains(l.as_slice(), "oppose") {
        owned("no")
    } else if str_contains(l.as_slice(), "uncertain") || str_contains(l.as_slice(), "maybe") {
        owned("uncertain")
    } else {
        let chars = to_chars(response);
        let ls = lines_of(chars.as_slice());
        if ls.len() > 0 {
            string_from_chars(ls[0].as_slice())
        } else {
            owned(response)
        }
    }
}

/// Number of equal positions in `votes`.
fn count_equal(votes: &Vec<String>, v: &str) -> (n: usize)
    ensures
        n == count_of(votes@.map_values(|s: String| s@), v@),
{
    let ghost vv = votes@.map_values(|s: String| s@);
    let mut n: usize = 0;
    let mut i: usize = 0;
    while i < votes.len()
        invariant
            i <= vv.len(),
            vv == votes@.map_values(|s: String| s@),
            n == count_of(vv.take(i as int), v@),
            n <= i,
        decreases vv.len() - i,
    {
        assert(vv.take(i + 1).drop_last() =~= vv.take(i as int));
        assert(vv.take(i + 1).last() == votes@[i as int]@);
        if str_eq(votes[i].as_str(), v) {
            n = n + 1;
        }
        i = i + 1;
    }
    assert(vv.take(vv.len() as int) =~= vv);
    n
}

/// The most common position among the answers and how many answers take it.
/// Among equally common positions the one met first wins. With no answers the
/// position is empty and the count zero.
pub fn majority_vote(responses: &Vec<String>) -> (r: (String, usize))
    ensures
        ({
            let votes = votes_of(responses@.map_values(|s: String| s@));
            if responses@.len() == 0 {
                r.0@ == Seq::<char>::empty() && r.1 == 0
            } else {
                &&& votes.contains(r.0@)
                &&& r.1 == count_of(votes, r.0@)
                &&& forall|i: int| 0 <= i < votes.len() ==> count_of(votes, #[trigger] votes[i]) <= r.1
            }
        }),
{
    let ghost rv = responses@.map_values(|s: String| s@);
    let ghost votes = votes_of(rv);
    if responses.len() == 0 {
        return (String::new(), 0);
    }
    let mut vs: Vec<String> = Vec::new();
    let mut i: usize = 0;
    while i < responses.len()
        invariant
            i <= rv.len(),
            rv == responses@.map_values(|s: String| s@),
            votes == votes_of(rv),
            vs@.map_values(|s: String| s@) == votes.take(i as int),
        decreases rv.len() - i,
    {
        let ghost before = vs@.map_values(|s: String| s@);
        vs.push(vote(responses[i].as_str()));
        assert(vs@.map_values(|s: String| s@) =~= before.push(votes[i as int]));
        assert(votes.take(i + 1) =~= votes.take(i as int).push(votes[i as int]));
        i = i + 1;
    }
    assert(votes.take(rv.len() as int) =~= votes);
    let mut best: usize = 0;
    let mut best_count: usize = count_equal(&vs, vs[0].as_str());
    let mut k: usize = 1;
    while k < vs.len()
        invariant
            1 <= k <= vs@.len(),
            vs@.len() == votes.len(),
            vs@.map_values(|s: String| s@) == votes,
            best < vs@.len(),
            best_count == count_of(votes, votes[best as int]),
            forall|j: int| 0 <= j < k ==> count_of(votes, #[trigger] votes[j]) <= best_count,
        decreases vs@.len() - k,
    {
        let c = count_equal(&vs, vs[k].as_str());
        if c > best_count {
            best = k;
            best_count = c;
        }
        k = k + 1;
    }
    (vs[best].clone(), best_count)
}

/// One agent's section in the list of individual answers.
pub open spec fn response_section(i: nat, r: Seq<char>) -> Seq<char> {
    "### Agent "@ + decimal(i + 1) + "\n"@ + r
}

/// The individual answers, numbered from one.
pub open spec fn individual_responses(rs: Seq<Seq<char>>) -> Seq<char> {
    join(Seq::new(rs.len(), |i: int| response_section(i as nat, rs[i])), "\n\n"@)
}

/// Lists the individual answers, numbered from one.
pub fn list_responses(responses: &Vec<String>) -> (r: String)
    ensures
        r@ == individual_responses(responses@.map_values(|s: String| s@)),
{
    let ghost rv = responses@.map_values(|s: String| s@);
    let ghost secs = Seq::new(rv.len(), |i: int| response_section(i as nat, rv[i]));
    let mut parts: Vec<String> = Vec::new();
    let mut i: usize = 0;
    while i < responses.len()
        invariant
            i <= rv.len(),
            rv == responses@.map_values(|s: String| s@),
            secs == Seq::new(rv.len(), |i: int| response_section(i as nat, rv[i])),
            parts@.map_values(|p: String| p@) == secs.take(i as int),
        decreases rv.len() - i,
    {
        let mut p = owned("### Agent ");
        push_decimal(&mut p, i + 1);
        push_str(&mut p, "\n");
        push_str(&mut p, responses[i].as_str());
        let ghost before = parts@.map_values(|p: String| p@);
        parts.push(p);
        assert(parts@.map_values(|p: String| p@) =~= before.push(secs[i as int]));
        assert(secs.take(i + 1) =~= secs.take(i as int).push(secs[i as int]));
        i = i + 1;
    }
    assert(secs.take(rv.len() as int) =~= secs);
    join_strings(&parts, "\n\n")
}

} // verus!
