//! The debate pattern: a pro agent and a con agent answer each other for a
//! number of rounds, then a synthesizer concludes. This module decides who
//! speaks next and with which prompt; the caller asks the agents.
use vstd::prelude::*;
use crate::text::{decimal, owned, push_decimal, push_str};

verus! {

/// Opening prompt of the pro side.
pub open spec fn pro_opening(input: Seq<char>) -> Seq<char> {
    "You are arguing IN FAVOR of the following position. Present your strongest arguments:\n\n"@
        + input
}

/// Prompt of the pro side after the con side answered `con`.
pub open spec fn pro_rebuttal(con: Seq<char>, input: Seq<char>) -> Seq<char> {
    "Previous con argument:\n"@ + con
        + "\n\nRespond to their points and strengthen your position IN FAVOR of:\n"@ + input
}

/// Opening prompt of the con side after the pro side argued `pro`.
pub open spec fn con_opening(pro: Seq<char>, input: Seq<char>) -> Seq<char> {
    "Pro has argued:\n"@ + pro + "\n\nPresent your counter-arguments AGAINST:\n"@ + input
}

/// Prompt of the con side after the pro side responded `pro`.
pub open spec fn con_rebuttal(pro: Seq<char>, input: Seq<char>) -> Seq<char> {
    "Pro has responded:\n"@ + pro
        + "\n\nCounter their points and strengthen your position AGAINST:\n"@ + input
}

/// The arguments of one side, one section per round.
pub open spec fn round_sections(args: Seq<Seq<char>>) -> Seq<char>
    decreases args.len(),
{
    if args.len() == 0 {
        seq![]
    } else {
        round_sections(args.drop_last()) + "\n### Round "@ + decimal(args.len() as nat) + "\n"@
            + args.last() + "\n"@
    }
}

/// Summary of a debate.
pub open spec fn debate_summary(pro: Seq<Seq<char>>, con: Seq<Seq<char>>) -> Seq<char> {
    "# Debate Summary\n\n"@ + "## Arguments For (Pro)\n"@ + round_sections(pro)
        + "\n## Arguments Against (Con)\n"@ + round_sections(con)
}

/// Prompt of the synthesizer.
pub open spec fn synthesis_prompt(summary: Seq<char>, input: Seq<char>) -> Seq<char> {
    summary
        + "\n\nProvide a balanced, nuanced synthesis of this debate. Consider:\n1. The strongest points from each side\n2. Where the positions might agree\n3. A reasoned conclusion\nOriginal question: "@
        + input
}

/// Name under which an agent's answer in round `round` (from zero) is recorded.
pub open spec fn round_label(agent: Seq<char>, round: nat) -> Seq<char> {
    agent + " (Round "@ + decimal(round + 1) + ")"@
}

/// Name under which the synthesizer's answer is recorded.
pub open spec fn synthesis_label(agent: Seq<char>) -> Seq<char> {
    agent + " (Synthesis)"@
}

/// Who speaks next in a debate.
#[derive(Debug)]
pub enum DebateTurn {
    /// The pro side, in round `round` (from zero).
    Pro { round: usize, prompt: String },
    /// The con side, in round `round` (from zero).
    Con { round: usize, prompt: String },
    /// The synthesizer, once all rounds are over.
    Synthesis { prompt: String },
}

/// The arguments heard so far.
pub struct DebateView {
    pub rounds: usize,
    pub pro: Seq<Seq<char>>,
    pub con: Seq<Seq<char>>,
}

/// Progress of a debate.
#[derive(Debug)]
pub struct DebateState {
    rounds: usize,
    pro_arguments: Vec<String>,
    con_arguments: Vec<String>,
}

impl View for DebateState {
    type V = DebateView;

    closed spec fn view(&self) -> DebateView {
        DebateView {
            rounds: self.rounds,
            pro: self.pro_arguments@.map_values(|s: String| s@),
            con: self.con_arguments@.map_values(|s: String| s@),
        }
    }
}

/// The sides take turns, pro first, for at most the given rounds.
pub open spec fn debate_wf(v: DebateView) -> bool {
    &&& v.con.len() <= v.pro.len() <= v.con.len() + 1
    &&& v.pro.len() <= v.rounds
}

/// All rounds are over.
pub open spec fn debate_over(v: DebateView) -> bool {
    v.pro.len() == v.con.len() && v.pro.len() >= v.rounds
}

/// `t` is the turn that follows `v` in a debate on `input`.
pub open spec fn is_next_turn(t: DebateTurn, v: DebateView, input: Seq<char>) -> bool {
    if v.pro.len() == v.con.len() && v.pro.len() < v.rounds {
        t matches DebateTurn::Pro { round, prompt } && round == v.pro.len() && prompt@ == if round
            == 0 {
            pro_opening(input)
        } else {
            pro_rebuttal(v.con.last(), input)
        }
    } else if v.pro.len() == v.con.len() + 1 {
        t matches DebateTurn::Con { round, prompt } && round == v.con.len() && prompt@ == if round
            == 0 {
            con_opening(v.pro.last(), input)
        } else {
            con_rebuttal(v.pro.last(), input)
        }
    } else {
        t matches DebateTurn::Synthesis { prompt } && prompt@ == synthesis_prompt(
            debate_summary(v.pro, v.con),
            input,
        )
    }
}

/// Appends the sections of rounds `from..` of `args`.
fn push_round_sections(s: &mut String, args: &Vec<String>)
    ensures
        final(s)@ == old(s)@ + round_sections(args@.map_values(|a: String| a@)),
{
    let ghost av = args@.map_values(|a: String| a@);
    let mut i: usize = 0;
    assert(old(s)@ + round_sections(av.take(0)) =~= old(s)@);
    while i < args.len()
        invariant
            i <= av.len(),
            av == args@.map_values(|a: String| a@),
            s@ == old(s)@ + round_sections(av.take(i as int)),
        decreases av.len() - i,
    {
        assert(av.take(i + 1).drop_last() =~= av.take(i as int));
        assert(av.take(i + 1).last() == args@[i as int]@);
        push_str(s, "\n### Round ");
        push_decimal(s, i + 1);
        push_str(s, "\n");
        push_str(s, args[i].as_str());
        push_str(s, "\n");
        assert(s@ =~= old(s)@ + round_sections(av.take(i + 1)));
        i = i + 1;
    }
    assert(av.take(av.len() as int) =~= av);
}

/// Summary of the debate between the given arguments.
pub fn debate_synthesis(pro_args: &Vec<String>, con_args: &Vec<String>) -> (r: String)
    ensures
        r@ == debate_summary(
            pro_args@.map_values(|a: String| a@),
            con_args@.map_values(|a: String| a@),
        ),
{
    let mut s = owned("# Debate Summary\n\n");
    push_str(&mut s, "## Arguments For (Pro)\n");
    push_round_sections(&mut s, pro_args);
    push_str(&mut s, "\n## Arguments Against (Con)\n");
    push_round_sections(&mut s, con_args);
    assert(s@ =~= debate_summary(
        pro_args@.map_values(|a: String| a@),
        con_args@.map_values(|a: String| a@),
    ));
    s
}

/// Name under which an agent's answer in a round is recorded.
pub fn round_agent_name(agent: &str, round: usize) -> (r: String)
    requires
        round < usize::MAX,
    ensures
        r@ == round_label(agent@, round as nat),
{
    let mut s = owned(agent);
    push_str(&mut s, " (Round ");
    push_decimal(&mut s, round + 1);
    push_str(&mut s, ")");
    s
}

/// Name under which the synthesizer's answer is recorded.
pub fn synthesis_agent_name(agent: &str) -> (r: String)
    ensures
        r@ == synthesis_label(agent@),
{
    let mut s = owned(agent);
    push_str(&mut s, " (Synthesis)");
    s
}

/// Number of handoffs of a debate: one each way per round.
pub fn debate_handoffs(rounds: usize) -> (n: usize)
    requires
        rounds <= usize::MAX / 2,
    ensures
        n == 2 * rounds,
{
    rounds * 2
}

impl DebateState {
    /// A debate of `rounds` rounds where nobody has spoken yet.
    pub fn new(rounds: usize) -> (d: DebateState)
        ensures
            d@.rounds == rounds,
            d@.pro == Seq::<Seq<char>>::empty(),
            d@.con == Seq::<Seq<char>>::empty(),
            debate_wf(d@),
    {
        let d = DebateState { rounds, pro_arguments: Vec::new(), con_arguments: Vec::new() };
        assert(d@.pro =~= Seq::<Seq<char>>::empty());
        assert(d@.con =~= Seq::<Seq<char>>::empty());
        d
    }

    /// Who speaks next, and with which prompt.
    pub fn next_turn(&self, input: &str) -> (t: DebateTurn)
        requires
            debate_wf(self@),
        ensures
            is_next_turn(t, self@, input@),
    {
        let np = self.pro_arguments.len();
        let nc = self.con_arguments.len();
        if np == nc && np < self.rounds {
            let prompt = if np == 0 {
                let mut p = owned(
                    "You are arguing IN FAVOR of the following position. Present your strongest arguments:\n\n",
                );
                push_str(&mut p, input);
                p
            } else {
                let mut p = owned("Previous con argument:\n");
                push_str(&mut p, self.con_arguments[nc - 1].as_str());
                push_str(&mut p, "\n\nRespond to their points and strengthen your position IN FAVOR of:\n");
                push_str(&mut p, input);
                p
            };
            DebateTurn::Pro { round: np, prompt }
        } else if np > nc {
            let prompt = if nc == 0 {
                let mut p = owned("Pro has argued:\n");
                push_str(&mut p, self.pro_arguments[np - 1].as_str());
                push_str(&mut p, "\n\nPresent your counter-arguments AGAINST:\n");
                push_str(&mut p, input);
                p
            } else {
                let mut p = owned("Pro has responded:\n");
                push_str(&mut p, self.pro_arguments[np - 1].as_str());
                push_str(&mut p, "\n\nCounter their points and strengthen your position AGAINST:\n");
                push_str(&mut p, input);
                p
            };
            DebateTurn::Con { round: nc, prompt }
        } else {
            let mut p = debate_synthesis(&self.pro_arguments, &self.con_arguments);
            push_str(
                &mut p,
                "\n\nProvide a balanced, nuanced synthesis of this debate. Consider:\n1. The strongest points from each side\n2. Where the positions might agree\n3. A reasoned conclusion\nOriginal question: ",
            );
            push_str(&mut p, input);
            DebateTurn::Synthesis { prompt: p }
        }
    }

    /// Records the answer of the side whose turn it was.
    pub fn record(&mut self, content: String)
        requires
            debate_wf(old(self)@),
            !debate_over(old(self)@),
        ensures
            debate_wf(final(self)@),
            final(self)@.rounds == old(self)@.rounds,
            old(self)@.pro.len() == old(self)@.con.len() ==> final(self)@.pro == old(self)@.pro.push(
                content@,
            ) && final(self)@.con == old(self)@.con,
            old(self)@.pro.len() != old(self)@.con.len() ==> final(self)@.con == old(self)@.con.push(
                content@,
            ) && final(self)@.pro == old(self)@.pro,
    {
        let ghost cv = content@;
        let ghost v = self@;
        if self.pro_arguments.len() == self.con_arguments.len() {
            self.pro_arguments.push(content);
            assert(self@.pro =~= v.pro.push(cv));
            assert(self@.con =~= v.con);
        } else {
            self.con_arguments.push(content);
            assert(self@.con =~= v.con.push(cv));
            assert(self@.pro =~= v.pro);
        }
    }

    /// The arguments of the pro side, in order.
    pub fn pro_arguments(&self) -> (r: &Vec<String>)
        ensures
            r@.map_values(|a: String| a@) == self@.pro,
    {
        &self.pro_arguments
    }

    /// The arguments of the con side, in order.
    pub fn con_arguments(&self) -> (r: &Vec<String>)
        ensures
            r@.map_values(|a: String| a@) == self@.con,
    {
        &self.con_arguments
    }
}

/// A debate takes exactly two answers per round before the synthesis: in a
/// well-formed state, the synthesizer is next exactly when `2 * rounds`
/// answers were recorded, and otherwise the pro side speaks after an even
/// number of answers and the con side after an odd number.
pub proof fn lemma_debate_turns(v: DebateView)
    requires
        debate_wf(v),
    ensures
        debate_over(v) <==> v.pro.len() + v.con.len() == 2 * v.rounds,
        !debate_over(v) ==> ((v.pro.len() + v.con.len()) % 2 == 0 <==> v.pro.len() == v.con.len()),
{
}

} // verus!
