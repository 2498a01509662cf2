use spai::orchestrator::concurrent::aggregate;
use spai::orchestrator::config::{default_debate_rounds, default_max_loops, subagent_identities, AggregationStrategy};
use spai::orchestrator::consensus::{majority_vote, vote};
use spai::orchestrator::debate::{DebateState, DebateTurn};
use spai::orchestrator::hierarchical::{assign_subtasks, delegation_reason, parse_subtasks};
use spai::orchestrator::pattern::{AgentOutput, OrchestratorResult};
use spai::orchestrator::router::{parse_routing, routing_reason};
use spai::orchestrator::sequential::SequentialChain;
use spai::error::Error;

fn out(name: &str, content: &str) -> AgentOutput {
    AgentOutput {
        agent_name: name.to_string(),
        content: content.to_string(),
        loops_executed: 1,
        execution_time_ms: 0,
    }
}

#[test]
fn test_subagent_generation() {
    let agents = subagent_identities(3, "Agent {index} ready.");
    assert_eq!(agents.len(), 3);
    assert_eq!(agents[0].1, "Agent 1 ready.");
    assert_eq!(agents[1].1, "Agent 2 ready.");
    assert_eq!(agents[2].1, "Agent 3 ready.");
    assert_eq!(agents[2].0, "Subagent_3");
}

#[test]
fn defaults_of_configuration() {
    assert_eq!(default_debate_rounds(), 2);
    assert_eq!(default_max_loops(), 5);
    assert_eq!(AggregationStrategy::default(), AggregationStrategy::Concatenate);
}

#[test]
fn aggregation_strategies() {
    let outputs = vec![out("a", "short\nshared"), out("b", "a longer one\nshared")];
    assert_eq!(aggregate(AggregationStrategy::First, &outputs), "short\nshared");
    assert_eq!(aggregate(AggregationStrategy::Longest, &outputs), "a longer one\nshared");
    assert_eq!(aggregate(AggregationStrategy::Merge, &outputs), "short\nshared\na longer one");
    assert_eq!(
        aggregate(AggregationStrategy::Synthesize, &outputs),
        "short\nshared\n\na longer one\nshared"
    );
    assert_eq!(aggregate(AggregationStrategy::First, &vec![]), "");
}

#[test]
fn votes_and_majority() {
    assert_eq!(vote("Yes, I approve."), "yes");
    assert_eq!(vote("I must reject this"), "no");
    assert_eq!(vote("Perhaps\nlater"), "Perhaps");
    let responses = vec![
        "I agree".to_string(),
        "We should reject".to_string(),
        "Support it".to_string(),
    ];
    assert_eq!(majority_vote(&responses), ("yes".to_string(), 2));
    assert_eq!(majority_vote(&vec![]), (String::new(), 0));
}

#[test]
fn subtasks_are_read_from_lists() {
    let tasks = parse_subtasks("Plan:\n1. Gather data\n- Analyse it\n* \nnot an item\n  2. Report");
    assert_eq!(tasks, vec!["Gather data".to_string(), "Analyse it".to_string(), "Report".to_string()]);
    let assigned = assign_subtasks(&tasks, 4);
    assert_eq!(assigned, vec![
        "Gather data".to_string(),
        "Analyse it".to_string(),
        "Report".to_string(),
        "Gather data".to_string(),
    ]);
    assert!(assign_subtasks(&vec![], 3).is_empty());
    assert_eq!(delegation_reason("x"), "Delegating subtask: x");
    assert_eq!(routing_reason("math"), "Routing to math specialist");
}

#[test]
fn routing_prefers_explicit_choices() {
    let domains = vec!["math".to_string(), "history".to_string()];
    assert_eq!(parse_routing("Route to HISTORY please, not math", &domains), Some("history".to_string()));
    assert_eq!(parse_routing("this is about math", &domains), Some("math".to_string()));
    assert_eq!(parse_routing("no idea", &domains), None);
}

#[test]
fn debate_alternates_then_synthesizes() {
    let mut debate = DebateState::new(1);
    match debate.next_turn("topic") {
        DebateTurn::Pro { round, .. } => assert_eq!(round, 0),
        _ => panic!("the pro side speaks first"),
    }
    debate.record("pro says".to_string());
    match debate.next_turn("topic") {
        DebateTurn::Con { round, .. } => assert_eq!(round, 0),
        _ => panic!("the con side answers"),
    }
    debate.record("con says".to_string());
    assert!(matches!(debate.next_turn("topic"), DebateTurn::Synthesis { .. }));
    assert_eq!(debate.pro_arguments(), &vec!["pro says".to_string()]);
    assert_eq!(debate.con_arguments(), &vec!["con says".to_string()]);
}

#[test]
fn results_keep_one_output_per_agent() {
    let r = OrchestratorResult::new("final".to_string(), "concurrent".to_string())
        .with_agent_output(out("a", "1"))
        .with_agent_output(out("b", "2"))
        .with_agent_output(out("a", "3"))
        .with_time(12)
        .with_handoffs(2);
    assert_eq!(r.agent_outputs.len(), 2);
    assert_eq!(r.agent_outputs[0].content, "3");
    assert_eq!(r.metadata.total_time_ms, 12);
    assert_eq!(r.metadata.handoff_count, 2);
}

#[test]
fn a_chain_feeds_each_answer_to_the_next_agent() {
    let mut chain = SequentialChain::start("question");
    assert_eq!(chain.next_input(), "question");
    chain.record(out("first", "draft"));
    assert_eq!(chain.next_input(), "draft");
    chain.record(out("second", "final"));
    let r = chain.finish(7).unwrap();
    assert_eq!(r.content, "final");
    assert_eq!(r.agent_outputs.len(), 2);
    assert_eq!(r.metadata.pattern_type, "sequential");
    assert_eq!(r.metadata.total_time_ms, 7);
    assert_eq!(SequentialChain::start("alone").finish(0).unwrap().content, "alone");
}

#[test]
fn a_chain_stops_at_the_first_failing_agent() {
    let mut chain = SequentialChain::start("question");
    assert!(chain.wants_next());
    chain.record(out("first", "draft"));
    chain.fail(Error::MaxLoopsExceeded(3));
    assert!(!chain.wants_next());
    assert_eq!(chain.next_input(), "draft");
    match chain.finish(9) {
        Err(Error::MaxLoopsExceeded(n)) => assert_eq!(n, 3),
        _ => panic!("the chain should report the failure"),
    }
}
