use spai::agent::{check_required, decide_action, try_decide_action, ReactRun, StepOutcome};
use spai::json::Json;
use spai::react::{Action, Observation, Thought};
use spai::error::Error;
use spai::guardrails::{guardrail_verdict, GuardrailResult};

#[test]
fn final_answer_is_cut_out_of_the_thought() {
    match decide_action("Thinking...\nFinal Answer:  42 ", Some("echo")) {
        Action::FinalAnswer { answer, .. } => assert_eq!(answer, "42"),
        other => panic!("unexpected {:?}", other),
    }
    match decide_action("answer: yes", None) {
        Action::FinalAnswer { answer, .. } => assert_eq!(answer, "yes"),
        other => panic!("unexpected {:?}", other),
    }
}

#[test]
fn action_calls_the_first_tool() {
    match decide_action("Action: use the tool", Some("echo")) {
        Action::ToolCall { tool_id, params, .. } => {
            assert_eq!(tool_id, "echo");
            assert_eq!(params.get_str("message"), Some("test".to_string()));
        },
        other => panic!("unexpected {:?}", other),
    }
}

#[test]
fn plain_thought_is_the_answer() {
    match decide_action("just text", None) {
        Action::FinalAnswer { answer, .. } => assert_eq!(answer, "just text"),
        other => panic!("unexpected {:?}", other),
    }
    assert!(try_decide_action("Answer: ok", None).is_some());
}

#[test]
fn a_run_stops_at_its_answer() {
    let mut run = ReactRun::start("system", "question", 3);
    assert!(run.wants_thought());
    assert_eq!(run.messages().len(), 2);
    let outcome = run.record_step(
        Thought::new("Final Answer: done".to_string()),
        Action::final_answer("done".to_string()),
    );
    assert!(matches!(outcome, StepOutcome::Answer(ref a) if a == "done"));
    assert!(!run.wants_thought());
    assert_eq!(run.trace().iteration_count(), 1);
}

#[test]
fn a_run_calls_tools_then_hears_back() {
    let mut run = ReactRun::start("system", "question", 2);
    let outcome = run.record_step(
        Thought::new("Action: call".to_string()),
        Action::tool_call("echo".to_string(), Json::Null),
    );
    assert!(matches!(outcome, StepOutcome::CallTool { ref tool_id, .. } if tool_id == "echo"));
    assert!(!run.wants_thought());
    run.record_observation(Observation::new("pong".to_string()));
    assert!(run.wants_thought());
    assert_eq!(run.trace().tool_call_count(), 1);
}

#[test]
fn a_run_gives_up_after_its_budget() {
    let mut run = ReactRun::start("s", "q", 1);
    run.record_step(Thought::new("a".to_string()), Action::tool_call("t".to_string(), Json::Null));
    run.record_observation(Observation::new("o".to_string()));
    assert!(!run.wants_thought());
    let e = run.give_up();
    let _ = e;
}

#[test]
fn system_prompt_is_optional() {
    let (name, prompt, model) =
        check_required(Some("Test Agent".to_string()), None, Some("test".to_string()), "default").unwrap();
    assert_eq!((name.as_str(), prompt.as_str(), model.as_str()), ("Test Agent", "", "test"));
    assert!(check_required(None, Some("p".to_string()), None, "default").is_err());
    let (_, _, m) = check_required(Some("n".to_string()), Some("p".to_string()), None, "default").unwrap();
    assert_eq!(m, "default");
}

#[test]
fn a_failed_guardrail_stops_the_run_with_its_reasoning() {
    let pass = GuardrailResult {
        passed: true,
        tripwire_triggered: false,
        reasoning: "fine".to_string(),
        suggested_modification: None,
    };
    assert!(guardrail_verdict("length", pass).is_ok());
    let fail = GuardrailResult {
        passed: false,
        tripwire_triggered: true,
        reasoning: "too long".to_string(),
        suggested_modification: None,
    };
    match guardrail_verdict("length", fail) {
        Err(Error::GuardrailViolation { guardrail, reason }) => {
            assert_eq!(guardrail, "length");
            assert_eq!(reason, "too long");
        },
        _ => panic!("a failed guardrail must stop the run"),
    }
}
