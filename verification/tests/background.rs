use spai::background::{BackgroundExecutor, RunStatus, SeqId};

#[test]
fn registered_run_has_metadata() {
    let mut executor = BackgroundExecutor::new();
    let run_id = executor.register_run("Test Agent".to_string(), "Test input".to_string());
    let metadata = executor.get_run_metadata(run_id).unwrap();
    assert_eq!(metadata.agent_name, "Test Agent");
    assert_eq!(metadata.input, "Test input");
}

#[test]
fn completed_run_streams_events() {
    let mut executor = BackgroundExecutor::new();
    let run_id = executor.register_run("Test Agent".to_string(), "Test".to_string());
    executor.mark_started(run_id);
    executor.record_output(run_id, "done", 0);
    let events = executor.stream_events(run_id, None).unwrap();
    assert!(!events.is_empty());
    let metadata = executor.get_run_metadata(run_id).unwrap();
    assert!(matches!(metadata.status, RunStatus::Completed));
}

#[test]
fn pages_hold_at_most_the_limit() {
    let mut executor = BackgroundExecutor::new();
    let run_id = executor.register_run("Test Agent".to_string(), "Test".to_string());
    executor.mark_started(run_id);
    executor.record_output(run_id, "done", 1);
    let page1 = executor.get_events_paginated(run_id, None, 2).unwrap();
    assert!(page1.events.len() <= 2);
    let total = page1.total_events;
    let mut seen = page1.events.len();
    let mut cursor = page1.next_cursor;
    let mut more = page1.has_more;
    while more {
        let page = executor.get_events_paginated(run_id, cursor, 2).unwrap();
        seen += page.events.len();
        cursor = page.next_cursor;
        more = page.has_more;
    }
    assert_eq!(seen, total);
}

#[test]
fn resuming_after_a_sequence_id_skips_earlier_events() {
    let mut executor = BackgroundExecutor::new();
    let run_id = executor.register_run("A".to_string(), "B".to_string());
    executor.mark_started(run_id);
    executor.record_failure(run_id, "boom");
    let all = executor.stream_events(run_id, None).unwrap();
    assert!(all.len() >= 2);
    let after = executor.stream_events(run_id, Some(all[0].seq_id)).unwrap();
    assert_eq!(after.len(), all.len() - 1);
    assert!(after.iter().all(|e| e.seq_id.value() > all[0].seq_id.value()));
}

#[test]
fn unknown_run_is_an_error() {
    let executor = BackgroundExecutor::new();
    let mut other = BackgroundExecutor::new();
    let id = other.register_run("x".to_string(), "y".to_string());
    assert!(executor.get_run_metadata(id).is_err());
    assert!(executor.stream_events(id, None).is_err());
}

#[test]
fn cancelling_a_run_whose_task_was_claimed_does_nothing() {
    let mut executor = BackgroundExecutor::new();
    let run_id = executor.register_run("A".to_string(), "B".to_string());
    executor.take_task(run_id).unwrap();
    assert_eq!(executor.cancel_run(run_id).unwrap(), false);
    assert!(executor.take_task(run_id).is_err());
}

#[test]
fn cancelling_a_live_run_marks_it_cancelled() {
    let mut executor = BackgroundExecutor::new();
    let run_id = executor.register_run("A".to_string(), "B".to_string());
    executor.mark_started(run_id);
    assert_eq!(executor.cancel_run(run_id).unwrap(), true);
    let metadata = executor.get_run_metadata(run_id).unwrap();
    assert!(matches!(metadata.status, RunStatus::Cancelled));
}

#[test]
fn sequence_ids_count_up() {
    let s = SeqId::new(4);
    assert_eq!(s.next().value(), 5);
    assert_eq!(SeqId::default().value(), 0);
}

#[test]
fn last_page_has_no_next_cursor() {
    let mut executor = BackgroundExecutor::new();
    let run_id = executor.register_run("A".to_string(), "B".to_string());
    executor.mark_started(run_id);
    executor.record_output(run_id, "done", 0);
    let first = executor.get_events_paginated(run_id, None, 2).unwrap();
    assert!(first.has_more);
    assert_eq!(first.next_cursor.map(|s| s.value()), Some(first.events[1].seq_id.value()));
    let last = executor.get_events_paginated(run_id, first.next_cursor, 2).unwrap();
    assert!(!last.has_more);
    assert!(last.next_cursor.is_none());
    let all = executor.get_events_paginated(run_id, None, 10).unwrap();
    assert!(!all.has_more && all.next_cursor.is_none());
}

#[test]
fn cancelling_a_finished_run_changes_nothing() {
    let mut executor = BackgroundExecutor::new();
    let run_id = executor.register_run("A".to_string(), "B".to_string());
    executor.mark_started(run_id);
    executor.record_output(run_id, "done", 0);
    let before = executor.stream_events(run_id, None).unwrap().len();
    assert_eq!(executor.cancel_run(run_id).unwrap(), false);
    let metadata = executor.get_run_metadata(run_id).unwrap();
    assert!(matches!(metadata.status, RunStatus::Completed));
    assert_eq!(executor.stream_events(run_id, None).unwrap().len(), before);
}

#[test]
fn a_cancelled_run_stays_cancelled_when_its_output_arrives() {
    let mut executor = BackgroundExecutor::new();
    let run_id = executor.register_run("A".to_string(), "B".to_string());
    executor.mark_started(run_id);
    assert_eq!(executor.cancel_run(run_id).unwrap(), true);
    let before = executor.stream_events(run_id, None).unwrap().len();
    executor.record_output(run_id, "late", 0);
    executor.record_failure(run_id, "late too");
    let metadata = executor.get_run_metadata(run_id).unwrap();
    assert!(matches!(metadata.status, RunStatus::Cancelled));
    assert_eq!(executor.stream_events(run_id, None).unwrap().len(), before);
}

#[test]
fn a_completed_run_logs_started_output_completed() {
    let mut executor = BackgroundExecutor::new();
    let run_id = executor.register_run("A".to_string(), "B".to_string());
    executor.mark_started(run_id);
    executor.record_output(run_id, "done", 0);
    let events = executor.stream_events(run_id, None).unwrap();
    assert_eq!(events.len(), 3);
    for (k, e) in events.iter().enumerate() {
        assert_eq!(e.seq_id.value(), k as u64);
    }
}
