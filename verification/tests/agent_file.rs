use spai::agent_file::{check_version, parse_agent_id, CheckpointManager, AGENT_FILE_VERSION};

#[test]
fn checkpoint_names_follow_the_agent_name() {
    let manager = CheckpointManager::new("checkpoints".to_string());
    assert_eq!(manager.checkpoint_dir(), "checkpoints");
    assert_eq!(
        manager.checkpoint_file_name("Research Agent", "20240101_120000"),
        "research_agent_20240101_120000.af"
    );
}

#[test]
fn checkpoints_are_selected_and_sorted() {
    let manager = CheckpointManager::new("d".to_string());
    let entries = vec![
        "test_agent_2.af".to_string(),
        "other_1.af".to_string(),
        "test_agent_1.af".to_string(),
        "test_agent_notes.txt".to_string(),
    ];
    assert_eq!(
        manager.select_checkpoints("Test Agent", &entries),
        vec!["test_agent_1.af".to_string(), "test_agent_2.af".to_string()]
    );
    assert!(manager.select_checkpoints("test_agent", &vec![]).is_empty());
}

#[test]
fn versions_and_ids_are_checked() {
    assert!(check_version(AGENT_FILE_VERSION).is_ok());
    assert!(check_version("0.9.0").is_err());
    assert!(parse_agent_id("not a uuid").is_err());
    let id = parse_agent_id("67e55044-10b1-426f-9247-bb680e5fe0c8").unwrap();
    assert_eq!(id.to_text(), "67e55044-10b1-426f-9247-bb680e5fe0c8");
}
