use spai::filesystem::{list_files, open_file_result, open_file_target, search_files, AttachedFolder, FilesystemManager};
use spai::json::Json;
use spai::types::AgentId;

fn params(members: Vec<(&str, Json)>) -> Json {
    Json::Object(members.into_iter().map(|(k, v)| (k.to_string(), v)).collect())
}

#[test]
fn search_finds_matching_lines_up_to_the_limit() {
    let folders = vec![vec![
        ("a.txt".to_string(), Some("alpha\nbeta alpha\ngamma".to_string())),
        ("b.txt".to_string(), None),
        ("c.txt".to_string(), Some("alpha again".to_string())),
    ]];
    let out = search_files(&params(vec![("query", Json::Str("alpha".to_string()))]), &folders).unwrap();
    assert_eq!(out.content, "Found 3 matches for 'alpha'");
    let out = search_files(
        &params(vec![("query", Json::Str("alpha".to_string())), ("max_results", Json::UInt(2))]),
        &folders,
    )
    .unwrap();
    assert_eq!(out.content, "Found 2 matches for 'alpha'");
    assert!(search_files(&params(vec![]), &folders).is_err());
}

#[test]
fn files_are_found_in_attached_folders() {
    let mut manager = FilesystemManager::new();
    let agent = AgentId::new();
    let mut folder = AttachedFolder::new("docs".to_string(), "/tmp/docs".to_string());
    folder.files = vec!["notes.md".to_string()];
    let id = manager.add_folder(folder);
    manager.attach_folder(agent, id);
    let folders = manager.get_agent_folders(agent);
    assert_eq!(folders.len(), 1);
    assert!(manager.get_folder(id).is_some());
    let (path, index) = open_file_target(&params(vec![("file_path", Json::Str("notes.md".to_string()))]), &folders).unwrap();
    assert_eq!((path.as_str(), index), ("notes.md", 0));
    assert!(open_file_target(&params(vec![("file_path", Json::Str("missing.md".to_string()))]), &folders).is_err());
    let out = open_file_result("notes.md", Ok("hello".to_string())).unwrap();
    assert_eq!(out.content, "File: notes.md\n\nhello");
    assert!(open_file_result("notes.md", Err("denied".to_string())).is_err());
    assert_eq!(list_files(&folders).content, "Found 1 files across attached folders");
}

#[test]
fn search_stops_at_the_limit_across_folders() {
    let folders = vec![
        vec![("a.txt".to_string(), Some("alpha\nalpha".to_string()))],
        vec![("b.txt".to_string(), Some("alpha".to_string()))],
        vec![("c.txt".to_string(), Some("alpha".to_string()))],
    ];
    let out = search_files(
        &params(vec![("query", Json::Str("alpha".to_string())), ("max_results", Json::UInt(2))]),
        &folders,
    )
    .unwrap();
    assert_eq!(out.content, "Found 2 matches for 'alpha'");
    let none = search_files(
        &params(vec![("query", Json::Str("alpha".to_string())), ("max_results", Json::UInt(0))]),
        &folders,
    )
    .unwrap();
    assert_eq!(none.content, "Found 0 matches for 'alpha'");
}

#[test]
fn each_hit_names_its_file_line_and_trimmed_text() {
    let folders = vec![vec![("notes.md".to_string(), Some("intro\n   the needle here  \nend".to_string()))]];
    let out = search_files(&params(vec![("query", Json::Str("needle".to_string()))]), &folders).unwrap();
    let data = format!("{:?}", out.data);
    assert!(data.contains("\"notes.md\""));
    assert!(data.contains("UInt(2)"));
    assert!(data.contains("\"the needle here\""));
}
