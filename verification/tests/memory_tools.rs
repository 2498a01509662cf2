use spai::json::Json;
use spai::memory::{AgentMemory, MemoryBlock, MemoryConfig};
use spai::memory_tools::{blocks_previewable, list_memory_blocks, search_previewable, move_into_context, move_out_of_context, search_messages, update_memory};
use spai::types::AgentId;

fn params(members: &[(&str, &str)]) -> Json {
    Json::Object(
        members
            .iter()
            .map(|(k, v)| (k.to_string(), Json::Str(v.to_string())))
            .collect(),
    )
}

#[test]
fn update_memory_replaces_the_value() {
    let mut memory = AgentMemory::new(AgentId::new(), MemoryConfig::default());
    let id = memory.add_block(MemoryBlock::new("persona".to_string(), "old".to_string())).unwrap();
    let out = update_memory(&mut memory, &params(&[("block_id", &id.to_text()), ("new_value", "new")])).unwrap();
    assert!(out.success);
    assert_eq!(memory.get_block(id).unwrap().value, "new");
}

#[test]
fn update_memory_needs_both_parameters() {
    let mut memory = AgentMemory::new(AgentId::new(), MemoryConfig::default());
    assert!(update_memory(&mut memory, &params(&[("new_value", "x")])).is_err());
    assert!(update_memory(&mut memory, &params(&[("block_id", "not-a-uuid"), ("new_value", "x")])).is_err());
}

#[test]
fn context_tools_move_blocks() {
    let mut memory = AgentMemory::new(AgentId::new(), MemoryConfig::default());
    let id = memory.add_block(MemoryBlock::new("a".to_string(), "b".to_string())).unwrap();
    let p = params(&[("block_id", &id.to_text())]);
    assert!(move_out_of_context(&mut memory, &p).unwrap().success);
    assert_eq!(memory.in_context_blocks().len(), 0);
    assert!(move_into_context(&mut memory, &p).unwrap().success);
    assert_eq!(memory.in_context_blocks().len(), 1);
}

#[test]
fn listing_names_each_block() {
    let mut memory = AgentMemory::new(AgentId::new(), MemoryConfig::default());
    memory.add_block(MemoryBlock::new("persona".to_string(), "text".to_string())).unwrap();
    let out = list_memory_blocks(&memory);
    assert!(out.success);
    let data = out.data.unwrap().to_text();
    assert!(data.contains("\"label\":\"persona\""));
}

#[test]
fn message_search_tool_needs_a_query() {
    let mut memory = AgentMemory::new(AgentId::new(), MemoryConfig::default());
    memory.add_message("user".to_string(), "hello there".to_string());
    assert!(search_messages(&memory, &params(&[])).is_err());
    let out = search_messages(&memory, &params(&[("query", "hello")])).unwrap();
    assert!(out.success);
}

#[test]
fn previews_that_would_cut_a_char_are_detected() {
    let mut memory = AgentMemory::new(AgentId::new(), MemoryConfig::default());
    memory.add_block(MemoryBlock::new("plain".to_string(), "a".repeat(150))).unwrap();
    assert!(blocks_previewable(&memory));
    let split = format!("{}é{}", "a".repeat(99), "b".repeat(10));
    memory.add_block(MemoryBlock::new("split".to_string(), split)).unwrap();
    assert!(!blocks_previewable(&memory));

    memory.add_message("user".to_string(), format!("{}{}", "x".repeat(300), "needle"));
    assert!(search_previewable(&memory, "needle"));
    memory.add_message("user".to_string(), format!("{}é needle", "y".repeat(199)));
    assert!(!search_previewable(&memory, "needle"));
    assert!(search_previewable(&memory, "absent"));
}
