use spai::memory::{AgentMemory, MemoryBlock, MemoryConfig, SharedMemoryManager};
use spai::types::AgentId;

#[test]
fn test_memory_block_creation() {
    let block = MemoryBlock::new("persona".to_string(), "I am a helpful assistant".to_string());
    assert_eq!(block.label, "persona");
    assert_eq!(block.value, "I am a helpful assistant");
    assert!(block.in_context);
}

#[test]
fn test_memory_block_update() {
    let mut block = MemoryBlock::new("test".to_string(), "original".to_string());
    block.update_value("updated".to_string()).unwrap();
    assert_eq!(block.value, "updated");
}

#[test]
fn test_agent_memory_basics() {
    let mut memory = AgentMemory::new(AgentId::new(), MemoryConfig::default());
    let block = MemoryBlock::new("persona".to_string(), "I am an agent".to_string());
    let id = memory.add_block(block).unwrap();
    let retrieved = memory.get_block(id).unwrap();
    assert_eq!(retrieved.label, "persona");
}

#[test]
fn test_context_management() {
    let mut memory = AgentMemory::new(AgentId::new(), MemoryConfig::default());
    let block = MemoryBlock::new("test".to_string(), "content".to_string());
    let id = memory.add_block(block).unwrap();
    assert_eq!(memory.in_context_blocks().len(), 1);
    memory.move_out_of_context(id).unwrap();
    assert_eq!(memory.in_context_blocks().len(), 0);
    assert_eq!(memory.out_of_context_blocks().len(), 1);
}

#[test]
fn test_shared_memory() {
    let mut shared_manager = SharedMemoryManager::new();
    let block_id = shared_manager.create_block(
        "organization".to_string(),
        "Shared org info".to_string(),
        "Acme Corp".to_string(),
    );
    let mut agent1_memory = AgentMemory::new(AgentId::new(), MemoryConfig::default());
    let mut agent2_memory = AgentMemory::new(AgentId::new(), MemoryConfig::default());
    agent1_memory.attach_shared_block(block_id);
    agent2_memory.attach_shared_block(block_id);
    let block = shared_manager.get_block(block_id).unwrap();
    assert_eq!(block.value, "Acme Corp");
}

#[test]
fn update_then_read_gives_new_value() {
    let mut memory = AgentMemory::new(AgentId::new(), MemoryConfig::default());
    let id = memory.add_block(MemoryBlock::new("notes".to_string(), "a".to_string())).unwrap();
    memory.update_block(id, "b".to_string()).unwrap();
    assert_eq!(memory.get_block(id).unwrap().value, "b");
}

#[test]
fn deleted_block_is_gone() {
    let mut memory = AgentMemory::new(AgentId::new(), MemoryConfig::default());
    let id = memory.add_block(MemoryBlock::new("x".to_string(), "y".to_string())).unwrap();
    memory.delete_block(id).unwrap();
    assert!(memory.get_block(id).is_none());
    assert!(memory.delete_block(id).is_err());
}

#[test]
fn moving_unknown_block_fails() {
    let mut memory = AgentMemory::new(AgentId::new(), MemoryConfig::default());
    let other = MemoryBlock::new("z".to_string(), "w".to_string());
    assert!(memory.move_out_of_context(other.id).is_err());
    assert!(memory.move_into_context(other.id).is_err());
}

#[test]
fn context_partition_counts_every_block() {
    let mut memory = AgentMemory::new(AgentId::new(), MemoryConfig::default());
    let a = memory.add_block(MemoryBlock::new("a".to_string(), "1".to_string())).unwrap();
    memory.add_block(MemoryBlock::new("b".to_string(), "2".to_string())).unwrap();
    memory.move_out_of_context(a).unwrap();
    let total = memory.in_context_blocks().len() + memory.out_of_context_blocks().len();
    assert_eq!(total, 2);
    memory.move_into_context(a).unwrap();
    assert_eq!(memory.in_context_blocks().len(), 2);
}

#[test]
fn recent_messages_are_the_last_ones() {
    let mut memory = AgentMemory::new(AgentId::new(), MemoryConfig::default());
    memory.add_message("user".to_string(), "one".to_string());
    memory.add_message("assistant".to_string(), "two".to_string());
    memory.add_message("user".to_string(), "three".to_string());
    let recent = memory.get_recent_messages(2);
    assert_eq!(recent.len(), 2);
    assert_eq!(recent[0].content, "two");
    assert_eq!(recent[1].content, "three");
}

#[test]
fn message_search_finds_substrings() {
    let mut memory = AgentMemory::new(AgentId::new(), MemoryConfig::default());
    memory.add_message("user".to_string(), "the weather is fine".to_string());
    memory.add_message("user".to_string(), "nothing here".to_string());
    let found = memory.search_messages("weather");
    assert_eq!(found.len(), 1);
    assert_eq!(found[0].content, "the weather is fine");
}

#[test]
fn block_size_counts_characters() {
    let block = MemoryBlock::new("l".to_string(), "é".to_string());
    assert_eq!(block.size(), 1);
    let mut limited = MemoryBlock::new("l".to_string(), String::new());
    limited.max_size = Some(2);
    assert!(limited.update_value("éé".to_string()).is_ok());
    assert!(limited.update_value("ééé".to_string()).is_err());
}
