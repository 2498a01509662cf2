use spai::memory::{AgentMemory, MemoryBlock, MemoryConfig};
use spai::sleeptime::{perform_archival, plan_pass, SleepTimeAgent, SleepTimeConfig};
use spai::types::AgentId;

#[test]
fn test_archival() {
    let agent_id = AgentId::new();
    let mut memory = AgentMemory::new(agent_id, MemoryConfig::default());
    let mut block = MemoryBlock::new("test_old".to_string(), "old data".to_string());
    block.updated_at = chrono::Utc::now().timestamp_millis() - 2 * 60 * 60 * 1000;
    memory.add_block(block).unwrap();
    perform_archival(&mut memory);
    assert_eq!(memory.in_context_blocks().len(), 0);
    assert_eq!(memory.out_of_context_blocks().len(), 1);
}

#[test]
fn protected_and_fresh_blocks_stay_in_context() {
    let mut memory = AgentMemory::new(AgentId::new(), MemoryConfig::default());
    let mut persona = MemoryBlock::new("persona".to_string(), "me".to_string());
    persona.updated_at = 0;
    memory.add_block(persona).unwrap();
    memory.add_block(MemoryBlock::new("fresh".to_string(), "new".to_string())).unwrap();
    perform_archival(&mut memory);
    assert_eq!(memory.in_context_blocks().len(), 2);
}

#[test]
fn test_sleeptime_agent_start_stop() {
    let mut agent = SleepTimeAgent::new(AgentId::new(), SleepTimeConfig::default());
    agent.start().unwrap();
    assert!(agent.is_running());
    assert!(agent.start().is_err());
    agent.stop();
    assert!(!agent.is_running());
}

#[test]
fn passes_wait_for_enough_messages() {
    let config = SleepTimeConfig::default();
    assert_eq!(plan_pass(&config, 19, 10_000), (false, false, false, false));
    assert_eq!(plan_pass(&config, 20, 6_000), (true, false, true, true));
    assert_eq!(plan_pass(&config, 25, 6_001), (true, true, true, true));
}
