use spai::background::RunId;
use spai::filesystem::FolderId;
use spai::memory::MemoryBlockId;
use spai::types::AgentId;

fn is_v4(id: u128) -> bool {
    id & 0xF000_C000_0000_0000_0000u128 == 0x4000_8000_0000_0000_0000u128
}

#[test]
fn fresh_ids_are_version_4_uuids() {
    assert!(is_v4(RunId::new().0));
    assert!(is_v4(FolderId::new().0));
    assert!(is_v4(MemoryBlockId::new().0));
    assert!(is_v4(AgentId::new().0));
    assert!(RunId::new().to_text().chars().nth(14) == Some('4'));
}

#[test]
fn uuid_text_is_grouped_lower_hex() {
    let t = AgentId(0x0123_4567_89ab_cdef_0123_4567_89ab_cdefu128).to_text();
    assert_eq!(t, "01234567-89ab-cdef-0123-456789abcdef");
}
