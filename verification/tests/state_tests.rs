use anchor_lang::AnchorSerialize;
use valence_kernel::pubkey::Pubkey;
use valence_kernel::state::{
    get_library_pda, get_zk_program_pda, get_dependency_pda, LibraryEntry, LibraryStatus, RegistryState, VersionCompatibility,
    ProgramState, ZkProgramEntry, DependencyEntry, RegistryEntryBase, LifecycleManaged,
};
use valence_kernel::error::FrameworkError;

fn unique_key() -> Pubkey {
    Pubkey::new_from_array(anchor_lang::prelude::Pubkey::new_unique().to_bytes())
}

fn serialized_len(state: &RegistryState) -> usize {
    let base = &state.base;
    let head = (base.program_id.bytes, base.authority.bytes, base.version, base.is_paused, base.bump, base.created_at, base.last_updated)
        .try_to_vec()
        .unwrap();
    let tail = (state.total_libraries, state.total_zk_programs, state.total_dependencies, state.registry_version, state._reserved)
        .try_to_vec()
        .unwrap();
    head.len() + tail.len()
}

#[test]
fn test_registry_state_size() {
    let state = RegistryState::new(unique_key(), unique_key(), 255);
    let serialized = serialized_len(&state);
    assert!(serialized <= RegistryState::SIZE, "Serialized size {} exceeds RegistryState::SIZE {}", serialized, RegistryState::SIZE);
    assert!(state.is_operational());
}

#[test]
fn test_library_space_calculation() {
    let library_id = "test_library_v1".to_string();
    let name = "Test Library".to_string();
    let version = "1.0.0".to_string();
    let space = LibraryEntry::get_space(&library_id, &name, &version, 2, 3);
    assert!(space > 200);
    assert!(space < 5000);
}

#[test]
fn test_version_compatibility() {
    let compat = VersionCompatibility::new("1.0.0".to_string(), "2.0.0".to_string(), false);
    assert!(compat.is_compatible(&"1.5.0".to_string()));
    assert!(compat.is_compatible(&"1.0.0".to_string()));
    assert!(compat.is_compatible(&"2.0.0".to_string()));
    assert!(!compat.is_compatible(&"0.9.0".to_string()));
    assert!(!compat.is_compatible(&"2.1.0".to_string()));
}

#[test]
fn test_pda_generation() {
    let registry = unique_key();
    let library_id = "test_library".to_string();
    let program_id = unique_key();
    let (pda1, bump1) = get_library_pda(&registry, &library_id, &program_id);
    let (pda2, bump2) = get_library_pda(&registry, &library_id, &program_id);
    assert_eq!(pda1, pda2);
    assert_eq!(bump1, bump2);
    let zk_program_id = "test_zk_program".to_string();
    let (pda3, bump3) = get_zk_program_pda(&registry, &zk_program_id, &program_id);
    let (pda4, bump4) = get_zk_program_pda(&registry, &zk_program_id, &program_id);
    assert_eq!(pda3, pda4);
    assert_eq!(bump3, bump4);
}

#[test]
fn test_library_status_transitions() {
    let mut status = LibraryStatus::Draft;
    assert_eq!(status, LibraryStatus::Draft);
    status = LibraryStatus::Published;
    assert_eq!(status, LibraryStatus::Published);
    status = LibraryStatus::Deprecated;
    assert_eq!(status, LibraryStatus::Deprecated);
    status = LibraryStatus::Archived;
    assert_eq!(status, LibraryStatus::Archived);
}

#[test]
fn library_pda_matches_the_runtime_derivation() {
    let registry = unique_key();
    let program_id = unique_key();
    let (pda, bump) = get_library_pda(&registry, &"lib".to_string(), &program_id);
    let (expected, expected_bump) = anchor_lang::prelude::Pubkey::find_program_address(
        &[b"library", &registry.bytes, b"lib"],
        &anchor_lang::prelude::Pubkey::new_from_array(program_id.bytes),
    );
    assert_eq!(pda.bytes, expected.to_bytes());
    assert_eq!(bump, expected_bump);
    assert_ne!(pda.bytes, registry.bytes);
}

#[test]
fn dependency_pda_uses_joined_ids() {
    let registry = unique_key();
    let program_id = unique_key();
    let (pda, _) = get_dependency_pda(&registry, &"a".to_string(), &"b".to_string(), &program_id);
    let (expected, _) = anchor_lang::prelude::Pubkey::find_program_address(
        &[b"dependency", &registry.bytes, b"a::b"],
        &anchor_lang::prelude::Pubkey::new_from_array(program_id.bytes),
    );
    assert_eq!(pda.bytes, expected.to_bytes());
}

#[test]
fn zk_program_pda_differs_from_library_pda() {
    let registry = unique_key();
    let program_id = unique_key();
    let (a, _) = get_library_pda(&registry, &"x".to_string(), &program_id);
    let (b, _) = get_zk_program_pda(&registry, &"x".to_string(), &program_id);
    assert_ne!(a, b);
}

#[test]
fn registry_space_sums() {
    assert_eq!(ProgramState::SIZE, 83);
    assert_eq!(RegistryState::SIZE, 149);
    assert_eq!(RegistryEntryBase::get_space(10), 63);
    let space = LibraryEntry::get_space(&"test_library_v1".to_string(), &"Test Library".to_string(), &"1.0.0".to_string(), 2, 3);
    assert_eq!(space, 8 + (4 + 15 + 49) + 32 + 4 + 12 + 4 + 5 + 32 + 32 + 32 + 1 + 4 + 64 + 4 + 48 + 8 + 8);
    assert_eq!(ZkProgramEntry::get_space(&"zk".to_string(), &"n".to_string(), &"1".to_string()), 8 + 55 + 32 + 5 + 5 + 32 + 64 + 32 + 1 + 24);
    assert_eq!(DependencyEntry::get_space(&"d".to_string(), &"a".to_string(), &"bb".to_string(), &"^1".to_string()), 8 + 54 + 5 + 6 + 6 + 9);
}

#[test]
fn version_bounds_are_lexicographic() {
    let compat = VersionCompatibility::new("1.0.0".to_string(), "2.0.0".to_string(), true);
    assert!(compat.is_compatible(&"10.0.0".to_string()));
    assert!(!compat.is_compatible(&"9.0.0".to_string()));
}

#[test]
fn program_state_lifecycle() {
    let mut state = RegistryState::new(unique_key(), unique_key(), 7);
    assert_eq!(state.version(), 1);
    assert_eq!(state.bump(), 7);
    assert!(state.validate_state().is_ok());
    state.close().unwrap();
    assert!(state.base.is_paused);
    assert!(!state.is_operational());
    let auth = unique_key();
    state.initialize(auth).unwrap();
    assert!(!state.base.is_paused);
    assert_eq!(state.base.authority, auth);
    state.base.version = 0;
    assert_eq!(state.validate_state(), Err(FrameworkError::AccountNotInitialized));
    state.base.version = 1;
    state.registry_version = 0;
    assert_eq!(state.validate_state(), Err(FrameworkError::AccountNotInitialized));
}

#[test]
fn usage_is_counted_at_the_given_time() {
    let mut entry = LibraryEntry {
        base: RegistryEntryBase::new("lib".to_string(), unique_key(), 1),
        registry: unique_key(),
        name: "n".to_string(),
        version: "1".to_string(),
        author: unique_key(),
        metadata_hash: [0u8; 32],
        program_id: unique_key(),
        status: LibraryStatus::Published,
        dependencies: vec![],
        tags: vec![],
        is_verified: false,
        usage_count: u64::MAX - 1,
    };
    entry.record_usage_at(42);
    assert_eq!(entry.usage_count, u64::MAX);
    assert_eq!(entry.base.last_updated, 42);
    entry.record_usage_at(43);
    assert_eq!(entry.usage_count, u64::MAX);
    assert_eq!(entry.record_usage(), Err(FrameworkError::UnsupportedSysvar));
}
