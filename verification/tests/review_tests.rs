use valence_kernel::diff::diff_calculator::DiffCalculator;
use valence_kernel::diff::instructions::DiffOperation;
use valence_kernel::diff::optimizer::{AtomicProcessor, BatchOptimizer};
use valence_kernel::error::{SessionFactoryError, ValenceError};
use valence_kernel::pubkey::Pubkey;
use valence_kernel::runtime::ClockReading;
use valence_kernel::scheduler::dependency_graph::DependencyGraph;
use valence_kernel::scheduler::partial_order_composer::ComposedPartialOrder;
use valence_kernel::scheduler::topological_scheduler::{SchedulingAlgorithm, TopologicalScheduler};
use valence_kernel::sessions::lifecycle::{
    manual_initialize_session, update_session_status, SessionEntry, SessionFactoryState, SessionState, SessionStatus,
};

fn key(b: u8) -> Pubkey {
    Pubkey::new_from_array([b; 32])
}

#[test]
fn refused_operation_rolls_the_batch_back() {
    let mut p = AtomicProcessor::new();
    let mut state = vec![9u8];
    let ops = vec![
        DiffOperation::Insert { position: 0, data: vec![1] },
        DiffOperation::Insert { position: 0, data: vec![] },
    ];
    assert_eq!(p.process_atomic_batch(&ops, &mut state).unwrap_err(), ValenceError::InvalidDiffOperation);
    assert_eq!(state, vec![9u8]);

    let misfit = vec![DiffOperation::Insert { position: 0, data: vec![1] }, DiffOperation::Delete { position: 5, length: 1 }];
    let r = p.process_atomic_batch(&misfit, &mut state).unwrap();
    assert!(!r.success);
    assert_eq!(r.error_at_index, Some(1));
    assert_eq!(state, vec![9u8]);

    let good = vec![DiffOperation::Insert { position: 1, data: vec![1, 2] }];
    let r = p.process_atomic_batch(&good, &mut state).unwrap();
    assert!(r.success);
    assert_eq!(state, vec![9u8, 1, 2]);
}

fn factory(authority: Pubkey) -> SessionFactoryState {
    SessionFactoryState { authority, total_sessions: 3, active_sessions: 1, version: 1, bump: 1, _reserved: [0; 32] }
}

fn entry(owner: Pubkey, status: SessionStatus) -> SessionEntry {
    SessionEntry {
        session_address: key(40),
        owner,
        eval_program: key(41),
        shard_address: key(42),
        session_id: "s1".to_string(),
        namespaces: vec![],
        status,
        optimistic_state: SessionState::Pending,
        created_at: 0,
        last_updated: 0,
        activated_at: None,
        optimistic_state_set_at: 0,
        bump: 1,
    }
}

#[test]
fn only_the_authority_changes_a_status() {
    let auth = key(1);
    let mut f = factory(auth);
    let mut e = entry(key(2), SessionStatus::Created);
    let clock = ClockReading { unix_timestamp: 50, slot: 7 };
    assert_eq!(update_session_status(&mut e, &mut f, SessionStatus::Active, key(3), clock).unwrap_err(), SessionFactoryError::NotAuthorized);
    assert_eq!(e.status, SessionStatus::Created);
    assert_eq!(f.active_sessions, 1);
    let ev = update_session_status(&mut e, &mut f, SessionStatus::Active, auth, clock).unwrap();
    assert!(ev.is_some());
    assert_eq!(e.status, SessionStatus::Active);
    assert_eq!(e.activated_at, Some(50));
    assert_eq!(f.active_sessions, 2);
    let ev = update_session_status(&mut e, &mut f, SessionStatus::Closed, auth, clock).unwrap();
    assert!(ev.is_none());
    assert_eq!(f.active_sessions, 1);
}

#[test]
fn only_the_owner_or_authority_initializes_by_hand() {
    let auth = key(1);
    let owner = key(2);
    let mut f = factory(auth);
    let mut e = entry(owner, SessionStatus::Created);
    assert_eq!(
        manual_initialize_session(&mut e, &mut f, "s1".to_string(), false, key(9), 10).unwrap_err(),
        SessionFactoryError::NotAuthorized
    );
    assert_eq!(e.status, SessionStatus::Created);
    assert_eq!(f.active_sessions, 1);
    let ev = manual_initialize_session(&mut e, &mut f, "s1".to_string(), true, owner, 10).unwrap();
    assert_eq!(ev.authority, owner);
    assert_eq!(e.status, SessionStatus::Active);
    assert_eq!(f.active_sessions, 2);
    assert_eq!(
        manual_initialize_session(&mut e, &mut f, "s1".to_string(), false, auth, 11).unwrap_err(),
        SessionFactoryError::SessionAlreadyActive
    );
}

#[test]
fn priority_schedule_keeps_dependencies_first() {
    let mut g = DependencyGraph::new();
    g.add_edge(&"B".to_string(), &"A".to_string());
    let order = ComposedPartialOrder {
        capabilities: vec!["A".to_string(), "B".to_string(), "C".to_string()],
        constraints: vec![],
        dependency_graph: g,
        priorities: vec![("A".to_string(), 10), ("B".to_string(), 200), ("C".to_string(), 50)],
        contributing_shards: vec![],
    };
    let s = TopologicalScheduler::build_schedule(order, SchedulingAlgorithm::PriorityBased, 0).unwrap();
    let batches: Vec<Vec<String>> = s.execution_batches.iter().map(|b| b.capabilities.clone()).collect();
    assert_eq!(batches, vec![vec!["C".to_string(), "A".to_string()], vec!["B".to_string()]]);
    assert!(s.metadata.is_optimal);
    assert_eq!(s.metadata.constraint_violations, 0);
    assert_eq!(s.execution_batches[0].priority, 50);
}

#[test]
fn one_change_diffs_round_trip() {
    for (a, b) in [(vec![1u8, 2], vec![3u8, 1, 2]), (vec![1, 2, 3], vec![1, 2]), (vec![4, 5], vec![4, 9, 9, 5]), (vec![7], vec![7])] {
        let ops = DiffCalculator::calculate_diff(&a, &b);
        let mut state = a.clone();
        DiffCalculator::apply_diff(&mut state, &ops).unwrap();
        assert_eq!(state, b);
    }
}

#[test]
fn merging_keeps_the_effect() {
    let batch = || {
        vec![
            DiffOperation::Insert { position: 1, data: vec![7] },
            DiffOperation::Insert { position: 2, data: vec![8] },
            DiffOperation::Delete { position: 0, length: 1 },
            DiffOperation::Delete { position: 0, length: 1 },
        ]
    };
    let ops = batch();
    let merged = BatchOptimizer::merge_adjacent_operations(batch());
    assert_eq!(merged.len(), 2);
    let mut a = vec![1u8, 2, 3];
    let mut b = a.clone();
    DiffCalculator::apply_diff(&mut a, &ops).unwrap();
    DiffCalculator::apply_diff(&mut b, &merged).unwrap();
    assert_eq!(a, b);
}
