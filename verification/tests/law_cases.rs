use valence_kernel::capabilities::instructions::{NamespaceCapability, ObjectId};
use valence_kernel::diff::diff_calculator::DiffCalculator;
use valence_kernel::diff::instructions::DiffOperation;
use valence_kernel::diff::optimizer::BatchOptimizer;
use valence_kernel::error::{ProgramFailure, ValenceError};
use valence_kernel::functions::execution::{
    AggregationMode, AggregationRecord, FunctionCompositionState, FunctionStep, InputTransformation, OutputTransformation, StepConfig,
};
use valence_kernel::functions::instructions::{
    create_function_aggregation_at, execute_function_aggregation, execute_function_aggregation_at, FunctionInput,
};
use valence_kernel::pubkey::Pubkey;
use valence_kernel::runtime::ClockReading;
use valence_kernel::sessions::lifecycle::{
    close_session, update_session_status, SessionEntry, SessionFactoryState, SessionState, SessionStatus,
};

fn key(b: u8) -> Pubkey {
    Pubkey::new_from_array([b; 32])
}

fn positional(ops: &[DiffOperation]) -> Vec<(char, u64, Vec<u8>, u64)> {
    ops.iter()
        .map(|op| match op {
            DiffOperation::Insert { position, data } => ('i', *position, data.clone(), 0),
            DiffOperation::Delete { position, length } => ('d', *position, vec![], *length),
            DiffOperation::Replace { position, data } => ('r', *position, data.clone(), 0),
            _ => ('k', 0, vec![], 0),
        })
        .collect()
}

fn batch() -> Vec<DiffOperation> {
    vec![
        DiffOperation::Insert { position: 0, data: vec![1] },
        DiffOperation::Insert { position: 1, data: vec![2, 3] },
        DiffOperation::Insert { position: 5, data: vec![4] },
        DiffOperation::Delete { position: 2, length: 1 },
        DiffOperation::Delete { position: 2, length: 2 },
        DiffOperation::Delete { position: 1, length: 1 },
    ]
}

#[test]
fn merged_batch_leaves_nothing_to_merge() {
    let merged = BatchOptimizer::merge_adjacent_operations(batch());
    let expected = vec![
        ('i', 0, vec![1u8, 2, 3], 0),
        ('i', 5, vec![4], 0),
        ('d', 2, vec![], 3),
        ('d', 1, vec![], 1),
    ];
    assert_eq!(positional(&merged), expected);
    let mut a = vec![10u8, 11, 12, 13, 14];
    let mut b = a.clone();
    DiffCalculator::apply_diff(&mut a, &batch()).unwrap();
    DiffCalculator::apply_diff(&mut b, &merged).unwrap();
    assert_eq!(a, b);
    let again = BatchOptimizer::merge_adjacent_operations(merged);
    assert_eq!(positional(&again), expected);
}

#[test]
fn a_state_differs_from_itself_in_nothing() {
    for s in [vec![], vec![1u8], vec![3u8, 1, 4, 1, 5]] {
        assert!(DiffCalculator::calculate_diff(&s, &s).is_empty());
    }
}

fn entry(status: SessionStatus) -> SessionEntry {
    SessionEntry {
        session_address: key(40),
        owner: key(2),
        eval_program: key(41),
        shard_address: key(42),
        session_id: "s".to_string(),
        namespaces: vec![],
        status,
        optimistic_state: SessionState::Pending,
        created_at: 0,
        last_updated: 0,
        activated_at: None,
        optimistic_state_set_at: 0,
        bump: 1,
    }
}

#[test]
fn active_count_follows_the_entries() {
    let auth = key(1);
    let mut entries = vec![entry(SessionStatus::Active), entry(SessionStatus::Created), entry(SessionStatus::Created)];
    let mut f = SessionFactoryState { authority: auth, total_sessions: 3, active_sessions: 1, version: 1, bump: 1, _reserved: [0; 32] };
    let clock = ClockReading { unix_timestamp: 77, slot: 3 };
    let count = |es: &Vec<SessionEntry>| es.iter().filter(|e| e.status == SessionStatus::Active).count() as u64;
    for (i, s) in [(1usize, SessionStatus::Active), (2, SessionStatus::Active), (0, SessionStatus::Requested), (1, SessionStatus::Active)] {
        update_session_status(&mut entries[i], &mut f, s, auth, clock).unwrap();
        assert_eq!(f.active_sessions, count(&entries));
    }
    assert_eq!(entries[1].activated_at, Some(77));
    close_session(&entries[2], &mut f, auth).unwrap();
    entries[2].status = SessionStatus::Closed;
    assert_eq!(f.active_sessions, count(&entries));
}

fn object(b: u8) -> ObjectId {
    ObjectId { id: [b; 32], object_type: "t".to_string() }
}

#[test]
fn sub_capability_limits_and_integrity() {
    let cap = NamespaceCapability::new("ns".to_string(), vec![object(1), object(2), object(3)], vec!["t".to_string()], 5);
    let sub = cap.create_sub_capability("sub".to_string(), vec![object(1), object(3)]).unwrap();
    assert_eq!(sub.namespace_id, "sub");
    assert_eq!(sub.accessible_objects, vec![object(1), object(3)]);
    assert_eq!(sub.allowed_object_types, vec!["t".to_string()]);
    assert_eq!(sub.max_objects_per_call, 2);
    assert!(sub.verify_integrity());
    let tight = NamespaceCapability::new("ns".to_string(), vec![object(1), object(2)], vec![], 1);
    assert_eq!(tight.create_sub_capability("s".to_string(), vec![object(1), object(2)]).unwrap().max_objects_per_call, 1);
    assert_eq!(
        cap.create_sub_capability("sub".to_string(), vec![object(1), object(9)]).unwrap_err(),
        ValenceError::NamespaceObjectNotInNamespace
    );
}

fn step(hash: &str) -> FunctionStep {
    FunctionStep {
        function_hash: hash.to_string(),
        input_transformation: InputTransformation::PassThrough,
        output_transformation: OutputTransformation::PassThrough,
        dependencies: vec![],
        condition: None,
        config: StepConfig { max_execution_time_us: 1, max_memory_bytes: 1, retry_attempts: 0, continue_on_failure: false },
    }
}

fn blank_record() -> AggregationRecord {
    AggregationRecord {
        aggregation_id: String::new(),
        input_functions: vec![],
        aggregation_function: step("none"),
        aggregation_mode: AggregationMode::Merge,
        created_at: 0,
        last_executed: 0,
        execution_count: 0,
        is_active: false,
        bump: 0,
    }
}

fn composition() -> FunctionCompositionState {
    FunctionCompositionState {
        authority: key(1),
        total_compositions: 4,
        total_chains: 2,
        total_aggregations: 2,
        version: 1,
        bump: 1,
        _reserved: [0; 64],
    }
}

#[test]
fn aggregation_created_then_run() {
    let mut state = composition();
    let mut agg = blank_record();
    assert_eq!(
        create_function_aggregation_at(&mut state, &mut agg, String::new(), vec![step("a")], step("f"), AggregationMode::Vote, 3, 10),
        Err(ValenceError::FunctionEmptyAggregationId)
    );
    assert_eq!(
        create_function_aggregation_at(&mut state, &mut agg, "x".repeat(65), vec![step("a")], step("f"), AggregationMode::Vote, 3, 10),
        Err(ValenceError::FunctionAggregationIdTooLong)
    );
    assert_eq!(
        create_function_aggregation_at(&mut state, &mut agg, "agg".to_string(), vec![], step("f"), AggregationMode::Vote, 3, 10),
        Err(ValenceError::FunctionEmptyInputFunctions)
    );
    let many: Vec<FunctionStep> = (0..21).map(|i| step(&i.to_string())).collect();
    assert_eq!(
        create_function_aggregation_at(&mut state, &mut agg, "agg".to_string(), many, step("f"), AggregationMode::Vote, 3, 10),
        Err(ValenceError::FunctionTooManyInputFunctions)
    );
    assert_eq!(state.total_aggregations, 2);
    assert!(!agg.is_active);

    let mut inactive = blank_record();
    let inputs = vec![FunctionInput::new(vec![1], "1".to_string())];
    assert!(matches!(
        execute_function_aggregation_at(&mut inactive, &vec![], 5),
        Err(ValenceError::FunctionAggregationInactive)
    ));

    create_function_aggregation_at(&mut state, &mut agg, "agg".to_string(), vec![step("a"), step("b")], step("f"), AggregationMode::Vote, 3, 10)
        .unwrap();
    assert!(agg.is_active);
    assert_eq!(agg.created_at, 10);
    assert_eq!(agg.bump, 3);
    assert_eq!((state.total_compositions, state.total_aggregations, state.total_chains), (5, 3, 2));

    let res = execute_function_aggregation_at(&mut agg, &inputs, 99).unwrap();
    assert!(res.success);
    assert_eq!(res.input_results.len(), 1);
    assert_eq!(res.input_results[0].function_hash, "a");
    assert_eq!(res.input_results[0].input_index, 0);
    assert_eq!(res.input_results[0].execution_time_us, 1000);
    assert_eq!(res.aggregated_output.version, "1.0.0");
    assert_eq!(res.execution_time_us, 1000);
    assert_eq!(agg.execution_count, 1);
    assert_eq!(agg.last_executed, 99);

    let off_chain = execute_function_aggregation(&mut agg, &inputs);
    assert!(matches!(off_chain, Err(ProgramFailure::Framework(_))));
    assert_eq!(agg.execution_count, 1);
}
