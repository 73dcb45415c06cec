use anchor_lang::AnchorSerialize;
use valence_kernel::config::DefaultVerificationRegistry;
use valence_kernel::diff::instructions::{DiffBatch, DiffOperation};
use valence_kernel::diff::optimizer::PerformanceOptimizer;
use valence_kernel::error::{FrameworkError, FunctionError, ValenceError};
use valence_kernel::events::handlers::{
    CapabilityEventHandler, RegistryEventHandler, SingletonEventHandler, SystemEventHandler, VerificationEventHandler,
};
use valence_kernel::events::EventType;
use valence_kernel::functions::execution::AggregationMode;
use valence_kernel::functions::instructions::{AggregationInputResult, FunctionOutput};
use valence_kernel::functions::registry::{
    checked_execution_time_ms, checked_memory_bytes, strategy_for_mode, AggregationExecutor, StrategyKind,
};
use valence_kernel::functions::types::{EvalContext, FunctionInput, TransactionFees};
use valence_kernel::functions::verification::{parse_decimal_u64, SystemAuthVerifier, VerificationFunctionTrait};
use valence_kernel::processor::execution_engine::{ExecutionContext, ExecutionEngine};
use valence_kernel::processor::instructions::{pause, process_capability, resume};
use valence_kernel::processor::state::ProcessorState;
use valence_kernel::processor::verification_orchestrator::VerificationOrchestrator;
use valence_kernel::pubkey::Pubkey;
use valence_kernel::scheduler::queue_manager::{QueueItemStatus, QueueManager};
use valence_kernel::scheduler::session_queue::{OperationType, PendingOperation, SessionOperationQueue};
use valence_kernel::sessions::instructions::{retrieve_data_at, store_data_at};
use valence_kernel::sessions::state::{SessionData, SessionMetadata, SessionState};
use valence_kernel::text::push_decimal;

fn key(b: u8) -> Pubkey {
    Pubkey::new_from_array([b; 32])
}

fn context(session: Option<Pubkey>, caller: Pubkey, input: Vec<u8>) -> ExecutionContext {
    ExecutionContext {
        capability_id: "cap".to_string(),
        session_id: String::new(),
        session,
        caller,
        timestamp: 0,
        block_height: 0,
        compute_limit: None,
        input_data: input,
    }
}

#[test]
fn decimal_text_reads_back() {
    for n in [0u64, 7, 10, 12345, u64::MAX] {
        let mut s = String::new();
        push_decimal(&mut s, n);
        assert_eq!(s, n.to_string());
        assert_eq!(parse_decimal_u64(&s), Some(n));
    }
    assert_eq!(parse_decimal_u64(&"+42".to_string()), Some(42));
    assert_eq!(parse_decimal_u64(&"".to_string()), None);
    assert_eq!(parse_decimal_u64(&"+".to_string()), None);
    assert_eq!(parse_decimal_u64(&"4a".to_string()), None);
    assert_eq!(parse_decimal_u64(&"18446744073709551616".to_string()), None);
}

#[test]
fn verification_chain_verifies_a_prefix() {
    let caller = key(9);
    let ctx = context(None, caller, vec![]);
    // the first passes (caller set), the second needs a session and fails
    let fns = vec![[0x10u8; 32], [0x50u8; 32], [0xD0u8; 32]];
    let r = VerificationOrchestrator::run_verification_chain(&fns, &ctx).unwrap();
    assert!(!r.success);
    assert_eq!(r.verified_functions, vec![[0x10u8; 32]]);
    assert_eq!(r.details, vec!["Verification 1 passed".to_string(), "Verification 2 failed".to_string()]);

    let ctx = context(Some(key(3)), caller, vec![]);
    let r = VerificationOrchestrator::run_verification_chain(&fns, &ctx).unwrap();
    assert!(r.success);
    assert_eq!(r.verified_functions, fns);

    let r = VerificationOrchestrator::run_verification_chain(&vec![], &ctx).unwrap();
    assert!(r.success);
    assert_eq!(r.details, vec!["No verification functions required".to_string()]);

    let zero = vec![[0x10u8; 32], [0u8; 32]];
    assert_eq!(VerificationOrchestrator::run_verification_chain(&zero, &ctx).unwrap_err(), ValenceError::ExecutionFailed);
}

#[test]
fn performance_optimization_never_merges_after_dedup() {
    let mut batch = DiffBatch::new(key(1), key(2));
    batch.add_operation(DiffOperation::Update { key: "a".to_string(), old_value: vec![1], new_value: vec![2] });
    batch.add_operation(DiffOperation::Update { key: "a".to_string(), old_value: vec![2], new_value: vec![3] });
    batch.add_operation(DiffOperation::Insert { position: 5, data: vec![] });
    batch.add_operation(DiffOperation::Add { key: "b".to_string(), value: vec![7] });
    let stats = PerformanceOptimizer::optimize_batch(&mut batch).unwrap();
    assert_eq!(stats.initial_operation_count, 4);
    assert_eq!(stats.duplicates_removed, 1);
    assert_eq!(stats.updates_merged, 0);
    assert_eq!(stats.noops_removed, 1);
    assert_eq!(stats.final_operation_count, 2);
    assert!(batch.operations.len() <= 4);
    match &batch.operations[0] {
        DiffOperation::Update { key, old_value, new_value } => {
            assert_eq!(key, "a");
            assert_eq!(old_value, &vec![1u8]);
            assert_eq!(new_value, &vec![2u8]);
        }
        _ => panic!("expected the first update"),
    }
}

fn pending(priority: u8, queued_at: i64, deadline: i64) -> PendingOperation {
    PendingOperation {
        operation_type: OperationType::SessionInit,
        target_account: key(priority),
        params: vec![],
        queued_by: key(1),
        queued_at,
        deadline,
        priority,
    }
}

#[test]
fn batch_processing_accounts_for_every_operation() {
    let mut queue = SessionOperationQueue {
        authority: key(1),
        pending_operations: vec![pending(1, 1, 100), pending(5, 2, 5), pending(3, 3, 100), pending(4, 4, 100)],
        max_queue_size: 10,
        total_processed: 0,
        total_failed: 0,
        created_at: 0,
        last_processed_at: 0,
        bump: 1,
    };
    let processed = valence_kernel::scheduler::session_queue::QueueManager::process_batch_at(&mut queue, 2, 50);
    // priority 5 expired (deadline 5 < 50) and is dropped; 4 and 3 are taken
    assert_eq!(processed.iter().map(|o| o.priority).collect::<Vec<_>>(), vec![4, 3]);
    assert_eq!(queue.total_failed, 1);
    assert_eq!(queue.total_processed, 2);
    assert_eq!(queue.pending_operations.len(), 1);
    assert_eq!(queue.pending_operations[0].priority, 1);
    assert_eq!(processed.len() + queue.total_failed as usize + queue.pending_operations.len(), 4);
    assert_eq!(queue.last_processed_at, 50);
}

#[test]
fn session_queue_refuses_when_full() {
    let mut queue = SessionOperationQueue {
        authority: key(1),
        pending_operations: vec![pending(1, 1, 100)],
        max_queue_size: 1,
        total_processed: 0,
        total_failed: 0,
        created_at: 0,
        last_processed_at: 0,
        bump: 1,
    };
    let r = valence_kernel::scheduler::session_queue::QueueManager::enqueue_operation(&mut queue, pending(2, 2, 100));
    assert_eq!(r, Err(ValenceError::QueueFull));
    assert_eq!(queue.pending_operations.len(), 1);
}

#[test]
fn dequeued_item_leaves_processing_once_completed() {
    let mut qm = QueueManager::new();
    assert!(qm.dequeue_next().unwrap().is_none());
    let caps = vec!["c1".to_string(), "c2".to_string()];
    qm.enqueue_capabilities_at(key(4), &caps, 2, 10).unwrap();
    let status = qm.get_queue_status();
    assert_eq!(status.total_items, 2);
    let item = qm.dequeue_next().unwrap().unwrap();
    assert_eq!(item.capability_id, "c1");
    assert_eq!(item.status, QueueItemStatus::Processing);
    assert_eq!(qm.get_queue_status().processing_items, 1);
    qm.mark_completed(&item.capability_id).unwrap();
    assert_eq!(qm.get_queue_status().processing_items, 0);
    assert_eq!(qm.get_queue_status().total_items, 1);
}

#[test]
fn high_priority_items_come_first() {
    let mut qm = QueueManager::new();
    qm.enqueue_capabilities_at(key(4), &vec!["low".to_string()], 1, 10).unwrap();
    qm.enqueue_capabilities_at(key(5), &vec!["high".to_string()], 9, 11).unwrap();
    let item = qm.dequeue_next().unwrap().unwrap();
    assert_eq!(item.capability_id, "high");
}

#[test]
fn failed_item_returns_one_priority_lower() {
    let mut qm = QueueManager::new();
    qm.enqueue_capabilities_at(key(4), &vec!["c".to_string()], 3, 10).unwrap();
    let item = qm.dequeue_next().unwrap().unwrap();
    qm.mark_failed(&item.capability_id).unwrap();
    let status = qm.get_queue_status();
    assert_eq!(status.processing_items, 0);
    assert_eq!(status.failed_items, 1);
    let again = qm.dequeue_next().unwrap().unwrap();
    assert_eq!(again.priority, 2);
}

#[test]
fn registry_activation_round_trip() {
    let mut reg = DefaultVerificationRegistry::new(key(1));
    assert!(reg.is_verification_active(&"basic_permission".to_string()));
    reg.remove_verification(&"basic_permission".to_string()).unwrap();
    assert!(!reg.is_verification_active(&"basic_permission".to_string()));
    assert!(reg.is_verification_active(&"system_auth".to_string()));
    reg.add_verification("custom".to_string()).unwrap();
    reg.add_verification("custom".to_string()).unwrap();
    assert!(reg.is_verification_active(&"custom".to_string()));
    assert_eq!(reg.active_verifications.iter().filter(|v| v.as_str() == "custom").count(), 1);
    reg.settings.max_verifications = 1;
    assert_eq!(reg.add_verification("more".to_string()), Err(FrameworkError::AccountNotEnoughKeys));
}

fn session(eval: Pubkey, active: bool) -> SessionState {
    SessionState {
        owner: key(1),
        eval_program: eval,
        session_id: "s1".to_string(),
        namespaces: vec![],
        is_active: active,
        metadata: SessionMetadata::default(),
        total_executions: 0,
        created_at: 0,
        last_activity: 0,
        bump: 1,
    }
}

fn empty_data() -> SessionData {
    SessionData { session: key(0), key: String::new(), value: vec![], created_at: 0, last_updated: 0, bump: 0 }
}

#[test]
fn stored_data_reads_back() {
    let eval = key(7);
    let s = session(eval, true);
    let mut data = empty_data();
    let ev = store_data_at(&s, key(3), &mut data, eval, "k".to_string(), vec![1, 2, 3], 4, 100).unwrap();
    assert_eq!(ev.value_size, 3);
    let read = retrieve_data_at(&s, key(3), &data, "k".to_string(), 101).unwrap();
    assert_eq!(read.value_size, 3);
    assert_eq!(read.timestamp, 101);
    assert_eq!(retrieve_data_at(&s, key(3), &data, "other".to_string(), 101).unwrap_err(), ValenceError::SessionDataNotFound);
    assert_eq!(retrieve_data_at(&s, key(8), &data, "k".to_string(), 101).unwrap_err(), ValenceError::SessionDataNotFound);
}

#[test]
fn store_refusals() {
    let eval = key(7);
    let mut data = empty_data();
    let s = session(eval, true);
    assert_eq!(store_data_at(&s, key(3), &mut data, key(6), "k".to_string(), vec![], 0, 0).unwrap_err(), ValenceError::SessionUnauthorizedCaller);
    assert_eq!(store_data_at(&session(eval, false), key(3), &mut data, eval, "k".to_string(), vec![], 0, 0).unwrap_err(), ValenceError::SessionNotActive);
    assert_eq!(store_data_at(&s, key(3), &mut data, eval, String::new(), vec![], 0, 0).unwrap_err(), ValenceError::SessionDataKeyTooLong);
    assert_eq!(store_data_at(&s, key(3), &mut data, eval, "k".repeat(65), vec![], 0, 0).unwrap_err(), ValenceError::SessionDataKeyTooLong);
    assert_eq!(store_data_at(&s, key(3), &mut data, eval, "k".to_string(), vec![0; 1025], 0, 0).unwrap_err(), ValenceError::SessionDataValueTooLarge);
    assert_eq!(data.key, "");
    assert_eq!(retrieve_data_at(&session(eval, false), key(0), &data, String::new(), 0).unwrap_err(), ValenceError::SessionNotActive);
}

#[test]
fn pause_and_resume_round_trip() {
    let mut p = ProcessorState {
        authority: key(1),
        is_paused: false,
        total_executions: 3,
        total_successes: 0,
        total_failures: 0,
        total_gas_consumed: 0,
        average_gas_scaled: 0,
        last_execution_at: 0,
        bump: 2,
    };
    pause(&mut p);
    assert_eq!(process_capability(&mut p, &"c".to_string(), &vec![]), Err(ValenceError::ProcessorPaused));
    assert_eq!(p.total_executions, 3);
    resume(&mut p);
    assert!(!p.is_paused);
    assert_eq!(process_capability(&mut p, &"c".to_string(), &vec![]), Ok(()));
    assert_eq!(p.total_executions, 4);
}

#[test]
fn execution_logs_name_the_session_in_base58() {
    let session = key(5);
    let ctx = context(Some(session), key(9), vec![]);
    let r = ExecutionEngine::execute_capability(&"cap".to_string(), &vec![1, 2], &ctx).unwrap();
    assert!(r.success);
    assert_eq!(r.gas_used, 100 + 20 + 50 + 200 + 10);
    assert_eq!(r.output_data, vec![1, 2]);
    let expected = anchor_lang::prelude::Pubkey::new_from_array([5; 32]).to_string();
    assert_eq!(r.logs[2], format!("Executing in session context: {}", expected));
    assert_eq!(r.logs.last().unwrap(), "Execution completed successfully. Gas used: 380");
    assert_eq!(ExecutionEngine::execute_capability(&String::new(), &vec![], &ctx).unwrap_err(), ValenceError::CapabilityInvalidId);
    let no_session = context(None, key(9), vec![]);
    assert_eq!(ExecutionEngine::execute_capability(&"cap".to_string(), &vec![], &no_session).unwrap_err(), ValenceError::ExecutionFailed);
}

fn auth_input(condition: &str, params: Vec<u8>, targets: Vec<String>, signers: Vec<Pubkey>, base_fee: u64, priority_fee: u64) -> FunctionInput {
    let parameters = (condition.to_string(), params, targets).try_to_vec().unwrap();
    FunctionInput {
        function_id: "f".to_string(),
        parameters,
        eval_context: EvalContext { block_height: 1, timestamp: 1, signers, fees: TransactionFees { base_fee, priority_fee } },
        namespaces: vec![],
    }
}

#[test]
fn system_auth_reads_signers_and_fees() {
    let signer = key(11);
    let text = anchor_lang::prelude::Pubkey::new_from_array([11; 32]).to_string();
    let v = SystemAuthVerifier;
    assert_eq!(v.verify(&auth_input("signer_check", vec![], vec![text.clone()], vec![signer], 0, 0)), Ok(true));
    assert_eq!(v.verify(&auth_input("signer_check", vec![], vec![text], vec![key(12)], 0, 0)), Ok(false));
    assert_eq!(v.verify(&auth_input("signer_check", vec![], vec!["not base58!".to_string()], vec![signer], 0, 0)), Ok(false));
    assert_eq!(v.verify(&auth_input("fee_check", 100u64.to_le_bytes().to_vec(), vec![], vec![], 60, 40)), Ok(true));
    assert_eq!(v.verify(&auth_input("fee_check", 101u64.to_le_bytes().to_vec(), vec![], vec![], 60, 40)), Ok(false));
    assert_eq!(v.verify(&auth_input("fee_check", 1u64.to_le_bytes().to_vec(), vec![], vec![], u64::MAX, 1)), Err(FunctionError::ExecutionFailed));
    let mut bad = auth_input("fee_check", vec![], vec![], vec![], 0, 0);
    bad.parameters = vec![1, 2, 3];
    assert_eq!(v.verify(&bad), Err(FunctionError::InvalidInput));
}

#[test]
fn handlers_log_messages() {
    let meta = vec![("capability_id".to_string(), "cap-1".to_string())];
    let cap = CapabilityEventHandler { handler_id: "h".to_string() };
    assert_eq!(cap.handle_event(EventType::CapabilityGranted, &meta), Some("Capability 'cap-1' granted".to_string()));
    assert_eq!(cap.handle_event(EventType::CapabilityRevoked, &vec![]), Some("Capability 'unknown' revoked".to_string()));
    assert_eq!(cap.handle_event(EventType::SessionCreated, &meta), None);

    let sys = SystemEventHandler { handler_id: "s".to_string() };
    assert_eq!(sys.handle_event(EventType::SystemPaused, &vec![]), Some("System paused for maintenance".to_string()));

    let single = SingletonEventHandler { handler_id: "p".to_string(), singleton_name: "processor".to_string() };
    let ours = vec![("singleton".to_string(), "processor".to_string())];
    let theirs = vec![("singleton".to_string(), "diff".to_string())];
    assert_eq!(single.handle_event(EventType::ProcessorInitialized, &ours), Some("Singleton processor initialized".to_string()));
    assert_eq!(single.handle_event(EventType::ProcessorInitialized, &theirs), None);

    let ver = VerificationEventHandler { handler_id: "v".to_string() };
    let counted = vec![("function_count".to_string(), "3".to_string())];
    let garbled = vec![("function_count".to_string(), "x".to_string())];
    assert_eq!(ver.handle_event(EventType::VerificationStarted, &counted), Some("Verification started with 3 functions".to_string()));
    assert_eq!(ver.handle_event(EventType::VerificationFailed, &garbled), Some("Verification failed for 0 functions".to_string()));

    let reg = RegistryEventHandler { handler_id: "r".to_string() };
    let item = vec![("item_name".to_string(), "lib".to_string()), ("item_version".to_string(), "1.2".to_string())];
    assert_eq!(reg.handle_event(EventType::DependencyAdded, &item), Some("Dependency 'lib' v1.2 added".to_string()));
    assert_eq!(reg.handle_event(EventType::LibraryRegistered, &item), Some("Library 'lib' v1.2 registered".to_string()));
}

fn input_result(index: u32, success: bool, data: Vec<u8>) -> AggregationInputResult {
    AggregationInputResult {
        input_index: index,
        function_hash: format!("f{}", index),
        success,
        output: FunctionOutput { data, version: "2.0.0".to_string() },
        execution_time_us: 1000,
    }
}

#[test]
fn aggregation_runs_by_strategy() {
    let results = vec![input_result(0, false, vec![9]), input_result(1, true, vec![1, 2]), input_result(2, true, vec![3])];
    let merged = AggregationExecutor::run(StrategyKind::SimpleMerge, 3, 1, 20, true, &results).unwrap();
    assert_eq!(merged.data, vec![1, 2, 3]);
    assert_eq!(merged.version, "1.0.0");
    let voted = AggregationExecutor::run(StrategyKind::Consensus, 3, 1, 20, true, &results).unwrap();
    assert_eq!(voted.data, vec![1, 2]);
    assert_eq!(voted.version, "2.0.0");
    assert_eq!(AggregationExecutor::run(StrategyKind::SimpleMerge, 0, 1, 20, true, &results).unwrap_err(), ValenceError::FunctionInsufficientInputs);
    assert_eq!(AggregationExecutor::run(StrategyKind::SimpleMerge, 21, 1, 20, true, &results).unwrap_err(), ValenceError::FunctionTooManyInputs);
    assert_eq!(AggregationExecutor::run(StrategyKind::SimpleMerge, 3, 1, 20, false, &results).unwrap_err(), ValenceError::FunctionInsufficientSuccessRate);
    let failed = vec![input_result(0, false, vec![9])];
    assert_eq!(AggregationExecutor::run(StrategyKind::MajorityVote, 1, 1, 20, true, &failed).unwrap_err(), ValenceError::FunctionNoSuccessfulResults);
    assert_eq!(strategy_for_mode(AggregationMode::Reduce), StrategyKind::Reduce);
}

#[test]
fn aggregation_estimates() {
    assert_eq!(checked_execution_time_ms(StrategyKind::MajorityVote, 10_000, 3), Some(30_500));
    assert_eq!(checked_memory_bytes(StrategyKind::SimpleMerge, 1_000, 4), Some(4_500));
    assert_eq!(checked_memory_bytes(StrategyKind::Consensus, 1_000, 4), Some(7_000));
    assert_eq!(checked_execution_time_ms(StrategyKind::Custom, u64::MAX, 1), None);
    assert_eq!(checked_memory_bytes(StrategyKind::Consensus, u64::MAX / 2, 1), None);
}
