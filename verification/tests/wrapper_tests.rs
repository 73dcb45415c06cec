use anchor_lang::AnchorSerialize;
use valence_kernel::capabilities::instructions::{NamespaceCapability as SealedCapability, ObjectId as SealedObject};
use valence_kernel::capabilities::ordering_rules::{OrderingConstraint, PartialOrder};
use valence_kernel::error::FunctionError;
use valence_kernel::functions::types::FunctionOutput;
use valence_kernel::functions::types::PureFunction;
use valence_kernel::functions::verification::BasicPermissionVerifier;
use valence_kernel::pubkey::Pubkey;
use valence_kernel::scheduler::instructions::PartialOrderSpec;
use valence_kernel::scheduler::ordering_coordinator::{ConflictType, OrderingConflict, OrderingCoordinator};
use valence_kernel::sessions::isolation::{FunctionInput, NamespaceCapability, ObjectId};

fn key(b: u8) -> Pubkey {
    Pubkey::new_from_array([b; 32])
}

#[test]
fn sealed_capability_carries_the_sha256_of_its_fields() {
    let objects = vec![SealedObject { id: [7u8; 32], object_type: "vault".to_string() }];
    let cap = SealedCapability::new("ns".to_string(), objects, vec!["vault".to_string()], 258);
    let mut preimage = b"ns".to_vec();
    preimage.extend_from_slice(&[7u8; 32]);
    preimage.extend_from_slice(b"vault");
    preimage.extend_from_slice(b"vault");
    preimage.extend_from_slice(&258u32.to_le_bytes());
    let expected = anchor_lang::solana_program::hash::hash(&preimage).to_bytes();
    assert_eq!(cap.capability_hash, expected);
    assert!(cap.verify_integrity());

    let mut tampered = SealedCapability::new("ns".to_string(), vec![], vec![], 258);
    tampered.max_objects_per_call = 259;
    assert!(!tampered.verify_integrity());
}

#[test]
fn refusal_names_the_object_as_debug_prints_it() {
    let cap = NamespaceCapability::new("ns".to_string(), vec![], vec![], 4);
    let outsider = ObjectId { hash: [3u8; 32], object_type: "vault".to_string(), namespace: Some("other".to_string()) };
    let input = FunctionInput { diffs: vec![], parameters: vec![] };
    let r = cap.validate_function_call(&input, &vec![outsider.clone()]);
    assert!(!r.access_granted);
    assert_eq!(r.reason, format!("Object not in namespace: {:?}", outsider));
}

#[test]
fn conflict_errors_print_the_existing_constraint() {
    let existing = OrderingConstraint::Before { capability_a: "a".to_string(), capability_b: "b".to_string() };
    let new = OrderingConstraint::Before { capability_a: "b".to_string(), capability_b: "a".to_string() };
    let r = PartialOrder::validate_constraint(&new, &vec![existing.clone()]).unwrap();
    assert!(!r.is_valid);
    assert_eq!(r.errors, vec![format!("New constraint conflicts with existing constraint: {:?}", existing)]);

    let fine = OrderingConstraint::Before { capability_a: "a".to_string(), capability_b: "c".to_string() };
    let r = PartialOrder::validate_constraint(&fine, &vec![existing]).unwrap();
    assert!(r.is_valid);
    assert!(r.errors.is_empty());
}

#[test]
fn verification_outputs_decode_from_borsh() {
    let v = BasicPermissionVerifier;
    let good = (true, "ok".to_string(), vec![1u8, 2]).try_to_vec().unwrap();
    let output = |data: Vec<u8>| FunctionOutput { function_id: "f".to_string(), data, success: true, error_message: None };
    assert_eq!(v.validate_output(&output(good)), Ok(()));
    assert_eq!(v.validate_output(&output(vec![2, 0])), Err(FunctionError::InvalidOutput));
}

#[test]
fn priority_resolution_lists_names_as_debug_prints_them() {
    let orders = vec![PartialOrderSpec {
        shard_id: key(1),
        constraints: vec![
            OrderingConstraint::Priority { capability: "a".to_string(), level: 1 },
            OrderingConstraint::Priority { capability: "b".to_string(), level: 5 },
        ],
    }];
    let conflict = OrderingConflict {
        shard_a: key(1),
        shard_b: key(2),
        conflict_type: ConflictType::ContradictoryOrdering,
        details: String::new(),
    };
    let r = OrderingCoordinator::priority_based_resolution(&conflict, &orders).unwrap();
    assert_eq!(r, format!("Resolved using priority ordering: {:?}", vec!["b", "a"]));
    let none: Vec<PartialOrderSpec> = vec![];
    assert_eq!(OrderingCoordinator::priority_based_resolution(&conflict, &none), None);
}
