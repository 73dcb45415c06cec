use valence_kernel::pubkey::Pubkey;
use valence_kernel::sessions::isolation::{
    Diff, ObjectId, SessionIsolationValidator, SessionNamespaceIntegration, NamespaceCapability, SessionIsolationConfig,
};
use valence_kernel::sessions::state::SessionConfiguration;

fn create_test_session_config() -> SessionConfiguration {
    SessionConfiguration::default()
}

fn object(hash: u8, object_type: &str, namespace: Option<&str>) -> ObjectId {
    ObjectId { hash: [hash; 32], object_type: object_type.to_string(), namespace: namespace.map(|s| s.to_string()) }
}

#[test]
fn test_diff_validation_with_capabilities() {
    let config = create_test_session_config();
    let valid_diff = Diff {
        content_hash: [1u8; 32],
        target_object: ObjectId { hash: [1u8; 32], object_type: "account".to_string(), namespace: Some("test".to_string()) },
        operation_type: "update".to_string(),
        data: b"small_data".to_vec(),
        timestamp: 0,
        creator: Pubkey::new_from_array(anchor_lang::prelude::Pubkey::new_unique().to_bytes()),
        dependencies: vec![],
        metadata: vec![],
    };
    assert!(SessionIsolationValidator::validate_diff(&config, &valid_diff).unwrap());
}

#[test]
fn test_capability_creation() {
    let test_objects = vec![ObjectId { hash: [1u8; 32], object_type: "account".to_string(), namespace: Some("trading".to_string()) }];
    let capabilities = SessionNamespaceIntegration::create_session_capabilities(
        &"test_session".to_string(),
        test_objects,
        vec!["trading".to_string()],
        10,
    );
    assert_eq!(capabilities.len(), 1);
    assert_eq!(capabilities[0].namespace_id, "test_session:trading");
}

#[test]
fn capabilities_group_objects_by_namespace() {
    let objects = vec![object(1, "a", Some("x")), object(2, "b", None), object(3, "c", Some("x")), object(4, "d", Some("y"))];
    let caps = SessionNamespaceIntegration::create_session_capabilities(
        &"s".to_string(),
        objects,
        vec!["x".to_string(), "default".to_string(), "z".to_string()],
        5,
    );
    assert_eq!(caps.len(), 3);
    assert_eq!(caps[0].accessible_objects, vec![object(1, "a", Some("x")), object(3, "c", Some("x"))]);
    assert_eq!(caps[1].namespace_id, "s:default");
    assert_eq!(caps[1].accessible_objects, vec![object(2, "b", None)]);
    assert!(caps[2].accessible_objects.is_empty());
    assert_eq!(caps[2].max_objects_per_call, 5);
    assert_eq!(caps[0].capability_hash, [0u8; 32]);
}

#[test]
fn capability_checks() {
    let cap = NamespaceCapability::new("ns".to_string(), vec![object(1, "a", None)], vec!["a".to_string()], 3);
    assert!(cap.verify_integrity());
    assert!(cap.can_access_object(&object(1, "a", None)));
    assert!(!cap.can_access_object(&object(1, "a", Some("default"))));
    assert!(cap.is_object_type_allowed(&"a".to_string()));
    assert!(!cap.is_object_type_allowed(&"b".to_string()));
    let open = NamespaceCapability::new("".to_string(), vec![], vec![], 3);
    assert!(open.is_object_type_allowed(&"anything".to_string()));
    assert!(!open.verify_integrity());
    let none = NamespaceCapability::new("n".to_string(), vec![], vec![], 0);
    assert!(!none.verify_integrity());
}

#[test]
fn intersection_keeps_common_objects() {
    let a = NamespaceCapability::new("a".to_string(), vec![object(1, "t", None), object(2, "t", None)], vec!["t".to_string()], 4);
    let b = NamespaceCapability::new("b".to_string(), vec![object(2, "t", None), object(3, "t", None)], vec![], 2);
    let c = a.intersect(&b);
    assert_eq!(c.namespace_id, "a+b");
    assert_eq!(c.accessible_objects, vec![object(2, "t", None)]);
    assert!(c.allowed_object_types.is_empty());
    assert_eq!(c.max_objects_per_call, 2);
}

#[test]
fn default_isolation_config() {
    let c = SessionIsolationConfig::default();
    assert_eq!(c.namespace_capabilities.len(), 1);
    assert_eq!(c.namespace_capabilities[0].namespace_id, "default");
    assert_eq!(c.namespace_capabilities[0].max_objects_per_call, 10);
    assert_eq!(c.max_diffs_per_tx, 10);
    assert_eq!(c.max_diff_size_bytes, 1024);
    assert!(!c.allow_cross_session);
}

#[test]
fn session_operations_allowed() {
    let config = create_test_session_config();
    let o = object(1, "a", None);
    for op in ["read", "query", "write", "update"] {
        assert!(SessionNamespaceIntegration::validate_session_operation(&config, &o, &op.to_string()));
    }
    for op in ["create", "delete", "other", ""] {
        assert!(!SessionNamespaceIntegration::validate_session_operation(&config, &o, &op.to_string()));
    }
    assert!(!SessionIsolationValidator::can_sessions_interact(&config, &config));
}
