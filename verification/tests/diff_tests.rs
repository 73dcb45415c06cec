use valence_kernel::diff::instructions::DiffOperation;
use valence_kernel::diff::optimizer::BatchOptimizer;

#[test]
fn test_merge_adjacent_inserts() {
    let operations = vec![
        DiffOperation::Insert { position: 0, data: vec![1, 2] },
        DiffOperation::Insert { position: 2, data: vec![3, 4] },
        DiffOperation::Insert { position: 4, data: vec![5, 6] },
    ];
    let optimized = BatchOptimizer::optimize_batch(operations);
    assert_eq!(optimized.len(), 1);
    if let DiffOperation::Insert { position, data } = &optimized[0] {
        assert_eq!(*position, 0);
        assert_eq!(*data, vec![1, 2, 3, 4, 5, 6]);
    }
}
