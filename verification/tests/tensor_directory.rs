use tensorgrid::tensor_directory::{DirectoryError, TensorDirectory};
use tensorgrid::types::{PhysicalPlacement, PlacementRole};

fn new_id() -> u128 {
    uuid::Uuid::new_v4().as_u128()
}

fn placement(node_id: u128, role: PlacementRole) -> PhysicalPlacement {
    PhysicalPlacement { node_id, device: "cpu:0".to_string(), offset: 0, length: 1024, role }
}

#[test]
fn test_register_tensor() {
    let mut dir = TensorDirectory::new();
    let placement = placement(new_id(), PlacementRole::Primary);
    dir.register_tensor("test_tensor".to_string(), vec![128, 128], "f32".to_string(), placement, false, None)
        .unwrap();

    let tensor = dir.get_tensor("test_tensor");
    assert!(tensor.is_some());
}

#[test]
fn test_add_placement() {
    let mut dir = TensorDirectory::new();
    let node1 = new_id();
    let node2 = new_id();
    dir.register_tensor(
        "test_tensor".to_string(),
        vec![128, 128],
        "f32".to_string(),
        placement(node1, PlacementRole::Primary),
        false,
        None,
    )
    .unwrap();

    dir.add_placement("test_tensor", placement(node2, PlacementRole::Replica)).unwrap();

    let tensor = dir.get_tensor("test_tensor");
    assert!(tensor.is_some());
    assert_eq!(tensor.unwrap().placements.len(), 2);
}

#[test]
fn test_evict_from_node() {
    let mut dir = TensorDirectory::new();
    let node = new_id();
    dir.register_tensor(
        "test_tensor".to_string(),
        vec![128, 128],
        "f32".to_string(),
        placement(node, PlacementRole::Primary),
        false,
        None,
    )
    .unwrap();

    let evicted = dir.evict_from_node(node, "test").unwrap();
    assert_eq!(evicted.len(), 1);

    let tensor = dir.get_tensor("test_tensor");
    assert!(tensor.is_none());
}

#[test]
fn registered_entry_starts_at_version_one() {
    let mut dir = TensorDirectory::new();
    let node = new_id();
    let session = new_id();
    dir.register_tensor_at("t".to_string(), vec![2, 3], "f16".to_string(), placement(node, PlacementRole::Primary), true, Some(session), 500)
        .unwrap();
    let e = dir.get_tensor_at("t", 900).unwrap();
    assert_eq!(e.version, 1);
    assert_eq!(e.shape, vec![2, 3]);
    assert_eq!(e.dtype, "f16");
    assert!(e.mutable);
    assert_eq!(e.owner_session, Some(session));
    assert_eq!(e.created_at, 500);
    assert_eq!(e.last_accessed, 900);
    assert_eq!(dir.get_tensors_by_session(session).len(), 1);
    assert_eq!(dir.get_tensors_on_node(node).len(), 1);
}

#[test]
fn unknown_tensors_are_refused() {
    let mut dir = TensorDirectory::new();
    let node = new_id();
    assert!(dir.get_tensor("missing").is_none());
    match dir.add_placement("missing", placement(node, PlacementRole::Primary)) {
        Err(DirectoryError::TensorNotFound(t)) => assert_eq!(t, "missing"),
        _ => panic!("expected TensorNotFound"),
    }
    match dir.remove_placement("missing", node) {
        Err(DirectoryError::TensorNotFound(t)) => assert_eq!(t, "missing"),
        _ => panic!("expected TensorNotFound"),
    }
}

#[test]
fn add_then_remove_placement() {
    let mut dir = TensorDirectory::new();
    let node1 = new_id();
    let node2 = new_id();
    dir.register_tensor("t".to_string(), vec![4], "f32".to_string(), placement(node1, PlacementRole::Primary), false, None)
        .unwrap();
    dir.add_placement("t", placement(node2, PlacementRole::Replica)).unwrap();
    dir.remove_placement("t", node2).unwrap();
    let e = dir.get_tensor("t").unwrap();
    assert_eq!(e.placements.len(), 1);
    assert_eq!(e.placements[0].node_id, node1);
    assert_eq!(e.version, 3);
    // Removing the last placement removes the tensor.
    dir.remove_placement("t", node1).unwrap();
    assert!(dir.get_tensor("t").is_none());
}

#[test]
fn eviction_keeps_tensors_placed_elsewhere() {
    let mut dir = TensorDirectory::new();
    let node1 = new_id();
    let node2 = new_id();
    dir.register_tensor("a".to_string(), vec![1], "f32".to_string(), placement(node1, PlacementRole::Primary), false, None)
        .unwrap();
    dir.add_placement("a", placement(node2, PlacementRole::Replica)).unwrap();
    dir.register_tensor("b".to_string(), vec![1], "f32".to_string(), placement(node1, PlacementRole::Primary), false, None)
        .unwrap();
    let evicted = dir.evict_from_node(node1, "node drained").unwrap();
    assert_eq!(evicted, vec!["b".to_string()]);
    let a = dir.get_tensor("a").unwrap();
    assert_eq!(a.placements.len(), 1);
    assert_eq!(a.placements[0].node_id, node2);
    assert!(dir.get_tensor("b").is_none());
    assert!(dir.get_tensors_on_node(node1).is_empty());
}

#[test]
fn transfer_copies_to_the_destination() {
    let mut dir = TensorDirectory::new();
    let node1 = new_id();
    let node2 = new_id();
    let node3 = new_id();
    dir.register_tensor("t".to_string(), vec![4], "f32".to_string(), placement(node1, PlacementRole::Primary), false, None)
        .unwrap();
    dir.transfer_tensor("t", node1, node2, &[1, 2, 3, 4]).unwrap();
    let e = dir.get_tensor("t").unwrap();
    assert_eq!(e.placements.len(), 2);
    assert_eq!(e.placements[1].node_id, node2);
    assert_eq!(dir.transfer_tensor("t", node3, node2, &[1]), Err(DirectoryError::NotOnSourceNode));
}

#[test]
fn directory_statistics() {
    let mut dir = TensorDirectory::new();
    let node1 = new_id();
    let node2 = new_id();
    dir.register_tensor("a".to_string(), vec![1], "f32".to_string(), placement(node1, PlacementRole::Primary), true, None)
        .unwrap();
    dir.register_tensor("b".to_string(), vec![1], "f32".to_string(), placement(node1, PlacementRole::Primary), false, None)
        .unwrap();
    dir.add_placement("b", placement(node2, PlacementRole::Replica)).unwrap();
    let stats = dir.get_stats();
    assert_eq!(stats.total_tensors, 2);
    assert_eq!(stats.total_placements, 3);
    assert_eq!(stats.mutable_count, 1);
    assert_eq!(stats.node_count, 2);
}
