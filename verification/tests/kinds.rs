use pgmoneta_lifecycle::kind::ResourceKind;

#[test]
fn creation_order_is_storage_compute_network() {
    assert_eq!(
        ResourceKind::all_in_creation_order(),
        vec![ResourceKind::Storage, ResourceKind::Compute, ResourceKind::Network]
    );
    assert_eq!(ResourceKind::Storage.creation_rank(), 0);
    assert_eq!(ResourceKind::Compute.creation_rank(), 1);
    assert_eq!(ResourceKind::Network.creation_rank(), 2);
}

#[test]
fn teardown_order_is_the_reverse() {
    assert_eq!(ResourceKind::Network.teardown_rank(), 0);
    assert_eq!(ResourceKind::Compute.teardown_rank(), 1);
    assert_eq!(ResourceKind::Storage.teardown_rank(), 2);
    for kind in ResourceKind::all_in_creation_order() {
        assert_eq!(kind.creation_rank() + kind.teardown_rank(), 2);
    }
}

#[test]
fn each_kind_has_its_successor() {
    assert_eq!(ResourceKind::Storage.next_to_create(), Some(ResourceKind::Compute));
    assert_eq!(ResourceKind::Compute.next_to_create(), Some(ResourceKind::Network));
    assert_eq!(ResourceKind::Network.next_to_create(), None);
    assert_eq!(ResourceKind::Network.next_to_remove(), Some(ResourceKind::Compute));
    assert_eq!(ResourceKind::Compute.next_to_remove(), Some(ResourceKind::Storage));
    assert_eq!(ResourceKind::Storage.next_to_remove(), None);
}

#[test]
fn comes_before_is_a_strict_total_order() {
    let all = ResourceKind::all_in_creation_order();
    for (i, a) in all.iter().enumerate() {
        for (j, b) in all.iter().enumerate() {
            assert_eq!(a.comes_before(*b), i < j);
        }
    }
}

#[test]
fn created_before_lists_the_dependencies() {
    assert_eq!(ResourceKind::Storage.created_before(), vec![]);
    assert_eq!(ResourceKind::Compute.created_before(), vec![ResourceKind::Storage]);
    assert_eq!(
        ResourceKind::Network.created_before(),
        vec![ResourceKind::Storage, ResourceKind::Compute]
    );
}
