use bird_invaders::asset_registry::EntityAssetRegistry;
use bird_invaders::waiting::{on_asset_modified, WaitingAssets};

#[test]
fn record_lists_the_entity_under_its_asset() {
    let mut reg = EntityAssetRegistry::new();
    reg.record(10, 1);
    reg.record(11, 1);
    reg.record(12, 2);
    assert_eq!(reg.entities_of(1), vec![10, 11]);
    assert_eq!(reg.entities_of(2), vec![12]);
    assert_eq!(reg.entities_of(3), Vec::<u64>::new());
}

#[test]
fn repointing_a_handle_moves_the_entity_between_lists() {
    let mut reg = EntityAssetRegistry::new();
    reg.record(10, 1);
    reg.record(11, 1);
    reg.record(10, 2);
    assert_eq!(reg.entities_of(1), vec![11]);
    assert_eq!(reg.entities_of(2), vec![10]);
}

#[test]
fn a_lone_stale_entry_is_dropped_with_its_list() {
    let mut reg = EntityAssetRegistry::new();
    reg.record(10, 1);
    reg.record(10, 2);
    // entity 10 was asset 1's only user, so asset 1's entry is gone
    assert_eq!(reg.entities_of(1), Vec::<u64>::new());
    assert_eq!(reg.entities_of(2), vec![10]);
}

#[test]
fn recording_the_same_asset_twice_keeps_one_listing() {
    let mut reg = EntityAssetRegistry::new();
    reg.record(10, 1);
    reg.record(10, 1);
    assert_eq!(reg.entities_of(1), vec![10]);
}

#[test]
fn removed_entities_leave_their_list() {
    let mut reg = EntityAssetRegistry::new();
    reg.record(10, 1);
    reg.record(11, 1);
    reg.remove_entity(10);
    assert_eq!(reg.entities_of(1), vec![11]);
    reg.remove_entity(11);
    assert_eq!(reg.entities_of(1), Vec::<u64>::new());
    // removing an unknown entity does nothing
    reg.remove_entity(99);
}

#[test]
fn waiting_entities_are_notified_once_their_asset_loads() {
    let mut waiting = WaitingAssets::new();
    waiting.enqueue(10, 1);
    waiting.enqueue(11, 1);
    waiting.enqueue(12, 2);

    // nothing loaded yet: no events, everything still queued
    let none = waiting.drain_ready(&vec![]);
    assert!(none.is_empty());

    let ready = waiting.drain_ready(&vec![1]);
    assert_eq!(ready.len(), 1);
    assert_eq!(ready[0].asset, 1);
    assert_eq!(ready[0].entities, vec![10, 11]);

    // asset 1's queue is gone; asset 2 still waits
    let again = waiting.drain_ready(&vec![1]);
    assert!(again.is_empty());
    let last = waiting.drain_ready(&vec![1, 2]);
    assert_eq!(last.len(), 1);
    assert_eq!(last[0].asset, 2);
    assert_eq!(last[0].entities, vec![12]);
}

#[test]
fn draining_keeps_queue_order() {
    let mut waiting = WaitingAssets::new();
    waiting.enqueue(10, 3);
    waiting.enqueue(11, 1);
    waiting.enqueue(12, 2);
    let ready = waiting.drain_ready(&vec![2, 3]);
    assert_eq!(ready.len(), 2);
    assert_eq!(ready[0].asset, 3);
    assert_eq!(ready[1].asset, 2);
}

#[test]
fn modified_assets_notify_their_registered_entities() {
    let mut reg = EntityAssetRegistry::new();
    reg.record(10, 1);
    reg.record(11, 1);
    let ev = on_asset_modified(&reg, 1);
    assert_eq!(ev.asset, 1);
    assert_eq!(ev.entities, vec![10, 11]);
    let unused = on_asset_modified(&reg, 9);
    assert_eq!(unused.asset, 9);
    assert!(unused.entities.is_empty());
}
