use atomic_update::volume::{SubvolEntry, SubvolSlot, VolumeModel, VolumeError};

fn volume_with(entries: Vec<SubvolEntry>) -> VolumeModel {
    VolumeModel { subvols: entries }
}

#[test]
fn a_new_volume_is_empty() {
    let v = VolumeModel::new();
    assert_eq!(v.live_root(), None);
    assert_eq!(v.slot_of(1), None);
}

fn fresh_root() -> VolumeModel {
    volume_with(vec![SubvolEntry { id: 1, slot: SubvolSlot::LiveRoot }])
}

#[test]
fn promotion_permutes_the_three_paths() {
    let mut v = fresh_root();
    assert_eq!(v.create_snapshot(1, 2), Ok(()));
    assert_eq!(v.slot_of(2), Some(SubvolSlot::Numbered { parent: 1, num: 1 }));

    assert_eq!(v.promote(1), Ok(()));
    // The path that held the snapshot now holds the live root ...
    assert_eq!(v.live_root(), Some(2));
    assert_eq!(v.occupant_of(SubvolSlot::Numbered { parent: 1, num: 1 }), None);
    // ... the old root is the rollback entry nested under the new root ...
    assert_eq!(v.slot_of(1), Some(SubvolSlot::NestedRollback { parent: 2 }));
    // ... and the transient top-level slot is free again.
    assert_eq!(v.occupant_of(SubvolSlot::TopRollback), None);
}

#[test]
fn promotion_leaves_other_snapshots_in_place() {
    let mut v = fresh_root();
    assert_eq!(v.create_snapshot(1, 2), Ok(()));
    assert_eq!(v.create_snapshot(2, 3), Ok(()));
    assert_eq!(v.promote(2), Ok(()));
    assert_eq!(v.live_root(), Some(3));
    assert_eq!(v.slot_of(1), Some(SubvolSlot::NestedRollback { parent: 3 }));
    // The other snapshot still sits at its numbered slot under the old root.
    assert_eq!(v.slot_of(2), Some(SubvolSlot::Numbered { parent: 1, num: 1 }));
}

#[test]
fn rollback_restores_the_previous_root() {
    let mut v = fresh_root();
    assert_eq!(v.create_snapshot(1, 2), Ok(()));
    assert_eq!(v.promote(1), Ok(()));

    assert_eq!(v.rollback(), Ok(()));
    // Root and rollback subvolumes swap back.
    assert_eq!(v.live_root(), Some(1));
    assert_eq!(v.slot_of(2), Some(SubvolSlot::NestedRollback { parent: 1 }));
    assert_eq!(v.occupant_of(SubvolSlot::TopRollback), None);
}

#[test]
fn rollback_without_promotion_names_the_missing_target() {
    let mut v = fresh_root();
    assert_eq!(v.rollback(), Err(VolumeError::NoRollbackTarget));
    // The volume is unchanged.
    assert_eq!(v.live_root(), Some(1));
}

#[test]
fn promote_without_live_root_is_refused() {
    let mut v = volume_with(vec![]);
    assert_eq!(v.promote(1), Err(VolumeError::NoLiveRoot));
}

#[test]
fn promote_unknown_snapshot_is_refused() {
    let mut v = fresh_root();
    assert_eq!(v.promote(7), Err(VolumeError::NoSuchSnapshot));
}

#[test]
fn promote_with_occupied_top_rollback_slot_is_refused() {
    let mut v = volume_with(vec![
        SubvolEntry { id: 1, slot: SubvolSlot::LiveRoot },
        SubvolEntry { id: 2, slot: SubvolSlot::Numbered { parent: 1, num: 1 } },
        SubvolEntry { id: 9, slot: SubvolSlot::TopRollback },
    ]);
    assert_eq!(v.promote(1), Err(VolumeError::TopRollbackOccupied));
    assert_eq!(v.live_root(), Some(1));
}

#[test]
fn promote_with_occupied_nested_rollback_slot_is_refused() {
    let mut v = volume_with(vec![
        SubvolEntry { id: 1, slot: SubvolSlot::LiveRoot },
        SubvolEntry { id: 2, slot: SubvolSlot::Numbered { parent: 1, num: 1 } },
        SubvolEntry { id: 9, slot: SubvolSlot::NestedRollback { parent: 2 } },
    ]);
    assert_eq!(v.promote(1), Err(VolumeError::NestedRollbackOccupied));
}

#[test]
fn snapshot_slot_is_not_reused() {
    let mut v = fresh_root();
    assert_eq!(v.create_snapshot(1, 2), Ok(()));
    assert_eq!(v.create_snapshot(1, 3), Err(VolumeError::SnapshotSlotOccupied));
}

#[test]
fn snapshot_identity_is_not_reused() {
    let mut v = fresh_root();
    assert_eq!(v.create_snapshot(1, 2), Ok(()));
    assert_eq!(v.create_snapshot(2, 2), Err(VolumeError::IdInUse));
}

#[test]
fn snapshot_needs_a_live_root() {
    let mut v = volume_with(vec![]);
    assert_eq!(v.create_snapshot(1, 2), Err(VolumeError::NoLiveRoot));
}

#[test]
fn double_rollback_toggles_the_two_roots() {
    let mut v = fresh_root();
    assert_eq!(v.create_snapshot(1, 2), Ok(()));
    assert_eq!(v.promote(1), Ok(()));
    assert_eq!(v.rollback(), Ok(()));
    assert_eq!(v.rollback(), Ok(()));
    assert_eq!(v.live_root(), Some(2));
    assert_eq!(v.slot_of(1), Some(SubvolSlot::NestedRollback { parent: 2 }));
}
