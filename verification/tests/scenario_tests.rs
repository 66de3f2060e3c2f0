//! The end-to-end update scenario, played against the volume model: an empty
//! snapshot store, one allocation, one snapshot, a sandboxed command, and —
//! only on exit code zero — the promotion that leaves the old root as the
//! nested rollback target.

use atomic_update::allocator::{get_next_snapshot_path, parse_snapshot_entry};
use atomic_update::command::exit_status_is_success;
use atomic_update::sandbox::run_command_in_snapshot_chroot;
use atomic_update::session::{advance, UpdatePhase};
use atomic_update::swap::swap_snapshot_to_root;
use atomic_update::volume::{SubvolEntry, SubvolSlot, VolumeModel};

#[test]
fn update_promotes_on_success_and_nests_the_old_root() {
    let mut volume = VolumeModel {
        subvols: vec![SubvolEntry { id: 1, slot: SubvolSlot::LiveRoot }],
    };
    let mut phase = UpdatePhase::Allocating;

    // The snapshot store is empty: the allocator reserves number one.
    let store_entries: Vec<String> = vec![];
    let path = get_next_snapshot_path(&store_entries);
    assert_eq!(path, "/.au-snapshots/1");
    let num = parse_snapshot_entry(&path["/.au-snapshots/".len()..]).unwrap();
    assert_eq!(num, 1);
    phase = advance(phase, true);

    // The snapshot of the live root materializes at the reserved slot.
    let created = volume.create_snapshot(num, 2);
    phase = advance(phase, created.is_ok());
    assert_eq!(phase, UpdatePhase::RunningCommand);

    // The configured package-manager update runs inside the snapshot.
    let args = vec!["update".to_string(), "-y".to_string()];
    let sandbox = run_command_in_snapshot_chroot(&path, "dnf", &args);
    assert_eq!(sandbox.chroot_run.args, vec!["/.au-snapshots/1", "dnf", "update", "-y"]);
    let exit_code = Some(0);
    phase = advance(phase, exit_status_is_success(exit_code));
    assert_eq!(phase, UpdatePhase::Promoting);

    // Promotion: the plan names the real paths and the model performs the
    // permutation the plan's renames stand for.
    let plan = swap_snapshot_to_root("root", "/dev/sda3", &path);
    assert_eq!(plan.promote_new_root.from, "/mnt/rollback/.au-snapshots/1");
    let promoted = volume.promote(num);
    phase = advance(phase, promoted.is_ok());
    assert_eq!(phase, UpdatePhase::Promoted);

    // The snapshot is the live root; the prior root is the rollback entry
    // nested in the new root's snapshot store.
    assert_eq!(volume.live_root(), Some(2));
    assert_eq!(volume.slot_of(1), Some(SubvolSlot::NestedRollback { parent: 2 }));
}

#[test]
fn update_with_failing_command_leaves_the_root_alone() {
    let mut volume = VolumeModel {
        subvols: vec![SubvolEntry { id: 1, slot: SubvolSlot::LiveRoot }],
    };
    let mut phase = UpdatePhase::Allocating;

    let path = get_next_snapshot_path(&vec![]);
    phase = advance(phase, true);
    phase = advance(phase, volume.create_snapshot(1, 2).is_ok());
    assert_eq!(phase, UpdatePhase::RunningCommand);

    // The command inside the snapshot exits nonzero: no promotion.
    let exit_code = Some(1);
    phase = advance(phase, exit_status_is_success(exit_code));
    assert_eq!(phase, UpdatePhase::Failed);

    // The live root is unchanged and the snapshot is left for inspection.
    assert_eq!(volume.live_root(), Some(1));
    assert_eq!(volume.slot_of(2), Some(SubvolSlot::Numbered { parent: 1, num: 1 }));
    assert_eq!(path, "/.au-snapshots/1");
}
