//! The atomic-promotion protocol: the ordered commands and renames that swap
//! a prepared snapshot with the live root, and the reverse sequence that
//! restores the previous root.
//!
//! Subvolumes can only be renamed relative to one another from the volume's
//! top-level namespace, which is otherwise inaccessible from inside the live
//! root; the plan therefore first mounts the storage device with subvolume id
//! five at a scratch directory and unmounts it again at the end. Between the
//! two stand three dependent renames; in terms of the volume model they move
//! the live root to the transient top-level rollback slot, the snapshot to
//! the live-root slot, and the displaced root to the rollback entry nested
//! under the new root. The mount is a scoped resource: the caller must
//! attempt the unmount on every exit path, though its failure is reported
//! rather than fatal.

use vstd::prelude::*;

use crate::command::CommandLine;

verus! {

/// One rename, performed under the top-level mount.
pub struct RenameStep {
    pub from: String,
    pub to: String,
}

/// The ordered steps of a promotion or a rollback: mount the volume's
/// top-level namespace, rename three times, unmount. Each step depends on
/// the previous one succeeding; the caller stops at the first failure and
/// reports it, except that a failed unmount is reported but not fatal.
pub struct SwapPlan {
    /// Mount the storage device's top-level namespace at the scratch
    /// directory.
    pub mount: CommandLine,
    /// Displace the live root into the transient top-level rollback slot.
    pub displace_root: RenameStep,
    /// Move the new root — now nested inside the displaced old root — into
    /// the live-root slot.
    pub promote_new_root: RenameStep,
    /// Nest the displaced old root inside the new root's snapshot-storage
    /// directory as the rollback target.
    pub nest_old_root: RenameStep,
    /// Release the top-level mount.
    pub unmount: CommandLine,
}

/// The scratch directory the top-level namespace is mounted at.
pub open spec fn mount_dir_view() -> Seq<char> {
    "/mnt"@
}

/// The path of the subvolume named `name` under the top-level mount.
pub open spec fn mounted_path_view(name: Seq<char>) -> Seq<char> {
    mount_dir_view() + "/"@ + name
}

/// The path of the transient top-level rollback slot.
pub open spec fn mounted_rollback_view() -> Seq<char> {
    mount_dir_view() + "/rollback"@
}

/// The path of the entry named `name` in the snapshot-storage directory of
/// the subvolume mounted at `base`.
pub open spec fn store_entry_path_view(base: Seq<char>, name: Seq<char>) -> Seq<char> {
    base + "/.au-snapshots/"@ + name
}

/// Whether `plan` is the swap sequence that promotes the subvolume reached by
/// `new_root_rel` — a path relative to the old root, such as a freshly
/// allocated snapshot path — to be the root subvolume named `root_name` on
/// the storage device `device`.
pub open spec fn is_swap_plan(
    plan: SwapPlan,
    root_name: Seq<char>,
    device: Seq<char>,
    new_root_rel: Seq<char>,
) -> bool {
    &&& plan.mount.program@ == "mount"@
    &&& plan.mount.args.deep_view() == seq![
        "-t"@,
        "btrfs"@,
        "-o"@,
        "subvolid=5"@,
        device,
        mount_dir_view(),
    ]
    &&& plan.displace_root.from@ == mounted_path_view(root_name)
    &&& plan.displace_root.to@ == mounted_rollback_view()
    &&& plan.promote_new_root.from@ == mounted_rollback_view() + new_root_rel
    &&& plan.promote_new_root.to@ == mounted_path_view(root_name)
    &&& plan.nest_old_root.from@ == mounted_rollback_view()
    &&& plan.nest_old_root.to@ == mounted_path_view(root_name) + "/.au-snapshots/rollback"@
    &&& plan.unmount.program@ == "umount"@
    &&& plan.unmount.args.deep_view() == seq![mount_dir_view()]
}

/// The swap sequence that promotes the snapshot at `snapshot_path` — a path
/// inside the live root, as the allocator reserves it — to be the root
/// subvolume named `root_subvol_name` on the storage device `device`. After
/// step one the snapshot's top-level path runs through the displaced root,
/// which is why step two renames from under the rollback slot.
pub fn swap_snapshot_to_root(root_subvol_name: &str, device: &str, snapshot_path: &str) -> (r:
    SwapPlan)
    ensures
        is_swap_plan(r, root_subvol_name@, device@, snapshot_path@),
{
    build_swap_plan(root_subvol_name, device, snapshot_path)
}

/// The swap sequence that restores the previous root: the rollback entry
/// nested in the live root's snapshot-storage directory is promoted to be
/// the root subvolume, and the displaced root takes its place as the new
/// rollback target — the same skeleton as a promotion with the roles of the
/// root and the rollback subvolume swapped.
pub fn swap_rollback_to_root(root_subvol_name: &str, device: &str) -> (r: SwapPlan)
    ensures
        is_swap_plan(r, root_subvol_name@, device@, "/.au-snapshots/rollback"@),
{
    build_swap_plan(root_subvol_name, device, "/.au-snapshots/rollback")
}

/// The renames of a promotion plan track the subvolumes they move. The first
/// rename takes the live root's path to the transient rollback slot's path;
/// the second reaches the snapshot at its numbered entry in the snapshot
/// store of the now-displaced root and takes it to the live root's path; the
/// third takes the displaced root to the rollback entry of the new root's
/// snapshot store. Together with the exchange decomposition of the volume
/// model, each rename performs one slot move of the promotion.
pub proof fn lemma_plan_renames_track_the_slots(
    plan: SwapPlan,
    root_name: Seq<char>,
    device: Seq<char>,
    num: u32,
)
    requires
        is_swap_plan(
            plan,
            root_name,
            device,
            "/.au-snapshots/"@ + crate::text::decimal_view(num as nat),
        ),
    ensures
        plan.displace_root.from@ == mounted_path_view(root_name),
        plan.displace_root.to@ == mounted_rollback_view(),
        plan.promote_new_root.from@ == store_entry_path_view(
            mounted_rollback_view(),
            crate::text::decimal_view(num as nat),
        ),
        plan.promote_new_root.to@ == mounted_path_view(root_name),
        plan.nest_old_root.from@ == mounted_rollback_view(),
        plan.nest_old_root.to@ == store_entry_path_view(mounted_path_view(root_name), "rollback"@),
{
    reveal_strlit("/.au-snapshots/");
    reveal_strlit("/.au-snapshots/rollback");
    reveal_strlit("rollback");
    assert(plan.promote_new_root.from@ =~= store_entry_path_view(
        mounted_rollback_view(),
        crate::text::decimal_view(num as nat),
    ));
    assert(plan.nest_old_root.to@ =~= store_entry_path_view(
        mounted_path_view(root_name),
        "rollback"@,
    ));
}

fn build_swap_plan(root_subvol_name: &str, device: &str, new_root_rel: &str) -> (r: SwapPlan)
    ensures
        is_swap_plan(r, root_subvol_name@, device@, new_root_rel@),
{
    let mut root_path = String::from_str("/mnt");
    root_path.append("/");
    root_path.append(root_subvol_name);

    let mut mount_args: Vec<String> = Vec::new();
    mount_args.push(String::from_str("-t"));
    mount_args.push(String::from_str("btrfs"));
    mount_args.push(String::from_str("-o"));
    mount_args.push(String::from_str("subvolid=5"));
    mount_args.push(String::from_str(device));
    mount_args.push(String::from_str("/mnt"));
    proof {
        assert(mount_args.deep_view() =~= seq![
            "-t"@,
            "btrfs"@,
            "-o"@,
            "subvolid=5"@,
            device@,
            mount_dir_view(),
        ]);
    }

    let mut promote_from = String::from_str("/mnt");
    promote_from.append("/rollback");
    promote_from.append(new_root_rel);
    proof {
        assert(promote_from@ =~= mounted_rollback_view() + new_root_rel@);
    }

    let mut nest_to = root_path.clone();
    nest_to.append("/.au-snapshots/rollback");

    let mut unmount_args: Vec<String> = Vec::new();
    unmount_args.push(String::from_str("/mnt"));
    proof {
        assert(unmount_args.deep_view() =~= seq![mount_dir_view()]);
        assert(mounted_rollback_view() =~= mount_dir_view() + "/rollback"@);
    }

    let mut displace_to = String::from_str("/mnt");
    displace_to.append("/rollback");

    SwapPlan {
        mount: CommandLine { program: String::from_str("mount"), args: mount_args },
        displace_root: RenameStep { from: root_path.clone(), to: displace_to.clone() },
        promote_new_root: RenameStep { from: promote_from, to: root_path },
        nest_old_root: RenameStep { from: displace_to, to: nest_to },
        unmount: CommandLine { program: String::from_str("umount"), args: unmount_args },
    }
}

} // verus!
