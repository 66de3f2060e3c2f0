//! Sandboxed command execution inside a snapshot: the commands that prepare
//! a snapshot for a chrooted run and the chrooted run itself.
//!
//! A chroot has no `/etc/resolv.conf` of its own, so network-dependent
//! commands would fail inside the snapshot; the plan therefore first removes
//! any stale copy and copies the host's resolver configuration in. Those two
//! steps are best-effort conveniences: the caller reports their failure but
//! only the chrooted command's own exit status decides success.

use vstd::prelude::*;

use crate::command::CommandLine;

verus! {

/// The commands that run `command` with `args` inside the snapshot at
/// `snapshot_dir`, in order: remove the snapshot's stale resolver
/// configuration, copy the host's in, then chroot into the snapshot and run
/// the command.
pub struct SandboxPlan {
    pub resolv_remove: CommandLine,
    pub resolv_copy: CommandLine,
    pub chroot_run: CommandLine,
}

/// The path of the resolver configuration inside the snapshot.
pub open spec fn resolv_path_view(snapshot_dir: Seq<char>) -> Seq<char> {
    snapshot_dir + "/etc/resolv.conf"@
}

/// The command plan that runs `command` with `args` inside the snapshot at
/// `snapshot_dir`, with the host's resolver configuration copied in first.
pub fn run_command_in_snapshot_chroot(
    snapshot_dir: &str,
    command: &str,
    args: &Vec<String>,
) -> (r: SandboxPlan)
    ensures
        r.resolv_remove.program@ == "rm"@,
        r.resolv_remove.args.deep_view() =~= seq![resolv_path_view(snapshot_dir@)],
        r.resolv_copy.program@ == "cp"@,
        r.resolv_copy.args.deep_view() =~= seq![
            "/etc/resolv.conf"@,
            resolv_path_view(snapshot_dir@),
        ],
        r.chroot_run.program@ == "chroot"@,
        r.chroot_run.args.deep_view() =~= seq![snapshot_dir@, command@] + args.deep_view(),
{
    let mut resolv_loc = String::from_str(snapshot_dir);
    resolv_loc.append("/etc/resolv.conf");

    let mut remove_args: Vec<String> = Vec::new();
    remove_args.push(resolv_loc.clone());

    let mut copy_args: Vec<String> = Vec::new();
    copy_args.push(String::from_str("/etc/resolv.conf"));
    copy_args.push(resolv_loc);

    let mut chroot_args: Vec<String> = Vec::new();
    chroot_args.push(String::from_str(snapshot_dir));
    chroot_args.push(String::from_str(command));
    let mut i: usize = 0;
    while i < args.len()
        invariant
            0 <= i <= args@.len(),
            chroot_args.deep_view() =~= seq![snapshot_dir@, command@] + args.deep_view().take(
                i as int,
            ),
        decreases args@.len() - i,
    {
        let ghost pre = chroot_args.deep_view();
        chroot_args.push(args[i].clone());
        proof {
            assert(chroot_args.deep_view() =~= pre.push(args.deep_view()[i as int]));
            assert(args.deep_view().take(i + 1) =~= args.deep_view().take(i as int).push(
                args.deep_view()[i as int],
            ));
            assert(chroot_args.deep_view() =~= seq![snapshot_dir@, command@] + args.deep_view().take(
                i + 1,
            ));
        }
        i = i + 1;
    }
    proof {
        assert(args.deep_view().take(args@.len() as int) =~= args.deep_view());
    }
    SandboxPlan {
        resolv_remove: CommandLine { program: String::from_str("rm"), args: remove_args },
        resolv_copy: CommandLine { program: String::from_str("cp"), args: copy_args },
        chroot_run: CommandLine { program: String::from_str("chroot"), args: chroot_args },
    }
}

} // verus!
