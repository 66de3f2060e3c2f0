//! Plain descriptions of the external commands the tool runs. The library
//! only decides which program to run and with which arguments; the caller
//! spawns the process and feeds the observed exit status back in.

use vstd::prelude::*;

verus! {

/// A program and the arguments to run it with.
pub struct CommandLine {
    pub program: String,
    pub args: Vec<String>,
}

/// The command that materializes a copy-on-write snapshot of the live root
/// at the allocated target path. The snapshot primitive itself fails when
/// the target already exists, when the caller lacks privilege, or when the
/// underlying operation reports an error; the caller propagates that.
pub fn create_root_snapshot(snapshot_target_dir: &str) -> (r: CommandLine)
    ensures
        r.program@ == "btrfs"@,
        r.args.deep_view() =~= seq!["subvolume"@, "snapshot"@, "/"@, snapshot_target_dir@],
{
    let mut args: Vec<String> = Vec::new();
    args.push(String::from_str("subvolume"));
    args.push(String::from_str("snapshot"));
    args.push(String::from_str("/"));
    args.push(String::from_str(snapshot_target_dir));
    proof {
        assert(args.deep_view() =~= seq!["subvolume"@, "snapshot"@, "/"@, snapshot_target_dir@]);
    }
    CommandLine { program: String::from_str("btrfs"), args }
}

/// Whether a process run inside the sandbox counts as a success: only an
/// exit status of zero does; a nonzero status, or no status at all (the
/// process was killed or never spawned), is a failure.
pub fn exit_status_is_success(exit_code: Option<i32>) -> (r: bool)
    ensures
        r == (exit_code == Some(0i32)),
{
    match exit_code {
        Some(code) => code == 0,
        None => false,
    }
}

} // verus!
