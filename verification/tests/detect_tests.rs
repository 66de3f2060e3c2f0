use atomic_update::detect::{
    get_command_output, get_root_partition_device, get_root_subvolume_name, is_root_user,
    try_detect_distro, CommandOutput,
};

#[test]
fn uid_zero_is_root() {
    assert!(is_root_user("0"));
    assert!(is_root_user("0\n"));
    assert!(is_root_user("0\n\n"));
    assert!(is_root_user("  0  "));
}

#[test]
fn other_uids_are_not_root() {
    assert!(!is_root_user("1000\n"));
    assert!(!is_root_user(""));
    assert!(!is_root_user("00"));
    assert!(!is_root_user("root"));
}

#[test]
fn root_subvolume_found_by_convention() {
    let listing = "ID 256 gen 119588 top level 5 path root\n\
                   ID 257 gen 119588 top level 5 path home\n";
    assert_eq!(get_root_subvolume_name(listing), Some("root".to_string()));

    let listing = "ID 256 gen 42 top level 5 path @\nID 257 gen 42 top level 5 path @home\n";
    assert_eq!(get_root_subvolume_name(listing), Some("@".to_string()));
}

#[test]
fn first_matching_line_decides_the_root_subvolume() {
    let listing = "ID 256 gen 1 top level 5 path @\nID 257 gen 1 top level 5 path root\n";
    assert_eq!(get_root_subvolume_name(listing), Some("@".to_string()));
}

#[test]
fn unknown_conventions_yield_no_root_subvolume() {
    let listing = "ID 256 gen 119588 top level 5 path rootfs\n";
    assert_eq!(get_root_subvolume_name(listing), None);
    assert_eq!(get_root_subvolume_name(""), None);
}

#[test]
fn root_device_is_the_btrfs_mount_at_slash() {
    let df = "Filesystem     Type  Mounted on\n\
              /dev/sda1      vfat  /boot/efi\n\
              /dev/sda3      btrfs /\n";
    assert_eq!(get_root_partition_device(df), "/dev/sda3");
}

#[test]
fn device_lines_are_compared_in_lower_case() {
    let df = "/DEV/SDA3 BTRFS /\n";
    assert_eq!(get_root_partition_device(df), "/dev/sda3");
}

#[test]
fn heading_and_short_lines_are_skipped() {
    let df = "Filesystem btrfs /\nshort line\n";
    assert_eq!(get_root_partition_device(df), "");
}

#[test]
fn unreadable_mount_table_yields_no_device() {
    assert_eq!(get_root_partition_device("fail"), "");
    assert_eq!(get_root_partition_device(""), "");
}

#[test]
fn command_output_combines_both_streams() {
    let o = CommandOutput { stdout: "out".to_string(), stderr: "err".to_string() };
    assert_eq!(get_command_output(Some(&o)), "out\nerr\n");
}

#[test]
fn command_output_skips_empty_streams() {
    let o = CommandOutput { stdout: "only".to_string(), stderr: String::new() };
    assert_eq!(get_command_output(Some(&o)), "only\n");
    let o = CommandOutput { stdout: String::new(), stderr: "oops".to_string() };
    assert_eq!(get_command_output(Some(&o)), "oops\n");
    let o = CommandOutput { stdout: String::new(), stderr: String::new() };
    assert_eq!(get_command_output(Some(&o)), "");
}

#[test]
fn command_that_cannot_run_reports_fail() {
    assert_eq!(get_command_output(None), "fail");
}

#[test]
fn fedora_is_detected() {
    let os_release = "NAME=\"Fedora Linux\"\nVERSION=\"39\"\nID=fedora\n";
    assert_eq!(try_detect_distro(os_release), "fedora");
}

#[test]
fn opensuse_keeps_its_first_word() {
    let os_release = "NAME=\"openSUSE Tumbleweed\"\nID=opensuse-tumbleweed\n";
    assert_eq!(try_detect_distro(os_release), "opensuse");
}

#[test]
fn arch_drops_the_linux_suffix() {
    let os_release = "NAME=\"Arch Linux\"\n";
    assert_eq!(try_detect_distro(os_release), "arch");
}

#[test]
fn missing_name_line_is_unknown() {
    assert_eq!(try_detect_distro("ID=mystery\n"), "unknown");
    assert_eq!(try_detect_distro(""), "unknown");
}

#[test]
fn the_last_name_line_wins() {
    let os_release = "NAME=\"Debian GNU/Linux\"\nNAME=\"Ubuntu\"\n";
    assert_eq!(try_detect_distro(os_release), "ubuntu");
}
