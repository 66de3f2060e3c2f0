use atomic_update::config::{
    config_file_contents, config_is_complete, defaults_for_distro, read_config_file,
};

#[test]
fn config_lines_are_parsed_by_key() {
    let text = "PACKAGE_MANAGER zypper\n\
                UPDATE_COMMAND update\n\
                INSTALL_COMMAND install\n\
                YES_FLAG -y\n\
                ROOT_SUBVOLUME @\n\
                ROOT_PARTITION /dev/sda2\n";
    let opts = read_config_file(text);
    assert_eq!(opts.package_manager, "zypper");
    assert_eq!(opts.update_command, "update");
    assert_eq!(opts.install_command, "install");
    assert_eq!(opts.yes_flag, "-y");
    assert_eq!(opts.root_subvolume, "@");
    assert_eq!(opts.root_partition, "/dev/sda2");
}

#[test]
fn missing_keys_fall_back_to_defaults() {
    let opts = read_config_file("");
    assert_eq!(opts.package_manager, "dnf");
    assert_eq!(opts.update_command, "update");
    assert_eq!(opts.install_command, "install");
    assert_eq!(opts.yes_flag, "-y");
    assert_eq!(opts.root_subvolume, "");
    assert_eq!(opts.root_partition, "");
}

#[test]
fn unrecognized_lines_are_ignored() {
    let text = "SOME_FUTURE_KEY whatever\nPACKAGE_MANAGER apt\n";
    let opts = read_config_file(text);
    assert_eq!(opts.package_manager, "apt");
}

#[test]
fn the_last_line_for_a_key_wins() {
    let text = "PACKAGE_MANAGER apt\nPACKAGE_MANAGER pacman\n";
    let opts = read_config_file(text);
    assert_eq!(opts.package_manager, "pacman");
}

#[test]
fn the_value_is_what_follows_the_last_space() {
    let opts = read_config_file("UPDATE_COMMAND dist upgrade\n");
    assert_eq!(opts.update_command, "upgrade");
}

#[test]
fn a_complete_config_is_recognized() {
    let opts = read_config_file("PACKAGE_MANAGER dnf\n");
    assert!(config_is_complete(&opts));
}

#[test]
fn an_emptied_field_makes_the_config_incomplete() {
    // A key whose line ends in a space has an empty value.
    let opts = read_config_file("YES_FLAG \n");
    assert_eq!(opts.yes_flag, "");
    assert!(!config_is_complete(&opts));
}

#[test]
fn debian_family_defaults_to_apt() {
    for name in ["mint", "ubuntu", "debian"] {
        let d = defaults_for_distro(name).unwrap();
        assert_eq!(d.package_manager, "apt");
        assert_eq!(d.update_command, "upgrade");
        assert_eq!(d.install_command, "install");
        assert_eq!(d.yes_flag, "-y");
    }
}

#[test]
fn suse_family_defaults_to_zypper() {
    for name in ["suse", "opensuse"] {
        let d = defaults_for_distro(name).unwrap();
        assert_eq!(d.package_manager, "zypper");
        assert_eq!(d.update_command, "update");
    }
}

#[test]
fn fedora_family_defaults_to_dnf() {
    for name in ["fedora", "centos", "oracle"] {
        let d = defaults_for_distro(name).unwrap();
        assert_eq!(d.package_manager, "dnf");
        assert_eq!(d.update_command, "update");
    }
}

#[test]
fn arch_family_defaults_to_pacman() {
    for name in ["arch", "endeavouros"] {
        let d = defaults_for_distro(name).unwrap();
        assert_eq!(d.package_manager, "pacman");
        assert_eq!(d.update_command, "-Syu");
        assert_eq!(d.install_command, "-S");
        assert_eq!(d.yes_flag, "--noconfirm");
    }
}

#[test]
fn unknown_distro_gets_placeholders() {
    let d = defaults_for_distro("unknown").unwrap();
    assert_eq!(d.package_manager, "please-replace");
    assert_eq!(d.yes_flag, "please-replace");
}

#[test]
fn unrecognized_distro_gets_nothing() {
    assert!(defaults_for_distro("gentoo").is_none());
    assert!(defaults_for_distro("").is_none());
}

#[test]
fn written_config_holds_every_resolved_value() {
    let d = defaults_for_distro("fedora").unwrap();
    let text = config_file_contents(
        &d,
        &Some("root\n".to_string()),
        &Some(" /dev/sda3 ".to_string()),
    );
    assert_eq!(
        text,
        "PACKAGE_MANAGER dnf\nUPDATE_COMMAND update\nINSTALL_COMMAND install\nYES_FLAG -y\n\
         ROOT_SUBVOLUME root\nROOT_PARTITION /dev/sda3\n"
    );
}

#[test]
fn unresolved_values_are_left_out_of_the_config() {
    let d = defaults_for_distro("debian").unwrap();
    let text = config_file_contents(&d, &None, &None);
    assert_eq!(
        text,
        "PACKAGE_MANAGER apt\nUPDATE_COMMAND upgrade\nINSTALL_COMMAND install\nYES_FLAG -y\n"
    );
}

#[test]
fn written_config_reads_back_unchanged() {
    let d = defaults_for_distro("opensuse").unwrap();
    let text = config_file_contents(&d, &Some("@".to_string()), &Some("/dev/sda2".to_string()));
    let opts = read_config_file(&text);
    assert_eq!(opts.package_manager, "zypper");
    assert_eq!(opts.update_command, "update");
    assert_eq!(opts.install_command, "install");
    assert_eq!(opts.yes_flag, "-y");
    assert_eq!(opts.root_subvolume, "@");
    assert_eq!(opts.root_partition, "/dev/sda2");
}
