//! The plain-text configuration: one `KEY VALUE` pair per line. Recognized
//! keys name the package manager, its update and install commands and
//! consent flag, and the resolved storage device and root subvolume.
//! Unrecognized lines are ignored; a missing key falls back to a built-in
//! default. Reading and writing the file stays with the caller; this module
//! parses its text and builds it.

use vstd::prelude::*;

use crate::text::{last_field_of, split_on, starts_with, str_eq, trim_str, trimmed_view};

verus! {

/// The configuration the tool runs with.
pub struct ConfigOpts {
    pub package_manager: String,
    pub update_command: String,
    pub install_command: String,
    pub yes_flag: String,
    pub root_partition: String,
    pub root_subvolume: String,
}

/// The value of `key` among the lines, or `dflt`: the last line that begins
/// with the key decides, and its value is the part after the line's final
/// space.
pub open spec fn config_field_view(lines: Seq<Seq<char>>, key: Seq<char>, dflt: Seq<char>) -> Seq<
    char,
>
    decreases lines.len(),
{
    if lines.len() == 0 {
        dflt
    } else if key.is_prefix_of(lines.last()) {
        split_on(lines.last(), ' ').last()
    } else {
        config_field_view(lines.drop_last(), key, dflt)
    }
}

fn config_field(lines: &Vec<String>, key: &str, dflt: &str) -> (r: String)
    ensures
        r@ == config_field_view(lines.deep_view(), key@, dflt@),
{
    let ghost lviews = lines.deep_view();
    let mut i: usize = lines.len();
    proof {
        assert(lviews.take(lines@.len() as int) =~= lviews);
    }
    while i > 0
        invariant
            0 <= i <= lines@.len(),
            lviews == lines.deep_view(),
            config_field_view(lviews, key@, dflt@) == config_field_view(
                lviews.take(i as int),
                key@,
                dflt@,
            ),
        decreases i,
    {
        proof {
            assert(lviews.take(i as int).last() == lviews[i - 1]);
            assert(lviews.take(i as int).drop_last() =~= lviews.take(i - 1));
        }
        if starts_with(lines[i - 1].as_str(), key) {
            return last_field_of(lines[i - 1].as_str(), ' ');
        }
        i = i - 1;
    }
    String::from_str(dflt)
}

/// The configuration the given file text holds: for each recognized key the
/// last line beginning with it decides, with the part after that line's
/// final space as the value; a key no line sets keeps its built-in default,
/// and the storage device and root subvolume default to empty.
pub fn read_config_file(contents: &str) -> (r: ConfigOpts)
    ensures
        ({
            let lines = split_on(contents@, '\n');
            &&& r.update_command@ == config_field_view(lines, "UPDATE_COMMAND"@, "update"@)
            &&& r.package_manager@ == config_field_view(lines, "PACKAGE_MANAGER"@, "dnf"@)
            &&& r.install_command@ == config_field_view(lines, "INSTALL_COMMAND"@, "install"@)
            &&& r.yes_flag@ == config_field_view(lines, "YES_FLAG"@, "-y"@)
            &&& r.root_partition@ == config_field_view(lines, "ROOT_PARTITION"@, ""@)
            &&& r.root_subvolume@ == config_field_view(lines, "ROOT_SUBVOLUME"@, ""@)
        }),
{
    let lines = crate::text::split_on_char(contents, '\n');
    ConfigOpts {
        update_command: config_field(&lines, "UPDATE_COMMAND", "update"),
        package_manager: config_field(&lines, "PACKAGE_MANAGER", "dnf"),
        install_command: config_field(&lines, "INSTALL_COMMAND", "install"),
        yes_flag: config_field(&lines, "YES_FLAG", "-y"),
        root_partition: config_field(&lines, "ROOT_PARTITION", ""),
        root_subvolume: config_field(&lines, "ROOT_SUBVOLUME", ""),
    }
}

/// Whether the configuration holds everything an update needs: a package
/// manager, an update command and a consent flag, none of them empty.
pub fn config_is_complete(opts: &ConfigOpts) -> (r: bool)
    ensures
        r == (opts.package_manager@.len() > 0 && opts.update_command@.len() > 0
            && opts.yes_flag@.len() > 0),
{
    !opts.package_manager.as_str().is_empty() && !opts.update_command.as_str().is_empty()
        && !opts.yes_flag.as_str().is_empty()
}

/// The package-manager commands a distro is assumed to use.
pub struct PackageManagerDefaults {
    pub package_manager: String,
    pub update_command: String,
    pub install_command: String,
    pub yes_flag: String,
}

/// The package-manager commands assumed for a detected distro name, as a
/// quadruple of package manager, update command, install command and consent
/// flag. A distro detected as `unknown` gets placeholders the operator must
/// replace; a name outside the known set gets nothing.
pub open spec fn defaults_view(d: Seq<char>) -> Option<(Seq<char>, Seq<char>, Seq<char>, Seq<char>)> {
    if d == "mint"@ || d == "ubuntu"@ || d == "debian"@ {
        Some(("apt"@, "upgrade"@, "install"@, "-y"@))
    } else if d == "suse"@ || d == "opensuse"@ {
        Some(("zypper"@, "update"@, "install"@, "-y"@))
    } else if d == "fedora"@ || d == "centos"@ || d == "oracle"@ {
        Some(("dnf"@, "update"@, "install"@, "-y"@))
    } else if d == "arch"@ || d == "endeavouros"@ {
        Some(("pacman"@, "-Syu"@, "-S"@, "--noconfirm"@))
    } else if d == "unknown"@ {
        Some(("please-replace"@, "please-replace"@, "please-replace"@, "please-replace"@))
    } else {
        None
    }
}

/// The package-manager commands assumed for the detected distro, or nothing
/// for a name outside the known set.
pub fn defaults_for_distro(distro: &str) -> (r: Option<PackageManagerDefaults>)
    ensures
        match r {
            Some(d) => defaults_view(distro@) == Some(
                (d.package_manager@, d.update_command@, d.install_command@, d.yes_flag@),
            ),
            None => defaults_view(distro@) is None,
        },
{
    if str_eq(distro, "mint") || str_eq(distro, "ubuntu") || str_eq(distro, "debian") {
        Some(
            PackageManagerDefaults {
                package_manager: String::from_str("apt"),
                update_command: String::from_str("upgrade"),
                install_command: String::from_str("install"),
                yes_flag: String::from_str("-y"),
            },
        )
    } else if str_eq(distro, "suse") || str_eq(distro, "opensuse") {
        Some(
            PackageManagerDefaults {
                package_manager: String::from_str("zypper"),
                update_command: String::from_str("update"),
                install_command: String::from_str("install"),
                yes_flag: String::from_str("-y"),
            },
        )
    } else if str_eq(distro, "fedora") || str_eq(distro, "centos") || str_eq(distro, "oracle") {
        Some(
            PackageManagerDefaults {
                package_manager: String::from_str("dnf"),
                update_command: String::from_str("update"),
                install_command: String::from_str("install"),
                yes_flag: String::from_str("-y"),
            },
        )
    } else if str_eq(distro, "arch") || str_eq(distro, "endeavouros") {
        Some(
            PackageManagerDefaults {
                package_manager: String::from_str("pacman"),
                update_command: String::from_str("-Syu"),
                install_command: String::from_str("-S"),
                yes_flag: String::from_str("--noconfirm"),
            },
        )
    } else if str_eq(distro, "unknown") {
        Some(
            PackageManagerDefaults {
                package_manager: String::from_str("please-replace"),
                update_command: String::from_str("please-replace"),
                install_command: String::from_str("please-replace"),
                yes_flag: String::from_str("please-replace"),
            },
        )
    } else {
        None
    }
}

/// What a freshly written configuration file holds: the four package-manager
/// lines, then the root subvolume and storage device lines for whichever of
/// the two was resolved, each value trimmed.
pub open spec fn config_contents_view(
    pm: Seq<char>,
    uc: Seq<char>,
    ic: Seq<char>,
    yf: Seq<char>,
    sub: Option<Seq<char>>,
    part: Option<Seq<char>>,
) -> Seq<char> {
    "PACKAGE_MANAGER "@ + pm + "\nUPDATE_COMMAND "@ + uc + "\nINSTALL_COMMAND "@ + ic
        + "\nYES_FLAG "@ + yf + "\n"@ + (match sub {
        Some(s) => "ROOT_SUBVOLUME "@ + trimmed_view(s) + "\n"@,
        None => Seq::empty(),
    }) + (match part {
        Some(p) => "ROOT_PARTITION "@ + trimmed_view(p) + "\n"@,
        None => Seq::empty(),
    })
}

/// The text of a freshly written configuration file, from the distro's
/// package-manager defaults and the resolved root subvolume and storage
/// device, where resolution succeeded.
pub fn config_file_contents(
    d: &PackageManagerDefaults,
    root_subvolume: &Option<String>,
    root_partition: &Option<String>,
) -> (r: String)
    ensures
        r@ == config_contents_view(
            d.package_manager@,
            d.update_command@,
            d.install_command@,
            d.yes_flag@,
            match root_subvolume {
                Some(s) => Some(s@),
                None => None,
            },
            match root_partition {
                Some(p) => Some(p@),
                None => None,
            },
        ),
{
    let mut out = String::from_str("PACKAGE_MANAGER ");
    out.append(d.package_manager.as_str());
    out.append("\nUPDATE_COMMAND ");
    out.append(d.update_command.as_str());
    out.append("\nINSTALL_COMMAND ");
    out.append(d.install_command.as_str());
    out.append("\nYES_FLAG ");
    out.append(d.yes_flag.as_str());
    out.append("\n");
    match root_subvolume {
        Some(s) => {
            out.append("ROOT_SUBVOLUME ");
            let t = trim_str(s.as_str());
            out.append(t.as_str());
            out.append("\n");
        },
        None => {},
    }
    match root_partition {
        Some(p) => {
            out.append("ROOT_PARTITION ");
            let t = trim_str(p.as_str());
            out.append(t.as_str());
            out.append("\n");
        },
        None => {},
    }
    proof {
        assert(out@ =~= config_contents_view(
            d.package_manager@,
            d.update_command@,
            d.install_command@,
            d.yes_flag@,
            match root_subvolume {
                Some(s) => Some(s@),
                None => None,
            },
            match root_partition {
                Some(p) => Some(p@),
                None => None,
            },
        ));
    }
    out
}

} // verus!
