//! Parsers for the command outputs the tool inspects: the effective user id,
//! the subvolume listing that names the root subvolume, the mount table that
//! names the storage device, and the OS release text that names the distro.
//! The caller runs the commands and passes their text in; everything here is
//! a pure function of that text.

use vstd::prelude::*;

use crate::text::{
    ascii_lower, fields_view, lower_view, nonempty_fields, remove_all, split_on, split_on_char,
    starts_with, str_eq, trim_str, trimmed_view, without_pattern,
};

verus! {

/// The captured streams of a command that ran to completion.
pub struct CommandOutput {
    pub stdout: String,
    pub stderr: String,
}

/// What the two captured streams are combined into: each stream that holds
/// anything, followed by a line break, standard output first.
pub open spec fn combined_output_view(stdout: Seq<char>, stderr: Seq<char>) -> Seq<char> {
    (if stdout.len() > 0 {
        stdout + "\n"@
    } else {
        Seq::empty()
    }) + (if stderr.len() > 0 {
        stderr + "\n"@
    } else {
        Seq::empty()
    })
}

/// The text a command run is reported as: its combined streams, or `fail`
/// when the command could not be run at all.
pub fn get_command_output(outcome: Option<&CommandOutput>) -> (r: String)
    ensures
        match outcome {
            Some(o) => r@ == combined_output_view(o.stdout@, o.stderr@),
            None => r@ == "fail"@,
        },
{
    match outcome {
        None => String::from_str("fail"),
        Some(o) => {
            let mut result = String::new();
            if !o.stdout.as_str().is_empty() {
                result.append(o.stdout.as_str());
                result.append("\n");
            }
            if !o.stderr.as_str().is_empty() {
                result.append(o.stderr.as_str());
                result.append("\n");
            }
            proof {
                assert(result@ =~= combined_output_view(o.stdout@, o.stderr@));
            }
            result
        },
    }
}

/// Whether the identity query's output names the superuser: its trimmed text
/// is the single digit zero.
pub fn is_root_user(uid_output: &str) -> (r: bool)
    ensures
        r == (trimmed_view(uid_output@) == seq!['0']),
{
    let t = trim_str(uid_output);
    proof {
        reveal_strlit("0");
    }
    let r = str_eq(t.as_str(), "0");
    proof {
        if t@ == "0"@ {
            assert(t@ =~= seq!['0']);
        }
        if t@ == seq!['0'] {
            assert(t@ =~= "0"@);
        }
    }
    r
}

/// The root subvolume name a listing line proposes: the part of the line
/// after its final space, if that part is one of the known conventions.
pub open spec fn root_name_in_line(line: Seq<char>) -> Option<Seq<char>> {
    let tok = split_on(line, ' ').last();
    if tok == "root"@ || tok == "@"@ {
        Some(tok)
    } else {
        None
    }
}

/// The first line's proposal, if any; otherwise the rest of the lines'.
pub open spec fn root_name_in_lines(lines: Seq<Seq<char>>) -> Option<Seq<char>>
    decreases lines.len(),
{
    if lines.len() == 0 {
        None
    } else if root_name_in_line(lines[0]) is Some {
        root_name_in_line(lines[0])
    } else {
        root_name_in_lines(lines.drop_first())
    }
}

/// The heuristic never invents a name: whatever it detects is one of the
/// known conventions, `root` or `@`.
pub proof fn lemma_root_name_is_a_known_convention(lines: Seq<Seq<char>>)
    ensures
        root_name_in_lines(lines) is Some ==> root_name_in_lines(lines)->0 == "root"@
            || root_name_in_lines(lines)->0 == "@"@,
    decreases lines.len(),
{
    if lines.len() > 0 && root_name_in_line(lines[0]) is None {
        lemma_root_name_is_a_known_convention(lines.drop_first());
    }
}

/// The root subvolume's name, read from the subvolume listing: the first
/// line whose final space-separated part is `root` or `@` — the conventions
/// the tool knows — names it. `None` when no line matches; the heuristic
/// fails explicitly rather than guessing.
pub fn get_root_subvolume_name(listing: &str) -> (r: Option<String>)
    ensures
        match r {
            Some(name) => root_name_in_lines(split_on(listing@, '\n')) == Some(name@),
            None => root_name_in_lines(split_on(listing@, '\n')) is None,
        },
{
    let lines = split_on_char(listing, '\n');
    let ghost lviews = lines.deep_view();
    let mut i: usize = 0;
    proof {
        assert(lviews.skip(0) =~= lviews);
    }
    while i < lines.len()
        invariant
            0 <= i <= lines@.len(),
            lviews == lines.deep_view(),
            lviews == split_on(listing@, '\n'),
            root_name_in_lines(lviews) == root_name_in_lines(lviews.skip(i as int)),
        decreases lines@.len() - i,
    {
        proof {
            assert(lviews.skip(i as int)[0] == lviews[i as int]);
            assert(lviews.skip(i as int).drop_first() =~= lviews.skip(i + 1));
        }
        let parts = split_on_char(lines[i].as_str(), ' ');
        let tok = &parts[parts.len() - 1];
        proof {
            assert(tok@ == split_on(lviews[i as int], ' ').last());
        }
        if str_eq(tok.as_str(), "root") || str_eq(tok.as_str(), "@") {
            return Some(tok.clone());
        }
        i = i + 1;
    }
    proof {
        assert(lviews.skip(lines@.len() as int) =~= Seq::<Seq<char>>::empty());
    }
    None
}

/// The storage device a mount-table line proposes: with the line folded to
/// lower case and read as blank-separated columns, a line with at least
/// three columns that is not the heading and shows a btrfs filesystem
/// mounted at the root proposes its first column.
pub open spec fn device_in_line(line: Seq<char>) -> Option<Seq<char>> {
    let toks = fields_view(lower_view(line), ' ');
    if toks.len() >= 3 && toks[0] != "filesystem"@ && toks[1] == "btrfs"@ && toks[2] == "/"@ {
        Some(toks[0])
    } else {
        None
    }
}

/// The first line's proposal, if any; otherwise the rest of the lines'.
pub open spec fn device_in_lines(lines: Seq<Seq<char>>) -> Option<Seq<char>>
    decreases lines.len(),
{
    if lines.len() == 0 {
        None
    } else if device_in_line(lines[0]) is Some {
        device_in_line(lines[0])
    } else {
        device_in_lines(lines.drop_first())
    }
}

/// The storage device hosting the root filesystem, read from the mount
/// table: the source column of the first line that shows a btrfs filesystem
/// mounted at `/`. Empty when the mount table could not be read (the caller
/// reports `fail`) or no line matches.
pub fn get_root_partition_device(df_output: &str) -> (r: String)
    ensures
        df_output@ == "fail"@ ==> r@ == Seq::<char>::empty(),
        df_output@ != "fail"@ ==> match device_in_lines(split_on(df_output@, '\n')) {
            Some(d) => r@ == d,
            None => r@ == Seq::<char>::empty(),
        },
{
    if str_eq(df_output, "fail") {
        return String::new();
    }
    let lines = split_on_char(df_output, '\n');
    let ghost lviews = lines.deep_view();
    let mut i: usize = 0;
    proof {
        assert(lviews.skip(0) =~= lviews);
    }
    while i < lines.len()
        invariant
            0 <= i <= lines@.len(),
            lviews == lines.deep_view(),
            lviews == split_on(df_output@, '\n'),
            df_output@ != "fail"@,
            device_in_lines(lviews) == device_in_lines(lviews.skip(i as int)),
        decreases lines@.len() - i,
    {
        proof {
            assert(lviews.skip(i as int)[0] == lviews[i as int]);
            assert(lviews.skip(i as int).drop_first() =~= lviews.skip(i + 1));
        }
        let low = ascii_lower(lines[i].as_str());
        let toks = nonempty_fields(low.as_str(), ' ');
        proof {
            assert(toks.deep_view() == fields_view(lower_view(lviews[i as int]), ' '));
        }
        if toks.len() >= 3 && !str_eq(toks[0].as_str(), "filesystem") && str_eq(
            toks[1].as_str(),
            "btrfs",
        ) && str_eq(toks[2].as_str(), "/") {
            return toks[0].clone();
        }
        i = i + 1;
    }
    proof {
        assert(lviews.skip(lines@.len() as int) =~= Seq::<Seq<char>>::empty());
    }
    String::new()
}

/// The quoted name an OS release line proposes: a line of the form
/// `NAME="..."` proposes what stands between the quotes. Lines too short to
/// hold anything between the quotes propose nothing.
pub open spec fn os_name_in_line(line: Seq<char>) -> Option<Seq<char>> {
    if "NAME=\""@.is_prefix_of(line) && line.len() >= 7 {
        Some(line.subrange(6, line.len() - 1))
    } else {
        None
    }
}

/// The proposal of the last line that makes one, if any.
pub open spec fn os_name_in_lines(lines: Seq<Seq<char>>) -> Option<Seq<char>>
    decreases lines.len(),
{
    if lines.len() == 0 {
        None
    } else if os_name_in_line(lines.last()) is Some {
        os_name_in_line(lines.last())
    } else {
        os_name_in_lines(lines.drop_last())
    }
}

/// What the detected OS name is reduced to: folded to lower case, with every
/// `linux` removed, trimmed, and cut at the first blank.
pub open spec fn distro_of_name(raw: Seq<char>) -> Seq<char> {
    split_on(trimmed_view(without_pattern(lower_view(raw), "linux"@)), ' ')[0]
}

/// The distro the OS release text names: the quoted name of its last
/// `NAME="..."` line — or `unknown` when there is none — folded to lower
/// case, with every `linux` removed, trimmed, and cut at the first blank.
pub fn try_detect_distro(os_release: &str) -> (r: String)
    ensures
        r@ == match os_name_in_lines(split_on(os_release@, '\n')) {
            Some(raw) => distro_of_name(raw),
            None => distro_of_name("unknown"@),
        },
{
    let lines = split_on_char(os_release, '\n');
    let ghost lviews = lines.deep_view();
    let mut raw = String::from_str("unknown");
    let mut found = false;
    let mut i: usize = 0;
    while i < lines.len()
        invariant
            0 <= i <= lines@.len(),
            lviews == lines.deep_view(),
            match os_name_in_lines(lviews.take(i as int)) {
                Some(c) => found && raw@ == c,
                None => !found && raw@ == "unknown"@,
            },
        decreases lines@.len() - i,
    {
        proof {
            assert(lviews.take(i + 1).drop_last() =~= lviews.take(i as int));
            assert(lviews.take(i + 1).last() == lviews[i as int]);
        }
        let line = lines[i].as_str();
        let n = line.unicode_len();
        if starts_with(line, "NAME=\"") && n >= 7 {
            raw = String::from_str(line.substring_char(6, n - 1));
            found = true;
        }
        i = i + 1;
    }
    proof {
        assert(lviews.take(lines@.len() as int) =~= lviews);
    }
    let low = ascii_lower(raw.as_str());
    proof {
        reveal_strlit("linux");
    }
    let cleaned = remove_all(low.as_str(), "linux");
    let trimmed = trim_str(cleaned.as_str());
    let parts = split_on_char(trimmed.as_str(), ' ');
    let first = parts[0].clone();
    proof {
        if os_name_in_lines(lviews) is None {
            assert(raw@ == "unknown"@);
        }
    }
    first
}

} // verus!
