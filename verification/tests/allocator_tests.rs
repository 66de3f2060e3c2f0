use atomic_update::allocator::{get_next_snapshot_path, parse_snapshot_entry, snapshots_dir};

fn entries(names: &[&str]) -> Vec<String> {
    names.iter().map(|s| s.to_string()).collect()
}

#[test]
fn empty_directory_allocates_id_one() {
    let path = get_next_snapshot_path(&entries(&[]));
    assert_eq!(path, "/.au-snapshots/1");
}

#[test]
fn gaps_are_not_filled_max_plus_one_wins() {
    let path = get_next_snapshot_path(&entries(&["1", "3", "5"]));
    assert_eq!(path, "/.au-snapshots/6");
}

#[test]
fn entry_order_does_not_matter() {
    let path = get_next_snapshot_path(&entries(&["5", "1", "3"]));
    assert_eq!(path, "/.au-snapshots/6");
}

#[test]
fn non_numeric_entries_are_ignored() {
    let path = get_next_snapshot_path(&entries(&["1", "rollback", "3", ".hidden", "not-a-number"]));
    assert_eq!(path, "/.au-snapshots/4");
}

#[test]
fn only_non_numeric_entries_allocate_id_one() {
    let path = get_next_snapshot_path(&entries(&["rollback", "lost+found", ""]));
    assert_eq!(path, "/.au-snapshots/1");
}

#[test]
fn zero_is_not_a_snapshot_id() {
    assert_eq!(parse_snapshot_entry("0"), None);
    let path = get_next_snapshot_path(&entries(&["0"]));
    assert_eq!(path, "/.au-snapshots/1");
}

#[test]
fn leading_zeros_spell_their_value() {
    assert_eq!(parse_snapshot_entry("007"), Some(7));
    let path = get_next_snapshot_path(&entries(&["007", "2"]));
    assert_eq!(path, "/.au-snapshots/8");
}

#[test]
fn signs_and_blanks_do_not_parse() {
    assert_eq!(parse_snapshot_entry("+5"), None);
    assert_eq!(parse_snapshot_entry("-5"), None);
    assert_eq!(parse_snapshot_entry(" 5"), None);
    assert_eq!(parse_snapshot_entry(""), None);
}

#[test]
fn oversized_numbers_do_not_parse() {
    assert_eq!(parse_snapshot_entry("2147483647"), Some(2147483647));
    assert_eq!(parse_snapshot_entry("2147483648"), None);
    assert_eq!(parse_snapshot_entry("99999999999999999999"), None);
}

#[test]
fn largest_id_still_allocates_its_successor() {
    let path = get_next_snapshot_path(&entries(&["2147483647"]));
    assert_eq!(path, "/.au-snapshots/2147483648");
}

#[test]
fn snapshots_dir_is_fixed() {
    assert_eq!(snapshots_dir(), "/.au-snapshots");
}
