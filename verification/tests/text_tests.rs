use atomic_update::text::{
    ascii_lower, decimal_string, last_field_of, nonempty_fields, remove_all, split_on_char,
    trim_str,
};

#[test]
fn trim_removes_surrounding_blanks() {
    assert_eq!(trim_str("  hello \n\t"), "hello");
    assert_eq!(trim_str("hello"), "hello");
    assert_eq!(trim_str(" \n\t\r "), "");
    assert_eq!(trim_str(""), "");
    assert_eq!(trim_str(" a b "), "a b");
}

#[test]
fn split_keeps_empty_segments() {
    assert_eq!(split_on_char("a b", ' '), vec!["a", "b"]);
    assert_eq!(split_on_char("a  b", ' '), vec!["a", "", "b"]);
    assert_eq!(split_on_char(" a ", ' '), vec!["", "a", ""]);
    assert_eq!(split_on_char("", ' '), vec![""]);
    assert_eq!(split_on_char("abc", ' '), vec!["abc"]);
}

#[test]
fn nonempty_fields_drop_the_empty_segments() {
    assert_eq!(nonempty_fields("  a   b  ", ' '), vec!["a", "b"]);
    assert_eq!(nonempty_fields("", ' '), Vec::<String>::new());
}

#[test]
fn last_field_is_the_text_after_the_final_separator() {
    assert_eq!(last_field_of("ID 256 path root", ' '), "root");
    assert_eq!(last_field_of("lonely", ' '), "lonely");
    assert_eq!(last_field_of("trailing ", ' '), "");
}

#[test]
fn lowering_folds_only_ascii_letters() {
    assert_eq!(ascii_lower("Fedora Linux"), "fedora linux");
    assert_eq!(ascii_lower("BTRFS /"), "btrfs /");
    assert_eq!(ascii_lower("already lower 123"), "already lower 123");
}

#[test]
fn removing_a_pattern_removes_every_occurrence() {
    assert_eq!(remove_all("arch linux", "linux"), "arch ");
    assert_eq!(remove_all("linuxlinux", "linux"), "");
    assert_eq!(remove_all("nothing here", "linux"), "nothing here");
    assert_eq!(remove_all("lilinuxnux", "linux"), "linux");
}

#[test]
fn decimal_strings_spell_their_number() {
    assert_eq!(decimal_string(0), "0");
    assert_eq!(decimal_string(7), "7");
    assert_eq!(decimal_string(10), "10");
    assert_eq!(decimal_string(2147483648), "2147483648");
}
