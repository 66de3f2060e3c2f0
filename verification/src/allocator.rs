//! Snapshot numbering and allocation.
//!
//! A snapshot is identified by a positive integer and materializes as
//! `/.au-snapshots/<ID>`. The allocator inspects the names of the existing
//! entries of the snapshot-storage directory, keeps those that spell a
//! positive decimal number, and reserves the highest observed number plus
//! one; with no numeric entry it reserves number one. It only computes the
//! path: the caller lists the directory and later creates the snapshot.

use vstd::prelude::*;

use crate::text::{
    all_digits, decimal_string, decimal_view, digit_of, digits_value, is_digit, is_digit_char,
    lemma_digits_value_prefix_le,
};

verus! {

/// The largest snapshot number an entry may spell.
pub const MAX_SNAPSHOT_ID: u32 = 0x7fff_ffff;

/// The number a snapshot directory entry stands for: its name must be all
/// decimal digits and spell a value between one and `MAX_SNAPSHOT_ID`.
pub open spec fn snapshot_id_of_entry(name: Seq<char>) -> Option<u32> {
    if name.len() > 0 && all_digits(name) && 1 <= digits_value(name) <= MAX_SNAPSHOT_ID as int {
        Some(digits_value(name) as u32)
    } else {
        None
    }
}

/// The highest snapshot number among the entries, or zero if none is numeric.
pub open spec fn max_snapshot_id(entries: Seq<Seq<char>>) -> int
    decreases entries.len(),
{
    if entries.len() == 0 {
        0
    } else {
        let rest = max_snapshot_id(entries.drop_last());
        match snapshot_id_of_entry(entries.last()) {
            Some(v) => if v > rest {
                v as int
            } else {
                rest
            },
            None => rest,
        }
    }
}

/// The number the allocator reserves next: the highest observed plus one.
pub open spec fn next_snapshot_id(entries: Seq<Seq<char>>) -> int {
    max_snapshot_id(entries) + 1
}

/// The path of the snapshot-storage directory.
pub open spec fn snapshots_dir_view() -> Seq<char> {
    "/.au-snapshots"@
}

/// The path reserved for the next snapshot.
pub open spec fn next_snapshot_path_view(entries: Seq<Seq<char>>) -> Seq<char> {
    snapshots_dir_view() + "/"@ + decimal_view(next_snapshot_id(entries) as nat)
}

/// The highest snapshot number never exceeds what an entry may spell.
pub proof fn lemma_max_snapshot_id_bounds(entries: Seq<Seq<char>>)
    ensures
        0 <= max_snapshot_id(entries) <= MAX_SNAPSHOT_ID as int,
    decreases entries.len(),
{
    if entries.len() > 0 {
        lemma_max_snapshot_id_bounds(entries.drop_last());
    }
}

/// Entries that spell no snapshot number never change what the allocator
/// reserves: inserting such an entry anywhere leaves the next number as it
/// was.
pub proof fn lemma_non_numeric_entries_ignored(entries: Seq<Seq<char>>, junk: Seq<char>, i: int)
    requires
        0 <= i <= entries.len(),
        snapshot_id_of_entry(junk) is None,
    ensures
        next_snapshot_id(entries.insert(i, junk)) == next_snapshot_id(entries),
    decreases entries.len(),
{
    let with = entries.insert(i, junk);
    if i == entries.len() {
        assert(with.drop_last() =~= entries);
        assert(with.last() == junk);
    } else {
        assert(with.drop_last() =~= entries.drop_last().insert(i, junk));
        assert(with.last() == entries.last());
        lemma_non_numeric_entries_ignored(entries.drop_last(), junk, i);
    }
}

/// The allocator never hands out a number in use: every numeric entry of the
/// directory spells a smaller number than the one reserved next, so no two
/// live snapshots ever share a number.
pub proof fn lemma_allocated_id_is_fresh(entries: Seq<Seq<char>>, i: int)
    requires
        0 <= i < entries.len(),
        snapshot_id_of_entry(entries[i]) is Some,
    ensures
        snapshot_id_of_entry(entries[i])->0 < next_snapshot_id(entries),
    decreases entries.len(),
{
    if i < entries.len() - 1 {
        lemma_allocated_id_is_fresh(entries.drop_last(), i);
    }
}

/// Numbers are allocated monotonically: a directory that gains an entry
/// never makes the allocator reserve a smaller number, and when the entry
/// spells the number just reserved — the snapshot the allocation was for —
/// the next reservation is exactly one higher.
pub proof fn lemma_allocation_is_monotonic(entries: Seq<Seq<char>>, entry: Seq<char>)
    ensures
        next_snapshot_id(entries) <= next_snapshot_id(entries.push(entry)),
        (1 <= next_snapshot_id(entries) <= MAX_SNAPSHOT_ID as int && entry == decimal_view(
            next_snapshot_id(entries) as nat,
        )) ==> next_snapshot_id(entries.push(entry)) == next_snapshot_id(entries) + 1,
{
    let with = entries.push(entry);
    assert(with.drop_last() =~= entries);
    assert(with.last() == entry);
    lemma_max_snapshot_id_bounds(entries);
    if 1 <= next_snapshot_id(entries) <= MAX_SNAPSHOT_ID as int && entry == decimal_view(
        next_snapshot_id(entries) as nat,
    ) {
        crate::text::lemma_decimal_view_spells_its_number(next_snapshot_id(entries) as nat);
        assert(snapshot_id_of_entry(entry) == Some(next_snapshot_id(entries) as u32));
    }
}

/// The snapshot-storage directory.
pub fn snapshots_dir() -> (r: &'static str)
    ensures
        r@ == snapshots_dir_view(),
{
    "/.au-snapshots"
}

/// The snapshot number that `name` spells, if any: all decimal digits,
/// between one and `MAX_SNAPSHOT_ID`.
pub fn parse_snapshot_entry(name: &str) -> (r: Option<u32>)
    ensures
        r == snapshot_id_of_entry(name@),
{
    let n = name.unicode_len();
    let mut i: usize = 0;
    let mut acc: u64 = 0;
    while i < n
        invariant
            0 <= i <= n,
            n == name@.len(),
            forall|j: int| 0 <= j < i ==> is_digit_char(name@[j]),
            acc == digits_value(name@.take(i as int)),
            acc <= MAX_SNAPSHOT_ID as u64,
        decreases n - i,
    {
        let c = name.get_char(i);
        if !is_digit(c) {
            proof {
                assert(!is_digit_char(name@[i as int]));
            }
            return None;
        }
        let d = digit_of(c);
        proof {
            assert(name@.take(i + 1).drop_last() =~= name@.take(i as int));
            assert(name@.take(i + 1).last() == name@[i as int]);
        }
        acc = acc * 10 + d as u64;
        i = i + 1;
        if acc > MAX_SNAPSHOT_ID as u64 {
            proof {
                if all_digits(name@) {
                    lemma_digits_value_prefix_le(name@, i as int);
                }
            }
            return None;
        }
    }
    proof {
        assert(name@.take(n as int) =~= name@);
    }
    if n == 0 || acc == 0 {
        None
    } else {
        Some(acc as u32)
    }
}

/// The path reserved for the next snapshot: one past the highest numbered
/// entry of the snapshot-storage directory, or number one when no entry is
/// numeric. `entries` holds the names of the directory's entries.
pub fn get_next_snapshot_path(entries: &Vec<String>) -> (r: String)
    ensures
        r@ == next_snapshot_path_view(entries.deep_view()),
{
    let ghost views = entries.deep_view();
    let mut best: u32 = 0;
    let mut i: usize = 0;
    proof {
        lemma_max_snapshot_id_bounds(views);
    }
    while i < entries.len()
        invariant
            0 <= i <= entries.len(),
            views == entries.deep_view(),
            best == max_snapshot_id(views.take(i as int)),
            best <= MAX_SNAPSHOT_ID,
        decreases entries.len() - i,
    {
        proof {
            assert(views.take(i + 1).drop_last() =~= views.take(i as int));
            assert(views.take(i + 1).last() == views[i as int]);
            assert(views[i as int] == entries[i as int]@);
        }
        if let Some(v) = parse_snapshot_entry(entries[i].as_str()) {
            if v > best {
                best = v;
            }
        }
        i = i + 1;
    }
    proof {
        assert(views.take(entries.len() as int) =~= views);
    }
    let mut path = String::from_str(snapshots_dir());
    path.append("/");
    path.append(decimal_string(best + 1).as_str());
    proof {
        assert(path@ =~= next_snapshot_path_view(entries.deep_view()));
    }
    path
}

} // verus!
