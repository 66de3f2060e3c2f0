//! Character and string utilities shared by the parsers: blank-space
//! trimming, splitting on a separator, prefix and equality tests, ASCII
//! case folding, pattern removal, and decimal numbers read from and written
//! as text — each with the spec-level view of what it returns.

use vstd::prelude::*;

verus! {

/// The characters that count as blank space when command output is trimmed.
pub open spec fn is_blank_char(c: char) -> bool {
    c == ' ' || c == '\t' || c == '\n' || c == '\r'
}

/// The given text with leading and trailing blank space removed.
pub open spec fn trimmed_view(s: Seq<char>) -> Seq<char>
    decreases s.len(),
{
    if s.len() == 0 {
        s
    } else if is_blank_char(s[0]) {
        trimmed_view(s.drop_first())
    } else if is_blank_char(s.last()) {
        trimmed_view(s.drop_last())
    } else {
        s
    }
}

/// Whether `c` is blank space.
pub fn is_blank(c: char) -> (r: bool)
    ensures
        r == is_blank_char(c),
{
    c == ' ' || c == '\t' || c == '\n' || c == '\r'
}

proof fn lemma_trimmed_view_subrange(s: Seq<char>, lo: int, hi: int)
    requires
        0 <= lo <= hi <= s.len(),
        forall|i: int| 0 <= i < lo ==> is_blank_char(s[i]),
        forall|i: int| hi <= i < s.len() ==> is_blank_char(s[i]),
        lo < hi ==> !is_blank_char(s[lo]) && !is_blank_char(s[hi - 1]),
    ensures
        trimmed_view(s) == s.subrange(lo, hi),
    decreases s.len(),
{
    if s.len() == 0 {
        assert(trimmed_view(s) =~= s.subrange(lo, hi));
    } else if lo == hi {
        assert(is_blank_char(s[0]));
        lemma_trimmed_view_subrange(s.drop_first(), 0, 0);
        assert(s.drop_first().subrange(0, 0) =~= s.subrange(lo, hi));
    } else if lo > 0 {
        lemma_trimmed_view_subrange(s.drop_first(), lo - 1, hi - 1);
        assert(s.drop_first().subrange(lo - 1, hi - 1) =~= s.subrange(lo, hi));
    } else if hi < s.len() {
        lemma_trimmed_view_subrange(s.drop_last(), lo, hi);
        assert(s.drop_last().subrange(lo, hi) =~= s.subrange(lo, hi));
    } else {
        assert(trimmed_view(s) == s);
        assert(s.subrange(lo, hi) =~= s);
    }
}

/// The text with leading and trailing blank space removed.
pub fn trim_str(s: &str) -> (r: String)
    ensures
        r@ == trimmed_view(s@),
{
    let n = s.unicode_len();
    let mut lo: usize = 0;
    while lo < n && is_blank(s.get_char(lo))
        invariant
            0 <= lo <= n,
            n == s@.len(),
            forall|i: int| 0 <= i < lo ==> is_blank_char(s@[i]),
        decreases n - lo,
    {
        lo = lo + 1;
    }
    let mut hi: usize = n;
    while hi > lo && is_blank(s.get_char(hi - 1))
        invariant
            lo <= hi <= n,
            n == s@.len(),
            forall|i: int| hi <= i < n ==> is_blank_char(s@[i]),
        decreases hi,
    {
        hi = hi - 1;
    }
    proof {
        lemma_trimmed_view_subrange(s@, lo as int, hi as int);
    }
    String::from_str(s.substring_char(lo, hi))
}

/// Whether `c` is a decimal digit.
pub open spec fn is_digit_char(c: char) -> bool {
    c == '0' || c == '1' || c == '2' || c == '3' || c == '4' || c == '5' || c == '6' || c == '7'
        || c == '8' || c == '9'
}

/// The numeric value of a decimal digit.
pub open spec fn digit_value(c: char) -> int {
    if c == '0' {
        0
    } else if c == '1' {
        1
    } else if c == '2' {
        2
    } else if c == '3' {
        3
    } else if c == '4' {
        4
    } else if c == '5' {
        5
    } else if c == '6' {
        6
    } else if c == '7' {
        7
    } else if c == '8' {
        8
    } else {
        9
    }
}

/// The decimal digit for a value below ten.
pub open spec fn digit_char(d: int) -> char {
    if d == 0 {
        '0'
    } else if d == 1 {
        '1'
    } else if d == 2 {
        '2'
    } else if d == 3 {
        '3'
    } else if d == 4 {
        '4'
    } else if d == 5 {
        '5'
    } else if d == 6 {
        '6'
    } else if d == 7 {
        '7'
    } else if d == 8 {
        '8'
    } else {
        '9'
    }
}

/// Whether every character of `s` is a decimal digit.
pub open spec fn all_digits(s: Seq<char>) -> bool {
    forall|i: int| 0 <= i < s.len() ==> is_digit_char(s[i])
}

/// The number that the digits of `s` spell, most significant first.
pub open spec fn digits_value(s: Seq<char>) -> int
    decreases s.len(),
{
    if s.len() == 0 {
        0
    } else {
        digits_value(s.drop_last()) * 10 + digit_value(s.last())
    }
}

/// The decimal spelling of `n`, without leading zeros.
pub open spec fn decimal_view(n: nat) -> Seq<char>
    decreases n,
{
    if n < 10 {
        seq![digit_char(n as int)]
    } else {
        decimal_view(n / 10) + seq![digit_char(n as int % 10)]
    }
}

/// A digit's value is never negative, so neither is a digit string's.
pub proof fn lemma_digits_value_nonneg(s: Seq<char>)
    ensures
        digits_value(s) >= 0,
    decreases s.len(),
{
    if s.len() > 0 {
        lemma_digits_value_nonneg(s.drop_last());
    }
}

/// Extending a digit string never shrinks its value.
pub proof fn lemma_digits_value_prefix_le(s: Seq<char>, i: int)
    requires
        0 <= i <= s.len(),
    ensures
        digits_value(s.take(i)) <= digits_value(s),
    decreases s.len() - i,
{
    if i < s.len() {
        lemma_digits_value_prefix_le(s, i + 1);
        assert(s.take(i + 1).drop_last() =~= s.take(i));
        assert(s.take(i + 1).last() == s[i]);
        lemma_digits_value_nonneg(s.take(i));
    } else {
        assert(s.take(i) =~= s);
    }
}

/// A decimal spelling is nonempty, all digits, and spells its number back.
pub proof fn lemma_decimal_view_spells_its_number(n: nat)
    ensures
        decimal_view(n).len() >= 1,
        all_digits(decimal_view(n)),
        digits_value(decimal_view(n)) == n,
    decreases n,
{
    if n < 10 {
        let d = decimal_view(n);
        assert(d =~= seq![digit_char(n as int)]);
        assert(digits_value(d.drop_last()) == 0);
        assert(digit_value(digit_char(n as int)) == n);
    } else {
        lemma_decimal_view_spells_its_number(n / 10);
        let d = decimal_view(n);
        assert(d.drop_last() =~= decimal_view(n / 10));
        assert(d.last() == digit_char(n as int % 10));
        assert(digit_value(digit_char(n as int % 10)) == n % 10);
        assert(digits_value(d) == digits_value(decimal_view(n / 10)) * 10 + digit_value(d.last()));
        assert(digits_value(d) == (n / 10) * 10 + n % 10);
        assert forall|i: int| 0 <= i < d.len() implies is_digit_char(d[i]) by {
            if i < d.len() - 1 {
                assert(d[i] == decimal_view(n / 10)[i]);
            }
        }
    }
}

/// Whether `c` is a decimal digit.
pub fn is_digit(c: char) -> (r: bool)
    ensures
        r == is_digit_char(c),
{
    c == '0' || c == '1' || c == '2' || c == '3' || c == '4' || c == '5' || c == '6' || c == '7'
        || c == '8' || c == '9'
}

/// The numeric value of a decimal digit.
pub fn digit_of(c: char) -> (r: u32)
    requires
        is_digit_char(c),
    ensures
        r == digit_value(c),
{
    if c == '0' {
        0
    } else if c == '1' {
        1
    } else if c == '2' {
        2
    } else if c == '3' {
        3
    } else if c == '4' {
        4
    } else if c == '5' {
        5
    } else if c == '6' {
        6
    } else if c == '7' {
        7
    } else if c == '8' {
        8
    } else {
        9
    }
}

fn digit_str(d: u32) -> (r: &'static str)
    requires
        d < 10,
    ensures
        r@ =~= seq![digit_char(d as int)],
{
    proof {
        reveal_strlit("0");
        reveal_strlit("1");
        reveal_strlit("2");
        reveal_strlit("3");
        reveal_strlit("4");
        reveal_strlit("5");
        reveal_strlit("6");
        reveal_strlit("7");
        reveal_strlit("8");
        reveal_strlit("9");
    }
    if d == 0 {
        "0"
    } else if d == 1 {
        "1"
    } else if d == 2 {
        "2"
    } else if d == 3 {
        "3"
    } else if d == 4 {
        "4"
    } else if d == 5 {
        "5"
    } else if d == 6 {
        "6"
    } else if d == 7 {
        "7"
    } else if d == 8 {
        "8"
    } else {
        "9"
    }
}

/// Whether two pieces of text hold the same characters.
pub fn str_eq(a: &str, b: &str) -> (r: bool)
    ensures
        r == (a@ == b@),
{
    let x = String::from_str(a);
    let y = String::from_str(b);
    x == y
}

/// Whether `s` begins with `prefix`.
pub fn starts_with(s: &str, prefix: &str) -> (r: bool)
    ensures
        r == prefix@.is_prefix_of(s@),
{
    let np = prefix.unicode_len();
    if s.unicode_len() < np {
        false
    } else {
        str_eq(s.substring_char(0, np), prefix)
    }
}

/// The segments of `s` between occurrences of `sep`, in order: every
/// occurrence ends a segment, so consecutive separators and a leading or
/// trailing separator produce empty segments, and text without a separator
/// is a single segment.
pub open spec fn split_on(s: Seq<char>, sep: char) -> Seq<Seq<char>>
    decreases s.len(),
{
    if s.len() == 0 {
        seq![Seq::empty()]
    } else {
        let rest = split_on(s.drop_last(), sep);
        if s.last() == sep {
            rest.push(Seq::empty())
        } else {
            rest.drop_last().push(rest.last().push(s.last()))
        }
    }
}

/// A split always yields at least one segment.
pub proof fn lemma_split_on_nonempty(s: Seq<char>, sep: char)
    ensures
        split_on(s, sep).len() >= 1,
    decreases s.len(),
{
    if s.len() > 0 {
        lemma_split_on_nonempty(s.drop_last(), sep);
    }
}

/// The segments of `s` between occurrences of `sep`, in order.
pub fn split_on_char(s: &str, sep: char) -> (r: Vec<String>)
    ensures
        r.deep_view() == split_on(s@, sep),
        r@.len() >= 1,
{
    let n = s.unicode_len();
    let mut done: Vec<String> = Vec::new();
    let mut cur = String::new();
    let mut i: usize = 0;
    while i < n
        invariant
            0 <= i <= n,
            n == s@.len(),
            done.deep_view().push(cur@) =~= split_on(s@.take(i as int), sep),
        decreases n - i,
    {
        proof {
            assert(s@.take(i + 1).drop_last() =~= s@.take(i as int));
            assert(s@.take(i + 1).last() == s@[i as int]);
        }
        let c = s.get_char(i);
        if c == sep {
            let ghost pre = done.deep_view();
            done.push(cur);
            cur = String::new();
            proof {
                assert(done.deep_view() =~= pre.push(split_on(s@.take(i as int), sep).last()));
                assert(done.deep_view() =~= split_on(s@.take(i as int), sep));
                assert(done.deep_view().push(cur@) =~= split_on(s@.take(i + 1), sep));
            }
        } else {
            let piece = s.substring_char(i, i + 1);
            proof {
                assert(piece@ =~= seq![s@[i as int]]);
            }
            let ghost before = cur@;
            cur.append(piece);
            proof {
                let rest = split_on(s@.take(i as int), sep);
                assert(rest.last() == before);
                assert(rest.drop_last() =~= done.deep_view());
                assert(cur@ =~= rest.last().push(s@[i as int]));
                assert(done.deep_view().push(cur@) =~= split_on(s@.take(i + 1), sep));
            }
        }
        i = i + 1;
    }
    proof {
        assert(s@.take(n as int) =~= s@);
    }
    let ghost pre = done.deep_view();
    done.push(cur);
    proof {
        assert(done.deep_view() =~= pre.push(split_on(s@, sep).last()));
        lemma_split_on_nonempty(s@, sep);
        assert(done.deep_view() =~= split_on(s@, sep));
    }
    done
}

/// `c` with an upper-case ASCII letter folded to lower case; every other
/// character is kept.
pub open spec fn lower_char(c: char) -> char {
    if 65 <= c as u32 <= 90 {
        (((c as u32) + 32) as u8) as char
    } else {
        c
    }
}

/// The text with its upper-case ASCII letters folded to lower case.
pub open spec fn lower_view(s: Seq<char>) -> Seq<char> {
    s.map_values(|c: char| lower_char(c))
}

fn lower_letter(c: char) -> (r: Option<&'static str>)
    ensures
        match r {
            Some(t) => t@ == seq![lower_char(c)],
            None => lower_char(c) == c,
        },
{
    proof {
        reveal_strlit("a");
        reveal_strlit("b");
        reveal_strlit("c");
        reveal_strlit("d");
        reveal_strlit("e");
        reveal_strlit("f");
        reveal_strlit("g");
        reveal_strlit("h");
        reveal_strlit("i");
        reveal_strlit("j");
        reveal_strlit("k");
        reveal_strlit("l");
        reveal_strlit("m");
        reveal_strlit("n");
        reveal_strlit("o");
        reveal_strlit("p");
        reveal_strlit("q");
        reveal_strlit("r");
        reveal_strlit("s");
        reveal_strlit("t");
        reveal_strlit("u");
        reveal_strlit("v");
        reveal_strlit("w");
        reveal_strlit("x");
        reveal_strlit("y");
        reveal_strlit("z");
    }
    match c {
        'A' => Some("a"),
        'B' => Some("b"),
        'C' => Some("c"),
        'D' => Some("d"),
        'E' => Some("e"),
        'F' => Some("f"),
        'G' => Some("g"),
        'H' => Some("h"),
        'I' => Some("i"),
        'J' => Some("j"),
        'K' => Some("k"),
        'L' => Some("l"),
        'M' => Some("m"),
        'N' => Some("n"),
        'O' => Some("o"),
        'P' => Some("p"),
        'Q' => Some("q"),
        'R' => Some("r"),
        'S' => Some("s"),
        'T' => Some("t"),
        'U' => Some("u"),
        'V' => Some("v"),
        'W' => Some("w"),
        'X' => Some("x"),
        'Y' => Some("y"),
        'Z' => Some("z"),
        _ => None,
    }
}

/// The text with its upper-case ASCII letters folded to lower case.
pub fn ascii_lower(s: &str) -> (r: String)
    ensures
        r@ == lower_view(s@),
{
    let n = s.unicode_len();
    let mut out = String::new();
    let mut i: usize = 0;
    while i < n
        invariant
            0 <= i <= n,
            n == s@.len(),
            out@ =~= lower_view(s@.take(i as int)),
        decreases n - i,
    {
        let c = s.get_char(i);
        match lower_letter(c) {
            Some(t) => out.append(t),
            None => {
                let piece = s.substring_char(i, i + 1);
                proof {
                    assert(piece@ =~= seq![s@[i as int]]);
                }
                out.append(piece);
            },
        }
        proof {
            assert(out@ =~= lower_view(s@.take(i + 1)));
        }
        i = i + 1;
    }
    proof {
        assert(s@.take(n as int) =~= s@);
    }
    out
}

/// The text with every occurrence of `pat` removed, scanning left to right
/// without overlap; an empty pattern removes nothing.
pub open spec fn without_pattern(s: Seq<char>, pat: Seq<char>) -> Seq<char>
    decreases s.len(),
{
    if pat.len() == 0 || s.len() < pat.len() {
        s
    } else if s.take(pat.len() as int) == pat {
        without_pattern(s.skip(pat.len() as int), pat)
    } else {
        seq![s[0]] + without_pattern(s.drop_first(), pat)
    }
}

/// The text with every occurrence of `pat` removed, scanning left to right
/// without overlap.
pub fn remove_all(s: &str, pat: &str) -> (r: String)
    requires
        pat@.len() >= 1,
    ensures
        r@ == without_pattern(s@, pat@),
{
    let n = s.unicode_len();
    let np = pat.unicode_len();
    let mut out = String::new();
    let mut i: usize = 0;
    proof {
        assert(s@.skip(0) =~= s@);
        assert(Seq::<char>::empty() + without_pattern(s@, pat@) =~= without_pattern(s@, pat@));
    }
    while i < n
        invariant
            0 <= i <= n,
            n == s@.len(),
            np == pat@.len(),
            1 <= np,
            without_pattern(s@, pat@) == out@ + without_pattern(s@.skip(i as int), pat@),
        decreases n - i,
    {
        if n - i >= np && str_eq(s.substring_char(i, i + np), pat) {
            proof {
                assert(s@.skip(i as int).take(np as int) =~= s@.subrange(i as int, i + np));
                assert(s@.skip(i as int).skip(np as int) =~= s@.skip(i + np));
            }
            i = i + np;
        } else {
            proof {
                if n - i >= np {
                    assert(s@.skip(i as int).take(np as int) =~= s@.subrange(i as int, i + np));
                }
                assert(s@.skip(i as int).drop_first() =~= s@.skip(i + 1));
                assert(s@.skip(i as int) =~= seq![s@[i as int]] + s@.skip(i + 1));
                assert(without_pattern(s@.skip(i as int), pat@) == seq![s@[i as int]]
                    + without_pattern(s@.skip(i + 1), pat@));
            }
            let piece = s.substring_char(i, i + 1);
            proof {
                assert(piece@ =~= seq![s@[i as int]]);
            }
            out.append(piece);
            proof {
                assert(out@ + without_pattern(s@.skip(i + 1), pat@) =~= without_pattern(s@, pat@));
            }
            i = i + 1;
        }
    }
    proof {
        assert(s@.skip(n as int) =~= Seq::<char>::empty());
        assert(out@ + without_pattern(s@.skip(n as int), pat@) =~= out@);
    }
    out
}

/// The part of `s` after the final occurrence of `sep`, or all of `s` when
/// the separator does not occur.
pub fn last_field_of(s: &str, sep: char) -> (r: String)
    ensures
        r@ == split_on(s@, sep).last(),
{
    let parts = split_on_char(s, sep);
    let r = parts[parts.len() - 1].clone();
    proof {
        assert(parts.deep_view().last() == parts@[parts@.len() - 1]@);
    }
    r
}

/// Whether a split segment is nonempty.
pub open spec fn nonempty_seg(t: Seq<char>) -> bool {
    t.len() > 0
}

/// The nonempty segments of `s` between occurrences of `sep`, in order:
/// consecutive separators count as one and leading or trailing separators
/// are ignored.
pub open spec fn fields_view(s: Seq<char>, sep: char) -> Seq<Seq<char>> {
    split_on(s, sep).filter(|t: Seq<char>| nonempty_seg(t))
}

/// The nonempty segments of `s` between occurrences of `sep`, in order.
pub fn nonempty_fields(s: &str, sep: char) -> (r: Vec<String>)
    ensures
        r.deep_view() == fields_view(s@, sep),
{
    let parts = split_on_char(s, sep);
    let ghost pred = |t: Seq<char>| nonempty_seg(t);
    let mut out: Vec<String> = Vec::new();
    let mut j: usize = 0;
    proof {
        reveal(Seq::filter);
        assert(parts.deep_view().take(0).filter(pred) =~= Seq::<Seq<char>>::empty());
    }
    while j < parts.len()
        invariant
            0 <= j <= parts@.len(),
            pred == (|t: Seq<char>| nonempty_seg(t)),
            out.deep_view() =~= parts.deep_view().take(j as int).filter(pred),
        decreases parts@.len() - j,
    {
        proof {
            reveal(Seq::filter);
            assert(parts.deep_view().take(j + 1).drop_last() =~= parts.deep_view().take(j as int));
            assert(parts.deep_view().take(j + 1).last() == parts@[j as int]@);
        }
        if !parts[j].as_str().is_empty() {
            let ghost pre = out.deep_view();
            out.push(parts[j].clone());
            proof {
                assert(out.deep_view() =~= pre.push(parts@[j as int]@));
            }
        }
        proof {
            reveal(Seq::filter);
            let lastv = parts@[j as int]@;
            assert(pred(lastv) == nonempty_seg(lastv));
            assert(parts.deep_view().take(j + 1).filter(pred) == (if pred(lastv) {
                parts.deep_view().take(j as int).filter(pred).push(lastv)
            } else {
                parts.deep_view().take(j as int).filter(pred)
            }));
            assert(out.deep_view() =~= parts.deep_view().take(j + 1).filter(pred));
        }
        j = j + 1;
    }
    proof {
        assert(parts.deep_view().take(parts@.len() as int) =~= parts.deep_view());
        assert(pred =~= (|t: Seq<char>| nonempty_seg(t)));
    }
    out
}

/// The decimal spelling of `n`.
pub fn decimal_string(n: u32) -> (r: String)
    ensures
        r@ == decimal_view(n as nat),
    decreases n,
{
    if n < 10 {
        String::from_str(digit_str(n))
    } else {
        let mut prefix = decimal_string(n / 10);
        prefix.append(digit_str(n % 10));
        assert(prefix@ =~= decimal_view(n as nat));
        prefix
    }
}

} // verus!
