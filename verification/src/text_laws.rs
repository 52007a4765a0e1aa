//! What reading and writing text comes to.

use vstd::prelude::*;

use crate::search::{lemma_place_from, lemma_place_from_is, place, place_from};
use crate::text::{
    decimal, digit, first_field, is_digit, is_space, join,
    lemma_decimal_reads_back, lemma_find_from_is, lemma_text_before_irreflexive,
    lemma_trim_end_of_suffix, lemma_trim_start_of_prefix, lines, number, pad_left, parse_number,
    second_field, text_before, trim, trim_end,
};

verus! {

/// Whether every character of a text is white space.
pub open spec fn all_space(s: Seq<char>) -> bool {
    forall|i: int| 0 <= i < s.len() ==> is_space(#[trigger] s[i])
}

/// Whether a character is nowhere in a text.
pub open spec fn lacks(s: Seq<char>, c: char) -> bool {
    forall|i: int| 0 <= i < s.len() ==> (#[trigger] s[i]) != c
}

/// Trimming takes away the white space at the ends, all of it and nothing
/// else.
pub proof fn law_trimming_takes_white_space_at_the_ends(
    before: Seq<char>,
    kept: Seq<char>,
    behind: Seq<char>,
)
    requires
        all_space(before),
        all_space(behind),
        kept.len() > 0 ==> !is_space(kept.first()) && !is_space(kept.last()),
    ensures
        trim(before + kept + behind) == kept,
        trim_end(kept + behind) == kept,
{
    let s = before + kept + behind;
    let rest = kept + behind;
    assert(rest.skip(kept.len() as int) =~= behind);
    assert(rest.take(kept.len() as int) =~= kept);
    lemma_trim_end_of_suffix(rest, kept.len() as int);
    if kept.len() > 0 {
        assert(s.take(before.len() as int) =~= before);
        assert(s[before.len() as int] == kept[0]);
        lemma_trim_start_of_prefix(s, before.len() as int);
        assert(s.skip(before.len() as int) =~= rest);
    } else {
        assert(s.take(s.len() as int) =~= s);
        assert forall|i: int| 0 <= i < s.len() implies is_space(#[trigger] s[i]) by {
            if i < before.len() {
                assert(s[i] == before[i]);
            } else {
                assert(s[i] == behind[i - before.len()]);
            }
        }
        lemma_trim_start_of_prefix(s, s.len() as int);
        assert(s.skip(s.len() as int) =~= kept);
    }
}

/// A line ends where its line feed stands, and a carriage return before that
/// belongs to the end; what stands behind the last line feed is a line too,
/// unless it is nothing.
pub proof fn law_lines_end_at_line_feeds(line: Seq<char>, rest: Seq<char>)
    requires
        lacks(line, '\n'),
    ensures
        lines(line + seq!['\n'] + rest) == seq![
            if line.len() > 0 && line.last() == '\r' {
                line.drop_last()
            } else {
                line
            },
        ] + lines(rest),
        line.len() > 0 ==> lines(line) == seq![line],
        lines(Seq::<char>::empty()) == Seq::<Seq<char>>::empty(),
{
    let s = line + seq!['\n'] + rest;
    let k = line.len() as int;
    assert forall|i: int| 0 <= i < k implies s[i] != '\n' by {
        assert(s[i] == line[i]);
    }
    assert(s[k] == '\n');
    lemma_find_from_is(s, '\n', 0, k);
    assert(s.take(k) =~= line);
    assert(s.skip(k + 1) =~= rest);
    lemma_find_from_is(line, '\n', 0, k);
}

/// The first two fields of a text are what stands before its first separator
/// and what stands between that and the next.
pub proof fn law_fields_stand_between_separators(
    a: Seq<char>,
    b: Seq<char>,
    rest: Seq<char>,
    sep: char,
)
    requires
        lacks(a, sep),
        lacks(b, sep),
    ensures
        first_field(a, sep) == a,
        second_field(a, sep) is None,
        first_field(a + seq![sep] + b, sep) == a,
        second_field(a + seq![sep] + b, sep) == Some(b),
        first_field(a + seq![sep] + b + seq![sep] + rest, sep) == a,
        second_field(a + seq![sep] + b + seq![sep] + rest, sep) == Some(b),
{
    let n = a.len() as int;
    let two = a + seq![sep] + b;
    let three = two + seq![sep] + rest;
    lemma_find_from_is(a, sep, 0, n);
    assert(a.take(n) =~= a);
    assert(two[n] == sep);
    assert(three[n] == sep);
    assert forall|i: int| 0 <= i < n implies two[i] != sep && three[i] != sep by {
        assert(two[i] == a[i]);
        assert(three[i] == a[i]);
    }
    lemma_find_from_is(two, sep, 0, n);
    lemma_find_from_is(three, sep, 0, n);
    assert(two.take(n) =~= a);
    assert(three.take(n) =~= a);
    assert(two.skip(n + 1) =~= b);
    lemma_find_from_is(b, sep, 0, b.len() as int);
    assert(b.take(b.len() as int) =~= b);
    let tail = three.skip(n + 1);
    assert(tail =~= b + seq![sep] + rest);
    assert(tail[b.len() as int] == sep);
    assert forall|i: int| 0 <= i < b.len() implies tail[i] != sep by {
        assert(tail[i] == b[i]);
    }
    lemma_find_from_is(tail, sep, 0, b.len() as int);
    assert(tail.take(b.len() as int) =~= b);
}

/// The given number of zeros.
pub open spec fn zeros(n: nat) -> Seq<char> {
    Seq::new(n, |i: int| '0')
}

proof fn lemma_zeros_count_nothing(n: nat, s: Seq<char>)
    ensures
        number(zeros(n) + s) == number(s),
    decreases n + s.len(),
{
    let t = zeros(n) + s;
    if s.len() > 0 {
        assert(t.drop_last() =~= zeros(n) + s.drop_last());
        lemma_zeros_count_nothing(n, s.drop_last());
    } else if n > 0 {
        let m = (n - 1) as nat;
        assert(t.drop_last() =~= zeros(m) + s);
        lemma_zeros_count_nothing(m, s);
        assert(t.last() == '0');
    } else {
        assert(t =~= s);
    }
}

/// A number is read as what it is written as, also with zeros or one plus
/// sign before it, as long as it fits 32 bits.
pub proof fn law_numbers_are_read_as_written(n: nat, more: nat)
    ensures
        ({
            let s = zeros(more) + decimal(n);
            let read = if n <= u32::MAX {
                Some(n as u32)
            } else {
                None
            };
            parse_number(s) == read && parse_number(seq!['+'] + s) == read
        }),
{
    let s = zeros(more) + decimal(n);
    lemma_decimal_reads_back(n);
    lemma_zeros_count_nothing(more, decimal(n));
    assert forall|i: int| 0 <= i < s.len() implies is_digit(#[trigger] s[i]) by {
        if i >= more {
            assert(s[i] == decimal(n)[i - more]);
        }
    }
    assert(is_digit(s[0]));
    let plus = seq!['+'] + s;
    assert(plus.drop_first() =~= s);
}

/// What holds anything but digits, with one plus sign before them or not, is
/// no number; nor is a text without digits.
pub proof fn law_nothing_else_is_a_number(s: Seq<char>)
    requires
        parse_number(s) is Some,
    ensures
        s.len() > 0,
        forall|i: int|
            0 <= i < s.len() ==> 48 <= (#[trigger] s[i]) as u32 <= 57 || i == 0 && s[i] == '+',
        s.first() == '+' ==> s.len() > 1,
{
    let digits = if s.len() > 0 && s.first() == '+' {
        s.drop_first()
    } else {
        s
    };
    assert forall|i: int| 0 <= i < s.len() implies 48 <= (#[trigger] s[i]) as u32 <= 57 || i == 0
        && s[i] == '+' by {
        if s.first() == '+' {
            if i > 0 {
                assert(digits[i - 1] == s[i]);
                assert(is_digit(digits[i - 1]));
            }
        } else {
            assert(is_digit(digits[i]));
        }
    }
}

/// A number is written without a zero before it.
pub proof fn law_numbers_are_written_short(n: nat)
    ensures
        decimal(n).len() > 0,
        decimal(n).first() == '0' ==> n == 0 && decimal(n).len() == 1,
    decreases n,
{
    if n >= 10 {
        law_numbers_are_written_short(n / 10);
    } else {
        assert(n > 0 ==> digit(n) != '0');
    }
}

/// Joining goes part by part, with the separator between any two and nowhere
/// else.
pub proof fn law_joining_goes_part_by_part(a: Seq<Seq<char>>, b: Seq<Seq<char>>, sep: Seq<char>)
    ensures
        a.len() > 0 && b.len() > 0 ==> join(a + b, sep) == join(a, sep) + sep + join(b, sep),
        a.len() == 1 ==> join(a, sep) == a[0],
        a.len() == 0 ==> join(a, sep).len() == 0,
    decreases b.len(),
{
    if a.len() > 0 && b.len() > 0 {
        let both = a + b;
        assert(both.drop_last() =~= a + b.drop_last());
        assert(both.last() == b.last());
        if b.len() == 1 {
            assert(both.drop_last() =~= a);
        } else {
            law_joining_goes_part_by_part(a, b.drop_last(), sep);
            assert(join(both, sep) =~= join(a, sep) + sep + join(b, sep));
        }
    }
}

/// Padding puts blanks before a text, as many as it is short of the width.
pub proof fn law_padding_puts_blanks_before(s: Seq<char>, width: nat)
    ensures
        ({
            let r = pad_left(s, width);
            let blanks = r.len() - s.len();
            &&& r.len() >= s.len()
            &&& r.len() == s.len() || r.len() == width
            &&& r.len() >= width
            &&& r.skip(blanks) == s
            &&& forall|i: int| 0 <= i < blanks ==> (#[trigger] r[i]) == ' '
        }),
{
    let r = pad_left(s, width);
    assert(r.skip(r.len() - s.len()) =~= s);
}

/// Texts are ordered by the first character in which they differ, and a text
/// stands before all that it begins.
pub proof fn law_texts_are_ordered_by_their_first_difference(
    start: Seq<char>,
    x: char,
    y: char,
    s: Seq<char>,
    t: Seq<char>,
)
    requires
        (x as int) < (y as int),
    ensures
        text_before(start + seq![x] + s, start + seq![y] + t),
        !text_before(start + seq![y] + t, start + seq![x] + s),
        text_before(start, start + seq![x] + s),
        !text_before(start + seq![x] + s, start),
        !text_before(start, start),
    decreases start.len(),
{
    let a = start + seq![x] + s;
    let b = start + seq![y] + t;
    lemma_text_before_irreflexive(start);
    if start.len() > 0 {
        let rest = start.drop_first();
        law_texts_are_ordered_by_their_first_difference(rest, x, y, s, t);
        assert(a.drop_first() =~= rest + seq![x] + s);
        assert(b.drop_first() =~= rest + seq![y] + t);
        assert(a[0] == start[0] && b[0] == start[0]);
    } else {
        assert(a[0] == x && b[0] == y);
    }
}

/// The first match is a match, and none stands before it; there is none only
/// where nothing matches.
pub proof fn law_the_first_match_is_found<T>(s: Seq<T>, pred: spec_fn(T) -> bool, k: int)
    ensures
        place(s, pred) == Some(k) <==> 0 <= k < s.len() && pred(s[k]) && forall|i: int|
            0 <= i < k ==> !pred(#[trigger] s[i]),
        place(s, pred) is None <==> forall|i: int| 0 <= i < s.len() ==> !pred(#[trigger] s[i]),
{
    lemma_place_from(s, pred, 0);
    let found = place_from(s, pred, 0);
    if 0 <= k < s.len() && pred(s[k]) && forall|i: int| 0 <= i < k ==> !pred(#[trigger] s[i]) {
        lemma_place_from_is(s, pred, 0, k);
    }
    if found < s.len() {
        assert(pred(s[found]));
    }
}

} // verus!
