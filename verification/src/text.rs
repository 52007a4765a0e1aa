//! Text as the picker reads and writes it: character classes, trimming,
//! splitting, decimal numbers and the order of names.

use vstd::prelude::*;

verus! {

/// `String::push` appends the given character to the end of the string.
pub assume_specification[ String::push ](s: &mut String, ch: char)
    ensures
        final(s)@ == old(s)@.push(ch),
;

/// `String::pop` removes the last character and returns it; an empty string
/// stays empty and gives `None`.
pub assume_specification[ String::pop ](s: &mut String) -> (ch: Option<char>)
    ensures
        old(s)@.len() == 0 ==> ch is None && final(s)@ == old(s)@,
        old(s)@.len() > 0 ==> ch == Some(old(s)@.last()) && final(s)@ == old(s)@.drop_last(),
;

/// The characters of a string, one by one.
pub fn chars_of(s: &str) -> (v: Vec<char>)
    ensures
        v@ == s@,
{
    let mut v: Vec<char> = Vec::new();
    for c in it: s.chars()
        invariant
            it.seq() == s@,
            v@ == s@.take(it.index()),
    {
        v.push(c);
    }
    assert(s@.take(s@.len() as int) == s@);
    v
}

/// The string made of the characters from `from` up to, not including, `to`.
pub fn string_between(v: &Vec<char>, from: usize, to: usize) -> (s: String)
    requires
        from <= to <= v@.len(),
    ensures
        s@ == v@.subrange(from as int, to as int),
{
    let mut s = String::new();
    let mut i: usize = from;
    while i < to
        invariant
            from <= i <= to <= v@.len(),
            s@ == v@.subrange(from as int, i as int),
        decreases to - i,
    {
        s.push(v[i]);
        i += 1;
    }
    s
}

// ---------------------------------------------------------------------------
// Character classes
// ---------------------------------------------------------------------------

/// Whether a character has the Unicode property `White_Space`.
pub open spec fn is_space(c: char) -> bool {
    ||| 0x9 <= c as u32 <= 0xd
    ||| c as u32 == 0x20
    ||| c as u32 == 0x85
    ||| c as u32 == 0xa0
    ||| c as u32 == 0x1680
    ||| 0x2000 <= c as u32 <= 0x200a
    ||| 0x2028 <= c as u32 <= 0x2029
    ||| c as u32 == 0x202f
    ||| c as u32 == 0x205f
    ||| c as u32 == 0x3000
}

/// Decides [`is_space`].
pub fn space(c: char) -> (r: bool)
    ensures
        r == is_space(c),
{
    let n: u32 = c as u32;
    (0x9 <= n && n <= 0xd) || n == 0x20 || n == 0x85 || n == 0xa0 || n == 0x1680 || (0x2000 <= n
        && n <= 0x200a) || n == 0x2028 || n == 0x2029 || n == 0x202f || n == 0x205f || n == 0x3000
}

/// Whether a character is in the Unicode category `Cc`.
pub open spec fn is_control(c: char) -> bool {
    c as u32 <= 0x1f || 0x7f <= c as u32 <= 0x9f
}

/// Decides [`is_control`].
pub fn control(c: char) -> (r: bool)
    ensures
        r == is_control(c),
{
    let n: u32 = c as u32;
    n <= 0x1f || (0x7f <= n && n <= 0x9f)
}

/// Whether a text holds nothing but white space.
pub open spec fn is_blank(s: Seq<char>) -> bool {
    forall|i: int| 0 <= i < s.len() ==> is_space(#[trigger] s[i])
}

/// Decides [`is_blank`].
pub fn blank(s: &str) -> (r: bool)
    ensures
        r == is_blank(s@),
{
    let v = chars_of(s);
    let mut i: usize = 0;
    while i < v.len()
        invariant
            v@ == s@,
            i <= v@.len(),
            forall|k: int| 0 <= k < i ==> is_space(#[trigger] s@[k]),
        decreases v@.len() - i,
    {
        if !space(v[i]) {
            assert(!is_space(s@[i as int]));
            return false;
        }
        i += 1;
    }
    true
}

// ---------------------------------------------------------------------------
// Trimming
// ---------------------------------------------------------------------------

/// The text without the white space at its end.
pub open spec fn trim_end(s: Seq<char>) -> Seq<char>
    decreases s.len(),
{
    if s.len() > 0 && is_space(s.last()) {
        trim_end(s.drop_last())
    } else {
        s
    }
}

/// The text without the white space at its start.
pub open spec fn trim_start(s: Seq<char>) -> Seq<char>
    decreases s.len(),
{
    if s.len() > 0 && is_space(s.first()) {
        trim_start(s.drop_first())
    } else {
        s
    }
}

/// The text without the white space at its start and end.
pub open spec fn trim(s: Seq<char>) -> Seq<char> {
    trim_end(trim_start(s))
}

/// `trim_end` keeps a prefix: what it drops is white space, and what is left
/// is empty or ends in something else.
pub proof fn lemma_trim_end(s: Seq<char>)
    ensures
        trim_end(s).len() <= s.len(),
        trim_end(s) == s.take(trim_end(s).len() as int),
        is_blank(s.skip(trim_end(s).len() as int)),
        trim_end(s).len() > 0 ==> !is_space(trim_end(s).last()),
        trim_end(trim_end(s)) == trim_end(s),
    decreases s.len(),
{
    if s.len() > 0 && is_space(s.last()) {
        lemma_trim_end(s.drop_last());
        let n = trim_end(s).len() as int;
        assert(s.drop_last().take(n) == s.take(n));
        assert forall|i: int| 0 <= i < s.skip(n).len() implies is_space(#[trigger] s.skip(n)[i]) by {
            if n + i < s.len() - 1 {
                assert(s.drop_last().skip(n)[i] == s.skip(n)[i]);
            }
        }
    } else {
        assert(s.take(s.len() as int) == s);
    }
}

/// A text that ends in something other than white space is left alone.
pub proof fn lemma_trim_end_of_suffix(s: Seq<char>, n: int)
    requires
        0 <= n <= s.len(),
        is_blank(s.skip(n)),
        n > 0 ==> !is_space(s[n - 1]),
    ensures
        trim_end(s) == s.take(n),
    decreases s.len(),
{
    if n < s.len() {
        assert(s.skip(n)[s.len() - 1 - n] == s.last());
        assert forall|i: int| 0 <= i < s.drop_last().skip(n).len() implies is_space(
            #[trigger] s.drop_last().skip(n)[i],
        ) by {
            assert(s.drop_last().skip(n)[i] == s.skip(n)[i]);
        }
        lemma_trim_end_of_suffix(s.drop_last(), n);
        assert(s.drop_last().take(n) == s.take(n));
    } else {
        assert(s.take(n) == s);
    }
}

/// A text that starts with something other than white space is left alone.
pub proof fn lemma_trim_start_of_prefix(s: Seq<char>, n: int)
    requires
        0 <= n <= s.len(),
        is_blank(s.take(n)),
        n < s.len() ==> !is_space(s[n]),
    ensures
        trim_start(s) == s.skip(n),
    decreases n,
{
    if n > 0 {
        assert(s.take(n)[0] == s.first());
        assert forall|i: int| 0 <= i < s.drop_first().take(n - 1).len() implies is_space(
            #[trigger] s.drop_first().take(n - 1)[i],
        ) by {
            assert(s.drop_first().take(n - 1)[i] == s.take(n)[i + 1]);
        }
        lemma_trim_start_of_prefix(s.drop_first(), n - 1);
        assert(s.drop_first().skip(n - 1) == s.skip(n));
    } else {
        assert(s.skip(0) == s);
    }
}

/// Removes the white space at the end of a text.
pub fn trimmed_end(s: &str) -> (r: String)
    ensures
        r@ == trim_end(s@),
{
    let v = chars_of(s);
    let mut n: usize = v.len();
    while n > 0 && space(v[n - 1])
        invariant
            v@ == s@,
            n <= v@.len(),
            is_blank(s@.skip(n as int)),
        decreases n,
    {
        n -= 1;
        assert forall|i: int| 0 <= i < s@.skip(n as int).len() implies is_space(
            #[trigger] s@.skip(n as int)[i],
        ) by {
            if i > 0 {
                assert(s@.skip(n as int)[i] == s@.skip(n + 1)[i - 1]);
            }
        }
    }
    proof {
        lemma_trim_end_of_suffix(s@, n as int);
    }
    string_between(&v, 0, n)
}

/// Removes the white space at both ends of a text.
pub fn trimmed(s: &str) -> (r: String)
    ensures
        r@ == trim(s@),
{
    let v = chars_of(s);
    let mut n: usize = 0;
    while n < v.len() && space(v[n])
        invariant
            v@ == s@,
            n <= v@.len(),
            is_blank(s@.take(n as int)),
        decreases v@.len() - n,
    {
        n += 1;
        assert forall|i: int| 0 <= i < s@.take(n as int).len() implies is_space(
            #[trigger] s@.take(n as int)[i],
        ) by {
            if i < n - 1 {
                assert(s@.take(n as int)[i] == s@.take(n - 1)[i]);
            }
        }
    }
    proof {
        lemma_trim_start_of_prefix(s@, n as int);
    }
    let rest = string_between(&v, n, v.len());
    assert(rest@ == s@.skip(n as int));
    trimmed_end(rest.as_str())
}

// ---------------------------------------------------------------------------
// Finding and splitting
// ---------------------------------------------------------------------------

/// The place of the first `c` at or after `from`, or the length of the text
/// when there is none.
pub open spec fn find_from(s: Seq<char>, c: char, from: int) -> int
    decreases s.len() - from,
{
    if from >= s.len() {
        s.len() as int
    } else if s[from] == c {
        from
    } else {
        find_from(s, c, from + 1)
    }
}

/// The place of the first `c`, or the length of the text when there is none.
pub open spec fn find(s: Seq<char>, c: char) -> int {
    find_from(s, c, 0)
}

/// What [`find_from`] finds: the nearest `c`, with no other before it.
pub proof fn lemma_find_from(s: Seq<char>, c: char, from: int)
    requires
        0 <= from <= s.len(),
    ensures
        from <= find_from(s, c, from) <= s.len(),
        find_from(s, c, from) < s.len() ==> s[find_from(s, c, from)] == c,
        forall|i: int| from <= i < find_from(s, c, from) ==> s[i] != c,
    decreases s.len() - from,
{
    if from < s.len() && s[from] != c {
        lemma_find_from(s, c, from + 1);
    }
}

/// The place `k` is the first `c` when it holds `c`, or is the end, and no
/// `c` stands between `from` and it.
pub proof fn lemma_find_from_is(s: Seq<char>, c: char, from: int, k: int)
    requires
        0 <= from <= k <= s.len(),
        k < s.len() ==> s[k] == c,
        forall|i: int| from <= i < k ==> s[i] != c,
    ensures
        find_from(s, c, from) == k,
    decreases k - from,
{
    if from < k {
        lemma_find_from_is(s, c, from + 1, k);
    }
}

fn position_from(v: &Vec<char>, c: char, from: usize) -> (k: usize)
    requires
        from <= v@.len(),
    ensures
        k == find_from(v@, c, from as int),
        from <= k <= v@.len(),
{
    let mut k: usize = from;
    while k < v.len() && v[k] != c
        invariant
            from <= k <= v@.len(),
            find_from(v@, c, from as int) == find_from(v@, c, k as int),
        decreases v@.len() - k,
    {
        k += 1;
    }
    k
}

/// A line of text without the carriage return that ended it.
pub open spec fn strip_carriage_return(line: Seq<char>) -> Seq<char> {
    if line.len() > 0 && line.last() == '\r' {
        line.drop_last()
    } else {
        line
    }
}

/// The lines of a text. A line ends in a line feed or in a carriage return
/// and a line feed; the last one need not end in either.
pub open spec fn lines(s: Seq<char>) -> Seq<Seq<char>>
    decreases s.len(),
{
    if s.len() == 0 {
        Seq::empty()
    } else {
        let k = find(s, '\n');
        if k < 0 || k >= s.len() {
            seq![s]
        } else {
            seq![strip_carriage_return(s.take(k))] + lines(s.skip(k + 1))
        }
    }
}

proof fn lemma_find_in_skip(s: Seq<char>, c: char, from: int)
    requires
        0 <= from <= s.len(),
    ensures
        find(s.skip(from), c) == find_from(s, c, from) - from,
{
    lemma_find_from(s, c, from);
    let k = find_from(s, c, from);
    let t = s.skip(from);
    assert forall|i: int| 0 <= i < k - from implies t[i] != c by {
        assert(t[i] == s[from + i]);
    }
    lemma_find_from_is(t, c, 0, k - from);
}

/// Splits a text into its lines.
pub fn lines_of(s: &str) -> (r: Vec<String>)
    ensures
        r.deep_view() == lines(s@),
{
    let v = chars_of(s);
    let mut r: Vec<String> = Vec::new();
    let mut start: usize = 0;
    assert(s@.skip(0) == s@);
    assert(r.deep_view() + lines(s@) == lines(s@));
    while start < v.len()
        invariant
            v@ == s@,
            start <= v@.len(),
            r.deep_view() + lines(s@.skip(start as int)) == lines(s@),
        decreases v@.len() - start,
    {
        let k = position_from(&v, '\n', start);
        let ghost before = r.deep_view();
        let ghost rest = s@.skip(start as int);
        proof {
            lemma_find_in_skip(s@, '\n', start as int);
        }
        if k == v.len() {
            r.push(string_between(&v, start, k));
            assert(r.deep_view() == before.push(rest));
            assert(lines(rest) == seq![rest]);
            start = k;
            assert(lines(s@.skip(start as int)) == Seq::<Seq<char>>::empty());
            assert(r.deep_view() + lines(s@.skip(start as int)) == before + seq![rest]);
        } else {
            let ghost line = rest.take(k - start);
            let end: usize = if k > start && v[k - 1] == '\r' {
                k - 1
            } else {
                k
            };
            r.push(string_between(&v, start, end));
            assert(v@.subrange(start as int, end as int) == strip_carriage_return(line));
            assert(r.deep_view() == before.push(strip_carriage_return(line)));
            start = k + 1;
            assert(rest.skip(find(rest, '\n') + 1) == s@.skip(start as int));
            assert(r.deep_view() + lines(s@.skip(start as int)) == before + (seq![
                strip_carriage_return(line),
            ] + lines(s@.skip(start as int))));
        }
    }
    assert(lines(s@.skip(start as int)) == Seq::<Seq<char>>::empty());
    assert(r.deep_view() + Seq::<Seq<char>>::empty() == r.deep_view());
    r
}

/// The text before the first separator.
pub open spec fn first_field(s: Seq<char>, sep: char) -> Seq<char> {
    s.take(find(s, sep))
}

/// The text between the first separator and the next one, if there is a
/// first one.
pub open spec fn second_field(s: Seq<char>, sep: char) -> Option<Seq<char>> {
    if find(s, sep) < s.len() {
        Some(first_field(s.skip(find(s, sep) + 1), sep))
    } else {
        None
    }
}

/// Splits off the first two fields of a text.
pub fn two_fields(s: &str, sep: char) -> (r: (String, Option<String>))
    ensures
        r.0@ == first_field(s@, sep),
        r.1.deep_view() == second_field(s@, sep),
{
    let v = chars_of(s);
    let k = position_from(&v, sep, 0);
    let first = string_between(&v, 0, k);
    assert(v@.subrange(0, k as int) == s@.take(k as int));
    if k < v.len() {
        let m = position_from(&v, sep, k + 1);
        proof {
            lemma_find_in_skip(s@, sep, k + 1);
            assert(s@.skip(k + 1).take(m - k - 1) == s@.subrange(k + 1, m as int));
        }
        (first, Some(string_between(&v, k + 1, m)))
    } else {
        (first, None)
    }
}

// ---------------------------------------------------------------------------
// Numbers
// ---------------------------------------------------------------------------

/// The character of a decimal digit.
pub open spec fn digit(d: nat) -> char {
    ('0' as u32 + d) as char
}

/// A number in decimal.
pub open spec fn decimal(n: nat) -> Seq<char>
    decreases n,
{
    if n < 10 {
        seq![digit(n)]
    } else {
        decimal(n / 10).push(digit(n % 10))
    }
}

/// Whether a character is one of `0` to `9`.
pub open spec fn is_digit(c: char) -> bool {
    '0' as u32 <= c as u32 <= '9' as u32
}

/// Whether a text is nonempty and holds nothing but digits.
pub open spec fn is_number(s: Seq<char>) -> bool {
    s.len() > 0 && forall|i: int| 0 <= i < s.len() ==> is_digit(#[trigger] s[i])
}

/// The value of a text of digits.
pub open spec fn number(s: Seq<char>) -> nat
    decreases s.len(),
{
    if s.len() == 0 {
        0
    } else {
        number(s.drop_last()) * 10 + (s.last() as u32 - '0' as u32) as nat
    }
}

/// The number that a text denotes: digits, with a plus sign before them or
/// not, whose value fits 32 bits.
pub open spec fn parse_number(s: Seq<char>) -> Option<u32> {
    let digits = if s.len() > 0 && s.first() == '+' {
        s.drop_first()
    } else {
        s
    };
    if is_number(digits) && number(digits) <= u32::MAX {
        Some(number(digits) as u32)
    } else {
        None
    }
}

/// Writing a number and reading it back gives the number.
pub proof fn lemma_decimal_reads_back(n: nat)
    ensures
        is_number(decimal(n)),
        number(decimal(n)) == n,
        n <= u32::MAX ==> parse_number(decimal(n)) == Some(n as u32),
    decreases n,
{
    if n < 10 {
        assert(decimal(n).drop_last() == Seq::<char>::empty());
        assert(number(Seq::<char>::empty()) == 0);
        assert(decimal(n).last() == digit(n));
    } else {
        lemma_decimal_reads_back(n / 10);
        assert(decimal(n).drop_last() == decimal(n / 10));
        assert(decimal(n).last() == digit(n % 10));
        assert(number(decimal(n)) == number(decimal(n / 10)) * 10 + n % 10);
    }
    assert(is_digit(decimal(n)[0]));
}

proof fn lemma_number_grows(s: Seq<char>, k: int)
    requires
        0 <= k <= s.len(),
        is_number(s),
    ensures
        number(s.take(k)) <= number(s),
    decreases s.len() - k,
{
    if k < s.len() {
        if s.drop_last().len() > 0 {
            assert forall|i: int| 0 <= i < s.drop_last().len() implies is_digit(
                #[trigger] s.drop_last()[i],
            ) by {
                assert(s.drop_last()[i] == s[i]);
            }
            lemma_number_grows(s.drop_last(), k);
        }
        assert(s.drop_last().take(k) == s.take(k));
    } else {
        assert(s.take(k) == s);
    }
}

fn digit_char(d: u128) -> (c: char)
    requires
        d < 10,
    ensures
        c == digit(d as nat),
{
    let code: u8 = 48 + d as u8;
    code as char
}

/// Writes a number in decimal.
pub fn decimal_text(n: u128) -> (r: String)
    ensures
        r@ == decimal(n as nat),
    decreases n,
{
    let mut r = if n < 10 {
        String::new()
    } else {
        decimal_text(n / 10)
    };
    r.push(digit_char(n % 10));
    assert(n < 10 ==> r@ == seq![digit(n as nat)]);
    r
}

/// Reads a number of 32 bits.
pub fn number_of(s: &str) -> (r: Option<u32>)
    ensures
        r == parse_number(s@),
{
    let v = chars_of(s);
    let start: usize = if v.len() > 0 && v[0] == '+' {
        1
    } else {
        0
    };
    let ghost digits = v@.skip(start as int);
    assert(start == 1 ==> digits == s@.drop_first());
    assert(start == 0 ==> digits == s@);
    if start == v.len() {
        return None;
    }
    let mut value: u64 = 0;
    let mut i: usize = start;
    while i < v.len()
        invariant
            start <= i <= v@.len(),
            start < v@.len(),
            digits == v@.skip(start as int),
            parse_number(s@) == (if is_number(digits) && number(digits) <= u32::MAX {
                Some(number(digits) as u32)
            } else {
                None::<u32>
            }),
            value <= u32::MAX,
            value == number(digits.take(i - start)),
            forall|k: int| 0 <= k < i - start ==> is_digit(#[trigger] digits[k]),
        decreases v@.len() - i,
    {
        let c: char = v[i];
        assert(c == digits[i - start]);
        let n: u32 = c as u32;
        if n < 48 || n > 57 {
            assert(!is_digit(digits[i - start]));
            return None;
        }
        value = value * 10 + (n - 48) as u64;
        proof {
            assert(digits.take(i - start + 1).drop_last() == digits.take(i - start));
        }
        i += 1;
        if value > 4294967295 {
            proof {
                if is_number(digits) {
                    lemma_number_grows(digits, i - start);
                }
            }
            return None;
        }
    }
    assert(digits.take(i - start) == digits);
    Some(value as u32)
}

// ---------------------------------------------------------------------------
// Building text
// ---------------------------------------------------------------------------

/// The parts one after another with the separator between them.
pub open spec fn join(parts: Seq<Seq<char>>, sep: Seq<char>) -> Seq<char>
    decreases parts.len(),
{
    if parts.len() == 0 {
        Seq::empty()
    } else if parts.len() == 1 {
        parts[0]
    } else {
        join(parts.drop_last(), sep) + sep + parts.last()
    }
}

/// Joins the parts with the separator between them.
pub fn joined(parts: &Vec<String>, sep: &str) -> (r: String)
    ensures
        r@ == join(parts.deep_view(), sep@),
{
    let mut r = String::new();
    let mut i: usize = 0;
    while i < parts.len()
        invariant
            i <= parts@.len(),
            r@ == join(parts.deep_view().take(i as int), sep@),
        decreases parts@.len() - i,
    {
        let ghost done = parts.deep_view().take(i + 1);
        assert(done.drop_last() == parts.deep_view().take(i as int));
        if i > 0 {
            r.append(sep);
        }
        r.append(parts[i].as_str());
        i += 1;
    }
    assert(parts.deep_view().take(i as int) == parts.deep_view());
    r
}

/// The text with as many blanks before it as it takes to be `width` long.
pub open spec fn pad_left(s: Seq<char>, width: nat) -> Seq<char> {
    if s.len() < width {
        Seq::new((width - s.len()) as nat, |i: int| ' ') + s
    } else {
        s
    }
}

/// Puts blanks before a text until it is `width` long.
pub fn padded_left(s: &str, width: usize) -> (r: String)
    ensures
        r@ == pad_left(s@, width as nat),
{
    let len: usize = s.unicode_len();
    let mut r = String::new();
    let mut n: usize = len;
    while n < width
        invariant
            len == s@.len(),
            len <= n,
            n <= width || n == len,
            r@ == Seq::new((n - len) as nat, |i: int| ' '),
        decreases width - n,
    {
        r.push(' ');
        n += 1;
    }
    r.append(s);
    r
}

// ---------------------------------------------------------------------------
// The order of names
// ---------------------------------------------------------------------------

/// Whether one text comes before another: by the first character in which
/// they differ, and a text before its own continuations.
pub open spec fn text_before(a: Seq<char>, b: Seq<char>) -> bool
    decreases a.len(),
{
    if b.len() == 0 {
        false
    } else if a.len() == 0 {
        true
    } else if a[0] != b[0] {
        (a[0] as int) < (b[0] as int)
    } else {
        text_before(a.drop_first(), b.drop_first())
    }
}

/// No text comes before itself.
pub proof fn lemma_text_before_irreflexive(a: Seq<char>)
    ensures
        !text_before(a, a),
    decreases a.len(),
{
    if a.len() > 0 {
        lemma_text_before_irreflexive(a.drop_first());
    }
}

/// Of two different texts one comes before the other.
pub proof fn lemma_text_before_total(a: Seq<char>, b: Seq<char>)
    ensures
        a == b || text_before(a, b) || text_before(b, a),
    decreases a.len(),
{
    if a.len() > 0 && b.len() > 0 {
        if a[0] == b[0] {
            lemma_text_before_total(a.drop_first(), b.drop_first());
            if a.drop_first() == b.drop_first() {
                assert(a == seq![a[0]] + a.drop_first());
                assert(b == seq![b[0]] + b.drop_first());
            }
        }
    } else if a.len() == 0 && b.len() == 0 {
        assert(a == b);
    }
}

/// What comes before a text comes before all that it comes before.
pub proof fn lemma_text_before_transitive(a: Seq<char>, b: Seq<char>, c: Seq<char>)
    requires
        text_before(a, b),
        text_before(b, c),
    ensures
        text_before(a, c),
    decreases a.len(),
{
    if a.len() > 0 && a[0] == b[0] && b[0] == c[0] {
        lemma_text_before_transitive(a.drop_first(), b.drop_first(), c.drop_first());
    }
}

fn code_point(c: char) -> (n: u32)
    ensures
        n as int == c as int,
{
    c as u32
}

/// Decides [`text_before`].
pub fn comes_before(a: &str, b: &str) -> (r: bool)
    ensures
        r == text_before(a@, b@),
{
    let x = chars_of(a);
    let y = chars_of(b);
    let mut i: usize = 0;
    assert(a@.skip(0) == a@);
    assert(b@.skip(0) == b@);
    while i < x.len() && i < y.len() && x[i] == y[i]
        invariant
            x@ == a@,
            y@ == b@,
            i <= x@.len(),
            i <= y@.len(),
            text_before(a@, b@) == text_before(a@.skip(i as int), b@.skip(i as int)),
        decreases x@.len() - i,
    {
        assert(a@.skip(i as int).drop_first() == a@.skip(i + 1));
        assert(b@.skip(i as int).drop_first() == b@.skip(i + 1));
        i += 1;
    }
    if i >= y.len() {
        false
    } else if i >= x.len() {
        true
    } else {
        assert(a@.skip(i as int)[0] == x[i as int]);
        assert(b@.skip(i as int)[0] == y[i as int]);
        code_point(x[i]) < code_point(y[i])
    }
}

} // verus!
