//! The text of a pane: what is shown of it, and how a change of it is noticed.

use vstd::prelude::*;

use crate::text::{
    blank, chars_of, control, is_blank, is_control, is_space, join, lemma_trim_end,
    lemma_trim_end_of_suffix, lines, lines_of, trim_end, trimmed_end,
};

verus! {

// ---------------------------------------------------------------------------
// Choosing lines
// ---------------------------------------------------------------------------

/// The last `count` items of a sequence, or all when there are fewer.
pub open spec fn last_of<T>(items: Seq<T>, count: nat) -> Seq<T> {
    if items.len() > count {
        items.skip(items.len() - count)
    } else {
        items
    }
}

/// Keeps the last `count` lines.
pub fn last_lines(lines: Vec<String>, count: usize) -> (r: Vec<String>)
    ensures
        r@ == last_of(lines@, count as nat),
        r.deep_view() == last_of(lines.deep_view(), count as nat),
{
    let mut lines = lines;
    let len: usize = lines.len();
    let ghost before = lines.deep_view();
    if len > count {
        let r = lines.split_off(len - count);
        assert(r.deep_view() =~= last_of(before, count as nat));
        r
    } else {
        lines
    }
}

/// The lines that hold more than white space.
pub open spec fn non_blank(lines: Seq<Seq<char>>) -> Seq<Seq<char>>
    decreases lines.len(),
{
    if lines.len() == 0 {
        Seq::empty()
    } else if is_blank(lines.last()) {
        non_blank(lines.drop_last())
    } else {
        non_blank(lines.drop_last()).push(lines.last())
    }
}

/// The last `count` lines that hold more than white space.
pub fn tail_non_empty(lines: &Vec<String>, count: usize) -> (r: Vec<String>)
    ensures
        r.deep_view() == last_of(non_blank(lines.deep_view()), count as nat),
{
    let mut kept: Vec<String> = Vec::new();
    if count == 0 {
        assert(kept.deep_view() =~= last_of(non_blank(lines.deep_view()), 0));
        return kept;
    }
    let ghost all = lines.deep_view();
    let mut i: usize = 0;
    assert(kept.deep_view() =~= non_blank(all.take(0)));
    while i < lines.len()
        invariant
            all == lines.deep_view(),
            i <= lines@.len(),
            kept.deep_view() == non_blank(all.take(i as int)),
        decreases lines@.len() - i,
    {
        let ghost before = kept.deep_view();
        assert(all.take(i + 1).drop_last() =~= all.take(i as int));
        assert(all.take(i + 1).last() == lines[i as int]@);
        if !blank(lines[i].as_str()) {
            kept.push(lines[i].clone());
            assert(kept.deep_view() =~= before.push(lines[i as int]@));
        }
        i += 1;
    }
    assert(all.take(i as int) =~= all);
    last_lines(kept, count)
}

// ---------------------------------------------------------------------------
// Cleaning captured text
// ---------------------------------------------------------------------------

/// A character as it is shown: a control character other than a tab gives way
/// to a blank.
pub open spec fn clean_char(c: char) -> char {
    if is_control(c) && c != '\t' {
        ' '
    } else {
        c
    }
}

/// A line as it is shown.
pub open spec fn clean_text(line: Seq<char>) -> Seq<char> {
    Seq::new(line.len(), |i: int| clean_char(line[i]))
}

/// Replaces the control characters of a line, but for tabs, by blanks.
pub fn clean_line(line: &str) -> (r: String)
    ensures
        r@ == clean_text(line@),
{
    let v = chars_of(line);
    let mut r = String::new();
    let mut i: usize = 0;
    while i < v.len()
        invariant
            v@ == line@,
            i <= v@.len(),
            r@ == clean_text(line@).take(i as int),
        decreases v@.len() - i,
    {
        let c: char = v[i];
        if control(c) && c != '\t' {
            r.push(' ');
        } else {
            r.push(c);
        }
        assert(clean_text(line@).take(i + 1) =~= clean_text(line@).take(i as int).push(
            clean_text(line@)[i as int],
        ));
        i += 1;
    }
    assert(clean_text(line@).take(i as int) =~= clean_text(line@));
    r
}

/// The lines of a captured text, as they are shown.
pub open spec fn clean_lines(text: Seq<char>) -> Seq<Seq<char>> {
    let all = lines(text);
    Seq::new(all.len(), |i: int| clean_text(all[i]))
}

/// What is shown of a captured text: its last lines, one at least.
pub open spec fn preview_of(text: Seq<char>, count: nat) -> Seq<Seq<char>> {
    last_of(
        clean_lines(text),
        if count > 1 {
            count
        } else {
            1
        },
    )
}

/// Makes the preview of a captured text.
pub fn preview_from_text(text: &str, count: usize) -> (r: Vec<String>)
    ensures
        r.deep_view() == preview_of(text@, count as nat),
{
    let raw = lines_of(text);
    let mut clean: Vec<String> = Vec::new();
    let mut i: usize = 0;
    while i < raw.len()
        invariant
            raw.deep_view() == lines(text@),
            i <= raw@.len(),
            clean.deep_view() == clean_lines(text@).take(i as int),
        decreases raw@.len() - i,
    {
        let ghost before = clean.deep_view();
        assert(lines(text@)[i as int] == raw[i as int]@);
        clean.push(clean_line(raw[i].as_str()));
        assert(clean.deep_view() =~= before.push(clean_lines(text@)[i as int]));
        assert(clean_lines(text@).take(i + 1) =~= before.push(clean_lines(text@)[i as int]));
        i += 1;
    }
    assert(clean_lines(text@).take(i as int) =~= clean_lines(text@));
    let kept: usize = if count > 1 {
        count
    } else {
        1
    };
    last_lines(clean, kept)
}

// ---------------------------------------------------------------------------
// Fingerprints
// ---------------------------------------------------------------------------

/// The lines of a preview as one text, with a line feed between any two.
pub open spec fn screen_text(preview: Seq<Seq<char>>) -> Seq<char> {
    join(preview, seq!['\n'])
}

/// By what the contents of a pane are known again: the whole preview without
/// the white space at its end.
pub open spec fn fingerprint(preview: Seq<Seq<char>>) -> Seq<char> {
    trim_end(screen_text(preview))
}

/// Takes the fingerprint of a preview.
pub fn activity_fingerprint_of(preview: &Vec<String>) -> (r: String)
    ensures
        r@ == fingerprint(preview.deep_view()),
{
    let ghost all = preview.deep_view();
    let mut text = String::new();
    let mut i: usize = 0;
    while i < preview.len()
        invariant
            all == preview.deep_view(),
            i <= preview@.len(),
            text@ == screen_text(all.take(i as int)),
        decreases preview@.len() - i,
    {
        let ghost before = text@;
        let ghost done = all.take(i + 1);
        assert(done.drop_last() =~= all.take(i as int));
        assert(done.last() == preview[i as int]@);
        if i > 0 {
            text.push('\n');
        }
        text.append(preview[i].as_str());
        assert(i == 0 ==> text@ =~= done[0]);
        assert(i > 0 ==> text@ =~= before + seq!['\n'] + done.last());
        i += 1;
    }
    assert(all.take(i as int) =~= all);
    trimmed_end(text.as_str())
}

// ---------------------------------------------------------------------------
// Laws
// ---------------------------------------------------------------------------

proof fn lemma_trim_end_concat(a: Seq<char>, b: Seq<char>)
    ensures
        is_blank(b) ==> trim_end(a + b) == trim_end(a) && trim_end(b).len() == 0,
        !is_blank(b) ==> trim_end(a + b) == a + trim_end(b) && trim_end(b).len() > 0,
{
    let s = a + b;
    lemma_trim_end(a);
    lemma_trim_end(b);
    if is_blank(b) {
        let n = trim_end(a).len() as int;
        assert forall|i: int| 0 <= i < s.skip(n).len() implies is_space(
            #[trigger] s.skip(n)[i],
        ) by {
            if n + i < a.len() {
                assert(s.skip(n)[i] == a.skip(n)[i]);
            } else {
                assert(s.skip(n)[i] == b[n + i - a.len()]);
            }
        }
        if n > 0 {
            assert(s[n - 1] == trim_end(a).last());
        }
        lemma_trim_end_of_suffix(s, n);
        assert(s.take(n) =~= a.take(n));
        if trim_end(b).len() > 0 {
            assert(trim_end(b).last() == b[trim_end(b).len() - 1]);
        }
    } else {
        let m = trim_end(b).len() as int;
        if m == 0 {
            assert(b.skip(0) =~= b);
        }
        let n = a.len() + m;
        assert forall|i: int| 0 <= i < s.skip(n).len() implies is_space(
            #[trigger] s.skip(n)[i],
        ) by {
            assert(s.skip(n)[i] == b.skip(m)[i]);
        }
        assert(s[n - 1] == trim_end(b).last());
        lemma_trim_end_of_suffix(s, n);
        assert(s.take(n) =~= a + b.take(m));
    }
}

proof fn lemma_same_line_keeps_difference(a: Seq<char>, b: Seq<char>, line: Seq<char>)
    requires
        trim_end(a) != trim_end(b),
    ensures
        trim_end(a + seq!['\n'] + line) != trim_end(b + seq!['\n'] + line),
{
    let rest = seq!['\n'] + line;
    assert(a + seq!['\n'] + line =~= a + rest);
    assert(b + seq!['\n'] + line =~= b + rest);
    lemma_trim_end_concat(a, rest);
    lemma_trim_end_concat(b, rest);
    let tail = trim_end(rest);
    if a + tail == b + tail {
        assert((a + tail).len() == (b + tail).len());
        assert(a =~= (a + tail).take(a.len() as int));
        assert(b =~= (b + tail).take(a.len() as int));
    }
}

proof fn lemma_other_line_differs(text: Seq<char>, x: Seq<char>, y: Seq<char>)
    requires
        trim_end(x) != trim_end(y),
    ensures
        trim_end(text + x) != trim_end(text + y),
{
    lemma_trim_end_concat(text, x);
    lemma_trim_end_concat(text, y);
    lemma_trim_end(text);
    if is_blank(x) && is_blank(y) {
        assert(trim_end(x) =~= trim_end(y));
    } else if !is_blank(x) && !is_blank(y) {
        if text + trim_end(x) == text + trim_end(y) {
            assert(trim_end(x) =~= (text + trim_end(x)).skip(text.len() as int));
            assert(trim_end(y) =~= (text + trim_end(y)).skip(text.len() as int));
        }
    }
}

/// A change anywhere in a preview changes its fingerprint: two previews whose
/// lines, with a line feed between any two, make texts that differ in more
/// than the white space at their ends have different fingerprints.
pub proof fn law_a_change_anywhere_is_noticed(p: Seq<Seq<char>>, q: Seq<Seq<char>>)
    requires
        trim_end(join(p, seq!['\n'])) != trim_end(join(q, seq!['\n'])),
    ensures
        fingerprint(p) != fingerprint(q),
{
}

/// Another line in the place of one is noticed wherever it stands, if the two
/// differ in more than the white space at their ends.
pub proof fn law_another_line_in_its_place_is_noticed(
    preview: Seq<Seq<char>>,
    k: int,
    line: Seq<char>,
)
    requires
        0 <= k < preview.len(),
        trim_end(line) != trim_end(preview[k]),
    ensures
        fingerprint(preview.update(k, line)) != fingerprint(preview),
    decreases preview.len(),
{
    let changed = preview.update(k, line);
    if preview.len() > 1 {
        let front = screen_text(preview.drop_last());
        if k == preview.len() - 1 {
            assert(changed.drop_last() =~= preview.drop_last());
            lemma_other_line_differs(front + seq!['\n'], line, preview[k]);
        } else {
            assert(changed.drop_last() =~= preview.drop_last().update(k, line));
            law_another_line_in_its_place_is_noticed(preview.drop_last(), k, line);
            lemma_same_line_keeps_difference(
                screen_text(changed.drop_last()),
                front,
                preview.last(),
            );
        }
    }
}

/// White space at the end of a preview does not matter: more of it leaves
/// the fingerprint as it was.
pub proof fn law_blank_ends_are_not_noticed(preview: Seq<Seq<char>>, line: Seq<char>)
    requires
        is_blank(line),
    ensures
        fingerprint(preview.push(line)) == fingerprint(preview),
{
    let text = screen_text(preview);
    assert(preview.push(line).drop_last() =~= preview);
    if preview.len() > 0 {
        let rest = seq!['\n'] + line;
        assert(text + seq!['\n'] + line =~= text + rest);
        assert forall|i: int| 0 <= i < rest.len() implies is_space(#[trigger] rest[i]) by {
            if i > 0 {
                assert(rest[i] == line[i - 1]);
            }
        }
        lemma_trim_end_concat(text, rest);
    } else {
        lemma_trim_end_concat(text, line);
        assert(text + line =~= line);
    }
}

/// The last items of a sequence are as many as are asked for, as far as there
/// are so many, and those at its end, in their order.
pub proof fn law_the_last_items_are_at_the_end<T>(items: Seq<T>, count: nat)
    ensures
        ({
            let r = last_of(items, count);
            &&& r.len() <= items.len()
            &&& r.len() <= count
            &&& r.len() == items.len() || r.len() == count
            &&& forall|k: int|
                0 <= k < r.len() ==> #[trigger] r[k] == items[items.len() - r.len() + k]
        }),
{
}

/// The preview of a text is its end: of its lines the last ones, one at least
/// and no more than are asked for, blank or not. Each keeps its characters but
/// for control characters other than tabs, which become blanks.
pub proof fn law_the_preview_is_the_end_of_the_screen(text: Seq<char>, count: nat, k: int)
    ensures
        ({
            let all = lines(text);
            let shown = preview_of(text, count);
            let asked = if count == 0 {
                1
            } else {
                count
            };
            &&& shown.len() <= all.len()
            &&& shown.len() <= asked
            &&& shown.len() == all.len() || shown.len() == asked
            &&& 0 <= k < shown.len() ==> {
                let line = all[all.len() - shown.len() + k];
                &&& shown[k].len() == line.len()
                &&& forall|j: int|
                    0 <= j < line.len() ==> #[trigger] shown[k][j] == if line[j] != '\t'
                        && is_control(line[j]) {
                        ' '
                    } else {
                        line[j]
                    }
            }
        }),
{
}

/// A cleaned line keeps its length, and its characters but for control
/// characters other than tabs, which become blanks.
pub proof fn law_cleaning_blanks_control_characters(line: Seq<char>, j: int)
    requires
        0 <= j < line.len(),
    ensures
        clean_text(line).len() == line.len(),
        is_control(line[j]) && line[j] != '\t' ==> clean_text(line)[j] == ' ',
        !is_control(line[j]) || line[j] == '\t' ==> clean_text(line)[j] == line[j],
{
}

/// Holding something other than white space.
pub open spec fn holds_text() -> spec_fn(Seq<char>) -> bool {
    |line: Seq<char>| exists|i: int| 0 <= i < line.len() && !is_space(#[trigger] line[i])
}

/// The lines that hold more than white space are all those, in their order,
/// and none is changed.
pub proof fn law_blank_lines_alone_are_left_out(lines: Seq<Seq<char>>)
    ensures
        non_blank(lines) == lines.filter(holds_text()),
    decreases lines.len(),
{
    reveal(Seq::filter);
    if lines.len() > 0 {
        law_blank_lines_alone_are_left_out(lines.drop_last());
        let line = lines.last();
        assert(is_blank(line) <==> !holds_text()(line));
    } else {
        assert(non_blank(lines) =~= lines.filter(holds_text()));
    }
}

/// The fingerprint of a preview is its lines with a line feed between any two,
/// up to the last character that is not white space.
pub proof fn law_the_fingerprint_is_the_whole_preview(
    preview: Seq<Seq<char>>,
    kept: Seq<char>,
    end: Seq<char>,
)
    requires
        join(preview, seq!['\n']) == kept + end,
        forall|i: int| 0 <= i < end.len() ==> is_space(#[trigger] end[i]),
        kept.len() > 0 ==> !is_space(kept.last()),
    ensures
        fingerprint(preview) == kept,
{
    let text = kept + end;
    assert(text.skip(kept.len() as int) =~= end);
    assert(text.take(kept.len() as int) =~= kept);
    lemma_trim_end_of_suffix(text, kept.len() as int);
}

} // verus!
