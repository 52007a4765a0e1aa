//! The list of windows that is printed instead of opening the picker.

use vstd::prelude::*;

use crate::model::{Entry, EntryView};
use crate::preview::{
    holds_text, last_of, law_blank_lines_alone_are_left_out, non_blank, tail_non_empty,
};

verus! {

/// What is printed of every window: its session, its place and name, and the
/// directory of its pane.
pub open spec fn head_text(entry: EntryView) -> Seq<char> {
    entry.session_name + "\t"@ + entry.window_index + ":"@ + entry.window_name + "\t"@
        + entry.pane_current_path
}

/// The last lines of a window that are printed, one at least.
pub open spec fn tail_of(entry: EntryView, inline_lines: usize) -> Seq<Seq<char>> {
    last_of(
        non_blank(entry.preview),
        if inline_lines > 1 {
            inline_lines as nat
        } else {
            1
        },
    )
}

/// What is printed of a window: one line that ends in the last line of its
/// preview, or, where more lines are asked for, a line for each of them.
pub open spec fn entry_lines(entry: EntryView, inline_lines: usize) -> Seq<Seq<char>> {
    let tail = tail_of(entry, inline_lines);
    if inline_lines <= 1 {
        seq![
            head_text(entry) + "\t"@ + if tail.len() > 0 {
                tail.last()
            } else {
                "<no output>"@
            },
        ]
    } else if tail.len() == 0 {
        seq![head_text(entry), "  <no output>"@]
    } else {
        seq![head_text(entry)] + Seq::new(tail.len(), |i: int| "  "@ + tail[i])
    }
}

/// What is printed of some windows.
pub open spec fn listing(entries: Seq<EntryView>, inline_lines: usize) -> Seq<Seq<char>>
    decreases entries.len(),
{
    if entries.len() == 0 {
        Seq::empty()
    } else {
        listing(entries.drop_last(), inline_lines) + entry_lines(entries.last(), inline_lines)
    }
}

fn head(entry: &Entry) -> (r: String)
    ensures
        r@ == head_text(entry@),
{
    let mut text = entry.session_name.clone();
    text.append("\t");
    text.append(entry.window_index.as_str());
    text.append(":");
    text.append(entry.window_name.as_str());
    text.append("\t");
    text.append(entry.pane_current_path.as_str());
    text
}

fn push_text(lines: &mut Vec<String>, text: String)
    ensures
        final(lines).deep_view() == old(lines).deep_view().push(text@),
{
    let ghost before = lines.deep_view();
    lines.push(text);
    assert(lines.deep_view() =~= before.push(text@));
}

fn push_entry(lines: &mut Vec<String>, entry: &Entry, inline_lines: usize)
    ensures
        final(lines).deep_view() == old(lines).deep_view() + entry_lines(entry@, inline_lines),
{
    let ghost before = lines.deep_view();
    let ghost all = entry_lines(entry@, inline_lines);
    let count: usize = if inline_lines > 1 {
        inline_lines
    } else {
        1
    };
    let tail = tail_non_empty(&entry.preview, count);
    let mut text = head(entry);
    if inline_lines <= 1 {
        text.append("\t");
        if tail.len() > 0 {
            assert(tail.deep_view().last() == tail[tail.len() - 1]@);
            text.append(tail[tail.len() - 1].as_str());
        } else {
            text.append("<no output>");
        }
        push_text(lines, text);
        assert(lines.deep_view() =~= before + all);
        return;
    }
    push_text(lines, text);
    if tail.len() == 0 {
        push_text(lines, "  <no output>".to_owned());
        assert(lines.deep_view() =~= before + all);
        return;
    }
    assert(lines.deep_view() =~= before + all.take(1));
    let mut i: usize = 0;
    while i < tail.len()
        invariant
            inline_lines > 1,
            tail@.len() > 0,
            tail.deep_view() == tail_of(entry@, inline_lines),
            all == entry_lines(entry@, inline_lines),
            i <= tail@.len(),
            lines.deep_view() == before + all.take(i + 1),
        decreases tail@.len() - i,
    {
        let mut line = "  ".to_owned();
        line.append(tail[i].as_str());
        assert(tail.deep_view()[i as int] == tail[i as int]@);
        assert(all[i + 1] == line@);
        push_text(lines, line);
        assert(lines.deep_view() =~= before + all.take(i + 2));
        i += 1;
    }
    assert(all.take(i + 1) =~= all);
}

/// Makes the lines that are printed of some windows.
pub fn print_targets(entries: &Vec<Entry>, inline_lines: usize) -> (r: Vec<String>)
    ensures
        r.deep_view() == listing(entries.deep_view(), inline_lines),
{
    let ghost all = entries.deep_view();
    let mut lines: Vec<String> = Vec::new();
    assert(lines.deep_view() =~= listing(all.take(0), inline_lines));
    let mut k: usize = 0;
    while k < entries.len()
        invariant
            all == entries.deep_view(),
            k <= entries@.len(),
            lines.deep_view() == listing(all.take(k as int), inline_lines),
        decreases entries@.len() - k,
    {
        assert(all[k as int] == entries[k as int]@);
        assert(all.take(k + 1).drop_last() =~= all.take(k as int));
        push_entry(&mut lines, &entries[k], inline_lines);
        k += 1;
    }
    assert(all.take(k as int) =~= all);
    lines
}

// ---------------------------------------------------------------------------
// Laws
// ---------------------------------------------------------------------------

/// The short list has a line for each window, in order.
pub proof fn law_the_short_list_has_a_line_per_window(
    entries: Seq<EntryView>,
    inline_lines: usize,
    k: int,
)
    requires
        inline_lines <= 1,
        0 <= k < entries.len(),
    ensures
        listing(entries, inline_lines).len() == entries.len(),
        listing(entries, inline_lines)[k] == entry_lines(entries[k], inline_lines)[0],
    decreases entries.len(),
{
    let front = entries.drop_last();
    if front.len() == 0 {
        assert(listing(front, inline_lines) =~= Seq::empty());
    } else if k < front.len() {
        law_the_short_list_has_a_line_per_window(front, inline_lines, k);
        assert(front[k] == entries[k]);
    } else {
        law_the_short_list_has_a_line_per_window(front, inline_lines, 0);
    }
}

/// What is printed of some windows is printed window by window, in order.
pub proof fn law_windows_are_printed_one_by_one(
    a: Seq<EntryView>,
    b: Seq<EntryView>,
    inline_lines: usize,
)
    ensures
        listing(a + b, inline_lines) == listing(a, inline_lines) + listing(b, inline_lines),
        a.len() == 1 ==> listing(a, inline_lines) == entry_lines(a[0], inline_lines),
        a.len() == 0 ==> listing(a, inline_lines).len() == 0,
    decreases b.len(),
{
    if a.len() == 1 {
        assert(listing(a.drop_last(), inline_lines) =~= Seq::empty());
        assert(listing(a, inline_lines) =~= entry_lines(a[0], inline_lines));
    }
    if b.len() == 0 {
        assert(a + b =~= a);
        assert(listing(a + b, inline_lines) =~= listing(a, inline_lines) + listing(
            b,
            inline_lines,
        ));
    } else {
        law_windows_are_printed_one_by_one(a, b.drop_last(), inline_lines);
        assert((a + b).drop_last() =~= a + b.drop_last());
        assert(listing(a + b, inline_lines) =~= listing(a, inline_lines) + listing(
            b,
            inline_lines,
        ));
    }
}

/// A window is printed with its session, index, name and directory, on one
/// line with the last line of its preview that is not blank; or, where more
/// lines are asked for, with as many of those below it.
pub proof fn law_what_is_printed_of_a_window(entry: EntryView, inline_lines: usize, k: int)
    ensures
        ({
            let printed = entry_lines(entry, inline_lines);
            let kept = entry.preview.filter(holds_text());
            let head = entry.session_name + "\t"@ + entry.window_index + ":"@ + entry.window_name
                + "\t"@ + entry.pane_current_path;
            if inline_lines < 2 {
                &&& printed.len() == 1
                &&& kept.len() > 0 ==> printed[0] == head + "\t"@ + kept.last()
                &&& kept.len() == 0 ==> printed[0] == head + "\t"@ + "<no output>"@
            } else if kept.len() == 0 {
                printed == seq![head, "  <no output>"@]
            } else {
                let below = printed.len() - 1;
                &&& printed[0] == head
                &&& below <= kept.len()
                &&& below <= inline_lines
                &&& below == kept.len() || below == inline_lines
                &&& 0 <= k < below ==> printed[1 + k] == "  "@ + kept[kept.len() - below + k]
            }
        }),
{
    law_blank_lines_alone_are_left_out(entry.preview);
}

} // verus!
