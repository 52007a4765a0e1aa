//! Grouping windows by session, and finding a place among them.

use vstd::prelude::*;

use crate::model::{CurrentTarget, CurrentView, Entry, EntryView, GroupView, SessionGroup};
use crate::search::{lemma_place_from, place, place_from};
use crate::text::{
    comes_before, decimal, lemma_decimal_reads_back, lemma_text_before_irreflexive,
    lemma_text_before_total, lemma_text_before_transitive, number_of, parse_number, text_before,
};

verus! {

// ---------------------------------------------------------------------------
// What a grouping is
// ---------------------------------------------------------------------------

/// The number by which a window is ordered in its session: its index, or the
/// largest number when the index is none.
pub open spec fn window_rank(entry: EntryView) -> u32 {
    match parse_number(entry.window_index) {
        Some(n) => n,
        None => u32::MAX,
    }
}

/// Whether one entry comes before another in their session: by rank, and by
/// place in the list of entries where the ranks are the same.
pub open spec fn window_before(entries: Seq<EntryView>, a: int, b: int) -> bool {
    ||| window_rank(entries[a]) < window_rank(entries[b])
    ||| window_rank(entries[a]) == window_rank(entries[b]) && a < b
}

/// Whether `windows` are the places of all entries of a session, and of no
/// others, in order.
pub open spec fn are_windows_of(
    windows: Seq<usize>,
    entries: Seq<EntryView>,
    id: Seq<char>,
) -> bool {
    &&& forall|k: int|
        0 <= k < windows.len() ==> (#[trigger] windows[k]) < entries.len()
            && entries[windows[k] as int].session_id == id
    &&& forall|i: int|
        0 <= i < entries.len() && (#[trigger] entries[i]).session_id == id ==> holds_place(
            windows,
            i,
        )
    &&& forall|a: int, b: int|
        0 <= a < b < windows.len() ==> window_before(
            entries,
            #[trigger] windows[a] as int,
            #[trigger] windows[b] as int,
        )
}

/// Whether `windows` holds the place `i`.
pub open spec fn holds_place(windows: Seq<usize>, i: int) -> bool {
    exists|k: int| 0 <= k < windows.len() && #[trigger] windows[k] == i
}

/// Whether `i` is the first entry of the session `id`.
pub open spec fn is_leader(entries: Seq<EntryView>, id: Seq<char>, i: int) -> bool {
    &&& 0 <= i < entries.len()
    &&& entries[i].session_id == id
    &&& forall|j: int| 0 <= j < i ==> (#[trigger] entries[j]).session_id != id
}

/// The first entry of the session `id`.
pub open spec fn leader(entries: Seq<EntryView>, id: Seq<char>) -> int {
    choose|i: int| is_leader(entries, id, i)
}

/// Whether a group describes a session: the first entry of the session says
/// what it is called, and its windows are those of the session.
pub open spec fn is_group_of(group: GroupView, entries: Seq<EntryView>) -> bool {
    let first = leader(entries, group.id);
    &&& is_leader(entries, group.id, first)
    &&& group.name == entries[first].session_name
    &&& group.attached == entries[first].session_attached
    &&& group.activity == entries[first].session_activity
    &&& are_windows_of(group.window_indices, entries, group.id)
}

/// Whether one session is shown before another whatever the list of entries:
/// attached sessions first, then the more active ones, then by name.
pub open spec fn shown_before(a: GroupView, b: GroupView) -> bool {
    if a.attached != b.attached {
        a.attached
    } else if a.activity != b.activity {
        a.activity > b.activity
    } else {
        text_before(a.name, b.name)
    }
}

/// Whether nothing but their first entries tells the places of two sessions
/// apart.
pub open spec fn shown_alike(a: GroupView, b: GroupView) -> bool {
    a.attached == b.attached && a.activity == b.activity && a.name == b.name
}

/// Whether one session is shown before another.
pub open spec fn group_before(entries: Seq<EntryView>, a: GroupView, b: GroupView) -> bool {
    ||| shown_before(a, b)
    ||| shown_alike(a, b) && leader(entries, a.id) < leader(entries, b.id)
}

/// Whether `groups` are the sessions of the entries, each once, in the order
/// in which they are shown.
pub open spec fn is_grouping(groups: Seq<GroupView>, entries: Seq<EntryView>) -> bool {
    &&& forall|k: int| 0 <= k < groups.len() ==> is_group_of(#[trigger] groups[k], entries)
    &&& forall|i: int|
        0 <= i < entries.len() ==> has_group(groups, (#[trigger] entries[i]).session_id)
    &&& forall|a: int, b: int|
        0 <= a < b < groups.len() ==> group_before(
            entries,
            #[trigger] groups[a],
            #[trigger] groups[b],
        )
}

/// Whether one of the groups is the session `id`.
pub open spec fn has_group(groups: Seq<GroupView>, id: Seq<char>) -> bool {
    exists|k: int| 0 <= k < groups.len() && (#[trigger] groups[k]).id == id
}

/// Whether every window of every group is one of the first `n` entries.
pub open spec fn windows_in_bounds(groups: Seq<GroupView>, n: nat) -> bool {
    forall|k: int, j: int|
        #![trigger groups[k].window_indices[j]]
        0 <= k < groups.len() && 0 <= j < groups[k].window_indices.len()
            ==> groups[k].window_indices[j] < n
}

// ---------------------------------------------------------------------------
// Lemmas
// ---------------------------------------------------------------------------

proof fn lemma_leader_is(entries: Seq<EntryView>, id: Seq<char>, i: int)
    requires
        is_leader(entries, id, i),
    ensures
        leader(entries, id) == i,
        is_leader(entries, id, leader(entries, id)),
{
    let j = leader(entries, id);
    assert(is_leader(entries, id, j));
    if j < i {
        assert(entries[j].session_id != id);
    } else if i < j {
        assert(entries[i].session_id != id);
    }
}

proof fn lemma_leader_stays(entries: Seq<EntryView>, id: Seq<char>, n: int)
    requires
        0 <= n < entries.len(),
        is_leader(entries.take(n), id, leader(entries.take(n), id)),
    ensures
        leader(entries.take(n + 1), id) == leader(entries.take(n), id),
        is_leader(entries.take(n + 1), id, leader(entries.take(n), id)),
{
    let a = entries.take(n);
    let b = entries.take(n + 1);
    let l = leader(a, id);
    assert(b[l] == a[l]);
    assert forall|j: int| 0 <= j < l implies (#[trigger] b[j]).session_id != id by {
        assert(b[j] == a[j]);
    }
    lemma_leader_is(b, id, l);
}

proof fn lemma_order_total(a: GroupView, b: GroupView)
    ensures
        shown_alike(a, b) || shown_before(a, b) || shown_before(b, a),
{
    lemma_text_before_total(a.name, b.name);
}

proof fn lemma_order_transitive(a: GroupView, b: GroupView, c: GroupView)
    requires
        shown_before(a, b),
        shown_before(b, c) || shown_alike(b, c),
    ensures
        shown_before(a, c),
{
    if a.attached == b.attached && a.activity == b.activity && shown_before(b, c) && b.attached
        == c.attached && b.activity == c.activity {
        lemma_text_before_transitive(a.name, b.name, c.name);
    }
}

/// Two groups of one grouping are different sessions.
pub proof fn lemma_groups_differ(
    groups: Seq<GroupView>,
    entries: Seq<EntryView>,
    a: int,
    b: int,
)
    requires
        is_grouping(groups, entries),
        0 <= a < groups.len(),
        0 <= b < groups.len(),
        a != b,
    ensures
        groups[a].id != groups[b].id,
{
    let (x, y) = if a < b {
        (groups[a], groups[b])
    } else {
        (groups[b], groups[a])
    };
    assert(group_before(entries, x, y));
    assert(is_group_of(groups[a], entries));
    assert(is_group_of(groups[b], entries));
    if x.id == y.id {
        lemma_text_before_irreflexive(x.name);
    }
}

/// The windows of a grouping are places in the list of entries.
pub proof fn lemma_grouping_in_bounds(groups: Seq<GroupView>, entries: Seq<EntryView>)
    requires
        is_grouping(groups, entries),
    ensures
        windows_in_bounds(groups, entries.len()),
{
    assert forall|k: int, j: int|
        #![trigger groups[k].window_indices[j]]
        0 <= k < groups.len() && 0 <= j < groups[k].window_indices.len() implies (
    groups[k].window_indices[j] as int) < entries.len() by {
        assert(is_group_of(groups[k], entries));
    }
}

/// Whether two entries are shown in the same place, whatever else they show.
pub open spec fn placed_alike(a: EntryView, b: EntryView) -> bool {
    &&& a.session_id == b.session_id
    &&& a.session_name == b.session_name
    &&& a.session_attached == b.session_attached
    &&& a.session_activity == b.session_activity
    &&& a.window_index == b.window_index
}

/// Entries that are placed alike one by one have the same sessions.
pub proof fn lemma_grouping_of_alike(
    groups: Seq<GroupView>,
    a: Seq<EntryView>,
    b: Seq<EntryView>,
)
    requires
        is_grouping(groups, a),
        a.len() == b.len(),
        forall|i: int| 0 <= i < a.len() ==> placed_alike(#[trigger] a[i], b[i]),
    ensures
        is_grouping(groups, b),
{
    assert forall|k: int| 0 <= k < groups.len() implies {
        &&& is_group_of(#[trigger] groups[k], b)
        &&& leader(b, groups[k].id) == leader(a, groups[k].id)
    } by {
        let group = groups[k];
        let windows = group.window_indices;
        let first = leader(a, group.id);
        assert(is_group_of(group, a));
        assert(placed_alike(a[first], b[first]));
        assert forall|j: int| 0 <= j < first implies (#[trigger] b[j]).session_id != group.id by {
            assert(placed_alike(a[j], b[j]));
        }
        lemma_leader_is(b, group.id, first);
        assert forall|n: int| 0 <= n < windows.len() implies (#[trigger] windows[n]) < b.len()
            && b[windows[n] as int].session_id == group.id by {
            assert(placed_alike(a[windows[n] as int], b[windows[n] as int]));
        }
        assert forall|i: int|
            0 <= i < b.len() && (#[trigger] b[i]).session_id == group.id implies holds_place(
            windows,
            i,
        ) by {
            assert(placed_alike(a[i], b[i]));
        }
        assert forall|m: int, n: int| 0 <= m < n < windows.len() implies window_before(
            b,
            #[trigger] windows[m] as int,
            #[trigger] windows[n] as int,
        ) by {
            assert(placed_alike(a[windows[m] as int], b[windows[m] as int]));
            assert(placed_alike(a[windows[n] as int], b[windows[n] as int]));
        }
    }
    assert forall|i: int| 0 <= i < b.len() implies has_group(
        groups,
        (#[trigger] b[i]).session_id,
    ) by {
        assert(placed_alike(a[i], b[i]));
    }
    assert forall|m: int, n: int| 0 <= m < n < groups.len() implies group_before(
        b,
        #[trigger] groups[m],
        #[trigger] groups[n],
    ) by {
        assert(group_before(a, groups[m], groups[n]));
    }
}

/// A further entry leaves the windows of the other sessions as they are.
proof fn lemma_windows_of_other(
    windows: Seq<usize>,
    entries: Seq<EntryView>,
    id: Seq<char>,
    n: int,
)
    requires
        0 <= n < entries.len(),
        are_windows_of(windows, entries.take(n), id),
        entries[n].session_id != id,
    ensures
        are_windows_of(windows, entries.take(n + 1), id),
{
    let a = entries.take(n);
    let b = entries.take(n + 1);
    assert forall|k: int| 0 <= k < windows.len() implies (#[trigger] windows[k]) < b.len()
        && b[windows[k] as int].session_id == id by {
        assert(b[windows[k] as int] == a[windows[k] as int]);
    }
    assert forall|i: int| 0 <= i < b.len() && (#[trigger] b[i]).session_id == id implies holds_place(
        windows,
        i,
    ) by {
        assert(i != n);
        assert(a[i] == b[i]);
    }
    assert forall|x: int, y: int| 0 <= x < y < windows.len() implies window_before(
        b,
        #[trigger] windows[x] as int,
        #[trigger] windows[y] as int,
    ) by {
        assert(window_before(a, windows[x] as int, windows[y] as int));
        assert(b[windows[x] as int] == a[windows[x] as int]);
        assert(b[windows[y] as int] == a[windows[y] as int]);
    }
}

/// A further entry of a session goes behind those of the same and of lower
/// rank.
proof fn lemma_windows_of_grow(
    windows: Seq<usize>,
    entries: Seq<EntryView>,
    id: Seq<char>,
    n: int,
    p: int,
)
    requires
        0 <= n < entries.len(),
        n <= usize::MAX,
        are_windows_of(windows, entries.take(n), id),
        entries[n].session_id == id,
        0 <= p <= windows.len(),
        forall|k: int|
            0 <= k < p ==> window_rank(entries[#[trigger] windows[k] as int]) <= window_rank(
                entries[n],
            ),
        p < windows.len() ==> window_rank(entries[n]) < window_rank(entries[windows[p] as int]),
    ensures
        are_windows_of(windows.insert(p, n as usize), entries.take(n + 1), id),
{
    let a = entries.take(n);
    let b = entries.take(n + 1);
    let w = windows.insert(p, n as usize);
    let old = |k: int| if k < p { k } else { k - 1 };
    assert forall|k: int| 0 <= k < w.len() && k != p implies w[k] == #[trigger] windows[old(k)]
        && 0 <= old(k) < windows.len() by {}
    assert(w[p] == n as usize);
    assert forall|k: int| 0 <= k < w.len() implies (#[trigger] w[k]) < b.len()
        && b[w[k] as int].session_id == id by {
        if k != p {
            assert(w[k] == windows[old(k)]);
            assert(b[windows[old(k)] as int] == a[windows[old(k)] as int]);
        }
    }
    assert forall|i: int| 0 <= i < b.len() && (#[trigger] b[i]).session_id == id implies holds_place(
        w,
        i,
    ) by {
        if i == n {
            assert(w[p] == i);
        } else {
            assert(a[i] == b[i]);
            assert(holds_place(windows, i));
            let k = choose|k: int| 0 <= k < windows.len() && #[trigger] windows[k] == i;
            let m = if k < p {
                k
            } else {
                k + 1
            };
            assert(w[m] == i);
        }
    }
    assert forall|x: int, y: int| 0 <= x < y < w.len() implies window_before(
        b,
        #[trigger] w[x] as int,
        #[trigger] w[y] as int,
    ) by {
        if x == p {
            let z = windows[old(y)];
            assert(w[y] == z);
            assert(b[z as int] == entries[z as int]);
            if old(y) > p {
                assert(window_before(a, windows[p] as int, z as int));
                assert(a[windows[p] as int] == entries[windows[p] as int]);
                assert(a[z as int] == entries[z as int]);
            }
        } else if y == p {
            let z = windows[old(x)];
            assert(w[x] == z);
            assert(b[z as int] == entries[z as int]);
        } else {
            assert(w[x] == windows[old(x)]);
            assert(w[y] == windows[old(y)]);
            assert(window_before(a, windows[old(x)] as int, windows[old(y)] as int));
            assert(b[w[x] as int] == a[w[x] as int]);
            assert(b[w[y] as int] == a[w[y] as int]);
        }
    }
}

/// A group stays a group when an entry of another session comes in.
proof fn lemma_group_of_other(group: GroupView, entries: Seq<EntryView>, n: int)
    requires
        0 <= n < entries.len(),
        is_group_of(group, entries.take(n)),
        entries[n].session_id != group.id,
    ensures
        is_group_of(group, entries.take(n + 1)),
{
    lemma_leader_stays(entries, group.id, n);
    lemma_windows_of_other(group.window_indices, entries, group.id, n);
}

/// The grouping of one more entry of a session that has a group.
proof fn lemma_grouping_grow(
    groups: Seq<GroupView>,
    entries: Seq<EntryView>,
    n: int,
    k: int,
    p: int,
)
    requires
        0 <= n < entries.len(),
        n <= usize::MAX,
        is_grouping(groups, entries.take(n)),
        0 <= k < groups.len(),
        groups[k].id == entries[n].session_id,
        0 <= p <= groups[k].window_indices.len(),
        forall|j: int|
            0 <= j < p ==> window_rank(entries[#[trigger] groups[k].window_indices[j] as int])
                <= window_rank(entries[n]),
        p < groups[k].window_indices.len() ==> window_rank(entries[n]) < window_rank(
            entries[groups[k].window_indices[p] as int],
        ),
    ensures
        is_grouping(
            groups.update(
                k,
                GroupView {
                    window_indices: groups[k].window_indices.insert(p, n as usize),
                    ..groups[k]
                },
            ),
            entries.take(n + 1),
        ),
{
    let a = entries.take(n);
    let b = entries.take(n + 1);
    let g = GroupView {
        window_indices: groups[k].window_indices.insert(p, n as usize),
        ..groups[k]
    };
    let r = groups.update(k, g);
    assert(is_group_of(groups[k], a));
    lemma_leader_stays(entries, g.id, n);
    lemma_windows_of_grow(groups[k].window_indices, entries, g.id, n, p);
    assert(b[leader(a, g.id)] == a[leader(a, g.id)]);
    assert forall|m: int| 0 <= m < r.len() implies is_group_of(#[trigger] r[m], b) by {
        if m != k {
            lemma_groups_differ(groups, a, m, k);
            lemma_group_of_other(groups[m], entries, n);
        }
    }
    assert forall|i: int| 0 <= i < b.len() implies has_group(r, (#[trigger] b[i]).session_id) by {
        if i == n {
            assert(r[k].id == b[i].session_id);
        } else {
            assert(b[i] == a[i]);
            assert(has_group(groups, a[i].session_id));
            let m = choose|m: int|
                0 <= m < groups.len() && (#[trigger] groups[m]).id == a[i].session_id;
            assert(r[m].id == groups[m].id);
        }
    }
    assert forall|x: int, y: int| 0 <= x < y < r.len() implies group_before(
        b,
        #[trigger] r[x],
        #[trigger] r[y],
    ) by {
        assert(group_before(a, groups[x], groups[y]));
        assert(is_group_of(groups[x], a));
        assert(is_group_of(groups[y], a));
        lemma_leader_stays(entries, groups[x].id, n);
        lemma_leader_stays(entries, groups[y].id, n);
    }
}

/// The grouping of one more entry, the first of its session.
proof fn lemma_grouping_add(
    groups: Seq<GroupView>,
    entries: Seq<EntryView>,
    n: int,
    g: GroupView,
    p: int,
)
    requires
        0 <= n < entries.len(),
        n <= usize::MAX,
        is_grouping(groups, entries.take(n)),
        !has_group(groups, entries[n].session_id),
        g.id == entries[n].session_id,
        g.name == entries[n].session_name,
        g.attached == entries[n].session_attached,
        g.activity == entries[n].session_activity,
        g.window_indices == seq![n as usize],
        0 <= p <= groups.len(),
        forall|k: int| 0 <= k < p ==> !shown_before(g, #[trigger] groups[k]),
        p < groups.len() ==> shown_before(g, groups[p]),
    ensures
        is_grouping(groups.insert(p, g), entries.take(n + 1)),
{
    let a = entries.take(n);
    let b = entries.take(n + 1);
    let r = groups.insert(p, g);
    let old = |k: int| if k < p { k } else { k - 1 };
    assert forall|k: int| 0 <= k < r.len() && k != p implies r[k] == #[trigger] groups[old(k)]
        && 0 <= old(k) < groups.len() by {}
    assert(r[p] == g);
    assert forall|j: int| 0 <= j < n implies (#[trigger] b[j]).session_id != g.id by {
        assert(b[j] == a[j]);
        assert(has_group(groups, a[j].session_id));
    }
    assert(is_leader(b, g.id, n));
    lemma_leader_is(b, g.id, n);
    assert(are_windows_of(g.window_indices, b, g.id)) by {
        assert forall|i: int| 0 <= i < b.len() && (#[trigger] b[i]).session_id
            == g.id implies holds_place(g.window_indices, i) by {
            assert(i == n);
            assert(g.window_indices[0] == i);
        }
    }
    assert forall|m: int| 0 <= m < r.len() implies is_group_of(#[trigger] r[m], b) by {
        if m != p {
            assert(r[m] == groups[old(m)]);
            assert(is_group_of(groups[old(m)], a));
            assert(groups[old(m)].id != g.id);
            lemma_group_of_other(groups[old(m)], entries, n);
        }
    }
    assert forall|i: int| 0 <= i < b.len() implies has_group(r, (#[trigger] b[i]).session_id) by {
        if i == n {
            assert(r[p].id == b[i].session_id);
        } else {
            assert(b[i] == a[i]);
            assert(has_group(groups, a[i].session_id));
            let m = choose|m: int|
                0 <= m < groups.len() && (#[trigger] groups[m]).id == a[i].session_id;
            let q = if m < p {
                m
            } else {
                m + 1
            };
            assert(r[q].id == groups[m].id);
        }
    }
    assert forall|x: int, y: int| 0 <= x < y < r.len() implies group_before(
        b,
        #[trigger] r[x],
        #[trigger] r[y],
    ) by {
        if x == p {
            let z = groups[old(y)];
            assert(r[y] == z);
            if old(y) > p {
                assert(group_before(a, groups[p], z));
                lemma_order_transitive(g, groups[p], z);
            }
        } else if y == p {
            let z = groups[old(x)];
            assert(r[x] == z);
            assert(is_group_of(z, a));
            lemma_order_total(z, g);
            lemma_leader_stays(entries, z.id, n);
        } else {
            assert(r[x] == groups[old(x)]);
            assert(r[y] == groups[old(y)]);
            assert(group_before(a, groups[old(x)], groups[old(y)]));
            assert(is_group_of(groups[old(x)], a));
            assert(is_group_of(groups[old(y)], a));
            lemma_leader_stays(entries, groups[old(x)].id, n);
            lemma_leader_stays(entries, groups[old(y)].id, n);
        }
    }
}

// ---------------------------------------------------------------------------
// Grouping
// ---------------------------------------------------------------------------

fn rank(entry: &Entry) -> (r: u32)
    ensures
        r == window_rank(entry@),
{
    match number_of(entry.window_index.as_str()) {
        Some(n) => n,
        None => u32::MAX,
    }
}

fn goes_before(a: &SessionGroup, b: &SessionGroup) -> (r: bool)
    ensures
        r == shown_before(a@, b@),
{
    if a.attached != b.attached {
        a.attached
    } else if a.activity != b.activity {
        a.activity > b.activity
    } else {
        comes_before(a.name.as_str(), b.name.as_str())
    }
}

/// Groups the entries by session: attached sessions first, then the more
/// active ones, then by name, and each session's windows by their index.
pub fn group_sessions(entries: &Vec<Entry>) -> (sessions: Vec<SessionGroup>)
    ensures
        is_grouping(sessions.deep_view(), entries.deep_view()),
{
    let mut sessions: Vec<SessionGroup> = Vec::new();
    let ghost all = entries.deep_view();
    let mut i: usize = 0;
    while i < entries.len()
        invariant
            all == entries.deep_view(),
            i <= entries@.len(),
            is_grouping(sessions.deep_view(), all.take(i as int)),
        decreases entries@.len() - i,
    {
        let entry = &entries[i];
        assert(all[i as int] == entry@);
        let ghost before = sessions.deep_view();
        let mut k: usize = 0;
        while k < sessions.len() && sessions[k].id != entry.session_id
            invariant
                k <= sessions@.len(),
                sessions.deep_view() == before,
                forall|j: int| 0 <= j < k ==> (#[trigger] before[j]).id != entry.session_id@,
            decreases sessions@.len() - k,
        {
            assert(before[k as int] == sessions[k as int]@);
            k += 1;
        }
        if k < sessions.len() {
            assert(before[k as int] == sessions[k as int]@);
            assert(is_group_of(before[k as int], all.take(i as int)));
            let ghost windows = sessions[k as int].window_indices@;
            let own = rank(entry);
            let mut p: usize = 0;
            while p < sessions[k].window_indices.len() && rank(
                &entries[sessions[k].window_indices[p]],
            ) <= own
                invariant
                    all == entries.deep_view(),
                    i < entries@.len(),
                    k < sessions@.len(),
                    sessions[k as int].window_indices@ == windows,
                    p <= windows.len(),
                    are_windows_of(windows, all.take(i as int), entry.session_id@),
                    forall|j: int|
                        0 <= j < p ==> window_rank(all[#[trigger] windows[j] as int]) <= own,
                decreases windows.len() - p,
            {
                p += 1;
            }
            proof {
                lemma_grouping_grow(before, all, i as int, k as int, p as int);
            }
            sessions[k].window_indices.insert(p, i);
            assert(sessions.deep_view() =~= before.update(
                k as int,
                GroupView { window_indices: windows.insert(p as int, i), ..before[k as int] },
            ));
        } else {
            let mut window_indices: Vec<usize> = Vec::new();
            window_indices.push(i);
            let group = SessionGroup {
                id: entry.session_id.clone(),
                name: entry.session_name.clone(),
                attached: entry.session_attached,
                activity: entry.session_activity,
                window_indices,
            };
            let mut p: usize = 0;
            while p < sessions.len() && !goes_before(&group, &sessions[p])
                invariant
                    p <= sessions@.len(),
                    sessions.deep_view() == before,
                    forall|j: int| 0 <= j < p ==> !shown_before(group@, #[trigger] before[j]),
                decreases sessions@.len() - p,
            {
                assert(before[p as int] == sessions[p as int]@);
                p += 1;
            }
            proof {
                if p < sessions@.len() {
                    assert(before[p as int] == sessions[p as int]@);
                }
                assert(group@.window_indices =~= seq![i]);
                lemma_grouping_add(before, all, i as int, group@, p as int);
            }
            let ghost shown = group@;
            sessions.insert(p, group);
            assert(sessions.deep_view() =~= before.insert(p as int, shown));
        }
        i += 1;
    }
    assert(all.take(i as int) =~= all);
    sessions
}

// ---------------------------------------------------------------------------
// Finding a place
// ---------------------------------------------------------------------------

/// Being the session `id`.
pub open spec fn has_id(id: Seq<char>) -> spec_fn(GroupView) -> bool {
    |group: GroupView| group.id == id
}

/// Being the place of the window `id`.
pub open spec fn shows_window(
    entries: Seq<EntryView>,
    id: Seq<char>,
) -> spec_fn(usize) -> bool {
    |i: usize| entries[i as int].window_id == id
}

/// Being the place of a window that is active in its session.
pub open spec fn shows_active(entries: Seq<EntryView>) -> spec_fn(usize) -> bool {
    |i: usize| entries[i as int].window_active
}

/// Finds the session `id`.
pub fn session_place(sessions: &Vec<SessionGroup>, id: &String) -> (r: Option<usize>)
    ensures
        r.deep_view() == place_of_session(sessions.deep_view(), Some(id@)),
{
    let ghost groups = sessions.deep_view();
    let mut k: usize = 0;
    while k < sessions.len() && sessions[k].id != *id
        invariant
            groups == sessions.deep_view(),
            k <= sessions@.len(),
            place_from(groups, has_id(id@), 0) == place_from(groups, has_id(id@), k as int),
        decreases sessions@.len() - k,
    {
        assert(groups[k as int] == sessions[k as int]@);
        k += 1;
    }
    if k < sessions.len() {
        assert(groups[k as int] == sessions[k as int]@);
        Some(k)
    } else {
        None
    }
}

/// The place of the session that an optional id names, if it names one.
pub open spec fn place_of_session(
    groups: Seq<GroupView>,
    id: Option<Seq<char>>,
) -> Option<usize> {
    match id {
        Some(id) => match place(groups, has_id(id)) {
            Some(k) => Some(k as usize),
            None => None,
        },
        None => None,
    }
}

/// The place, among the windows of a session, of the window that an optional
/// id names, if it names one.
pub open spec fn place_of_window(
    windows: Seq<usize>,
    entries: Seq<EntryView>,
    id: Option<Seq<char>>,
) -> Option<usize> {
    match id {
        Some(id) => match place(windows, shows_window(entries, id)) {
            Some(k) => Some(k as usize),
            None => None,
        },
        None => None,
    }
}

/// The place, among the windows of a session, of the first that is active.
pub open spec fn place_of_active(
    windows: Seq<usize>,
    entries: Seq<EntryView>,
) -> Option<usize> {
    match place(windows, shows_active(entries)) {
        Some(k) => Some(k as usize),
        None => None,
    }
}

/// Finds a window of a session by its id.
pub fn window_place(windows: &Vec<usize>, entries: &Vec<Entry>, id: &String) -> (r: Option<usize>)
    requires
        forall|k: int| 0 <= k < windows@.len() ==> (#[trigger] windows@[k]) < entries@.len(),
    ensures
        r == place_of_window(windows@, entries.deep_view(), Some(id@)),
{
    let ghost all = entries.deep_view();
    let ghost pred = shows_window(all, id@);
    let mut k: usize = 0;
    while k < windows.len() && entries[windows[k]].window_id != *id
        invariant
            all == entries.deep_view(),
            pred == shows_window(all, id@),
            forall|k: int| 0 <= k < windows@.len() ==> (#[trigger] windows@[k]) < entries@.len(),
            k <= windows@.len(),
            place_from(windows@, pred, 0) == place_from(windows@, pred, k as int),
        decreases windows@.len() - k,
    {
        assert(all[windows[k as int] as int] == entries[windows[k as int] as int]@);
        k += 1;
    }
    if k < windows.len() {
        assert(all[windows[k as int] as int] == entries[windows[k as int] as int]@);
        Some(k)
    } else {
        None
    }
}

/// Finds the first active window of a session.
pub fn active_place(windows: &Vec<usize>, entries: &Vec<Entry>) -> (r: Option<usize>)
    requires
        forall|k: int| 0 <= k < windows@.len() ==> (#[trigger] windows@[k]) < entries@.len(),
    ensures
        r == place_of_active(windows@, entries.deep_view()),
{
    let ghost all = entries.deep_view();
    let ghost pred = shows_active(all);
    let mut k: usize = 0;
    while k < windows.len() && !entries[windows[k]].window_active
        invariant
            all == entries.deep_view(),
            pred == shows_active(all),
            forall|k: int| 0 <= k < windows@.len() ==> (#[trigger] windows@[k]) < entries@.len(),
            k <= windows@.len(),
            place_from(windows@, pred, 0) == place_from(windows@, pred, k as int),
        decreases windows@.len() - k,
    {
        assert(all[windows[k as int] as int] == entries[windows[k as int] as int]@);
        k += 1;
    }
    if k < windows.len() {
        assert(all[windows[k as int] as int] == entries[windows[k as int] as int]@);
        Some(k)
    } else {
        None
    }
}

/// The value, or zero when there is none.
pub open spec fn or_first(place: Option<usize>) -> usize {
    match place {
        Some(k) => k,
        None => 0,
    }
}

/// Where the picker opens: on the session it was opened from, or the first;
/// there on the window it was opened from, or the first active one, or the
/// first.
pub open spec fn opening_position(
    groups: Seq<GroupView>,
    entries: Seq<EntryView>,
    current: CurrentView,
) -> (usize, usize) {
    let session = or_first(place_of_session(groups, current.session_id));
    if session < groups.len() {
        let windows = groups[session as int].window_indices;
        match place_of_window(windows, entries, current.window_id) {
            Some(k) => (session, k),
            None => (session, or_first(place_of_active(windows, entries))),
        }
    } else {
        (session, 0)
    }
}

/// Finds where the picker opens.
pub fn initial_position(
    sessions: &Vec<SessionGroup>,
    entries: &Vec<Entry>,
    current: &CurrentTarget,
) -> (r: (usize, usize))
    requires
        windows_in_bounds(sessions.deep_view(), entries@.len()),
    ensures
        r == opening_position(sessions.deep_view(), entries.deep_view(), current@),
{
    let session: usize = match &current.session_id {
        Some(id) => match session_place(sessions, id) {
            Some(k) => k,
            None => 0,
        },
        None => 0,
    };
    if session >= sessions.len() {
        return (session, 0);
    }
    let ghost groups = sessions.deep_view();
    let windows = &sessions[session].window_indices;
    assert(groups[session as int] == sessions[session as int]@);
    assert forall|k: int| 0 <= k < windows@.len() implies (#[trigger] windows@[k])
        < entries@.len() by {
        assert(groups[session as int].window_indices[k] == windows@[k]);
    }
    let named: Option<usize> = match &current.window_id {
        Some(id) => window_place(windows, entries, id),
        None => None,
    };
    match named {
        Some(k) => (session, k),
        None => match active_place(windows, entries) {
            Some(k) => (session, k),
            None => (session, 0),
        },
    }
}

// ---------------------------------------------------------------------------
// Laws
// ---------------------------------------------------------------------------

/// Two sequences of the same items that are ordered alike are the same.
proof fn lemma_order_determines<T>(a: Seq<T>, b: Seq<T>, before: spec_fn(T, T) -> bool)
    requires
        forall|x: T, y: T| #[trigger] before(x, y) ==> !before(y, x),
        forall|i: int, j: int| 0 <= i < j < a.len() ==> before(#[trigger] a[i], #[trigger] a[j]),
        forall|i: int, j: int| 0 <= i < j < b.len() ==> before(#[trigger] b[i], #[trigger] b[j]),
        forall|i: int| 0 <= i < a.len() ==> b.contains(#[trigger] a[i]),
        forall|i: int| 0 <= i < b.len() ==> a.contains(#[trigger] b[i]),
    ensures
        a == b,
{
    lemma_order_determines_prefix(a, b, before, a.len() as int);
    if a.len() < b.len() {
        let x = b[a.len() as int];
        assert(a.contains(x));
        let m = choose|m: int| 0 <= m < a.len() && a[m] == x;
        assert(b[m] == x);
        assert(before(b[m], b[a.len() as int]));
    }
    assert(a =~= b);
}

proof fn lemma_order_determines_prefix<T>(
    a: Seq<T>,
    b: Seq<T>,
    before: spec_fn(T, T) -> bool,
    n: int,
)
    requires
        0 <= n <= a.len(),
        forall|x: T, y: T| #[trigger] before(x, y) ==> !before(y, x),
        forall|i: int, j: int| 0 <= i < j < a.len() ==> before(#[trigger] a[i], #[trigger] a[j]),
        forall|i: int, j: int| 0 <= i < j < b.len() ==> before(#[trigger] b[i], #[trigger] b[j]),
        forall|i: int| 0 <= i < a.len() ==> b.contains(#[trigger] a[i]),
        forall|i: int| 0 <= i < b.len() ==> a.contains(#[trigger] b[i]),
    ensures
        n <= b.len(),
        forall|i: int| 0 <= i < n ==> a[i] == b[i],
    decreases n,
{
    if n > 0 {
        lemma_order_determines_prefix(a, b, before, n - 1);
        let x = a[n - 1];
        assert(b.contains(x));
        let m = choose|m: int| 0 <= m < b.len() && b[m] == x;
        if m < n - 1 {
            assert(a[m] == x);
            assert(before(a[m], a[n - 1]));
        }
        let y = b[n - 1];
        assert(a.contains(y));
        let q = choose|q: int| 0 <= q < a.len() && a[q] == y;
        if q < n - 1 {
            assert(b[q] == y);
            assert(before(b[q], b[n - 1]));
        }
        if x != y {
            assert(before(b[n - 1], b[m]));
            assert(before(a[n - 1], a[q]));
        }
    }
}

proof fn lemma_windows_determined(
    v: Seq<usize>,
    w: Seq<usize>,
    entries: Seq<EntryView>,
    id: Seq<char>,
)
    requires
        are_windows_of(v, entries, id),
        are_windows_of(w, entries, id),
    ensures
        v == w,
{
    let before = |x: usize, y: usize| window_before(entries, x as int, y as int);
    assert forall|i: int| 0 <= i < v.len() implies w.contains(#[trigger] v[i]) by {
        assert(entries[v[i] as int].session_id == id);
        assert(holds_place(w, v[i] as int));
    }
    assert forall|i: int| 0 <= i < w.len() implies v.contains(#[trigger] w[i]) by {
        assert(entries[w[i] as int].session_id == id);
        assert(holds_place(v, w[i] as int));
    }
    lemma_order_determines(v, w, before);
}

/// A list of entries has one grouping and no other.
pub proof fn law_grouping_is_determined(
    g: Seq<GroupView>,
    h: Seq<GroupView>,
    entries: Seq<EntryView>,
)
    requires
        is_grouping(g, entries),
        is_grouping(h, entries),
    ensures
        g == h,
{
    let before = |x: GroupView, y: GroupView| group_before(entries, x, y);
    assert forall|x: GroupView, y: GroupView| #[trigger] before(x, y) implies !before(y, x) by {
        lemma_text_before_irreflexive(x.name);
        if text_before(x.name, y.name) && text_before(y.name, x.name) {
            lemma_text_before_transitive(x.name, y.name, x.name);
        }
    }
    assert forall|i: int| 0 <= i < g.len() implies h.contains(#[trigger] g[i]) by {
        lemma_group_found(g[i], h, entries);
    }
    assert forall|i: int| 0 <= i < h.len() implies g.contains(#[trigger] h[i]) by {
        lemma_group_found(h[i], g, entries);
    }
    lemma_order_determines(g, h, before);
}

proof fn lemma_group_found(x: GroupView, groups: Seq<GroupView>, entries: Seq<EntryView>)
    requires
        is_group_of(x, entries),
        is_grouping(groups, entries),
    ensures
        groups.contains(x),
{
    assert(has_group(groups, entries[leader(entries, x.id)].session_id));
    let m = choose|m: int| 0 <= m < groups.len() && (#[trigger] groups[m]).id == x.id;
    assert(is_group_of(groups[m], entries));
    lemma_windows_determined(x.window_indices, groups[m].window_indices, entries, x.id);
    assert(groups[m] == x);
}

/// Every entry is shown in one place, under its own session, and in no other.
pub proof fn law_every_entry_is_shown_once(
    groups: Seq<GroupView>,
    entries: Seq<EntryView>,
    i: int,
)
    requires
        is_grouping(groups, entries),
        0 <= i < entries.len(),
    ensures
        exists|k: int, j: int|
            {
                &&& is_shown_at(groups, i, k, j)
                &&& groups[k].id == entries[i].session_id
                &&& forall|m: int, n: int| #[trigger]
                    is_shown_at(groups, i, m, n) ==> m == k && n == j
            },
{
    assert(has_group(groups, entries[i].session_id));
    let k = choose|k: int| 0 <= k < groups.len() && (#[trigger] groups[k]).id
        == entries[i].session_id;
    assert(is_group_of(groups[k], entries));
    let w = groups[k].window_indices;
    assert(holds_place(w, i));
    let j = choose|j: int| 0 <= j < w.len() && #[trigger] w[j] == i;
    assert(is_shown_at(groups, i, k, j));
    assert forall|m: int, n: int| #[trigger] is_shown_at(groups, i, m, n) implies m == k && n
        == j by {
        assert(is_group_of(groups[m], entries));
        assert(groups[m].window_indices[n] == i);
        if m != k {
            lemma_groups_differ(groups, entries, m, k);
        }
        if n < j {
            assert(window_before(entries, w[n] as int, w[j] as int));
        } else if j < n {
            assert(window_before(entries, w[j] as int, w[n] as int));
        }
    }
}

/// Whether entry `i` is the window `j` of session `k`.
pub open spec fn is_shown_at(groups: Seq<GroupView>, i: int, k: int, j: int) -> bool {
    &&& 0 <= k < groups.len()
    &&& 0 <= j < groups[k].window_indices.len()
    &&& groups[k].window_indices[j] == i
}

/// No session is shown without a window.
pub proof fn law_no_session_is_empty(groups: Seq<GroupView>, entries: Seq<EntryView>, k: int)
    requires
        is_grouping(groups, entries),
        0 <= k < groups.len(),
    ensures
        groups[k].window_indices.len() > 0,
{
    assert(is_group_of(groups[k], entries));
    let first = leader(entries, groups[k].id);
    assert(entries[first].session_id == groups[k].id);
    assert(holds_place(groups[k].window_indices, first));
}

/// Whether the index that is shown of a window is its RMUX index.
pub open spec fn is_indexed(entry: EntryView) -> bool {
    entry.window_index == decimal(entry.window_index_num as nat)
}

/// The windows of a session ascend by their RMUX index.
pub proof fn law_windows_ascend(
    groups: Seq<GroupView>,
    entries: Seq<EntryView>,
    k: int,
    a: int,
    b: int,
)
    requires
        is_grouping(groups, entries),
        0 <= k < groups.len(),
        0 <= a < b < groups[k].window_indices.len(),
        is_indexed(entries[groups[k].window_indices[a] as int]),
        is_indexed(entries[groups[k].window_indices[b] as int]),
    ensures
        entries[groups[k].window_indices[a] as int].window_index_num
            <= entries[groups[k].window_indices[b] as int].window_index_num,
{
    let windows = groups[k].window_indices;
    assert(is_group_of(groups[k], entries));
    assert(window_before(entries, windows[a] as int, windows[b] as int));
    lemma_decimal_reads_back(entries[windows[a] as int].window_index_num as nat);
    lemma_decimal_reads_back(entries[windows[b] as int].window_index_num as nat);
}

/// A list of entries that is not empty has a session to show.
pub proof fn law_entries_have_sessions(groups: Seq<GroupView>, entries: Seq<EntryView>)
    requires
        is_grouping(groups, entries),
    ensures
        groups.len() == 0 <==> entries.len() == 0,
{
    if entries.len() > 0 {
        assert(has_group(groups, entries[0].session_id));
    }
    if groups.len() > 0 {
        assert(is_group_of(groups[0], entries));
    }
}

/// The picker opens on a window that there is.
pub proof fn law_opens_on_a_window(
    groups: Seq<GroupView>,
    entries: Seq<EntryView>,
    current: CurrentView,
)
    requires
        is_grouping(groups, entries),
        groups.len() > 0,
        groups.len() <= usize::MAX,
        forall|k: int|
            0 <= k < groups.len() ==> (#[trigger] groups[k]).window_indices.len() <= usize::MAX,
    ensures
        ({
            let (s, w) = opening_position(groups, entries, current);
            s < groups.len() && w < groups[s as int].window_indices.len()
        }),
{
    if let Some(id) = current.session_id {
        lemma_place_from(groups, has_id(id), 0);
    }
    let (s, w) = opening_position(groups, entries, current);
    law_no_session_is_empty(groups, entries, s as int);
    let windows = groups[s as int].window_indices;
    if let Some(id) = current.window_id {
        lemma_place_from(windows, shows_window(entries, id), 0);
    }
    lemma_place_from(windows, shows_active(entries), 0);
}

/// The picker opens on the window that it was opened from, when that is one
/// of the windows of the session that it was opened from.
pub proof fn law_opens_on_the_current_window(
    groups: Seq<GroupView>,
    entries: Seq<EntryView>,
    current: CurrentView,
    i: int,
)
    requires
        is_grouping(groups, entries),
        groups.len() <= usize::MAX,
        forall|k: int|
            0 <= k < groups.len() ==> (#[trigger] groups[k]).window_indices.len() <= usize::MAX,
        0 <= i < entries.len(),
        current.session_id == Some(entries[i].session_id),
        current.window_id == Some(entries[i].window_id),
    ensures
        ({
            let (s, w) = opening_position(groups, entries, current);
            &&& s < groups.len()
            &&& w < groups[s as int].window_indices.len()
            &&& entries[groups[s as int].window_indices[w as int] as int].session_id
                == entries[i].session_id
            &&& entries[groups[s as int].window_indices[w as int] as int].window_id
                == entries[i].window_id
        }),
{
    law_entries_have_sessions(groups, entries);
    law_opens_on_a_window(groups, entries, current);
    let sid = entries[i].session_id;
    let wid = entries[i].window_id;
    let (s, w) = opening_position(groups, entries, current);
    lemma_place_from(groups, has_id(sid), 0);
    assert(has_group(groups, sid));
    let k = choose|k: int| 0 <= k < groups.len() && (#[trigger] groups[k]).id == sid;
    assert(has_id(sid)(groups[k]));
    assert(groups[s as int].id == sid);
    assert(is_group_of(groups[s as int], entries));
    let windows = groups[s as int].window_indices;
    let pred = shows_window(entries, wid);
    lemma_place_from(windows, pred, 0);
    assert(holds_place(windows, i));
    let j = choose|j: int| 0 <= j < windows.len() && #[trigger] windows[j] == i;
    assert(pred(windows[j]));
}

/// When the window that the picker was opened from is not there, it opens on
/// an active window of the session that it was opened from, if there is one.
pub proof fn law_opens_on_the_active_window(
    groups: Seq<GroupView>,
    entries: Seq<EntryView>,
    current: CurrentView,
    i: int,
)
    requires
        is_grouping(groups, entries),
        groups.len() <= usize::MAX,
        forall|k: int|
            0 <= k < groups.len() ==> (#[trigger] groups[k]).window_indices.len() <= usize::MAX,
        0 <= i < entries.len(),
        entries[i].window_active,
        current.session_id == Some(entries[i].session_id),
        forall|j: int|
            0 <= j < entries.len() && (#[trigger] entries[j]).session_id == entries[i].session_id
                ==> current.window_id != Some(entries[j].window_id),
    ensures
        ({
            let (s, w) = opening_position(groups, entries, current);
            &&& s < groups.len()
            &&& w < groups[s as int].window_indices.len()
            &&& entries[groups[s as int].window_indices[w as int] as int].session_id
                == entries[i].session_id
            &&& entries[groups[s as int].window_indices[w as int] as int].window_active
        }),
{
    law_entries_have_sessions(groups, entries);
    law_opens_on_a_window(groups, entries, current);
    let sid = entries[i].session_id;
    let (s, w) = opening_position(groups, entries, current);
    lemma_place_from(groups, has_id(sid), 0);
    assert(has_group(groups, sid));
    let k = choose|k: int| 0 <= k < groups.len() && (#[trigger] groups[k]).id == sid;
    assert(has_id(sid)(groups[k]));
    assert(groups[s as int].id == sid);
    assert(is_group_of(groups[s as int], entries));
    let windows = groups[s as int].window_indices;
    if let Some(id) = current.window_id {
        let pred = shows_window(entries, id);
        lemma_place_from(windows, pred, 0);
        let found = place_from(windows, pred, 0);
        if found < windows.len() {
            assert(pred(windows[found]));
            assert(entries[windows[found] as int].session_id == sid);
        }
    }
    let pred = shows_active(entries);
    lemma_place_from(windows, pred, 0);
    assert(holds_place(windows, i));
    let j = choose|j: int| 0 <= j < windows.len() && #[trigger] windows[j] == i;
    assert(pred(windows[j]));
}

/// Of any two sessions, the one that is shown first is attached if the other
/// is; where both are or neither is, it is at least as active; and where they
/// are as active, its name does not come behind that of the other.
pub proof fn law_sessions_are_ordered(
    groups: Seq<GroupView>,
    entries: Seq<EntryView>,
    i: int,
    j: int,
)
    requires
        is_grouping(groups, entries),
        0 <= i < j < groups.len(),
    ensures
        groups[j].attached ==> groups[i].attached,
        groups[i].attached == groups[j].attached ==> groups[i].activity >= groups[j].activity,
        groups[i].attached == groups[j].attached && groups[i].activity == groups[j].activity ==> {
            &&& groups[i].name == groups[j].name || text_before(groups[i].name, groups[j].name)
            &&& !text_before(groups[j].name, groups[i].name)
        },
        groups[i].id != groups[j].id,
{
    let a = groups[i];
    let b = groups[j];
    assert(group_before(entries, a, b));
    lemma_groups_differ(groups, entries, i, j);
    lemma_text_before_irreflexive(a.name);
    if text_before(a.name, b.name) && text_before(b.name, a.name) {
        lemma_text_before_transitive(a.name, b.name, a.name);
    }
}

/// A session is called, and said to be attached and active, as the first of
/// its entries says.
pub proof fn law_the_first_entry_tells_of_its_session(
    groups: Seq<GroupView>,
    entries: Seq<EntryView>,
    k: int,
    i: int,
)
    requires
        is_grouping(groups, entries),
        0 <= k < groups.len(),
        0 <= i < entries.len(),
        entries[i].session_id == groups[k].id,
        forall|j: int| 0 <= j < i ==> (#[trigger] entries[j]).session_id != groups[k].id,
    ensures
        groups[k].name == entries[i].session_name,
        groups[k].attached == entries[i].session_attached,
        groups[k].activity == entries[i].session_activity,
{
    assert(is_group_of(groups[k], entries));
    lemma_leader_is(entries, groups[k].id, i);
}

/// A session shows all of its entries, and no others.
pub proof fn law_a_session_shows_its_entries(
    groups: Seq<GroupView>,
    entries: Seq<EntryView>,
    k: int,
    i: usize,
)
    requires
        is_grouping(groups, entries),
        0 <= k < groups.len(),
    ensures
        groups[k].window_indices.contains(i) <==> i < entries.len()
            && entries[i as int].session_id == groups[k].id,
{
    let windows = groups[k].window_indices;
    assert(is_group_of(groups[k], entries));
    if i < entries.len() && entries[i as int].session_id == groups[k].id {
        assert(holds_place(windows, i as int));
        let n = choose|n: int| 0 <= n < windows.len() && #[trigger] windows[n] == i as int;
        assert(windows[n] == i);
    }
}

/// By what a window is ordered in its session: the number that its index is,
/// or the largest where it is none.
pub open spec fn order_of(entry: EntryView) -> int {
    match parse_number(entry.window_index) {
        Some(n) => n as int,
        None => 0xffff_ffff,
    }
}

/// The windows of a session are ordered by their index as a number, those
/// whose index is none behind; windows that are alike in that keep the order
/// of the entries.
pub proof fn law_windows_are_ordered(
    groups: Seq<GroupView>,
    entries: Seq<EntryView>,
    k: int,
    a: int,
    b: int,
)
    requires
        is_grouping(groups, entries),
        0 <= k < groups.len(),
        0 <= a < b < groups[k].window_indices.len(),
    ensures
        ({
            let x = groups[k].window_indices[a];
            let y = groups[k].window_indices[b];
            &&& order_of(entries[x as int]) <= order_of(entries[y as int])
            &&& order_of(entries[x as int]) == order_of(entries[y as int]) ==> x < y
        }),
{
    let windows = groups[k].window_indices;
    assert(is_group_of(groups[k], entries));
    assert(window_before(entries, windows[a] as int, windows[b] as int));
}

/// Where a session is found: in the first place that has its id.
pub proof fn law_a_session_is_found_by_its_id(groups: Seq<GroupView>, id: Seq<char>)
    requires
        groups.len() <= usize::MAX,
    ensures
        match place_of_session(groups, Some(id)) {
            Some(k) => {
                &&& k < groups.len()
                &&& groups[k as int].id == id
                &&& forall|i: int| 0 <= i < k ==> (#[trigger] groups[i]).id != id
            },
            None => forall|i: int| 0 <= i < groups.len() ==> (#[trigger] groups[i]).id != id,
        },
        place_of_session(groups, None) is None,
{
    lemma_place_from(groups, has_id(id), 0);
    assert forall|i: int| 0 <= i < place_from(groups, has_id(id), 0) implies (
    #[trigger] groups[i]).id != id by {
        assert(!has_id(id)(groups[i]));
    }
}

/// Where a window is found among those of a session: in the first place that
/// shows its id, or, without an id, that shows an active window.
pub proof fn law_a_window_is_found_by_its_id(
    windows: Seq<usize>,
    entries: Seq<EntryView>,
    id: Seq<char>,
)
    requires
        windows.len() <= usize::MAX,
    ensures
        match place_of_window(windows, entries, Some(id)) {
            Some(k) => {
                &&& k < windows.len()
                &&& entries[windows[k as int] as int].window_id == id
                &&& forall|i: int|
                    0 <= i < k ==> entries[(#[trigger] windows[i]) as int].window_id != id
            },
            None => forall|i: int|
                0 <= i < windows.len() ==> entries[(#[trigger] windows[i]) as int].window_id != id,
        },
        place_of_window(windows, entries, None) is None,
        match place_of_active(windows, entries) {
            Some(k) => {
                &&& k < windows.len()
                &&& entries[windows[k as int] as int].window_active
                &&& forall|i: int|
                    0 <= i < k ==> !entries[(#[trigger] windows[i]) as int].window_active
            },
            None => forall|i: int|
                0 <= i < windows.len() ==> !entries[(#[trigger] windows[i]) as int].window_active,
        },
{
    let named = shows_window(entries, id);
    let active = shows_active(entries);
    lemma_place_from(windows, named, 0);
    lemma_place_from(windows, active, 0);
    assert forall|i: int| 0 <= i < place_from(windows, named, 0) implies entries[(
    #[trigger] windows[i]) as int].window_id != id by {
        assert(!named(windows[i]));
    }
    assert forall|i: int| 0 <= i < place_from(windows, active, 0) implies !entries[(
    #[trigger] windows[i]) as int].window_active by {
        assert(!active(windows[i]));
    }
}

/// The picker opens on the session that it was opened from, or else the first;
/// there on the window that it was opened from, or else the first active one,
/// or else the first.
pub proof fn law_where_the_picker_opens(
    groups: Seq<GroupView>,
    entries: Seq<EntryView>,
    current: CurrentView,
)
    requires
        0 < groups.len() <= usize::MAX,
        forall|k: int|
            0 <= k < groups.len() ==> (#[trigger] groups[k]).window_indices.len() <= usize::MAX,
    ensures
        ({
            let (s, w) = opening_position(groups, entries, current);
            let windows = groups[s as int].window_indices;
            &&& s < groups.len()
            &&& (exists|k: int|
                0 <= k < groups.len() && Some((#[trigger] groups[k]).id) == current.session_id)
                ==> Some(groups[s as int].id) == current.session_id
            &&& (forall|k: int|
                0 <= k < groups.len() ==> Some((#[trigger] groups[k]).id) != current.session_id)
                ==> s == 0
            &&& if exists|j: int|
                0 <= j < windows.len() && Some(
                    entries[(#[trigger] windows[j]) as int].window_id,
                ) == current.window_id {
                &&& w < windows.len()
                &&& Some(entries[windows[w as int] as int].window_id) == current.window_id
                &&& forall|j: int|
                    0 <= j < w ==> Some(entries[(#[trigger] windows[j]) as int].window_id)
                        != current.window_id
            } else if exists|j: int|
                0 <= j < windows.len() && entries[(#[trigger] windows[j]) as int].window_active {
                &&& w < windows.len()
                &&& entries[windows[w as int] as int].window_active
                &&& forall|j: int|
                    0 <= j < w ==> !entries[(#[trigger] windows[j]) as int].window_active
            } else {
                w == 0
            }
        }),
{
    if let Some(id) = current.session_id {
        law_a_session_is_found_by_its_id(groups, id);
    }
    let (s, w) = opening_position(groups, entries, current);
    let windows = groups[s as int].window_indices;
    law_a_window_is_found_by_its_id(windows, entries, Seq::empty());
    if let Some(id) = current.window_id {
        law_a_window_is_found_by_its_id(windows, entries, id);
    }
}

} // verus!
