//! Which panes are still producing output: how a capture is held against an
//! earlier one, and the probe that takes some captures at startup.

use vstd::prelude::*;

use crate::model::{Activity, Entry, EntryView};
use crate::options::Options;
use crate::table::PaneMap;
use crate::preview::{activity_fingerprint_of, fingerprint};

verus! {

// ---------------------------------------------------------------------------
// Comparing captures
// ---------------------------------------------------------------------------

/// What a fingerprint says of a pane, held against an earlier one: another
/// one is `Active`, the same is `Idle`, and without an earlier one nothing is
/// known.
pub open spec fn verdict(
    baseline: Map<Seq<char>, Seq<char>>,
    pane_id: Seq<char>,
    now: Seq<char>,
) -> Activity {
    if !baseline.contains_key(pane_id) {
        Activity::Unknown
    } else if baseline[pane_id] != now {
        Activity::Active
    } else {
        Activity::Idle
    }
}

/// An entry with its activity, held against earlier fingerprints.
pub open spec fn judged(entry: EntryView, baseline: Map<Seq<char>, Seq<char>>) -> EntryView {
    EntryView {
        activity: verdict(baseline, entry.pane_id, entry.activity_fingerprint),
        ..entry
    }
}

/// All entries with their activity.
pub open spec fn all_judged(
    entries: Seq<EntryView>,
    baseline: Map<Seq<char>, Seq<char>>,
) -> Seq<EntryView> {
    Seq::new(entries.len(), |i: int| judged(entries[i], baseline))
}

/// Sets the activity of each entry by comparing its fingerprint with an
/// earlier one.
pub fn apply_activity(entries: &mut Vec<Entry>, baseline: &PaneMap<String>)
    ensures
        final(entries).deep_view() == all_judged(old(entries).deep_view(), baseline.deep_view()),
{
    let ghost before = entries.deep_view();
    let ghost after = all_judged(before, baseline.deep_view());
    let mut i: usize = 0;
    while i < entries.len()
        invariant
            after == all_judged(before, baseline.deep_view()),
            entries@.len() == before.len(),
            i <= entries@.len(),
            forall|k: int| 0 <= k < i ==> (#[trigger] entries@[k])@ == after[k],
            forall|k: int| i <= k < entries@.len() ==> (#[trigger] entries@[k])@ == before[k],
        decreases entries@.len() - i,
    {
        let activity = match baseline.get(&entries[i].pane_id) {
            Some(prev) => if *prev != entries[i].activity_fingerprint {
                Activity::Active
            } else {
                Activity::Idle
            },
            None => Activity::Unknown,
        };
        assert(activity == verdict(
            baseline.deep_view(),
            before[i as int].pane_id,
            before[i as int].activity_fingerprint,
        ));
        entries[i].activity = activity;
        i += 1;
    }
    assert(entries.deep_view() =~= after);
}

/// The fingerprint of each pane of some entries; where a pane is shown more
/// than once, that of its last entry.
pub open spec fn fingerprints(entries: Seq<EntryView>) -> Map<Seq<char>, Seq<char>>
    decreases entries.len(),
{
    if entries.len() == 0 {
        Map::empty()
    } else {
        fingerprints(entries.drop_last()).insert(
            entries.last().pane_id,
            entries.last().activity_fingerprint,
        )
    }
}

/// Collects the fingerprint of each pane.
pub fn fingerprints_of(entries: &Vec<Entry>) -> (r: PaneMap<String>)
    ensures
        r.deep_view() == fingerprints(entries.deep_view()),
{
    let ghost all = entries.deep_view();
    let mut r: PaneMap<String> = PaneMap::new();
    assert(r.deep_view() =~= fingerprints(all.take(0)));
    let mut i: usize = 0;
    while i < entries.len()
        invariant
            all == entries.deep_view(),
            i <= entries@.len(),
            r.deep_view() == fingerprints(all.take(i as int)),
        decreases entries@.len() - i,
    {
        let ghost before = r.deep_view();
        let ghost entry = all[i as int];
        assert(all.take(i + 1).drop_last() =~= all.take(i as int));
        r.insert(entries[i].pane_id.clone(), entries[i].activity_fingerprint.clone());
        assert(r.deep_view() =~= before.insert(entry.pane_id, entry.activity_fingerprint));
        i += 1;
    }
    assert(all.take(i as int) =~= all);
    r
}

// ---------------------------------------------------------------------------
// The startup probe
// ---------------------------------------------------------------------------

/// A pane that the probe captures.
#[derive(Debug)]
pub struct ProbePane {
    pub session_name: String,
    pub pane_id_num: u32,
    pub pane_id: String,
}

/// The contents of a [`ProbePane`].
#[verifier::ext_equal]
pub struct PaneView {
    pub session_name: Seq<char>,
    pub pane_id_num: u32,
    pub pane_id: Seq<char>,
}

impl View for ProbePane {
    type V = PaneView;

    open spec fn view(&self) -> PaneView {
        PaneView {
            session_name: self.session_name@,
            pane_id_num: self.pane_id_num,
            pane_id: self.pane_id@,
        }
    }
}

impl DeepView for ProbePane {
    type V = PaneView;

    open spec fn deep_view(&self) -> PaneView {
        self@
    }
}

/// What a finished probe has found out, by pane id.
#[derive(Debug)]
pub struct ActivityProbeResult {
    pub activity: PaneMap<Activity>,
    pub fingerprints: PaneMap<String>,
}

/// What is to be done next for a probe.
#[derive(Debug, Clone, Copy, PartialEq, Eq, Structural)]
pub enum ProbeStep {
    /// Let this many milliseconds pass.
    Sleep(u64),
    /// Capture the pane in this place, as many lines of it as are said.
    Capture(usize, usize),
    /// Hand over what was found out.
    Finish,
}

/// A probe of some panes, as far as it has got.
#[derive(Debug)]
pub struct ActivityProbe {
    panes: Vec<ProbePane>,
    preview_lines: usize,
    interval_ms: u64,
    rounds_left: usize,
    next: usize,
    activity: PaneMap<Activity>,
    latest: PaneMap<String>,
}

/// The contents of an [`ActivityProbe`].
#[verifier::ext_equal]
pub struct ProbeView {
    /// The panes that are captured in every round.
    pub panes: Seq<PaneView>,
    /// How many lines of each are captured.
    pub preview_lines: usize,
    /// Milliseconds before each round.
    pub interval_ms: u64,
    /// Rounds that are not begun.
    pub rounds_left: usize,
    /// Panes that are captured in the present round.
    pub next: usize,
    /// What is known of each pane.
    pub activity: Map<Seq<char>, Activity>,
    /// The last fingerprint of each pane.
    pub latest: Map<Seq<char>, Seq<char>>,
}

impl View for ActivityProbe {
    type V = ProbeView;

    closed spec fn view(&self) -> ProbeView {
        ProbeView {
            panes: self.panes.deep_view(),
            preview_lines: self.preview_lines,
            interval_ms: self.interval_ms,
            rounds_left: self.rounds_left,
            next: self.next,
            activity: self.activity@,
            latest: self.latest.deep_view(),
        }
    }
}

/// The panes of some entries.
pub open spec fn panes_of(entries: Seq<EntryView>) -> Seq<PaneView> {
    Seq::new(
        entries.len(),
        |i: int|
            PaneView {
                session_name: entries[i].session_name,
                pane_id_num: entries[i].pane_id_num,
                pane_id: entries[i].pane_id,
            },
    )
}

/// The panes of some entries, each held to be idle.
pub open spec fn all_idle(entries: Seq<EntryView>) -> Map<Seq<char>, Activity>
    decreases entries.len(),
{
    if entries.len() == 0 {
        Map::empty()
    } else {
        all_idle(entries.drop_last()).insert(entries.last().pane_id, Activity::Idle)
    }
}

/// The probe of some entries before its first round.
pub open spec fn probe_start(entries: Seq<EntryView>, options: Options) -> ProbeView {
    ProbeView {
        panes: panes_of(entries),
        preview_lines: options.preview_lines,
        interval_ms: options.activity_interval_ms,
        rounds_left: (options.activity_samples - 1) as usize,
        next: entries.len() as usize,
        activity: all_idle(entries),
        latest: fingerprints(entries),
    }
}

impl ProbeView {
    /// What is to be done next: the panes of a round one after the other, a
    /// pause before each round.
    pub open spec fn step(self) -> ProbeStep {
        if self.next < self.panes.len() {
            ProbeStep::Capture(self.next, self.preview_lines)
        } else if self.rounds_left > 0 {
            ProbeStep::Sleep(self.interval_ms)
        } else {
            ProbeStep::Finish
        }
    }

    /// The probe once the pause is over.
    pub open spec fn awake(self) -> ProbeView {
        ProbeView { rounds_left: (self.rounds_left - 1) as usize, next: 0, ..self }
    }

    /// The probe once the next pane has been captured: a fingerprint that
    /// differs from the last one makes the pane active.
    pub open spec fn after_capture(self, preview: Seq<Seq<char>>) -> ProbeView {
        let id = self.panes[self.next as int].pane_id;
        let now = fingerprint(preview);
        ProbeView {
            next: (self.next + 1) as usize,
            activity: if self.latest.contains_key(id) && self.latest[id] != now
                && self.activity.contains_key(id) {
                self.activity.insert(id, Activity::Active)
            } else {
                self.activity
            },
            latest: self.latest.insert(id, now),
            ..self
        }
    }
}

/// What a capture shows: nothing where it has failed.
pub open spec fn captured(capture: Option<Seq<Seq<char>>>) -> Seq<Seq<char>> {
    match capture {
        Some(preview) => preview,
        None => Seq::empty(),
    }
}

/// Begins a probe that captures each pane `activity_samples - 1` more times.
/// There is none where fewer than two captures are asked for, or where there
/// is nothing to capture.
pub fn spawn_activity_probe(entries: &Vec<Entry>, options: &Options) -> (r: Option<ActivityProbe>)
    ensures
        r is Some <==> entries@.len() > 0 && options.activity_samples >= 2,
        r is Some ==> r->0@ == probe_start(entries.deep_view(), *options),
{
    if entries.len() == 0 || options.activity_samples < 2 {
        return None;
    }
    let ghost all = entries.deep_view();
    let mut panes: Vec<ProbePane> = Vec::new();
    let mut activity: PaneMap<Activity> = PaneMap::new();
    assert(panes.deep_view() =~= panes_of(all).take(0));
    assert(activity@ =~= all_idle(all.take(0)));
    let mut i: usize = 0;
    while i < entries.len()
        invariant
            all == entries.deep_view(),
            i <= entries@.len(),
            panes.deep_view() == panes_of(all).take(i as int),
            activity@ == all_idle(all.take(i as int)),
        decreases entries@.len() - i,
    {
        let ghost before = panes.deep_view();
        assert(all[i as int] == entries[i as int]@);
        assert(all.take(i + 1).drop_last() =~= all.take(i as int));
        panes.push(
            ProbePane {
                session_name: entries[i].session_name.clone(),
                pane_id_num: entries[i].pane_id_num,
                pane_id: entries[i].pane_id.clone(),
            },
        );
        activity.insert(entries[i].pane_id.clone(), Activity::Idle);
        assert(panes.deep_view() =~= before.push(panes_of(all)[i as int]));
        assert(panes_of(all).take(i + 1) =~= before.push(panes_of(all)[i as int]));
        i += 1;
    }
    assert(all.take(i as int) =~= all);
    assert(panes_of(all).take(i as int) =~= panes_of(all));
    Some(
        ActivityProbe {
            next: panes.len(),
            panes,
            preview_lines: options.preview_lines,
            interval_ms: options.activity_interval_ms,
            rounds_left: options.activity_samples - 1,
            activity,
            latest: fingerprints_of(entries),
        },
    )
}

impl ActivityProbe {
    /// Says what is to be done next.
    pub fn step(&self) -> (r: ProbeStep)
        ensures
            r == self@.step(),
    {
        if self.next < self.panes.len() {
            ProbeStep::Capture(self.next, self.preview_lines)
        } else if self.rounds_left > 0 {
            ProbeStep::Sleep(self.interval_ms)
        } else {
            ProbeStep::Finish
        }
    }

    /// The pane in the given place.
    pub fn pane(&self, k: usize) -> (r: &ProbePane)
        requires
            k < self@.panes.len(),
        ensures
            r@ == self@.panes[k as int],
    {
        &self.panes[k]
    }

    /// Goes on after a pause.
    pub fn slept(&mut self)
        requires
            old(self)@.step() is Sleep,
        ensures
            final(self)@ == old(self)@.awake(),
    {
        self.rounds_left = self.rounds_left - 1;
        self.next = 0;
    }

    /// Goes on after a capture of the next pane, which may have failed.
    pub fn observe(&mut self, capture: &Option<Vec<String>>)
        requires
            old(self)@.step() is Capture,
        ensures
            final(self)@ == old(self)@.after_capture(captured(capture.deep_view())),
    {
        let now = match capture {
            Some(preview) => activity_fingerprint_of(preview),
            None => {
                let nothing: Vec<String> = Vec::new();
                assert(nothing.deep_view() =~= captured(capture.deep_view()));
                activity_fingerprint_of(&nothing)
            },
        };
        let ghost before = self@;
        let ghost text = now@;
        assert(self.next < self.panes.len());
        let id = self.panes[self.next].pane_id.clone();
        let changed = match self.latest.get(&id) {
            Some(prev) => *prev != now,
            None => false,
        };
        let known = match self.activity.get(&id) {
            Some(_) => true,
            None => false,
        };
        if changed && known {
            self.activity.insert(id.clone(), Activity::Active);
        }
        self.latest.insert(id, now);
        assert(self.latest.deep_view() =~= before.latest.insert(
            before.panes[before.next as int].pane_id,
            text,
        ));
        self.next = self.next + 1;
    }

    /// Hands over what the probe has found out.
    pub fn finish(self) -> (r: ActivityProbeResult)
        ensures
            r.activity@ == self@.activity,
            r.fingerprints.deep_view() == self@.latest,
    {
        ActivityProbeResult { activity: self.activity, fingerprints: self.latest }
    }
}

// ---------------------------------------------------------------------------
// Merging a result
// ---------------------------------------------------------------------------

/// An entry with what a probe has found out of its pane.
pub open spec fn merged(
    entry: EntryView,
    activity: Map<Seq<char>, Activity>,
    latest: Map<Seq<char>, Seq<char>>,
) -> EntryView {
    EntryView {
        activity: if activity.contains_key(entry.pane_id) {
            activity[entry.pane_id]
        } else {
            entry.activity
        },
        activity_fingerprint: if latest.contains_key(entry.pane_id) {
            latest[entry.pane_id]
        } else {
            entry.activity_fingerprint
        },
        ..entry
    }
}

/// All entries with what a probe has found out.
pub open spec fn all_merged(
    entries: Seq<EntryView>,
    activity: Map<Seq<char>, Activity>,
    latest: Map<Seq<char>, Seq<char>>,
) -> Seq<EntryView> {
    Seq::new(entries.len(), |i: int| merged(entries[i], activity, latest))
}

/// Takes what a probe has found out into the entries.
pub fn merge_probe(entries: &mut Vec<Entry>, result: &ActivityProbeResult)
    ensures
        final(entries).deep_view() == all_merged(
            old(entries).deep_view(),
            result.activity@,
            result.fingerprints.deep_view(),
        ),
{
    let ghost before = entries.deep_view();
    let ghost after = all_merged(before, result.activity@, result.fingerprints.deep_view());
    let mut i: usize = 0;
    while i < entries.len()
        invariant
            after == all_merged(before, result.activity@, result.fingerprints.deep_view()),
            entries@.len() == before.len(),
            i <= entries@.len(),
            forall|k: int| 0 <= k < i ==> (#[trigger] entries@[k])@ == after[k],
            forall|k: int| i <= k < entries@.len() ==> (#[trigger] entries@[k])@ == before[k],
        decreases entries@.len() - i,
    {
        if let Some(activity) = result.activity.get(&entries[i].pane_id) {
            entries[i].activity = *activity;
        }
        if let Some(now) = result.fingerprints.get(&entries[i].pane_id) {
            entries[i].activity_fingerprint = now.clone();
        }
        assert(entries@[i as int]@ == after[i as int]);
        i += 1;
    }
    assert(entries.deep_view() =~= after);
}

// ---------------------------------------------------------------------------
// Laws
// ---------------------------------------------------------------------------

/// A pane whose contents have not changed is idle, one whose contents have is
/// active, and one that was not there is neither.
pub proof fn law_refresh_judges_by_the_last_contents(
    earlier: Seq<EntryView>,
    k: int,
    now: EntryView,
)
    requires
        0 <= k < earlier.len(),
        forall|j: int| k < j < earlier.len() ==> (#[trigger] earlier[j]).pane_id
            != earlier[k].pane_id,
        now.pane_id == earlier[k].pane_id,
    ensures
        judged(now, fingerprints(earlier)).activity == if now.activity_fingerprint
            == earlier[k].activity_fingerprint {
            Activity::Idle
        } else {
            Activity::Active
        },
{
    lemma_fingerprint_of(earlier, k);
}

/// A pane that was not shown before is neither active nor idle.
pub proof fn law_a_new_pane_is_unknown(earlier: Seq<EntryView>, now: EntryView)
    requires
        forall|j: int| 0 <= j < earlier.len() ==> (#[trigger] earlier[j]).pane_id != now.pane_id,
    ensures
        judged(now, fingerprints(earlier)).activity == Activity::Unknown,
{
    lemma_no_fingerprint(earlier, now.pane_id);
}

proof fn lemma_fingerprint_of(entries: Seq<EntryView>, k: int)
    requires
        0 <= k < entries.len(),
        forall|j: int| k < j < entries.len() ==> (#[trigger] entries[j]).pane_id
            != entries[k].pane_id,
    ensures
        fingerprints(entries).contains_key(entries[k].pane_id),
        fingerprints(entries)[entries[k].pane_id] == entries[k].activity_fingerprint,
    decreases entries.len(),
{
    if k < entries.len() - 1 {
        let front = entries.drop_last();
        assert(front[k] == entries[k]);
        assert forall|j: int| k < j < front.len() implies (#[trigger] front[j]).pane_id
            != front[k].pane_id by {
            assert(front[j] == entries[j]);
        }
        lemma_fingerprint_of(front, k);
        assert(entries.last() == entries[entries.len() - 1]);
    }
}

proof fn lemma_no_fingerprint(entries: Seq<EntryView>, id: Seq<char>)
    requires
        forall|j: int| 0 <= j < entries.len() ==> (#[trigger] entries[j]).pane_id != id,
    ensures
        !fingerprints(entries).contains_key(id),
    decreases entries.len(),
{
    if entries.len() > 0 {
        let front = entries.drop_last();
        assert forall|j: int| 0 <= j < front.len() implies (#[trigger] front[j]).pane_id
            != id by {
            assert(front[j] == entries[j]);
        }
        lemma_no_fingerprint(front, id);
        assert(entries.last() == entries[entries.len() - 1]);
    }
}

impl ProbeView {
    /// How often the pane in place `k` is still to be captured.
    pub open spec fn captures_left(self, k: int) -> int {
        self.rounds_left + if self.next <= k {
            1int
        } else {
            0
        }
    }
}

/// A probe captures every pane one time fewer than samples are asked for, the
/// first sample being there when it begins: that many captures are left at
/// the start, a pause takes none away, a capture takes one from the pane that
/// it is of and from no other, and none is left at the end.
pub proof fn law_every_pane_is_sampled(
    entries: Seq<EntryView>,
    options: Options,
    probe: ProbeView,
    preview: Seq<Seq<char>>,
    k: int,
)
    requires
        entries.len() <= usize::MAX,
        options.activity_samples >= 2,
        probe.panes.len() <= usize::MAX,
        0 <= k,
    ensures
        k < entries.len() ==> probe_start(entries, options).captures_left(k)
            == options.activity_samples - 1,
        k < probe.panes.len() && probe.step() is Sleep
            ==> probe.awake().captures_left(k) == probe.captures_left(k),
        k < probe.panes.len() && probe.step() is Capture ==> probe.after_capture(
            preview,
        ).captures_left(k) == probe.captures_left(k) - if k == probe.next {
            1int
        } else {
            0
        },
        k < probe.panes.len() && probe.step() is Finish ==> probe.captures_left(k) == 0,
{
}

impl ProbeView {
    /// The probe past its pause, where one is next.
    pub open spec fn ready(self) -> ProbeView {
        if self.step() is Sleep {
            self.awake()
        } else {
            self
        }
    }

    /// The probe after some captures, each of the pane that was next, with
    /// the pauses between them.
    pub open spec fn after(self, seen: Seq<Seq<Seq<char>>>) -> ProbeView
        decreases seen.len(),
    {
        if seen.len() == 0 {
            self
        } else {
            let probe = self.after(seen.drop_last()).ready();
            if probe.step() is Capture {
                probe.after_capture(seen.last())
            } else {
                probe
            }
        }
    }

    /// The fingerprints of the pane `id`, one after the other: the one it
    /// began with, and that of each capture of it.
    pub open spec fn history(self, seen: Seq<Seq<Seq<char>>>, id: Seq<char>) -> Seq<Seq<char>>
        decreases seen.len(),
    {
        if seen.len() == 0 {
            seq![self.latest[id]]
        } else {
            let probe = self.after(seen.drop_last()).ready();
            if probe.step() is Capture && probe.panes[probe.next as int].pane_id == id {
                self.history(seen.drop_last(), id).push(fingerprint(seen.last()))
            } else {
                self.history(seen.drop_last(), id)
            }
        }
    }
}

/// Whether two neighbours of a sequence differ.
pub open spec fn has_change(s: Seq<Seq<char>>) -> bool {
    exists|i: int| differs_from_next(s, i)
}

/// Whether the item in place `i` and the next one differ.
pub open spec fn differs_from_next(s: Seq<Seq<char>>, i: int) -> bool {
    0 <= i < s.len() - 1 && s[i] != s[i + 1]
}

/// The verdict of a probe: a pane is active when two captures of it, one
/// after the other, had different fingerprints, the entry that the probe began
/// with being the first; otherwise it is idle. The fingerprint that is handed
/// over is the last one.
pub proof fn law_a_pane_is_active_when_it_has_changed(
    entries: Seq<EntryView>,
    options: Options,
    seen: Seq<Seq<Seq<char>>>,
    k: int,
)
    requires
        0 <= k < entries.len(),
    ensures
        ({
            let start = probe_start(entries, options);
            let end = start.after(seen);
            let id = entries[k].pane_id;
            let past = start.history(seen, id);
            &&& end.activity.contains_key(id)
            &&& end.activity[id] == if has_change(past) {
                Activity::Active
            } else {
                Activity::Idle
            }
            &&& end.latest.contains_key(id)
            &&& past.len() > 0
            &&& end.latest[id] == past.last()
            &&& past[0] == fingerprints(entries)[id]
        }),
    decreases seen.len(),
{
    let start = probe_start(entries, options);
    let id = entries[k].pane_id;
    let past = start.history(seen, id);
    if seen.len() == 0 {
        lemma_start_knows(entries, k);
        assert(!has_change(past));
    } else {
        let front = seen.drop_last();
        law_a_pane_is_active_when_it_has_changed(entries, options, front, k);
        let probe = start.after(front).ready();
        let before = start.history(front, id);
        if probe.step() is Capture && probe.panes[probe.next as int].pane_id == id {
            let now = fingerprint(seen.last());
            assert(past == before.push(now));
            if has_change(before) {
                let i = choose|i: int| differs_from_next(before, i);
                assert(differs_from_next(past, i));
            }
            if before.last() != now {
                assert(differs_from_next(past, before.len() - 1));
            }
            if has_change(past) && before.last() == now {
                let i = choose|i: int| differs_from_next(past, i);
                assert(differs_from_next(before, i));
            }
        }
    }
}

proof fn lemma_start_knows(entries: Seq<EntryView>, k: int)
    requires
        0 <= k < entries.len(),
    ensures
        all_idle(entries).contains_key(entries[k].pane_id),
        all_idle(entries)[entries[k].pane_id] == Activity::Idle,
        fingerprints(entries).contains_key(entries[k].pane_id),
    decreases entries.len(),
{
    if k < entries.len() - 1 {
        assert(entries.drop_last()[k] == entries[k]);
        lemma_start_knows(entries.drop_last(), k);
    }
}

/// Whether the entry in place `k` is the last of the pane `id`.
pub open spec fn is_last_of_pane(entries: Seq<EntryView>, id: Seq<char>, k: int) -> bool {
    &&& 0 <= k < entries.len()
    &&& entries[k].pane_id == id
    &&& forall|j: int| k < j < entries.len() ==> (#[trigger] entries[j]).pane_id != id
}

/// The fingerprint that is kept of a pane is that of its last entry, and none
/// is kept of a pane that has no entry.
pub proof fn law_the_last_fingerprint_is_kept(entries: Seq<EntryView>, id: Seq<char>, k: int)
    ensures
        is_last_of_pane(entries, id, k) ==> fingerprints(entries).contains_key(id)
            && fingerprints(entries)[id] == entries[k].activity_fingerprint,
        (forall|j: int| 0 <= j < entries.len() ==> (#[trigger] entries[j]).pane_id != id)
            ==> !fingerprints(entries).contains_key(id),
{
    if is_last_of_pane(entries, id, k) {
        lemma_fingerprint_of(entries, k);
    }
    if forall|j: int| 0 <= j < entries.len() ==> (#[trigger] entries[j]).pane_id != id {
        lemma_no_fingerprint(entries, id);
    }
}

/// Whatever else an entry holds, it is active when its fingerprint differs
/// from the one its pane is held against, idle when it is the same, and
/// neither when there is none; and nothing but the activity is set.
pub proof fn law_every_entry_is_judged_by_its_fingerprint(
    entries: Seq<EntryView>,
    baseline: Map<Seq<char>, Seq<char>>,
    i: int,
)
    requires
        0 <= i < entries.len(),
    ensures
        ({
            let now = entries[i];
            let after = all_judged(entries, baseline)[i];
            &&& all_judged(entries, baseline).len() == entries.len()
            &&& after == EntryView { activity: after.activity, ..now }
            &&& after.activity == Activity::Active <==> baseline.contains_key(now.pane_id)
                && baseline[now.pane_id] != now.activity_fingerprint
            &&& after.activity == Activity::Idle <==> baseline.contains_key(now.pane_id)
                && baseline[now.pane_id] == now.activity_fingerprint
        }),
{
}

/// What a probe has found out of a pane goes into every entry of that pane;
/// all else of an entry stays, and so does an entry of any other pane.
pub proof fn law_a_probe_tells_of_its_panes(
    entries: Seq<EntryView>,
    activity: Map<Seq<char>, Activity>,
    latest: Map<Seq<char>, Seq<char>>,
    i: int,
)
    requires
        0 <= i < entries.len(),
    ensures
        ({
            let before = entries[i];
            let after = all_merged(entries, activity, latest)[i];
            &&& all_merged(entries, activity, latest).len() == entries.len()
            &&& after == EntryView {
                activity: after.activity,
                activity_fingerprint: after.activity_fingerprint,
                ..before
            }
            &&& activity.contains_key(before.pane_id) ==> after.activity
                == activity[before.pane_id]
            &&& !activity.contains_key(before.pane_id) ==> after.activity == before.activity
            &&& latest.contains_key(before.pane_id) ==> after.activity_fingerprint
                == latest[before.pane_id]
            &&& !latest.contains_key(before.pane_id) ==> after.activity_fingerprint
                == before.activity_fingerprint
        }),
{
}

/// A probe captures the panes of the entries, each by its session and number,
/// in their order, with as many lines and with pauses as long as are asked
/// for.
pub proof fn law_a_probe_captures_what_is_shown(
    entries: Seq<EntryView>,
    options: Options,
    i: int,
)
    requires
        0 <= i < entries.len() <= usize::MAX,
        options.activity_samples >= 2,
    ensures
        ({
            let start = probe_start(entries, options);
            &&& start.panes.len() == entries.len()
            &&& start.panes[i].session_name == entries[i].session_name
            &&& start.panes[i].pane_id_num == entries[i].pane_id_num
            &&& start.panes[i].pane_id == entries[i].pane_id
            &&& start.step() == ProbeStep::Sleep(options.activity_interval_ms)
            &&& start.awake().step() == ProbeStep::Capture(0, options.preview_lines)
        }),
{
}

/// A probe goes through the panes of a round one after the other, and pauses
/// between two rounds; what it captures, how much of it and how long it pauses
/// stays the same.
pub proof fn law_a_probe_goes_round_by_round(probe: ProbeView, preview: Seq<Seq<char>>)
    requires
        probe.panes.len() <= usize::MAX,
    ensures
        probe.step() is Capture ==> {
            let after = probe.after_capture(preview);
            &&& probe.step() == ProbeStep::Capture(probe.next, probe.preview_lines)
            &&& after.next == probe.next + 1
            &&& after.rounds_left == probe.rounds_left
            &&& after.panes == probe.panes
            &&& after.preview_lines == probe.preview_lines
            &&& after.interval_ms == probe.interval_ms
            &&& after.step() is Capture <==> probe.next + 1 < probe.panes.len()
            &&& after.step() is Finish <==> probe.next + 1 == probe.panes.len()
                && probe.rounds_left == 0
        },
        probe.step() is Sleep ==> {
            &&& probe.step() == ProbeStep::Sleep(probe.interval_ms)
            &&& probe.rounds_left > 0
            &&& probe.awake() == ProbeView {
                rounds_left: (probe.rounds_left - 1) as usize,
                next: 0,
                ..probe
            }
        },
{
}

/// A capture is held against the last one of the same pane: another
/// fingerprint makes the pane active, the same one changes nothing, and the
/// new one is kept. Nothing is said of any other pane.
pub proof fn law_a_capture_is_held_against_the_last(
    probe: ProbeView,
    preview: Seq<Seq<char>>,
    other: Seq<char>,
)
    requires
        probe.step() is Capture,
    ensures
        ({
            let id = probe.panes[probe.next as int].pane_id;
            let after = probe.after_capture(preview);
            &&& after.latest.contains_key(id) && after.latest[id] == fingerprint(preview)
            &&& probe.latest.contains_key(id) && probe.activity.contains_key(id) ==> {
                &&& after.activity.contains_key(id)
                &&& probe.latest[id] != fingerprint(preview) ==> after.activity[id]
                    == Activity::Active
                &&& probe.latest[id] == fingerprint(preview) ==> after.activity[id]
                    == probe.activity[id]
            }
            &&& other != id ==> {
                &&& after.latest.contains_key(other) <==> probe.latest.contains_key(other)
                &&& after.latest[other] == probe.latest[other]
                &&& after.activity.contains_key(other) <==> probe.activity.contains_key(other)
                &&& after.activity[other] == probe.activity[other]
            }
        }),
{
}

/// A capture that has failed shows nothing, and any other what was captured.
pub proof fn law_a_failed_capture_shows_nothing(preview: Seq<Seq<char>>)
    ensures
        captured(None).len() == 0,
        captured(Some(preview)) == preview,
{
}

} // verus!
