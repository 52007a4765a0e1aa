//! What the picker shows: one entry per RMUX window, grouped by session.

use vstd::prelude::*;

verus! {

/// Whether a pane has produced output between two captures of it.
#[derive(Debug, Clone, Copy, PartialEq, Eq, Structural, Default)]
pub enum Activity {
    #[default]
    Unknown,
    Idle,
    Active,
}

/// One RMUX window, shown through its active pane.
#[derive(Debug)]
pub struct Entry {
    pub session_id: String,
    pub session_name: String,
    pub session_attached: bool,
    pub session_activity: u64,
    pub window_id: String,
    pub window_index: String,
    pub window_index_num: u32,
    pub window_name: String,
    pub window_active: bool,
    pub pane_id: String,
    pub pane_id_num: u32,
    pub pane_current_path: String,
    pub preview: Vec<String>,
    pub activity: Activity,
    pub activity_fingerprint: String,
}

/// The contents of an [`Entry`].
#[verifier::ext_equal]
pub struct EntryView {
    pub session_id: Seq<char>,
    pub session_name: Seq<char>,
    pub session_attached: bool,
    pub session_activity: u64,
    pub window_id: Seq<char>,
    pub window_index: Seq<char>,
    pub window_index_num: u32,
    pub window_name: Seq<char>,
    pub window_active: bool,
    pub pane_id: Seq<char>,
    pub pane_id_num: u32,
    pub pane_current_path: Seq<char>,
    pub preview: Seq<Seq<char>>,
    pub activity: Activity,
    pub activity_fingerprint: Seq<char>,
}

impl View for Entry {
    type V = EntryView;

    open spec fn view(&self) -> EntryView {
        EntryView {
            session_id: self.session_id@,
            session_name: self.session_name@,
            session_attached: self.session_attached,
            session_activity: self.session_activity,
            window_id: self.window_id@,
            window_index: self.window_index@,
            window_index_num: self.window_index_num,
            window_name: self.window_name@,
            window_active: self.window_active,
            pane_id: self.pane_id@,
            pane_id_num: self.pane_id_num,
            pane_current_path: self.pane_current_path@,
            preview: self.preview.deep_view(),
            activity: self.activity,
            activity_fingerprint: self.activity_fingerprint@,
        }
    }
}

impl DeepView for Entry {
    type V = EntryView;

    open spec fn deep_view(&self) -> EntryView {
        self@
    }
}

impl Clone for Entry {
    fn clone(&self) -> (r: Self)
        ensures
            r@ == self@,
    {
        Entry {
            session_id: self.session_id.clone(),
            session_name: self.session_name.clone(),
            session_attached: self.session_attached,
            session_activity: self.session_activity,
            window_id: self.window_id.clone(),
            window_index: self.window_index.clone(),
            window_index_num: self.window_index_num,
            window_name: self.window_name.clone(),
            window_active: self.window_active,
            pane_id: self.pane_id.clone(),
            pane_id_num: self.pane_id_num,
            pane_current_path: self.pane_current_path.clone(),
            preview: clone_lines(&self.preview),
            activity: self.activity,
            activity_fingerprint: self.activity_fingerprint.clone(),
        }
    }
}

/// A copy of some lines of text.
pub fn clone_lines(lines: &Vec<String>) -> (r: Vec<String>)
    ensures
        r.deep_view() == lines.deep_view(),
{
    let r = lines.clone();
    assert(r.deep_view() =~= lines.deep_view());
    r
}

/// The session and window that the picker was opened from, as far as they
/// are known.
#[derive(Debug)]
pub struct CurrentTarget {
    pub session_id: Option<String>,
    pub window_id: Option<String>,
}

/// The contents of a [`CurrentTarget`].
#[verifier::ext_equal]
pub struct CurrentView {
    pub session_id: Option<Seq<char>>,
    pub window_id: Option<Seq<char>>,
}

impl View for CurrentTarget {
    type V = CurrentView;

    open spec fn view(&self) -> CurrentView {
        CurrentView {
            session_id: self.session_id.deep_view(),
            window_id: self.window_id.deep_view(),
        }
    }
}

impl Default for CurrentTarget {
    fn default() -> (r: Self)
        ensures
            r@ == (CurrentView { session_id: None, window_id: None }),
    {
        CurrentTarget { session_id: None, window_id: None }
    }
}

impl Clone for CurrentTarget {
    fn clone(&self) -> (r: Self)
        ensures
            r@ == self@,
    {
        CurrentTarget { session_id: self.session_id.clone(), window_id: self.window_id.clone() }
    }
}

/// A session and the windows in it.
#[derive(Debug)]
pub struct SessionGroup {
    pub id: String,
    pub name: String,
    pub attached: bool,
    pub activity: u64,
    /// Places in the list of entries, by ascending RMUX window index.
    pub window_indices: Vec<usize>,
}

/// The contents of a [`SessionGroup`].
#[verifier::ext_equal]
pub struct GroupView {
    pub id: Seq<char>,
    pub name: Seq<char>,
    pub attached: bool,
    pub activity: u64,
    pub window_indices: Seq<usize>,
}

impl View for SessionGroup {
    type V = GroupView;

    open spec fn view(&self) -> GroupView {
        GroupView {
            id: self.id@,
            name: self.name@,
            attached: self.attached,
            activity: self.activity,
            window_indices: self.window_indices@,
        }
    }
}

impl DeepView for SessionGroup {
    type V = GroupView;

    open spec fn deep_view(&self) -> GroupView {
        self@
    }
}

impl Clone for SessionGroup {
    fn clone(&self) -> (r: Self)
        ensures
            r@ == self@,
    {
        let window_indices = self.window_indices.clone();
        assert(window_indices@ =~= self.window_indices@);
        SessionGroup {
            id: self.id.clone(),
            name: self.name.clone(),
            attached: self.attached,
            activity: self.activity,
            window_indices,
        }
    }
}

/// Whether an optional text is the given one.
pub fn is_text(known: &Option<String>, text: &String) -> (r: bool)
    ensures
        r == (known.deep_view() == Some(text@)),
{
    match known {
        Some(s) => *s == *text,
        None => false,
    }
}

/// Whether an entry is the window that the picker was opened from.
pub open spec fn entry_is_current(entry: EntryView, current: CurrentView) -> bool {
    current.session_id == Some(entry.session_id) && current.window_id == Some(entry.window_id)
}

/// Decides [`entry_is_current`].
pub fn is_current(entry: &Entry, current: &CurrentTarget) -> (r: bool)
    ensures
        r == entry_is_current(entry@, current@),
{
    is_text(&current.session_id, &entry.session_id) && is_text(
        &current.window_id,
        &entry.window_id,
    )
}

/// An entry is where the picker was opened from exactly when both its session
/// and its window are known to be.
pub proof fn law_only_the_named_window_is_current(entry: EntryView, current: CurrentView)
    ensures
        entry_is_current(
            entry,
            CurrentView {
                session_id: Some(entry.session_id),
                window_id: Some(entry.window_id),
            },
        ),
        entry_is_current(entry, current) ==> current.session_id == Some(entry.session_id)
            && current.window_id == Some(entry.window_id),
{
}

} // verus!
