//! The picker while it is open: keys that come in, and refreshes as time goes
//! by.

use vstd::prelude::*;

use crate::keys::{action_of, after_key, handle_key, Action, KeyEvent};
use crate::model::{CurrentTarget, Entry};
use crate::options::{interval_of, is_due, poll_timeout, refresh_due, refresh_interval, wait};
use crate::picker::{App, AppView};
use crate::sessions::is_grouping;

verus! {

/// The picker and its clock. Times are nanoseconds since any moment that
/// stays the same.
#[derive(Debug)]
pub struct Picker {
    pub app: App,
    /// Nanoseconds between two automatic refreshes, if there are any.
    pub interval: Option<u128>,
    /// When the picker was last refreshed.
    pub last_refresh: u128,
}

/// The contents of a [`Picker`].
#[verifier::ext_equal]
pub struct PickerView {
    pub app: AppView,
    pub interval: Option<u128>,
    pub last_refresh: u128,
}

impl View for Picker {
    type V = PickerView;

    open spec fn view(&self) -> PickerView {
        PickerView {
            app: self.app@,
            interval: self.interval,
            last_refresh: self.last_refresh,
        }
    }
}

/// Why the picker is refreshed.
#[derive(Debug)]
pub enum Cause {
    /// It was asked for.
    Asked,
    /// It was due.
    Timer,
    /// Something was renamed or killed, of which the status tells.
    Done(String),
}

/// The status that tells of a refresh.
pub open spec fn status_of(cause: Cause) -> Seq<char> {
    match cause {
        Cause::Asked => "refreshed"@,
        Cause::Timer => "auto refreshed"@,
        Cause::Done(status) => status@,
    }
}

impl PickerView {
    /// How long ago the picker was last refreshed.
    pub open spec fn elapsed(self, now: u128) -> u128 {
        if now >= self.last_refresh {
            (now - self.last_refresh) as u128
        } else {
            0
        }
    }

    /// Whether an automatic refresh is due.
    pub open spec fn is_due(self, now: u128) -> bool {
        is_due(self.interval, self.elapsed(now))
    }

    /// When the picker was last refreshed, once it is refreshed again: what
    /// follows a renaming or a kill does not put the next refresh off.
    pub open spec fn last_refresh_after(self, cause: Cause, now: u128) -> u128 {
        if cause is Done {
            self.last_refresh
        } else {
            now
        }
    }
}

impl Picker {
    /// Opens the picker at the given time.
    pub fn new(app: App, now: u128) -> (r: Picker)
        ensures
            r@ == (PickerView {
                app: app@,
                interval: interval_of(app@.refresh_seconds),
                last_refresh: now,
            }),
    {
        let interval = refresh_interval(app.refresh_seconds);
        Picker { app, interval, last_refresh: now }
    }

    fn elapsed(&self, now: u128) -> (r: u128)
        ensures
            r == self@.elapsed(now),
    {
        if now >= self.last_refresh {
            now - self.last_refresh
        } else {
            0
        }
    }

    /// Says how long to wait for a key.
    pub fn timeout(&self, now: u128) -> (r: u128)
        ensures
            r == wait(self@.interval, self@.elapsed(now)),
    {
        poll_timeout(self.interval, self.elapsed(now))
    }

    /// Decides whether an automatic refresh is due.
    pub fn is_due(&self, now: u128) -> (r: bool)
        ensures
            r == self@.is_due(now),
    {
        refresh_due(self.interval, self.elapsed(now))
    }

    /// Handles a key, and says what is to be done.
    pub fn press(&mut self, key: KeyEvent) -> (r: Action)
        requires
            old(self)@.app.in_bounds(),
        ensures
            final(self)@ == (PickerView { app: after_key(old(self)@.app, key), ..old(self)@ }),
            r@ == action_of(old(self)@.app, key),
    {
        handle_key(&mut self.app, key)
    }

    /// Takes in what a refresh has loaded, or why it has not.
    pub fn refresh(
        &mut self,
        cause: Cause,
        loaded: Result<(Vec<Entry>, CurrentTarget), String>,
        now: u128,
    )
        ensures
            final(self)@.interval == old(self)@.interval,
            final(self)@.last_refresh == old(self)@.last_refresh_after(cause, now),
            match loaded {
                Ok((entries, current)) => {
                    &&& final(self)@.app == old(self)@.app.refreshed(
                        status_of(cause),
                        entries.deep_view(),
                        final(self)@.app.sessions,
                        current@,
                    )
                    &&& is_grouping(final(self)@.app.sessions, final(self)@.app.entries)
                },
                Err(err) => final(self)@.app == old(self)@.app.not_refreshed(err@),
            },
    {
        match cause {
            Cause::Asked => {
                self.app.refresh(loaded);
                self.last_refresh = now;
            },
            Cause::Timer => {
                self.app.auto_refresh(loaded);
                self.last_refresh = now;
            },
            Cause::Done(status) => {
                self.app.refresh_with_status(status.as_str(), loaded);
            },
        }
    }
}

// ---------------------------------------------------------------------------
// Laws
// ---------------------------------------------------------------------------

/// After a refresh that was asked for or due, the next one is due as many
/// seconds later as the picker was opened with, and not before; with zero
/// seconds none ever is.
pub proof fn law_refreshes_keep_their_distance(
    picker: PickerView,
    refresh_seconds: u64,
    cause: Cause,
    now: u128,
    later: u128,
)
    requires
        picker.interval == interval_of(refresh_seconds),
        !(cause is Done),
    ensures
        ({
            let after = PickerView {
                last_refresh: picker.last_refresh_after(cause, now),
                ..picker
            };
            after.is_due(later) <==> refresh_seconds > 0 && later - now >= refresh_seconds
                * 1_000_000_000
        }),
{
}

/// A renaming or a kill leaves the time of the next refresh as it was.
pub proof fn law_commands_do_not_put_a_refresh_off(
    picker: PickerView,
    status: String,
    now: u128,
    later: u128,
)
    ensures
        ({
            let after = PickerView {
                last_refresh: picker.last_refresh_after(Cause::Done(status), now),
                ..picker
            };
            after.is_due(later) == picker.is_due(later)
        }),
{
}

/// The picker waits until its next refresh is due, or a quarter of a second
/// where that is sooner.
pub proof fn law_the_picker_waits_for_its_refresh(picker: PickerView, now: u128)
    requires
        picker.last_refresh <= now,
    ensures
        ({
            let waits = wait(picker.interval, picker.elapsed(now));
            &&& waits <= 250_000_000
            &&& picker.interval is None ==> waits == 250_000_000
            &&& picker.interval is Some ==> {
                let due = picker.last_refresh + picker.interval->0;
                &&& now >= due ==> waits == 0 && picker.is_due(now)
                &&& now < due ==> !picker.is_due(now) && now + waits <= due && (waits
                    == 250_000_000 || now + waits == due)
            }
        }),
{
}

/// The status of a refresh tells why it was made, and that of a renaming or a
/// kill is the one that came with it.
pub proof fn law_the_status_tells_the_cause(status: String)
    ensures
        status_of(Cause::Asked) == "refreshed"@,
        status_of(Cause::Timer) == "auto refreshed"@,
        status_of(Cause::Done(status)) == status@,
{
}

} // verus!
