//! What the command line asks for, and when the picker refreshes.

use vstd::prelude::*;

verus! {

/// How often a pane is captured at startup unless something else is asked
/// for.
pub const DEFAULT_ACTIVITY_SAMPLES: usize = 4;

/// Milliseconds between two of those captures.
pub const DEFAULT_ACTIVITY_INTERVAL_MS: u64 = 300;

/// The command line.
#[derive(Debug, Clone, Copy, PartialEq, Eq, Structural)]
pub struct Cli {
    /// Show one row per RMUX window instead of one row per session.
    pub all_windows: bool,
    /// Shortcut preset: show all windows with the last N lines in the preview
    /// pane.
    pub window_lines: Option<usize>,
    /// Number of captured lines to show in the preview pane.
    pub preview_lines: usize,
    /// Number of preview lines embedded into each row in the left list.
    pub inline_lines: usize,
    /// Seconds between automatic refreshes while the picker is open; zero
    /// disables them.
    pub refresh_seconds: u64,
    /// Number of pane captures taken at startup to detect which windows are
    /// still producing output. One disables activity detection at startup;
    /// the marker then only becomes accurate after the first automatic
    /// refresh.
    pub activity_samples: usize,
    /// Milliseconds between activity samples at startup.
    pub activity_interval_ms: u64,
    /// Print targets and exit without opening the picker.
    pub list: bool,
}

impl Default for Cli {
    /// The command line on which nothing is asked for.
    fn default() -> (r: Self)
        ensures
            r == (Cli {
                all_windows: false,
                window_lines: None,
                preview_lines: 10,
                inline_lines: 0,
                refresh_seconds: 5,
                activity_samples: DEFAULT_ACTIVITY_SAMPLES,
                activity_interval_ms: DEFAULT_ACTIVITY_INTERVAL_MS,
                list: false,
            }),
    {
        Cli {
            all_windows: false,
            window_lines: None,
            preview_lines: 10,
            inline_lines: 0,
            refresh_seconds: 5,
            activity_samples: DEFAULT_ACTIVITY_SAMPLES,
            activity_interval_ms: DEFAULT_ACTIVITY_INTERVAL_MS,
            list: false,
        }
    }
}

/// How the picker, or the list, is to be shown.
#[derive(Debug, Clone, Copy, PartialEq, Eq, Structural)]
pub struct Options {
    pub all_windows: bool,
    pub preview_lines: usize,
    pub inline_lines: usize,
    pub refresh_seconds: u64,
    pub activity_samples: usize,
    pub activity_interval_ms: u64,
}

impl Cli {
    /// The options that a command line asks for: the preset, where it is
    /// there, stands above the options it replaces.
    pub open spec fn asked(self) -> Options {
        Options {
            all_windows: self.window_lines is Some || self.all_windows,
            preview_lines: match self.window_lines {
                Some(lines) => lines,
                None => self.preview_lines,
            },
            inline_lines: if self.window_lines is Some {
                0
            } else {
                self.inline_lines
            },
            refresh_seconds: self.refresh_seconds,
            activity_samples: self.activity_samples,
            activity_interval_ms: self.activity_interval_ms,
        }
    }

    /// Gives the options that the command line asks for.
    pub fn options(&self) -> (r: Options)
        ensures
            r == self.asked(),
    {
        match self.window_lines {
            Some(lines) => Options {
                all_windows: true,
                preview_lines: lines,
                inline_lines: 0,
                refresh_seconds: self.refresh_seconds,
                activity_samples: self.activity_samples,
                activity_interval_ms: self.activity_interval_ms,
            },
            None => Options {
                all_windows: self.all_windows,
                preview_lines: self.preview_lines,
                inline_lines: self.inline_lines,
                refresh_seconds: self.refresh_seconds,
                activity_samples: self.activity_samples,
                activity_interval_ms: self.activity_interval_ms,
            },
        }
    }
}

/// Which windows are loaded, and how many lines of each.
#[derive(Debug, Clone, Copy, PartialEq, Eq, Structural)]
pub struct LoadRequest {
    pub all_windows: bool,
    pub preview_lines: usize,
}

impl Options {
    /// What the picker loads: every window, whatever the options say.
    pub open spec fn for_picker(self) -> LoadRequest {
        LoadRequest { all_windows: true, preview_lines: self.preview_lines }
    }

    /// What the list loads: every window only where the options say so.
    pub open spec fn for_list(self) -> LoadRequest {
        LoadRequest { all_windows: self.all_windows, preview_lines: self.preview_lines }
    }

    /// Gives what the picker loads.
    pub fn picker_request(&self) -> (r: LoadRequest)
        ensures
            r == self.for_picker(),
    {
        LoadRequest { all_windows: true, preview_lines: self.preview_lines }
    }

    /// Gives what the list loads.
    pub fn list_request(&self) -> (r: LoadRequest)
        ensures
            r == self.for_list(),
    {
        LoadRequest { all_windows: self.all_windows, preview_lines: self.preview_lines }
    }
}

// ---------------------------------------------------------------------------
// Refreshing
// ---------------------------------------------------------------------------

/// Nanoseconds in a second.
pub const SECOND: u128 = 1_000_000_000;

/// The longest that the picker waits for a key, in nanoseconds.
pub const MAX_POLL: u128 = 250_000_000;

/// The nanoseconds between two automatic refreshes, if there are any.
pub open spec fn interval_of(refresh_seconds: u64) -> Option<u128> {
    if refresh_seconds == 0 {
        None
    } else {
        Some((refresh_seconds * SECOND) as u128)
    }
}

/// Gives the nanoseconds between two automatic refreshes.
pub fn refresh_interval(refresh_seconds: u64) -> (r: Option<u128>)
    ensures
        r == interval_of(refresh_seconds),
        r is Some ==> r->0 == refresh_seconds * 1_000_000_000,
{
    if refresh_seconds == 0 {
        None
    } else {
        Some(refresh_seconds as u128 * SECOND)
    }
}

/// How long the picker waits for a key when `elapsed` nanoseconds have passed
/// since the last refresh.
pub open spec fn wait(interval: Option<u128>, elapsed: u128) -> u128 {
    match interval {
        None => MAX_POLL,
        Some(interval) => if elapsed >= interval {
            0
        } else if interval - elapsed <= MAX_POLL {
            (interval - elapsed) as u128
        } else {
            MAX_POLL
        },
    }
}

/// Gives the nanoseconds that the picker waits for a key.
pub fn poll_timeout(refresh_interval: Option<u128>, elapsed: u128) -> (r: u128)
    ensures
        r == wait(refresh_interval, elapsed),
{
    match refresh_interval {
        None => MAX_POLL,
        Some(interval) => if elapsed >= interval {
            0
        } else if interval - elapsed <= MAX_POLL {
            interval - elapsed
        } else {
            MAX_POLL
        },
    }
}

/// Whether an automatic refresh is due.
pub open spec fn is_due(interval: Option<u128>, elapsed: u128) -> bool {
    interval is Some && elapsed >= interval->0
}

/// Decides [`is_due`].
pub fn refresh_due(refresh_interval: Option<u128>, elapsed: u128) -> (r: bool)
    ensures
        r == is_due(refresh_interval, elapsed),
{
    match refresh_interval {
        Some(interval) => elapsed >= interval,
        None => false,
    }
}

// ---------------------------------------------------------------------------
// Laws
// ---------------------------------------------------------------------------

/// The preset shows every window with as many lines as it says, one row for
/// each, whatever else the command line says of windows and lines.
pub proof fn law_the_preset_stands_above(cli: Cli, other: Cli, lines: usize)
    requires
        cli.window_lines == Some(lines),
        other.window_lines == Some(lines),
        cli.refresh_seconds == other.refresh_seconds,
        cli.activity_samples == other.activity_samples,
        cli.activity_interval_ms == other.activity_interval_ms,
    ensures
        cli.asked() == other.asked(),
        cli.asked().all_windows,
        cli.asked().preview_lines == lines,
        cli.asked().inline_lines == 0,
{
}

/// Asking for all windows changes nothing but the list.
pub proof fn law_all_windows_only_affects_the_list(options: Options, all_windows: bool)
    ensures
        (Options { all_windows, ..options }).for_picker() == options.for_picker(),
        (Options { all_windows, ..options }).for_list().all_windows == all_windows,
{
}

/// Zero seconds disable automatic refreshes: none is ever due.
pub proof fn law_zero_seconds_never_refresh(elapsed: u128)
    ensures
        !is_due(interval_of(0), elapsed),
{
}

/// With any other number of seconds a refresh is due once that many have
/// passed, and not before.
pub proof fn law_refresh_is_due_after_its_seconds(refresh_seconds: u64, elapsed: u128)
    requires
        refresh_seconds > 0,
    ensures
        is_due(interval_of(refresh_seconds), elapsed) <==> elapsed >= refresh_seconds
            * 1_000_000_000,
{
}

/// The picker does not sleep through a refresh: until one is due it waits no
/// longer than to the moment when it is, and it never waits longer than a
/// quarter of a second. Nor does it wake before either has passed.
pub proof fn law_no_refresh_is_slept_through(interval: Option<u128>, elapsed: u128)
    ensures
        wait(interval, elapsed) <= 250_000_000,
        interval is Some && !is_due(interval, elapsed) ==> elapsed + wait(interval, elapsed)
            <= interval->0,
        wait(interval, elapsed) == 0 <==> is_due(interval, elapsed),
        !is_due(interval, elapsed) ==> wait(interval, elapsed) == 250_000_000 || elapsed + wait(
            interval,
            elapsed,
        ) == interval->0,
        interval is None ==> wait(interval, elapsed) == 250_000_000,
{
}

/// Without the preset everything is as the command line says, and with it or
/// without, the refreshes and the startup captures are.
pub proof fn law_options_are_as_asked(cli: Cli)
    ensures
        cli.window_lines is None ==> {
            &&& cli.asked().all_windows == cli.all_windows
            &&& cli.asked().preview_lines == cli.preview_lines
            &&& cli.asked().inline_lines == cli.inline_lines
        },
        cli.asked().refresh_seconds == cli.refresh_seconds,
        cli.asked().activity_samples == cli.activity_samples,
        cli.asked().activity_interval_ms == cli.activity_interval_ms,
{
}

/// Picker and list load as many lines as are asked for; the picker loads all
/// windows, and the list those that are asked for.
pub proof fn law_loads_follow_the_options(options: Options)
    ensures
        options.for_picker().preview_lines == options.preview_lines,
        options.for_list().preview_lines == options.preview_lines,
        options.for_picker().all_windows,
        options.for_list().all_windows == options.all_windows,
{
}

} // verus!
