//! The commands that the picker sends to the RMUX daemon, and how it reads
//! the replies.

use rmux_proto::SessionName;
use vstd::prelude::*;

use crate::model::{is_text, CurrentTarget, CurrentView, Entry, EntryView};
use crate::text::{
    decimal, decimal_text, find, first_field, is_blank, is_number, is_space,
    lemma_decimal_reads_back, lemma_find_from_is, lemma_trim_end_of_suffix, parse_number,
    second_field, trim, trim_start, trimmed, two_fields,
};
use crate::text_laws::{
    all_space, lacks, law_fields_stand_between_separators,
    law_trimming_takes_white_space_at_the_ends,
};

verus! {

// ---------------------------------------------------------------------------
// Names and targets
// ---------------------------------------------------------------------------

/// `rmux_proto::SessionName`: a session name that the protocol accepts.
#[verifier::external_type_specification]
#[verifier::external_body]
pub struct ExSessionName(rmux_proto::SessionName);

/// The name that `SessionName::new` makes of a nonempty text: the text with
/// what targets and terminals could trip over rewritten.
pub uninterp spec fn session_name_of(value: Seq<char>) -> SessionName;

/// What the protocol says of an empty session name.
pub const EMPTY_NAME: &'static str = "invalid session name: session names must be non-empty";

/// A result with its error as text.
pub open spec fn told<T>(r: Result<T, String>) -> Result<T, Seq<char>> {
    match r {
        Ok(value) => Ok(value),
        Err(text) => Err(text@),
    }
}

/// `rmux_proto::SessionName::new`: refuses the empty text with the error
/// that reads as [`EMPTY_NAME`], and makes a name of every other text that
/// depends on nothing but the text. How that name is spelled is not said.
#[verifier::external_body]
fn new_session_name(value: &str) -> (r: Result<SessionName, String>)
    ensures
        value@.len() == 0 ==> r is Err && r->Err_0@ == EMPTY_NAME@,
        value@.len() > 0 ==> r is Ok && r->Ok_0 == session_name_of(value@),
{
    SessionName::new(value.to_string()).map_err(|err| err.to_string())
}

/// A window, by its session and its place there.
#[derive(Debug)]
pub struct WindowTarget {
    pub session_name: SessionName,
    pub window_index: u32,
}

/// What a text addresses.
#[derive(Debug)]
pub enum ParsedTarget {
    Session,
    Window(WindowTarget),
    Pane,
}

/// The error of a text that addresses nothing.
pub open spec fn invalid_target(value: Seq<char>, reason: Seq<char>) -> Seq<char> {
    "invalid target '"@ + value + "': "@ + reason
}

/// How a text is read as a target: `session`, `session:window` or
/// `session:window.pane`. The session is what stands before the first colon;
/// digits alone behind it are a window.
pub open spec fn parse_target(value: Seq<char>) -> Result<ParsedTarget, Seq<char>> {
    let colon = find(value, ':');
    let tail = value.skip(colon + 1);
    let dot = find(tail, '.');
    if colon == 0 || value.len() == 0 {
        Err(EMPTY_NAME@)
    } else if colon == value.len() {
        Ok(ParsedTarget::Session)
    } else if is_number(tail) {
        match parse_number(tail) {
            Some(n) => Ok(
                ParsedTarget::Window(
                    WindowTarget {
                        session_name: session_name_of(value.take(colon)),
                        window_index: n,
                    },
                ),
            ),
            None => Err(invalid_target(value, "window index must be an unsigned integer"@)),
        }
    } else if dot == tail.len() {
        Err(
            invalid_target(
                value,
                "targets must match 'session', 'session:window', or 'session:window.pane'"@,
            ),
        )
    } else if parse_number(tail.take(dot)) is None {
        Err(invalid_target(value, "window index must be an unsigned integer"@))
    } else if parse_number(tail.skip(dot + 1)) is None {
        Err(invalid_target(value, "pane index must be an unsigned integer"@))
    } else {
        Ok(ParsedTarget::Pane)
    }
}

/// `rmux_proto::Target::parse`: reads a target as [`parse_target`] says. The
/// name of the session of a window is the one that `SessionName::new` makes
/// of the text before the first colon.
#[verifier::external_body]
fn parse_any_target(value: &str) -> (r: Result<ParsedTarget, String>)
    ensures
        told(r) == parse_target(value@),
{
    match rmux_proto::Target::parse(value) {
        Ok(rmux_proto::Target::Session(_)) => Ok(ParsedTarget::Session),
        Ok(rmux_proto::Target::Window(target)) => Ok(
            ParsedTarget::Window(
                WindowTarget {
                    session_name: target.session_name().clone(),
                    window_index: target.window_index(),
                },
            ),
        ),
        Ok(rmux_proto::Target::Pane(_)) => Ok(ParsedTarget::Pane),
        Err(err) => Err(err.to_string()),
    }
}

/// The session name that a text stands for, or what is wrong with it.
pub open spec fn checked_name(value: Seq<char>) -> Result<SessionName, Seq<char>> {
    if value.len() == 0 {
        Err("invalid RMUX session name `"@ + value + "`: "@ + EMPTY_NAME@)
    } else {
        Ok(session_name_of(value))
    }
}

/// Makes a session name.
pub fn rmux_session_name(value: &str) -> (r: Result<SessionName, String>)
    ensures
        told(r) == checked_name(value@),
{
    match new_session_name(value) {
        Ok(name) => Ok(name),
        Err(err) => {
            let mut text = "invalid RMUX session name `".to_owned();
            text.append(value);
            text.append("`: ");
            text.append(err.as_str());
            Err(text)
        },
    }
}

/// The window that a text addresses, or what is wrong with it.
pub open spec fn checked_window(value: Seq<char>) -> Result<WindowTarget, Seq<char>> {
    match parse_target(value) {
        Ok(ParsedTarget::Window(target)) => Ok(target),
        Ok(_) => Err("RMUX target `"@ + value + "` is not a window target"@),
        Err(text) => Err("invalid RMUX window target `"@ + value + "`: "@ + text),
    }
}

/// Reads a target that has to be a window.
pub fn parse_window_target(value: &str) -> (r: Result<WindowTarget, String>)
    ensures
        told(r) == checked_window(value@),
{
    match parse_any_target(value) {
        Ok(ParsedTarget::Window(target)) => Ok(target),
        Ok(_) => {
            let mut text = "RMUX target `".to_owned();
            text.append(value);
            text.append("` is not a window target");
            Err(text)
        },
        Err(err) => {
            let mut text = "invalid RMUX window target `".to_owned();
            text.append(value);
            text.append("`: ");
            text.append(err.as_str());
            Err(text)
        },
    }
}

/// The window of an entry, or what is wrong with the name of its session.
pub open spec fn window_of(entry: EntryView) -> Result<WindowTarget, Seq<char>> {
    match checked_name(entry.session_name) {
        Ok(session_name) => Ok(
            WindowTarget { session_name, window_index: entry.window_index_num },
        ),
        Err(text) => Err(text),
    }
}

/// Addresses the window of an entry.
pub fn window_target_for_entry(entry: &Entry) -> (r: Result<WindowTarget, String>)
    ensures
        told(r) == window_of(entry@),
{
    match rmux_session_name(entry.session_name.as_str()) {
        Ok(session_name) => Ok(
            WindowTarget { session_name, window_index: entry.window_index_num },
        ),
        Err(err) => Err(err),
    }
}

/// How the window of an entry is addressed in text.
pub open spec fn target_text(entry: EntryView) -> Seq<char> {
    entry.session_name + seq![':'] + decimal(entry.window_index_num as nat)
}

/// Writes the address of the window of an entry.
pub fn window_target_string(entry: &Entry) -> (r: String)
    ensures
        r@ == target_text(entry@),
{
    let mut text = entry.session_name.clone();
    text.push(':');
    text.append(decimal_text(entry.window_index_num as u128).as_str());
    assert(text@ =~= target_text(entry@));
    text
}

// ---------------------------------------------------------------------------
// Commands
// ---------------------------------------------------------------------------

/// A command for the daemon. What a command could also ask for, and is not
/// named here, is never asked for.
#[derive(Debug)]
pub enum Command {
    SelectWindow { window: WindowTarget },
    SwitchClient { target: String },
    RenameSession { session: SessionName, new_name: SessionName },
    RenameWindow { window: WindowTarget, name: String },
    KillSession { session: SessionName, kill_all_except_target: bool, clear_alerts: bool },
    KillWindow { window: WindowTarget, kill_all_others: bool },
    DisplayMessage { message: String, print: bool },
    ListWindows { session: SessionName },
}

/// The contents of a [`Command`].
#[verifier::ext_equal]
pub enum CommandView {
    SelectWindow { window: WindowTarget },
    SwitchClient { target: Seq<char> },
    RenameSession { session: SessionName, new_name: SessionName },
    RenameWindow { window: WindowTarget, name: Seq<char> },
    KillSession { session: SessionName, kill_all_except_target: bool, clear_alerts: bool },
    KillWindow { window: WindowTarget, kill_all_others: bool },
    DisplayMessage { message: Seq<char>, print: bool },
    ListWindows { session: SessionName },
}

impl View for Command {
    type V = CommandView;

    open spec fn view(&self) -> CommandView {
        match *self {
            Command::SelectWindow { window } => CommandView::SelectWindow { window },
            Command::SwitchClient { target } => CommandView::SwitchClient { target: target@ },
            Command::RenameSession { session, new_name } => CommandView::RenameSession {
                session,
                new_name,
            },
            Command::RenameWindow { window, name } => CommandView::RenameWindow {
                window,
                name: name@,
            },
            Command::KillSession { session, kill_all_except_target, clear_alerts } =>
                CommandView::KillSession { session, kill_all_except_target, clear_alerts },
            Command::KillWindow { window, kill_all_others } => CommandView::KillWindow {
                window,
                kill_all_others,
            },
            Command::DisplayMessage { message, print } => CommandView::DisplayMessage {
                message: message@,
                print,
            },
            Command::ListWindows { session } => CommandView::ListWindows { session },
        }
    }
}

impl CommandView {
    /// The name of the command, which is that of the reply to it.
    pub open spec fn name(self) -> Seq<char> {
        match self {
            CommandView::SelectWindow { .. } => "select-window"@,
            CommandView::SwitchClient { .. } => "switch-client"@,
            CommandView::RenameSession { .. } => "rename-session"@,
            CommandView::RenameWindow { .. } => "rename-window"@,
            CommandView::KillSession { .. } => "kill-session"@,
            CommandView::KillWindow { .. } => "kill-window"@,
            CommandView::DisplayMessage { .. } => "display-message"@,
            CommandView::ListWindows { .. } => "list-windows"@,
        }
    }
}

impl Command {
    /// Gives the name of the command.
    pub fn name(&self) -> (r: &'static str)
        ensures
            r@ == self@.name(),
    {
        match self {
            Command::SelectWindow { .. } => "select-window",
            Command::SwitchClient { .. } => "switch-client",
            Command::RenameSession { .. } => "rename-session",
            Command::RenameWindow { .. } => "rename-window",
            Command::KillSession { .. } => "kill-session",
            Command::KillWindow { .. } => "kill-window",
            Command::DisplayMessage { .. } => "display-message",
            Command::ListWindows { .. } => "list-windows",
        }
    }
}

/// A command, or what is wrong with what it was to be made of.
pub open spec fn command_told(r: Result<Command, String>) -> Result<CommandView, Seq<char>> {
    match r {
        Ok(command) => Ok(command@),
        Err(text) => Err(text@),
    }
}

/// The command that gives a session another name.
pub open spec fn renaming_session(
    target: Seq<char>,
    new_name: Seq<char>,
) -> Result<CommandView, Seq<char>> {
    match checked_name(target) {
        Ok(target) => match checked_name(new_name) {
            Ok(new_name) => Ok(CommandView::RenameSession { session: target, new_name }),
            Err(text) => Err(text),
        },
        Err(text) => Err(text),
    }
}

/// Makes the command that gives a session another name.
pub fn rename_session(target: &str, new_name: &str) -> (r: Result<Command, String>)
    ensures
        command_told(r) == renaming_session(target@, new_name@),
{
    match rmux_session_name(target) {
        Ok(target) => match rmux_session_name(new_name) {
            Ok(new_name) => Ok(Command::RenameSession { session: target, new_name }),
            Err(err) => Err(err),
        },
        Err(err) => Err(err),
    }
}

/// The command that gives a window another name.
pub open spec fn renaming_window(
    target: Seq<char>,
    new_name: Seq<char>,
) -> Result<CommandView, Seq<char>> {
    match checked_window(target) {
        Ok(target) => Ok(CommandView::RenameWindow { window: target, name: new_name }),
        Err(text) => Err(text),
    }
}

/// Makes the command that gives a window another name.
pub fn rename_window(target: &str, new_name: &str) -> (r: Result<Command, String>)
    ensures
        command_told(r) == renaming_window(target@, new_name@),
{
    match parse_window_target(target) {
        Ok(target) => Ok(Command::RenameWindow { window: target, name: new_name.to_owned() }),
        Err(err) => Err(err),
    }
}

/// The command that kills one session, and no other.
pub open spec fn killing_session(target: Seq<char>) -> Result<CommandView, Seq<char>> {
    match checked_name(target) {
        Ok(target) => Ok(
            CommandView::KillSession {
                session: target,
                kill_all_except_target: false,
                clear_alerts: false,
            },
        ),
        Err(text) => Err(text),
    }
}

/// Makes the command that kills a session.
pub fn kill_session(target: &str) -> (r: Result<Command, String>)
    ensures
        command_told(r) == killing_session(target@),
{
    match rmux_session_name(target) {
        Ok(target) => Ok(
            Command::KillSession {
                session: target,
                kill_all_except_target: false,
                clear_alerts: false,
            },
        ),
        Err(err) => Err(err),
    }
}

/// The command that kills one window, and no other.
pub open spec fn killing_window(target: Seq<char>) -> Result<CommandView, Seq<char>> {
    match checked_window(target) {
        Ok(target) => Ok(CommandView::KillWindow { window: target, kill_all_others: false }),
        Err(text) => Err(text),
    }
}

/// Makes the command that kills a window.
pub fn kill_window(target: &str) -> (r: Result<Command, String>)
    ensures
        command_told(r) == killing_window(target@),
{
    match parse_window_target(target) {
        Ok(target) => Ok(Command::KillWindow { window: target, kill_all_others: false }),
        Err(err) => Err(err),
    }
}

/// Makes the command that prints a message.
pub fn display_message(message: &str) -> (r: Command)
    ensures
        r@ == (CommandView::DisplayMessage { message: message@, print: true }),
{
    Command::DisplayMessage { message: message.to_owned(), print: true }
}

/// Makes the command that lists the windows of a session.
pub fn list_windows_for_session(session_name: SessionName) -> (r: Command)
    ensures
        r@ == (CommandView::ListWindows { session: session_name }),
{
    Command::ListWindows { session: session_name }
}

// ---------------------------------------------------------------------------
// Replies
// ---------------------------------------------------------------------------

/// A window as the daemon lists it.
#[derive(Debug)]
pub struct ListedWindow {
    pub window_index: u32,
    pub window_id: String,
    pub name: Option<String>,
    pub active: bool,
}

/// The contents of a [`ListedWindow`].
#[verifier::ext_equal]
pub struct ListedView {
    pub window_index: u32,
    pub window_id: Seq<char>,
    pub name: Option<Seq<char>>,
    pub active: bool,
}

impl View for ListedWindow {
    type V = ListedView;

    open spec fn view(&self) -> ListedView {
        ListedView {
            window_index: self.window_index,
            window_id: self.window_id@,
            name: self.name.deep_view(),
            active: self.active,
        }
    }
}

impl DeepView for ListedWindow {
    type V = ListedView;

    open spec fn deep_view(&self) -> ListedView {
        self@
    }
}

/// A reply of the daemon.
#[derive(Debug)]
pub enum Reply {
    /// The command was refused, for the reason given.
    Rejected(String),
    /// What a message printed, if it printed anything.
    DisplayMessage(Option<Vec<u8>>),
    /// The windows of a session.
    ListWindows(Vec<ListedWindow>),
    /// A reply to the command of the given name, of which no more is read.
    Other(String),
}

/// The contents of a [`Reply`].
#[verifier::ext_equal]
pub enum ReplyView {
    Rejected(Seq<char>),
    DisplayMessage(Option<Seq<u8>>),
    ListWindows(Seq<ListedView>),
    Other(Seq<char>),
}

impl View for Reply {
    type V = ReplyView;

    open spec fn view(&self) -> ReplyView {
        match *self {
            Reply::Rejected(reason) => ReplyView::Rejected(reason@),
            Reply::DisplayMessage(output) => ReplyView::DisplayMessage(
                match output {
                    Some(bytes) => Some(bytes@),
                    None => None,
                },
            ),
            Reply::ListWindows(windows) => ReplyView::ListWindows(windows.deep_view()),
            Reply::Other(name) => ReplyView::Other(name@),
        }
    }
}

impl ReplyView {
    /// The name of the command that the reply is to.
    pub open spec fn name(self) -> Seq<char> {
        match self {
            ReplyView::Rejected(_) => "error"@,
            ReplyView::DisplayMessage(_) => "display-message"@,
            ReplyView::ListWindows(_) => "list-windows"@,
            ReplyView::Other(name) => name,
        }
    }
}

/// The error of a reply to another command.
pub open spec fn unexpected(expected: Seq<char>, reply: ReplyView) -> Seq<char> {
    "RMUX daemon sent `"@ + reply.name() + "` response for `"@ + expected + "` request"@
}

impl Reply {
    /// Gives the name of the command that the reply is to.
    pub fn command_name(&self) -> (r: String)
        ensures
            r@ == self@.name(),
    {
        match self {
            Reply::Rejected(_) => "error".to_owned(),
            Reply::DisplayMessage(_) => "display-message".to_owned(),
            Reply::ListWindows(_) => "list-windows".to_owned(),
            Reply::Other(name) => name.clone(),
        }
    }
}

/// Writes the error of a reply to another command.
pub fn unexpected_response(expected: &str, reply: &Reply) -> (r: String)
    ensures
        r@ == unexpected(expected@, reply@),
{
    let mut text = "RMUX daemon sent `".to_owned();
    text.append(reply.command_name().as_str());
    text.append("` response for `");
    text.append(expected);
    text.append("` request");
    text
}

/// Whether a reply is one to the expected command, or what is wrong with it.
pub open spec fn settled(reply: ReplyView, expected: Seq<char>) -> Result<(), Seq<char>> {
    match reply {
        ReplyView::Rejected(reason) => Err(reason),
        _ => if reply.name() == expected {
            Ok(())
        } else {
            Err(unexpected(expected, reply))
        },
    }
}

/// Accepts a reply to the expected command, and no other.
pub fn expect_response(reply: Reply, expected: &str) -> (r: Result<(), String>)
    ensures
        told(r) == settled(reply@, expected@),
{
    match reply {
        Reply::Rejected(reason) => Err(reason),
        reply => {
            if reply.command_name() == expected.to_owned() {
                Ok(())
            } else {
                Err(unexpected_response(expected, &reply))
            }
        },
    }
}

/// The windows that a reply lists, or what is wrong with it.
pub open spec fn listed(reply: ReplyView) -> Result<Seq<ListedView>, Seq<char>> {
    match reply {
        ReplyView::Rejected(reason) => Err(reason),
        ReplyView::ListWindows(windows) => Ok(windows),
        _ => Err(unexpected("list-windows"@, reply)),
    }
}

/// Reads the windows of a session from the reply to the command that lists
/// them.
pub fn listed_windows(reply: Reply) -> (r: Result<Vec<ListedWindow>, String>)
    ensures
        match r {
            Ok(windows) => listed(reply@) == Ok::<Seq<ListedView>, Seq<char>>(windows.deep_view()),
            Err(text) => listed(reply@) == Err::<Seq<ListedView>, Seq<char>>(text@),
        },
{
    match reply {
        Reply::Rejected(reason) => Err(reason),
        Reply::ListWindows(windows) => Ok(windows),
        reply => Err(unexpected_response("list-windows", &reply)),
    }
}

/// The text that `String::from_utf8_lossy` makes of some bytes.
pub uninterp spec fn lossy_text(bytes: Seq<u8>) -> Seq<char>;

/// `String::from_utf8_lossy`: gives the text that the bytes encode in UTF-8
/// where they do, and otherwise one that depends on nothing but the bytes,
/// with a replacement character for what is not UTF-8.
#[verifier::external_body]
fn text_of_bytes(bytes: &Vec<u8>) -> (r: String)
    ensures
        r@ == lossy_text(bytes@),
        vstd::utf8::valid_utf8(bytes@) ==> r@ == vstd::utf8::decode_utf8(bytes@),
{
    String::from_utf8_lossy(bytes).to_string()
}

/// What a reply says that a message printed, or what is wrong with it.
pub open spec fn printed(reply: ReplyView) -> Result<Seq<char>, Seq<char>> {
    match reply {
        ReplyView::Rejected(reason) => Err(reason),
        ReplyView::DisplayMessage(Some(bytes)) => Ok(lossy_text(bytes)),
        ReplyView::DisplayMessage(None) => Err("RMUX display-message returned no output"@),
        _ => Err(unexpected("display-message"@, reply)),
    }
}

/// Reads what a message printed from the reply to the command that prints it.
pub fn display_output(reply: Reply) -> (r: Result<String, String>)
    ensures
        match r {
            Ok(text) => printed(reply@) == Ok::<Seq<char>, Seq<char>>(text@),
            Err(text) => printed(reply@) == Err::<Seq<char>, Seq<char>>(text@),
        },
        reply@ matches ReplyView::DisplayMessage(Some(bytes)) ==> vstd::utf8::valid_utf8(bytes) ==> (
        r matches Ok(text) && text@ == vstd::utf8::decode_utf8(bytes)),
{
    match reply {
        Reply::Rejected(reason) => Err(reason),
        Reply::DisplayMessage(Some(bytes)) => Ok(text_of_bytes(&bytes)),
        Reply::DisplayMessage(None) => Err("RMUX display-message returned no output".to_owned()),
        reply => Err(unexpected_response("display-message", &reply)),
    }
}

// ---------------------------------------------------------------------------
// Where the picker was opened from
// ---------------------------------------------------------------------------

/// What stands between the ids of a session and of a window.
pub const SEP: char = '\u{241F}';

/// The message that prints the ids of the session and the window that it is
/// printed in.
pub const CURRENT_FORMAT: &'static str = "#{session_id}\u{241F}#{window_id}";

/// The session and the window that a printed text names.
pub open spec fn named_target(output: Seq<char>) -> CurrentView {
    CurrentView {
        session_id: Some(first_field(trim(output), SEP)),
        window_id: second_field(trim(output), SEP),
    }
}

/// Reads the session and the window from the text that was printed.
pub fn target_from_output(output: &str) -> (r: CurrentTarget)
    ensures
        r@ == named_target(output@),
{
    let text = trimmed(output);
    let (session_id, window_id) = two_fields(text.as_str(), SEP);
    CurrentTarget { session_id: Some(session_id), window_id }
}

/// Where the picker was opened from: nowhere that is known outside RMUX, nor
/// where the daemon did not say.
pub open spec fn known_target(inside_rmux: bool, reply: Option<ReplyView>) -> CurrentView {
    if !inside_rmux {
        CurrentView { session_id: None, window_id: None }
    } else {
        match reply {
            Some(reply) => match printed(reply) {
                Ok(output) => named_target(output),
                Err(_) => CurrentView { session_id: None, window_id: None },
            },
            None => CurrentView { session_id: None, window_id: None },
        }
    }
}

/// The contents of an optional reply.
pub open spec fn maybe_reply(reply: Option<Reply>) -> Option<ReplyView> {
    match reply {
        Some(reply) => Some(reply@),
        None => None,
    }
}

/// Finds where the picker was opened from, by the reply to
/// [`CURRENT_FORMAT`] where there is one.
pub fn current_target(inside_rmux: bool, reply: Option<Reply>) -> (r: CurrentTarget)
    ensures
        r@ == known_target(inside_rmux, maybe_reply(reply)),
{
    if !inside_rmux {
        return CurrentTarget::default();
    }
    match reply {
        Some(reply) => match display_output(reply) {
            Ok(output) => target_from_output(output.as_str()),
            Err(_) => CurrentTarget::default(),
        },
        None => CurrentTarget::default(),
    }
}

// ---------------------------------------------------------------------------
// Switching to a window
// ---------------------------------------------------------------------------

/// The command that a switch to an entry begins with.
pub open spec fn selecting(entry: EntryView) -> Result<CommandView, Seq<char>> {
    match window_of(entry) {
        Ok(target) => Ok(CommandView::SelectWindow { window: target }),
        Err(text) => Err(text),
    }
}

/// Begins the switch to an entry: its window is selected.
pub fn switch_to(entry: &Entry) -> (r: Result<Command, String>)
    ensures
        command_told(r) == selecting(entry@),
{
    match window_target_for_entry(entry) {
        Ok(target) => Ok(Command::SelectWindow { window: target }),
        Err(err) => Err(err),
    }
}

/// How a switch goes on once the window is selected: no further where the
/// client shows the session already; elsewhere the client is switched, which
/// can be done from inside RMUX alone.
pub open spec fn switching(
    entry: EntryView,
    current: CurrentView,
    inside_rmux: bool,
) -> Result<Option<CommandView>, Seq<char>> {
    if current.session_id == Some(entry.session_id) {
        Ok(None)
    } else if !inside_rmux {
        Err("run inside RMUX to switch clients"@)
    } else {
        Ok(Some(CommandView::SwitchClient { target: target_text(entry) }))
    }
}

/// Goes on with the switch to an entry after its window is selected.
pub fn after_select(
    entry: &Entry,
    current: &CurrentTarget,
    inside_rmux: bool,
) -> (r: Result<Option<Command>, String>)
    ensures
        match r {
            Ok(None) => switching(entry@, current@, inside_rmux) == Ok::<
                Option<CommandView>,
                Seq<char>,
            >(None),
            Ok(Some(command)) => switching(entry@, current@, inside_rmux) == Ok::<
                Option<CommandView>,
                Seq<char>,
            >(Some(command@)),
            Err(text) => switching(entry@, current@, inside_rmux) == Err::<
                Option<CommandView>,
                Seq<char>,
            >(text@),
        },
{
    if is_text(&current.session_id, &entry.session_id) {
        Ok(None)
    } else if !inside_rmux {
        Err("run inside RMUX to switch clients".to_owned())
    } else {
        Ok(Some(Command::SwitchClient { target: window_target_string(entry) }))
    }
}

// ---------------------------------------------------------------------------
// Laws
// ---------------------------------------------------------------------------

/// The text that addresses the window of an entry is read as that window.
pub proof fn law_a_window_address_reads_back(entry: EntryView)
    requires
        entry.session_name.len() > 0,
        forall|i: int|
            0 <= i < entry.session_name.len() ==> (#[trigger] entry.session_name[i]) != ':',
    ensures
        checked_window(target_text(entry)) == window_of(entry),
{
    let name = entry.session_name;
    let value = target_text(entry);
    let n = entry.window_index_num as nat;
    lemma_decimal_reads_back(n);
    assert forall|i: int| 0 <= i < name.len() implies value[i] != ':' by {
        assert(value[i] == name[i]);
    }
    lemma_find_from_is(value, ':', 0, name.len() as int);
    assert(value.take(name.len() as int) =~= name);
    assert(value.skip(name.len() as int + 1) =~= decimal(n));
}

/// What is renamed or killed for an entry is its own window: the command
/// that its address makes is for the window that the entry shows, and for
/// that one alone.
pub proof fn law_commands_reach_their_window(entry: EntryView, name: Seq<char>)
    requires
        entry.session_name.len() > 0,
        forall|i: int|
            0 <= i < entry.session_name.len() ==> (#[trigger] entry.session_name[i]) != ':',
    ensures
        ({
            let target = WindowTarget {
                session_name: session_name_of(entry.session_name),
                window_index: entry.window_index_num,
            };
            let address = target_text(entry);
            &&& renaming_window(address, name) == Ok::<CommandView, Seq<char>>(
                CommandView::RenameWindow { window: target, name },
            )
            &&& killing_window(address) == Ok::<CommandView, Seq<char>>(
                CommandView::KillWindow { window: target, kill_all_others: false },
            )
            &&& selecting(entry) == Ok::<CommandView, Seq<char>>(
                CommandView::SelectWindow { window: target },
            )
        }),
{
    law_a_window_address_reads_back(entry);
}

/// The ids that a message prints, one behind the other with the separator
/// between them and white space behind, are read back, unless the separator
/// is in them, or white space at the start of the first or the end of the
/// second.
pub proof fn law_current_ids_read_back(
    session_id: Seq<char>,
    window_id: Seq<char>,
    end: Seq<char>,
)
    requires
        forall|i: int| 0 <= i < session_id.len() ==> (#[trigger] session_id[i]) != SEP,
        forall|i: int| 0 <= i < window_id.len() ==> (#[trigger] window_id[i]) != SEP,
        session_id.len() > 0 ==> !is_space(session_id.first()),
        window_id.len() > 0 ==> !is_space(window_id.last()),
        is_blank(end),
    ensures
        named_target(session_id + seq![SEP] + window_id + end) == (CurrentView {
            session_id: Some(session_id),
            window_id: Some(window_id),
        }),
{
    let text = session_id + seq![SEP] + window_id;
    let output = text + end;
    let n = session_id.len() as int;
    assert(!is_space(SEP));
    assert(text[n] == SEP);
    assert(output.first() == text.first());
    assert(!is_space(text.first()));
    assert(trim_start(output) == output);
    assert(!is_space(text.last()));
    assert(output[text.len() - 1] == text.last());
    assert(output.skip(text.len() as int) =~= end);
    lemma_trim_end_of_suffix(output, text.len() as int);
    assert(output.take(text.len() as int) =~= text);
    assert(trim(output) == text);
    assert forall|i: int| 0 <= i < n implies text[i] != SEP by {
        assert(text[i] == session_id[i]);
    }
    lemma_find_from_is(text, SEP, 0, n);
    assert(text.take(n) =~= session_id);
    assert(text.skip(n + 1) =~= window_id);
    lemma_find_from_is(window_id, SEP, 0, window_id.len() as int);
    assert(window_id.take(window_id.len() as int) =~= window_id);
}

/// A switch goes on in another session: from inside RMUX the client is
/// switched, to the text that is read as the window of the entry, whatever
/// else the entry holds; from outside it cannot be. Where the client shows the
/// session of the entry already, and only there, nothing more is done.
pub proof fn law_the_client_is_switched_to_the_entry(
    entry: EntryView,
    current: CurrentView,
    inside_rmux: bool,
)
    ensures
        switching(entry, current, inside_rmux) == Ok::<Option<CommandView>, Seq<char>>(None)
            <==> current.session_id == Some(entry.session_id),
        current.session_id != Some(entry.session_id) && !inside_rmux ==> switching(
            entry,
            current,
            inside_rmux,
        ) == Err::<Option<CommandView>, Seq<char>>("run inside RMUX to switch clients"@),
        current.session_id != Some(entry.session_id) && inside_rmux ==> {
            let next = switching(entry, current, inside_rmux);
            &&& next is Ok
            &&& next->Ok_0 is Some
            &&& next->Ok_0->0 is SwitchClient
            &&& next->Ok_0->0->target == entry.session_name + seq![':'] + decimal(
                entry.window_index_num as nat,
            )
            &&& entry.session_name.len() > 0 && (forall|i: int|
                0 <= i < entry.session_name.len() ==> (#[trigger] entry.session_name[i]) != ':')
                ==> checked_window(next->Ok_0->0->target) == Ok::<WindowTarget, Seq<char>>(
                WindowTarget {
                    session_name: session_name_of(entry.session_name),
                    window_index: entry.window_index_num,
                },
            )
        },
{
    if entry.session_name.len() > 0 && (forall|i: int|
        0 <= i < entry.session_name.len() ==> (#[trigger] entry.session_name[i]) != ':') {
        law_a_window_address_reads_back(entry);
    }
}

/// A text is a session name unless it is empty, and the error of the empty one
/// shows it and says why.
pub proof fn law_every_text_but_the_empty_one_is_a_name(value: Seq<char>)
    ensures
        value.len() > 0 ==> checked_name(value) == Ok::<SessionName, Seq<char>>(
            session_name_of(value),
        ),
        value.len() == 0 ==> checked_name(value) == Err::<SessionName, Seq<char>>(
            "invalid RMUX session name `"@ + value + "`: "@
                + "invalid session name: session names must be non-empty"@,
        ),
{
}

/// A window target is one that is read as a window, and of any other the error
/// shows the text and says why.
pub proof fn law_only_windows_are_window_targets(value: Seq<char>)
    ensures
        match parse_target(value) {
            Ok(ParsedTarget::Window(target)) => checked_window(value) == Ok::<
                WindowTarget,
                Seq<char>,
            >(target),
            Ok(_) => checked_window(value) == Err::<WindowTarget, Seq<char>>(
                "RMUX target `"@ + value + "` is not a window target"@,
            ),
            Err(why) => checked_window(value) == Err::<WindowTarget, Seq<char>>(
                "invalid RMUX window target `"@ + value + "`: "@ + why,
            ),
        },
{
}

/// A command is made whenever what it names can be named, and then of just
/// that; otherwise the error says what cannot be named, the target first.
pub proof fn law_commands_are_made_of_what_they_name(target: Seq<char>, name: Seq<char>)
    ensures
        target.len() > 0 && name.len() > 0 ==> renaming_session(target, name) == Ok::<
            CommandView,
            Seq<char>,
        >(
            CommandView::RenameSession {
                session: session_name_of(target),
                new_name: session_name_of(name),
            },
        ),
        target.len() == 0 ==> renaming_session(target, name) is Err
            && renaming_session(target, name)->Err_0 == checked_name(target)->Err_0,
        target.len() > 0 && name.len() == 0 ==> renaming_session(target, name) is Err
            && renaming_session(target, name)->Err_0 == checked_name(name)->Err_0,
        target.len() > 0 ==> killing_session(target) == Ok::<CommandView, Seq<char>>(
            CommandView::KillSession {
                session: session_name_of(target),
                kill_all_except_target: false,
                clear_alerts: false,
            },
        ),
        target.len() == 0 ==> killing_session(target) is Err && killing_session(target)->Err_0
            == checked_name(target)->Err_0,
        match checked_window(target) {
            Ok(window) => {
                &&& renaming_window(target, name) == Ok::<CommandView, Seq<char>>(
                    CommandView::RenameWindow { window, name },
                )
                &&& killing_window(target) == Ok::<CommandView, Seq<char>>(
                    CommandView::KillWindow { window, kill_all_others: false },
                )
            },
            Err(why) => {
                &&& renaming_window(target, name) == Err::<CommandView, Seq<char>>(why)
                &&& killing_window(target) == Err::<CommandView, Seq<char>>(why)
            },
        },
{
}

/// A switch begins by selecting the window of the entry, whatever else the
/// entry holds, unless its session has no name.
pub proof fn law_a_switch_selects_the_window(entry: EntryView)
    ensures
        entry.session_name.len() > 0 ==> selecting(entry) == Ok::<CommandView, Seq<char>>(
            CommandView::SelectWindow {
                window: WindowTarget {
                    session_name: session_name_of(entry.session_name),
                    window_index: entry.window_index_num,
                },
            },
        ),
        entry.session_name.len() == 0 ==> selecting(entry) is Err && selecting(entry)->Err_0
            == checked_name(entry.session_name)->Err_0,
{
}

/// A reply is accepted exactly when it is one to the expected command. One
/// that refuses the command is an error for its own reason, and one to another
/// command is an error that names both.
pub proof fn law_only_expected_replies_are_accepted(
    name: Seq<char>,
    expected: Seq<char>,
    output: Option<Seq<u8>>,
    windows: Seq<ListedView>,
)
    ensures
        settled(ReplyView::Rejected(name), expected) == Err::<(), Seq<char>>(name),
        settled(ReplyView::Other(name), expected) is Ok <==> name == expected,
        settled(ReplyView::DisplayMessage(output), expected) is Ok <==> expected
            == "display-message"@,
        settled(ReplyView::ListWindows(windows), expected) is Ok <==> expected
            == "list-windows"@,
        name != expected ==> settled(ReplyView::Other(name), expected) == Err::<(), Seq<char>>(
            "RMUX daemon sent `"@ + name + "` response for `"@ + expected + "` request"@,
        ),
{
}

/// What is read from a reply is what it holds, and only a reply of the right
/// kind holds it.
pub proof fn law_replies_are_read_for_what_they_hold(
    name: Seq<char>,
    bytes: Seq<u8>,
    windows: Seq<ListedView>,
)
    ensures
        listed(ReplyView::ListWindows(windows)) == Ok::<Seq<ListedView>, Seq<char>>(windows),
        listed(ReplyView::Rejected(name)) == Err::<Seq<ListedView>, Seq<char>>(name),
        listed(ReplyView::Other(name)) == Err::<Seq<ListedView>, Seq<char>>(
            "RMUX daemon sent `"@ + name + "` response for `"@ + "list-windows"@ + "` request"@,
        ),
        listed(ReplyView::DisplayMessage(Some(bytes))) is Err,
        listed(ReplyView::DisplayMessage(None)) is Err,
        printed(ReplyView::DisplayMessage(Some(bytes))) == Ok::<Seq<char>, Seq<char>>(
            lossy_text(bytes),
        ),
        printed(ReplyView::DisplayMessage(None)) == Err::<Seq<char>, Seq<char>>(
            "RMUX display-message returned no output"@,
        ),
        printed(ReplyView::Rejected(name)) == Err::<Seq<char>, Seq<char>>(name),
        printed(ReplyView::Other(name)) == Err::<Seq<char>, Seq<char>>(
            "RMUX daemon sent `"@ + name + "` response for `"@ + "display-message"@
                + "` request"@,
        ),
        printed(ReplyView::ListWindows(windows)) is Err,
{
}

/// Inside RMUX the picker was opened from the session and the window that the
/// daemon prints; outside, or where it prints nothing, from nowhere that is
/// known.
pub proof fn law_where_the_picker_was_opened_from(
    session_id: Seq<char>,
    window_id: Seq<char>,
    end: Seq<char>,
    bytes: Seq<u8>,
    reply: Option<ReplyView>,
)
    requires
        forall|i: int| 0 <= i < session_id.len() ==> (#[trigger] session_id[i]) != SEP,
        forall|i: int| 0 <= i < window_id.len() ==> (#[trigger] window_id[i]) != SEP,
        session_id.len() > 0 ==> !is_space(session_id.first()),
        window_id.len() > 0 ==> !is_space(window_id.last()),
        is_blank(end),
    ensures
        lossy_text(bytes) == session_id + seq![SEP] + window_id + end ==> known_target(
            true,
            Some(ReplyView::DisplayMessage(Some(bytes))),
        ) == (CurrentView { session_id: Some(session_id), window_id: Some(window_id) }),
        known_target(false, reply) == (CurrentView { session_id: None, window_id: None }),
        reply is None || !(reply->0 is DisplayMessage) || reply
            == Some(ReplyView::DisplayMessage(None)) ==> known_target(true, reply) == (
        CurrentView { session_id: None, window_id: None }),
{
    law_current_ids_read_back(session_id, window_id, end);
}

/// Text without the separator names a session and no window.
pub proof fn law_text_without_separator_names_a_session(
    before: Seq<char>,
    session_id: Seq<char>,
    end: Seq<char>,
)
    requires
        all_space(before),
        all_space(end),
        session_id.len() > 0 ==> !is_space(session_id.first()) && !is_space(session_id.last()),
        lacks(session_id, SEP),
    ensures
        named_target(before + session_id + end) == (CurrentView {
            session_id: Some(session_id),
            window_id: None,
        }),
{
    law_trimming_takes_white_space_at_the_ends(before, session_id, end);
    law_fields_stand_between_separators(session_id, Seq::empty(), Seq::empty(), SEP);
}

} // verus!
