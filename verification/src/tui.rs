//! The terminal front end as a state machine: the state of the screen, what
//! each key does to it, and which outside work (connecting, listing,
//! transferring) a key asks for. Running that work and drawing the screen is
//! the caller's business; it reports outcomes back through the `App`
//! methods below.
use vstd::prelude::*;

use crate::hosts::{SavedAuth, SavedAuthView, SavedHost, SavedHostView};
use crate::error::ClientError;
use crate::listing::{LocalEntry, RemoteEntry};
use crate::session::{
    join_local_spec, join_remote_spec, local_moved, parent_remote_spec,
    remote_moved, SessionState,
};
use crate::text::{
    str_concat, decimal, parse_u16, parse_u16_spec, pop_char, push_char, push_decimal, split_on,
    split_spec,
};
use crate::transfer::{TransferDirection, TransferStatus};

verus! {

/// Which pane currently has keyboard focus.
#[derive(Clone, Copy, Debug, PartialEq, Eq, Structural)]
pub enum Pane {
    Local,
    Remote,
}

/// What a text prompt does with its input.
pub enum PromptAction {
    MkdirRemote,
    RenameRemote { old_name: String },
}

/// The current UI state.
pub enum Mode {
    // Menu states
    HostPicker { cursor: usize },
    AddHost { input: String },
    // Connected states
    Browse,
    TextPrompt { title: String, input: String, action: PromptAction },
    /// A temporary message for the user (e.g. error/confirmation).
    Message(String),
}

/// A remote file downloaded for editing.
pub struct PendingEdit {
    pub temp_path: std::path::PathBuf,
    pub remote_name: String,
}

/// A key press, as the state machine reads it.
#[derive(Clone, Copy, Debug, PartialEq, Eq, Structural)]
pub enum Key {
    Char(char),
    Enter,
    Esc,
    Tab,
    Up,
    Down,
    Left,
    Right,
    Backspace,
    Other,
}

/// The outside work a key asks for.
pub enum Command {
    Nothing,
    /// Connect to the saved host at this index.
    Connect { index: usize },
    /// Add or replace this host in the saved hosts.
    SaveHost(SavedHost),
    EnterLocalDir(String),
    EnterRemoteDir(String),
    LocalUp,
    RemoteUp,
    Upload(String),
    Download(String),
    Mkdir(String),
    Rename { from: String, to: String },
    DeleteFile(String),
    DeleteDir(String),
    /// Download this remote file to a temporary path for editing.
    EditDownload(String),
}

/// How the editor run on a downloaded file ended.
pub enum EditorExit {
    Success,
    Failed,
    /// The editor could not be started; the text of the reason.
    LaunchError(String),
}

/// The TUI app state.
pub struct App {
    pub session: Option<SessionState>,
    pub mode: Mode,
    pub focus: Pane,
    /// The selected row of the local pane.
    pub local_selected: Option<usize>,
    /// The selected row of the remote pane.
    pub remote_selected: Option<usize>,
    pub saved_hosts: Vec<SavedHost>,
    pub should_quit: bool,
    pub pending_edit: Option<PendingEdit>,
}

// ---------------------------------------------------------------------------
// Plain views
// ---------------------------------------------------------------------------

pub enum PromptActionView {
    MkdirRemote,
    RenameRemote { old_name: Seq<char> },
}

pub enum ModeView {
    HostPicker { cursor: usize },
    AddHost { input: Seq<char> },
    Browse,
    TextPrompt { title: Seq<char>, input: Seq<char>, action: PromptActionView },
    Message(Seq<char>),
}

pub enum CommandView {
    Nothing,
    Connect { index: usize },
    SaveHost(SavedHostView),
    EnterLocalDir(Seq<char>),
    EnterRemoteDir(Seq<char>),
    LocalUp,
    RemoteUp,
    Upload(Seq<char>),
    Download(Seq<char>),
    Mkdir(Seq<char>),
    Rename { from: Seq<char>, to: Seq<char> },
    DeleteFile(Seq<char>),
    DeleteDir(Seq<char>),
    EditDownload(Seq<char>),
}

impl View for PromptAction {
    type V = PromptActionView;

    open spec fn view(&self) -> PromptActionView {
        match self {
            PromptAction::MkdirRemote => PromptActionView::MkdirRemote,
            PromptAction::RenameRemote { old_name } => PromptActionView::RenameRemote {
                old_name: old_name@,
            },
        }
    }
}

impl View for Mode {
    type V = ModeView;

    open spec fn view(&self) -> ModeView {
        match self {
            Mode::HostPicker { cursor } => ModeView::HostPicker { cursor: *cursor },
            Mode::AddHost { input } => ModeView::AddHost { input: input@ },
            Mode::Browse => ModeView::Browse,
            Mode::TextPrompt { title, input, action } => ModeView::TextPrompt {
                title: title@,
                input: input@,
                action: action@,
            },
            Mode::Message(m) => ModeView::Message(m@),
        }
    }
}

impl View for Command {
    type V = CommandView;

    open spec fn view(&self) -> CommandView {
        match self {
            Command::Nothing => CommandView::Nothing,
            Command::Connect { index } => CommandView::Connect { index: *index },
            Command::SaveHost(h) => CommandView::SaveHost(h@),
            Command::EnterLocalDir(n) => CommandView::EnterLocalDir(n@),
            Command::EnterRemoteDir(n) => CommandView::EnterRemoteDir(n@),
            Command::LocalUp => CommandView::LocalUp,
            Command::RemoteUp => CommandView::RemoteUp,
            Command::Upload(n) => CommandView::Upload(n@),
            Command::Download(n) => CommandView::Download(n@),
            Command::Mkdir(n) => CommandView::Mkdir(n@),
            Command::Rename { from, to } => CommandView::Rename { from: from@, to: to@ },
            Command::DeleteFile(n) => CommandView::DeleteFile(n@),
            Command::DeleteDir(n) => CommandView::DeleteDir(n@),
            Command::EditDownload(n) => CommandView::EditDownload(n@),
        }
    }
}

/// The part of the app state that keys change.
pub struct UiState {
    pub mode: ModeView,
    pub focus: Pane,
    pub local_selected: Option<usize>,
    pub remote_selected: Option<usize>,
    pub should_quit: bool,
}

impl App {
    pub open spec fn ui(&self) -> UiState {
        UiState {
            mode: self.mode@,
            focus: self.focus,
            local_selected: self.local_selected,
            remote_selected: self.remote_selected,
            should_quit: self.should_quit,
        }
    }
}

// ---------------------------------------------------------------------------
// What each key does
// ---------------------------------------------------------------------------

pub open spec fn with_mode(ui: UiState, mode: ModeView) -> UiState {
    UiState { mode, ..ui }
}

pub open spec fn quitting(ui: UiState) -> UiState {
    UiState { should_quit: true, ..ui }
}

pub open spec fn other_pane(p: Pane) -> Pane {
    match p {
        Pane::Local => Pane::Remote,
        Pane::Remote => Pane::Local,
    }
}

pub open spec fn selected(ui: UiState, pane: Pane) -> Option<usize> {
    match pane {
        Pane::Local => ui.local_selected,
        Pane::Remote => ui.remote_selected,
    }
}

pub open spec fn with_selected(ui: UiState, pane: Pane, sel: Option<usize>) -> UiState {
    match pane {
        Pane::Local => UiState { local_selected: sel, ..ui },
        Pane::Remote => UiState { remote_selected: sel, ..ui },
    }
}

/// The number of entries a pane lists.
pub open spec fn pane_len(s: SessionState, pane: Pane) -> nat {
    match pane {
        Pane::Local => s.local_entries@.len(),
        Pane::Remote => s.remote_entries@.len(),
    }
}

/// Name and kind (directory or not) of an entry of a pane.
pub open spec fn pane_entry(s: SessionState, pane: Pane, i: int) -> (Seq<char>, bool) {
    match pane {
        Pane::Local => (s.local_entries@[i].name@, s.local_entries@[i].is_dir),
        Pane::Remote => (s.remote_entries@[i].name@, s.remote_entries@[i].is_dir),
    }
}

/// The index a pane acts on: its selected row, or the first.
pub open spec fn target_index(ui: UiState, pane: Pane) -> int {
    match selected(ui, pane) {
        Some(i) => i as int,
        None => 0,
    }
}

/// The entry a pane acts on, if the session lists one there.
pub open spec fn target(ui: UiState, session: Option<SessionState>, pane: Pane) -> Option<
    (Seq<char>, bool),
> {
    match session {
        Some(s) => if target_index(ui, pane) < pane_len(s, pane) {
            Some(pane_entry(s, pane, target_index(ui, pane)))
        } else {
            None
        },
        None => None,
    }
}

/// The host a line `label,host,port,user,password` describes: exactly five
/// comma-separated fields; a port that does not parse is 22; the host
/// authenticates with the password and has no start path.
pub open spec fn parse_host_line_spec(input: Seq<char>) -> Option<SavedHostView> {
    let parts = split_spec(input, ',');
    if parts.len() == 5 {
        Some(
            SavedHostView {
                label: parts[0],
                host: parts[1],
                port: match parse_u16_spec(parts[2]) {
                    Some(p) => p,
                    None => 22,
                },
                username: parts[3],
                auth: SavedAuthView::Password(parts[4]),
                start_path: None,
            },
        )
    } else {
        None
    }
}

/// `input` without its last character, if it has one.
pub open spec fn backspace(input: Seq<char>) -> Seq<char> {
    if input.len() > 0 {
        input.drop_last()
    } else {
        input
    }
}

pub open spec fn host_picker_step(ui: UiState, cursor: usize, hosts_len: nat, key: Key) -> (
    UiState,
    CommandView,
) {
    match key {
        Key::Down | Key::Char('j') => (
            with_mode(
                ui,
                ModeView::HostPicker {
                    cursor: if cursor < hosts_len {
                        (cursor + 1) as usize
                    } else {
                        hosts_len as usize
                    },
                },
            ),
            CommandView::Nothing,
        ),
        Key::Up | Key::Char('k') => (
            with_mode(
                ui,
                ModeView::HostPicker {
                    cursor: if cursor == 0 {
                        0
                    } else {
                        (cursor - 1) as usize
                    },
                },
            ),
            CommandView::Nothing,
        ),
        Key::Char('a') => (
            with_mode(ui, ModeView::AddHost { input: Seq::empty() }),
            CommandView::Nothing,
        ),
        Key::Char('q') | Key::Esc => (quitting(ui), CommandView::Nothing),
        Key::Enter => (
            ui,
            if cursor < hosts_len {
                CommandView::Connect { index: cursor }
            } else {
                CommandView::Nothing
            },
        ),
        _ => (ui, CommandView::Nothing),
    }
}

pub open spec fn add_host_step(ui: UiState, input: Seq<char>, key: Key) -> (UiState, CommandView) {
    match key {
        Key::Esc => (with_mode(ui, ModeView::HostPicker { cursor: 0 }), CommandView::Nothing),
        Key::Enter => match parse_host_line_spec(input) {
            Some(h) => (ui, CommandView::SaveHost(h)),
            None => (
                with_mode(ui, ModeView::Message("format: label,host,port,user,password"@)),
                CommandView::Nothing,
            ),
        },
        Key::Backspace => (
            with_mode(ui, ModeView::AddHost { input: backspace(input) }),
            CommandView::Nothing,
        ),
        Key::Char(c) => (
            with_mode(ui, ModeView::AddHost { input: input.push(c) }),
            CommandView::Nothing,
        ),
        _ => (ui, CommandView::Nothing),
    }
}

pub open spec fn prompt_step(
    ui: UiState,
    title: Seq<char>,
    input: Seq<char>,
    action: PromptActionView,
    connected: bool,
    key: Key,
) -> (UiState, CommandView) {
    match key {
        Key::Esc => (with_mode(ui, ModeView::Browse), CommandView::Nothing),
        Key::Backspace => (
            with_mode(ui, ModeView::TextPrompt { title, input: backspace(input), action }),
            CommandView::Nothing,
        ),
        Key::Char(c) => (
            with_mode(ui, ModeView::TextPrompt { title, input: input.push(c), action }),
            CommandView::Nothing,
        ),
        Key::Enter => (
            with_mode(ui, ModeView::Browse),
            if connected {
                match action {
                    PromptActionView::MkdirRemote => CommandView::Mkdir(input),
                    PromptActionView::RenameRemote { old_name } => CommandView::Rename {
                        from: old_name,
                        to: input,
                    },
                }
            } else {
                CommandView::Nothing
            },
        ),
        _ => (ui, CommandView::Nothing),
    }
}

/// The cursor of the focused pane moved by `delta` rows and kept within the
/// listing; nothing moves in an empty or absent listing.
pub open spec fn move_step(ui: UiState, session: Option<SessionState>, delta: int) -> UiState {
    let len: int = match session {
        Some(s) => pane_len(s, ui.focus) as int,
        None => 0,
    };
    if len == 0 {
        ui
    } else {
        let next = target_index(ui, ui.focus) + delta;
        let clamped = if next < 0 {
            0
        } else if next > len - 1 {
            len - 1
        } else {
            next
        };
        with_selected(ui, ui.focus, Some(clamped as usize))
    }
}

pub open spec fn browse_step(ui: UiState, session: Option<SessionState>, key: Key) -> (
    UiState,
    CommandView,
) {
    match key {
        Key::Char('q') | Key::Esc => (quitting(ui), CommandView::Nothing),
        Key::Tab => (UiState { focus: other_pane(ui.focus), ..ui }, CommandView::Nothing),
        Key::Down | Key::Char('j') => (move_step(ui, session, 1), CommandView::Nothing),
        Key::Up | Key::Char('k') => (move_step(ui, session, -1), CommandView::Nothing),
        Key::Enter => (
            ui,
            match target(ui, session, ui.focus) {
                Some(e) => if e.1 {
                    match ui.focus {
                        Pane::Local => CommandView::EnterLocalDir(e.0),
                        Pane::Remote => CommandView::EnterRemoteDir(e.0),
                    }
                } else {
                    CommandView::Nothing
                },
                None => CommandView::Nothing,
            },
        ),
        Key::Backspace => (
            ui,
            if session is Some {
                match ui.focus {
                    Pane::Local => CommandView::LocalUp,
                    Pane::Remote => CommandView::RemoteUp,
                }
            } else {
                CommandView::Nothing
            },
        ),
        Key::Right => (
            ui,
            match target(ui, session, Pane::Local) {
                Some(e) => if ui.focus == Pane::Local && !e.1 {
                    CommandView::Upload(e.0)
                } else {
                    CommandView::Nothing
                },
                None => CommandView::Nothing,
            },
        ),
        Key::Left => (
            ui,
            match target(ui, session, Pane::Remote) {
                Some(e) => if ui.focus == Pane::Remote && !e.1 {
                    CommandView::Download(e.0)
                } else {
                    CommandView::Nothing
                },
                None => CommandView::Nothing,
            },
        ),
        Key::Char('m') => (
            if ui.focus == Pane::Remote {
                with_mode(
                    ui,
                    ModeView::TextPrompt {
                        title: "new remote directory name"@,
                        input: Seq::empty(),
                        action: PromptActionView::MkdirRemote,
                    },
                )
            } else {
                ui
            },
            CommandView::Nothing,
        ),
        Key::Char('r') => (
            match target(ui, session, Pane::Remote) {
                Some(e) => if ui.focus == Pane::Remote {
                    with_mode(
                        ui,
                        ModeView::TextPrompt {
                            title: "rename '"@ + e.0 + "' to"@,
                            input: e.0,
                            action: PromptActionView::RenameRemote { old_name: e.0 },
                        },
                    )
                } else {
                    ui
                },
                None => ui,
            },
            CommandView::Nothing,
        ),
        Key::Char('d') => (
            ui,
            match target(ui, session, Pane::Remote) {
                Some(e) => if ui.focus == Pane::Remote {
                    if e.1 {
                        CommandView::DeleteDir(e.0)
                    } else {
                        CommandView::DeleteFile(e.0)
                    }
                } else {
                    CommandView::Nothing
                },
                None => CommandView::Nothing,
            },
        ),
        Key::Char('e') => (
            ui,
            match target(ui, session, Pane::Remote) {
                Some(e) => if ui.focus == Pane::Remote && !e.1 {
                    CommandView::EditDownload(e.0)
                } else {
                    CommandView::Nothing
                },
                None => CommandView::Nothing,
            },
        ),
        _ => (ui, CommandView::Nothing),
    }
}

/// What a key does: the new state of the screen and the outside work asked
/// for, given how many hosts are saved and what the session lists.
pub open spec fn key_step(
    ui: UiState,
    hosts_len: nat,
    session: Option<SessionState>,
    key: Key,
) -> (UiState, CommandView) {
    match ui.mode {
        ModeView::HostPicker { cursor } => host_picker_step(ui, cursor, hosts_len, key),
        ModeView::AddHost { input } => add_host_step(ui, input, key),
        ModeView::TextPrompt { title, input, action } => prompt_step(
            ui,
            title,
            input,
            action,
            session is Some,
            key,
        ),
        // any key goes back to browsing
        ModeView::Message(_) => (with_mode(ui, ModeView::Browse), CommandView::Nothing),
        ModeView::Browse => browse_step(ui, session, key),
    }
}

/// Whether a key moves the cursor of a pane.
pub open spec fn moves_cursor(mode: ModeView, key: Key) -> bool {
    mode is Browse && (key == Key::Up || key == Key::Down || key == Key::Char('j') || key
        == Key::Char('k'))
}

// ---------------------------------------------------------------------------
// The state machine
// ---------------------------------------------------------------------------

/// What keys never change: the session, the saved hosts and a pending edit.
pub open spec fn same_data(a: App, b: App) -> bool {
    &&& a.session == b.session
    &&& a.saved_hosts == b.saved_hosts
    &&& a.pending_edit == b.pending_edit
}

/// A prompt action, copied.
fn copy_action(a: &PromptAction) -> (r: PromptAction)
    ensures
        r@ == a@,
{
    match a {
        PromptAction::MkdirRemote => PromptAction::MkdirRemote,
        PromptAction::RenameRemote { old_name } => PromptAction::RenameRemote {
            old_name: old_name.clone(),
        },
    }
}

/// Reads the line `label,host,port,user,password` of the add-host form.
pub fn parse_host_line(input: &str) -> (r: Option<SavedHost>)
    ensures
        match parse_host_line_spec(input@) {
            Some(h) => r matches Some(x) && x@ == h,
            None => r is None,
        },
{
    let parts = split_on(input, ',');
    if parts.len() == 5 {
        let port = match parse_u16(parts[2].as_str()) {
            Some(p) => p,
            None => 22,
        };
        Some(
            SavedHost {
                label: parts[0].clone(),
                host: parts[1].clone(),
                port,
                username: parts[3].clone(),
                auth: SavedAuth::Password(parts[4].clone()),
                start_path: None,
            },
        )
    } else {
        None
    }
}

impl App {
    /// The focused pane fits the row arithmetic of the cursor: it lists at
    /// most 2^31 - 1 rows, and its selection is below that.
    pub open spec fn cursor_fits(&self) -> bool {
        &&& (self.session matches Some(s) ==> pane_len(s, self.focus) <= i32::MAX)
        &&& (selected(self.ui(), self.focus) matches Some(i) ==> i < i32::MAX)
    }

    /// Whether `cursor_fits` holds.
    pub fn cursor_in_range(&self) -> (r: bool)
        ensures
            r == self.cursor_fits(),
    {
        let list_fits = match &self.session {
            Some(s) => match self.focus {
                Pane::Local => s.local_entries.len() <= 2147483647,
                Pane::Remote => s.remote_entries.len() <= 2147483647,
            },
            None => true,
        };
        let selection_fits = match self.focused_state() {
            Some(i) => i < 2147483647,
            None => true,
        };
        list_fits && selection_fits
    }

    /// Whether `handle_key` may take `key` now: every key but those that
    /// move the cursor, and those too while `cursor_fits` holds.
    pub fn key_fits(&self, key: Key) -> (r: bool)
        ensures
            r == (moves_cursor(self.mode@, key) ==> self.cursor_fits()),
    {
        let moves = match self.mode {
            Mode::Browse => match key {
                Key::Up | Key::Down | Key::Char('j') | Key::Char('k') => true,
                _ => false,
            },
            _ => false,
        };
        !moves || self.cursor_in_range()
    }

    /// The app at start: the host picker on the first host, the local pane
    /// focused, no session.
    pub fn new(saved_hosts: Vec<SavedHost>) -> (r: App)
        ensures
            r.session is None,
            r.mode@ == (ModeView::HostPicker { cursor: 0 }),
            r.focus == Pane::Local,
            r.local_selected == Some(0usize),
            r.remote_selected == Some(0usize),
            r.saved_hosts == saved_hosts,
            !r.should_quit,
            r.pending_edit is None,
    {
        App {
            session: None,
            mode: Mode::HostPicker { cursor: 0 },
            focus: Pane::Local,
            local_selected: Some(0),
            remote_selected: Some(0),
            saved_hosts,
            should_quit: false,
            pending_edit: None,
        }
    }

    /// Switch between the local and remote panes.
    pub fn toggle_focus(&mut self)
        ensures
            final(self).focus == other_pane(old(self).focus),
            final(self).mode == old(self).mode,
            final(self).local_selected == old(self).local_selected,
            final(self).remote_selected == old(self).remote_selected,
            final(self).should_quit == old(self).should_quit,
            same_data(*final(self), *old(self)),
    {
        self.focus = match self.focus {
            Pane::Local => Pane::Remote,
            Pane::Remote => Pane::Local,
        };
    }

    /// The selected row of the focused pane.
    pub fn focused_state(&self) -> (r: Option<usize>)
        ensures
            r == selected(self.ui(), self.focus),
    {
        match self.focus {
            Pane::Local => self.local_selected,
            Pane::Remote => self.remote_selected,
        }
    }

    /// The entry of a pane the next action applies to.
    fn target_entry(&self, pane: Pane) -> (r: Option<(String, bool)>)
        ensures
            match target(self.ui(), self.session, pane) {
                Some(e) => r matches Some(p) && p.0@ == e.0 && p.1 == e.1,
                None => r is None,
            },
    {
        let sel = match pane {
            Pane::Local => self.local_selected,
            Pane::Remote => self.remote_selected,
        };
        let idx: usize = match sel {
            Some(i) => i,
            None => 0,
        };
        match &self.session {
            None => None,
            Some(s) => match pane {
                Pane::Local => if idx < s.local_entries.len() {
                    Some((s.local_entries[idx].name.clone(), s.local_entries[idx].is_dir))
                } else {
                    None
                },
                Pane::Remote => if idx < s.remote_entries.len() {
                    Some((s.remote_entries[idx].name.clone(), s.remote_entries[idx].is_dir))
                } else {
                    None
                },
            },
        }
    }

    /// Moves the cursor of the focused pane one row down or up.
    fn move_cursor(&mut self, down: bool)
        requires
            old(self).cursor_fits(),
        ensures
            final(self).ui() == move_step(
                old(self).ui(),
                old(self).session,
                if down {
                    1int
                } else {
                    -1int
                },
            ),
            same_data(*final(self), *old(self)),
    {
        let len: usize = match &self.session {
            Some(s) => match self.focus {
                Pane::Local => s.local_entries.len(),
                Pane::Remote => s.remote_entries.len(),
            },
            None => 0,
        };
        if len == 0 {
            return;
        }
        let current: usize = match self.focused_state() {
            Some(i) => i,
            None => 0,
        };
        let next: usize = if down {
            if current + 1 > len - 1 {
                len - 1
            } else {
                current + 1
            }
        } else {
            if current == 0 {
                0
            } else if current - 1 > len - 1 {
                len - 1
            } else {
                current - 1
            }
        };
        match self.focus {
            Pane::Local => self.local_selected = Some(next),
            Pane::Remote => self.remote_selected = Some(next),
        }
    }

    fn host_picker_key(&mut self, cursor: usize, key: Key) -> (r: Command)
        requires
            old(self).mode@ == (ModeView::HostPicker { cursor }),
        ensures
            (final(self).ui(), r@) == host_picker_step(
                old(self).ui(),
                cursor,
                old(self).saved_hosts@.len(),
                key,
            ),
            same_data(*final(self), *old(self)),
    {
        let n = self.saved_hosts.len();
        match key {
            Key::Down | Key::Char('j') => {
                let c = if cursor < n {
                    cursor + 1
                } else {
                    n
                };
                self.mode = Mode::HostPicker { cursor: c };
                Command::Nothing
            },
            Key::Up | Key::Char('k') => {
                let c = if cursor == 0 {
                    0
                } else {
                    cursor - 1
                };
                self.mode = Mode::HostPicker { cursor: c };
                Command::Nothing
            },
            Key::Char('a') => {
                self.mode = Mode::AddHost { input: String::new() };
                Command::Nothing
            },
            Key::Char('q') | Key::Esc => {
                self.should_quit = true;
                Command::Nothing
            },
            Key::Enter => {
                if cursor < n {
                    Command::Connect { index: cursor }
                } else {
                    Command::Nothing
                }
            },
            _ => Command::Nothing,
        }
    }

    fn add_host_key(&mut self, input: String, key: Key) -> (r: Command)
        requires
            old(self).mode@ == (ModeView::AddHost { input: input@ }),
        ensures
            (final(self).ui(), r@) == add_host_step(old(self).ui(), input@, key),
            same_data(*final(self), *old(self)),
    {
        match key {
            Key::Esc => {
                self.mode = Mode::HostPicker { cursor: 0 };
                Command::Nothing
            },
            Key::Enter => {
                match parse_host_line(input.as_str()) {
                    Some(h) => Command::SaveHost(h),
                    None => {
                        self.mode = Mode::Message(
                            String::from_str("format: label,host,port,user,password"),
                        );
                        Command::Nothing
                    },
                }
            },
            Key::Backspace => {
                let mut s = input;
                let _ = pop_char(&mut s);
                self.mode = Mode::AddHost { input: s };
                Command::Nothing
            },
            Key::Char(c) => {
                let mut s = input;
                push_char(&mut s, c);
                self.mode = Mode::AddHost { input: s };
                Command::Nothing
            },
            _ => Command::Nothing,
        }
    }

    fn prompt_key(&mut self, title: String, input: String, action: PromptAction, key: Key) -> (r:
        Command)
        requires
            old(self).mode@ == (ModeView::TextPrompt {
                title: title@,
                input: input@,
                action: action@,
            }),
        ensures
            (final(self).ui(), r@) == prompt_step(
                old(self).ui(),
                title@,
                input@,
                action@,
                old(self).session is Some,
                key,
            ),
            same_data(*final(self), *old(self)),
    {
        match key {
            Key::Esc => {
                self.mode = Mode::Browse;
                Command::Nothing
            },
            Key::Backspace => {
                let mut s = input;
                let _ = pop_char(&mut s);
                self.mode = Mode::TextPrompt { title, input: s, action };
                Command::Nothing
            },
            Key::Char(c) => {
                let mut s = input;
                push_char(&mut s, c);
                self.mode = Mode::TextPrompt { title, input: s, action };
                Command::Nothing
            },
            Key::Enter => {
                self.mode = Mode::Browse;
                if self.session.is_some() {
                    match action {
                        PromptAction::MkdirRemote => Command::Mkdir(input),
                        PromptAction::RenameRemote { old_name } => Command::Rename {
                            from: old_name,
                            to: input,
                        },
                    }
                } else {
                    Command::Nothing
                }
            },
            _ => Command::Nothing,
        }
    }

    fn browse_key(&mut self, key: Key) -> (r: Command)
        requires
            old(self).mode@ == ModeView::Browse,
            moves_cursor(old(self).mode@, key) ==> old(self).cursor_fits(),
        ensures
            (final(self).ui(), r@) == browse_step(old(self).ui(), old(self).session, key),
            same_data(*final(self), *old(self)),
    {
        match key {
            Key::Char('q') | Key::Esc => {
                self.should_quit = true;
                Command::Nothing
            },
            Key::Tab => {
                self.toggle_focus();
                Command::Nothing
            },
            Key::Down | Key::Char('j') => {
                self.move_cursor(true);
                Command::Nothing
            },
            Key::Up | Key::Char('k') => {
                self.move_cursor(false);
                Command::Nothing
            },
            Key::Enter => {
                match self.target_entry(self.focus) {
                    Some((name, is_dir)) => {
                        if is_dir {
                            match self.focus {
                                Pane::Local => Command::EnterLocalDir(name),
                                Pane::Remote => Command::EnterRemoteDir(name),
                            }
                        } else {
                            Command::Nothing
                        }
                    },
                    None => Command::Nothing,
                }
            },
            Key::Backspace => {
                if self.session.is_some() {
                    match self.focus {
                        Pane::Local => Command::LocalUp,
                        Pane::Remote => Command::RemoteUp,
                    }
                } else {
                    Command::Nothing
                }
            },
            Key::Right => {
                if self.focus != Pane::Local {
                    return Command::Nothing;
                }
                match self.target_entry(Pane::Local) {
                    Some((name, is_dir)) => if is_dir {
                        Command::Nothing
                    } else {
                        Command::Upload(name)
                    },
                    None => Command::Nothing,
                }
            },
            Key::Left => {
                if self.focus != Pane::Remote {
                    return Command::Nothing;
                }
                match self.target_entry(Pane::Remote) {
                    Some((name, is_dir)) => if is_dir {
                        Command::Nothing
                    } else {
                        Command::Download(name)
                    },
                    None => Command::Nothing,
                }
            },
            Key::Char('m') => {
                if self.focus == Pane::Remote {
                    self.mode = Mode::TextPrompt {
                        title: String::from_str("new remote directory name"),
                        input: String::new(),
                        action: PromptAction::MkdirRemote,
                    };
                }
                Command::Nothing
            },
            Key::Char('r') => {
                if self.focus != Pane::Remote {
                    return Command::Nothing;
                }
                match self.target_entry(Pane::Remote) {
                    Some((name, _)) => {
                        let t1 = str_concat("rename '", name.as_str());
                        let title = str_concat(t1.as_str(), "' to");
                        self.mode = Mode::TextPrompt {
                            title,
                            input: name.clone(),
                            action: PromptAction::RenameRemote { old_name: name },
                        };
                        Command::Nothing
                    },
                    None => Command::Nothing,
                }
            },
            Key::Char('d') => {
                if self.focus != Pane::Remote {
                    return Command::Nothing;
                }
                match self.target_entry(Pane::Remote) {
                    Some((name, is_dir)) => if is_dir {
                        Command::DeleteDir(name)
                    } else {
                        Command::DeleteFile(name)
                    },
                    None => Command::Nothing,
                }
            },
            Key::Char('e') => {
                if self.focus != Pane::Remote {
                    return Command::Nothing;
                }
                match self.target_entry(Pane::Remote) {
                    Some((name, is_dir)) => if is_dir {
                        Command::Nothing
                    } else {
                        Command::EditDownload(name)
                    },
                    None => Command::Nothing,
                }
            },
            _ => Command::Nothing,
        }
    }

    fn on_key(&mut self, key: Key) -> (r: Command)
        requires
            moves_cursor(old(self).mode@, key) ==> old(self).cursor_fits(),
        ensures
            (final(self).ui(), r@) == key_step(
                old(self).ui(),
                old(self).saved_hosts@.len(),
                old(self).session,
                key,
            ),
            same_data(*final(self), *old(self)),
    {
        let mut mode = Mode::Browse;
        std::mem::swap(&mut mode, &mut self.mode);
        match mode {
            Mode::HostPicker { cursor } => {
                self.mode = Mode::HostPicker { cursor };
                self.host_picker_key(cursor, key)
            },
            Mode::AddHost { input } => {
                let copy = input.clone();
                self.mode = Mode::AddHost { input };
                self.add_host_key(copy, key)
            },
            Mode::TextPrompt { title, input, action } => {
                let t = title.clone();
                let i = input.clone();
                let a = copy_action(&action);
                self.mode = Mode::TextPrompt { title, input, action };
                self.prompt_key(t, i, a, key)
            },
            Mode::Message(_) => Command::Nothing,
            Mode::Browse => self.browse_key(key),
        }
    }
}

// ---------------------------------------------------------------------------
// Outcomes of outside work
// ---------------------------------------------------------------------------

/// The words put before the error text when the work of a command fails.
pub open spec fn failure_prefix(cmd: CommandView) -> Seq<char> {
    match cmd {
        CommandView::Connect { .. } => "connect failed: "@,
        CommandView::SaveHost(_) => "saving the host failed: "@,
        CommandView::EnterLocalDir(_) => "open failed: "@,
        CommandView::EnterRemoteDir(_) => "open failed: "@,
        CommandView::LocalUp => "going up failed: "@,
        CommandView::RemoteUp => "going up failed: "@,
        CommandView::Upload(_) => "upload failed: "@,
        CommandView::Download(_) => "download failed: "@,
        CommandView::Mkdir(_) => "error: "@,
        CommandView::Rename { .. } => "error: "@,
        CommandView::DeleteFile(_) => "delete failed: "@,
        CommandView::DeleteDir(_) => "delete failed: "@,
        CommandView::EditDownload(_) => "edit download failed: "@,
        CommandView::Nothing => "error: "@,
    }
}

/// The app state after the work a key asked for failed with the error text
/// `err`: the failure is shown as a message, and nothing else changes.
pub open spec fn failure_shown(ui: UiState, cmd: CommandView, err: Seq<char>) -> UiState {
    with_mode(ui, ModeView::Message(failure_prefix(cmd) + err))
}

impl App {
    /// The session of a saved host is open: browse it.
    pub fn connected(&mut self, state: SessionState)
        ensures
            final(self).session == Some(state),
            final(self).mode@ == ModeView::Browse,
            final(self).focus == old(self).focus,
            final(self).local_selected == old(self).local_selected,
            final(self).remote_selected == old(self).remote_selected,
            final(self).should_quit == old(self).should_quit,
            final(self).saved_hosts == old(self).saved_hosts,
            final(self).pending_edit == old(self).pending_edit,
    {
        self.session = Some(state);
        self.mode = Mode::Browse;
    }

    /// The saved hosts were written: show the new list from its first host.
    pub fn hosts_saved(&mut self, hosts: Vec<SavedHost>)
        ensures
            final(self).saved_hosts == hosts,
            final(self).mode@ == (ModeView::HostPicker { cursor: 0 }),
            final(self).focus == old(self).focus,
            final(self).local_selected == old(self).local_selected,
            final(self).remote_selected == old(self).remote_selected,
            final(self).should_quit == old(self).should_quit,
            final(self).session == old(self).session,
            final(self).pending_edit == old(self).pending_edit,
    {
        self.saved_hosts = hosts;
        self.mode = Mode::HostPicker { cursor: 0 };
    }

    /// A pane changed directory: select its first row.
    pub fn navigated(&mut self, pane: Pane)
        ensures
            final(self).ui() == with_selected(old(self).ui(), pane, Some(0usize)),
            same_data(*final(self), *old(self)),
    {
        match pane {
            Pane::Local => self.local_selected = Some(0),
            Pane::Remote => self.remote_selected = Some(0),
        }
    }

    /// `after` is `before` with `pane` on its first row and a session that
    /// moved; the mode, focus, other pane, saved hosts and pending edit are
    /// as they were.
    pub open spec fn moved_to_top(before: App, after: App, pane: Pane) -> bool {
        &&& after.ui() == with_selected(before.ui(), pane, Some(0usize))
        &&& after.saved_hosts == before.saved_hosts
        &&& after.pending_edit == before.pending_edit
    }

    /// The local pane opened its directory entry `name`, whose listing is
    /// `listing`. On success the session's local side is in that directory
    /// (the current one joined with `name`) with the listed entries, and the
    /// pane selects its first row; a failed listing is returned and changes
    /// nothing. Without a session nothing happens.
    pub fn enter_local_listed(&mut self, name: &str, listing: Result<Vec<LocalEntry>, ClientError>) -> (r: Result<(), ClientError>)
        ensures
            match old(self).session {
                None => r is Ok && *final(self) == *old(self),
                Some(s) => match listing {
                    Ok(es) => r is Ok && App::moved_to_top(*old(self), *final(self), Pane::Local)
                        && (final(self).session matches Some(t) && local_moved(s, t, join_local_spec(s.local_cwd@, name@), es)),
                    Err(e) => r == Err::<(), ClientError>(e) && *final(self) == *old(self),
                },
            },
    {
        let mut session: Option<SessionState> = None;
        std::mem::swap(&mut session, &mut self.session);
        match session {
            None => Ok(()),
            Some(mut s) => {
                let r = s.enter_local_dir(name, listing);
                self.session = Some(s);
                if r.is_ok() {
                    self.local_selected = Some(0);
                }
                r
            },
        }
    }

    /// The remote pane opened its directory entry `name`, whose listing is
    /// `listing`: as for the local pane, with the remote directory joined
    /// with `name` by `join_remote`.
    pub fn enter_remote_listed(&mut self, name: &str, listing: Result<Vec<RemoteEntry>, ClientError>) -> (r: Result<(), ClientError>)
        ensures
            match old(self).session {
                None => r is Ok && *final(self) == *old(self),
                Some(s) => match listing {
                    Ok(es) => r is Ok && App::moved_to_top(*old(self), *final(self), Pane::Remote)
                        && (final(self).session matches Some(t) && remote_moved(s, t, join_remote_spec(s.remote_cwd@, name@), es)),
                    Err(e) => r == Err::<(), ClientError>(e) && *final(self) == *old(self),
                },
            },
    {
        let mut session: Option<SessionState> = None;
        std::mem::swap(&mut session, &mut self.session);
        match session {
            None => Ok(()),
            Some(mut s) => {
                let r = s.enter_remote_dir(name, listing);
                self.session = Some(s);
                if r.is_ok() {
                    self.remote_selected = Some(0);
                }
                r
            },
        }
    }

    /// The remote pane went up, and the parent directory's listing is
    /// `listing`. Without a parent the result is `NoParent`; a failed
    /// listing is returned; either way nothing changes. Otherwise the remote
    /// side is in the parent with the listed entries and the pane selects its
    /// first row. Without a session nothing happens.
    pub fn remote_up_listed(&mut self, listing: Result<Vec<RemoteEntry>, ClientError>) -> (r: Result<(), ClientError>)
        ensures
            match old(self).session {
                None => r is Ok && *final(self) == *old(self),
                Some(s) => match parent_remote_spec(s.remote_cwd@) {
                    None => (r matches Err(ClientError::NoParent(c)) && c@ == s.remote_cwd@)
                        && *final(self) == *old(self),
                    Some(p) => match listing {
                        Ok(es) => r is Ok && App::moved_to_top(*old(self), *final(self), Pane::Remote)
                            && (final(self).session matches Some(t) && remote_moved(s, t, p, es)),
                        Err(e) => r == Err::<(), ClientError>(e) && *final(self) == *old(self),
                    },
                },
            },
    {
        let mut session: Option<SessionState> = None;
        std::mem::swap(&mut session, &mut self.session);
        match session {
            None => Ok(()),
            Some(mut s) => {
                let r = s.remote_up(listing);
                self.session = Some(s);
                if r.is_ok() {
                    self.remote_selected = Some(0);
                }
                r
            },
        }
    }

    /// The local pane went up to `parent`, the result of
    /// `SessionState::local_parent`, whose listing is `listing`. With a
    /// parent and its listing the session's local side is in the parent with
    /// the listed entries and the pane selects its first row; otherwise the
    /// first error (no parent, then a failed listing) is returned and nothing
    /// changes. Without a session nothing happens.
    pub fn local_up_listed(
        &mut self,
        parent: Result<String, ClientError>,
        listing: Result<Vec<LocalEntry>, ClientError>,
    ) -> (r: Result<(), ClientError>)
        ensures
            match old(self).session {
                None => r is Ok && *final(self) == *old(self),
                Some(s) => match (parent, listing) {
                    (Ok(p), Ok(es)) => r is Ok && App::moved_to_top(*old(self), *final(self), Pane::Local)
                        && (final(self).session matches Some(t) && local_moved(s, t, p@, es)),
                    (Err(e), _) => r == Err::<(), ClientError>(e) && *final(self) == *old(self),
                    (Ok(_), Err(e)) => r == Err::<(), ClientError>(e) && *final(self) == *old(self),
                },
            },
    {
        let mut session: Option<SessionState> = None;
        std::mem::swap(&mut session, &mut self.session);
        match session {
            None => Ok(()),
            Some(mut s) => {
                let r = s.local_moved_up(parent, listing);
                self.session = Some(s);
                if r.is_ok() {
                    self.local_selected = Some(0);
                }
                r
            },
        }
    }

    /// A remote file was downloaded to `temp_path` for editing.
    pub fn edit_ready(&mut self, temp_path: std::path::PathBuf, remote_name: String)
        ensures
            final(self).pending_edit == Some(PendingEdit { temp_path, remote_name }),
            final(self).ui() == old(self).ui(),
            final(self).session == old(self).session,
            final(self).saved_hosts == old(self).saved_hosts,
    {
        self.pending_edit = Some(PendingEdit { temp_path, remote_name });
    }

    /// The work of `cmd` failed with the error text `err`: a key never ends
    /// the app with an error; the failure is shown as a message instead.
    pub fn command_failed(&mut self, cmd: &Command, err: &str)
        ensures
            final(self).ui() == failure_shown(old(self).ui(), cmd@, err@),
            same_data(*final(self), *old(self)),
    {
        let prefix = match cmd {
            Command::Connect { .. } => "connect failed: ",
            Command::SaveHost(_) => "saving the host failed: ",
            Command::EnterLocalDir(_) => "open failed: ",
            Command::EnterRemoteDir(_) => "open failed: ",
            Command::LocalUp => "going up failed: ",
            Command::RemoteUp => "going up failed: ",
            Command::Upload(_) => "upload failed: ",
            Command::Download(_) => "download failed: ",
            Command::Mkdir(_) => "error: ",
            Command::Rename { .. } => "error: ",
            Command::DeleteFile(_) => "delete failed: ",
            Command::DeleteDir(_) => "delete failed: ",
            Command::EditDownload(_) => "edit download failed: ",
            Command::Nothing => "error: ",
        };
        self.mode = Mode::Message(str_concat(prefix, err));
    }

    /// The editor run on a pending edit ended. Returns whether the edited
    /// file should be uploaded; otherwise the reason is shown.
    pub fn editor_finished(&mut self, editor: &str, exit: EditorExit) -> (upload: bool)
        ensures
            match exit {
                EditorExit::Success => upload && final(self).ui() == old(self).ui(),
                EditorExit::Failed => !upload && final(self).ui() == with_mode(
                    old(self).ui(),
                    ModeView::Message(editor@ + " exited with an error; not uploading"@),
                ),
                EditorExit::LaunchError(e) => !upload && final(self).ui() == with_mode(
                    old(self).ui(),
                    ModeView::Message("could not launch "@ + editor@ + ": "@ + e@),
                ),
            },
            same_data(*final(self), *old(self)),
    {
        match exit {
            EditorExit::Success => true,
            EditorExit::Failed => {
                self.mode = Mode::Message(str_concat(editor, " exited with an error; not uploading"));
                false
            },
            EditorExit::LaunchError(e) => {
                let a = str_concat("could not launch ", editor);
                let b = str_concat(a.as_str(), ": ");
                self.mode = Mode::Message(str_concat(b.as_str(), e.as_str()));
                false
            },
        }
    }

    /// Uploading an edited file failed with the error text `err`.
    pub fn edit_upload_failed(&mut self, err: &str)
        ensures
            final(self).ui() == with_mode(
                old(self).ui(),
                ModeView::Message("upload after edit failed: "@ + err@),
            ),
            same_data(*final(self), *old(self)),
    {
        self.mode = Mode::Message(str_concat("upload after edit failed: ", err));
    }
}

// ---------------------------------------------------------------------------
// Text shown on screen
// ---------------------------------------------------------------------------

/// How a pane lists an entry: directories end with `/`.
pub fn entry_label(name: &str, is_dir: bool) -> (r: String)
    ensures
        r@ == (if is_dir {
            name@ + "/"@
        } else {
            name@
        }),
{
    if is_dir {
        str_concat(name, "/")
    } else {
        String::from_str(name)
    }
}

/// How the host picker lists a saved host: `label  (user@host)`.
pub open spec fn host_label_spec(h: SavedHost) -> Seq<char> {
    h.label@ + "  ("@ + h.username@ + "@"@ + h.host@ + ")"@
}

/// How the host picker lists a saved host.
pub fn host_label(h: &SavedHost) -> (r: String)
    ensures
        r@ == host_label_spec(*h),
{
    let a = str_concat(h.label.as_str(), "  (");
    let b = str_concat(a.as_str(), h.username.as_str());
    let c = str_concat(b.as_str(), "@");
    let d = str_concat(c.as_str(), h.host.as_str());
    str_concat(d.as_str(), ")")
}

/// The last row of the host picker, which adds a new host.
pub open spec fn add_host_row() -> Seq<char> {
    "+ add new host"@
}

/// The rows of the host picker: each saved host in order as `host_label`
/// shows it, then the row that adds a new host. The picker's cursor indexes
/// these rows.
pub fn picker_rows(hosts: &Vec<SavedHost>) -> (r: Vec<String>)
    ensures
        r@.len() == hosts@.len() + 1,
        forall|i: int| 0 <= i < hosts@.len() ==> #[trigger] r@[i]@ == host_label_spec(hosts@[i]),
        r@[hosts@.len() as int]@ == add_host_row(),
{
    let mut rows: Vec<String> = Vec::new();
    for i in 0..hosts.len()
        invariant
            rows@.len() == i,
            forall|k: int| 0 <= k < i ==> #[trigger] rows@[k]@ == host_label_spec(hosts@[k]),
    {
        rows.push(host_label(&hosts[i]));
    }
    proof {
        reveal_strlit("+ add new host");
    }
    rows.push(String::from_str("+ add new host"));
    rows
}

/// The title of the remote pane.
pub fn remote_title(cwd: &str) -> (r: String)
    ensures
        r@ == "remote: "@ + cwd@,
{
    str_concat("remote: ", cwd)
}

/// The key hints shown while browsing.
pub open spec fn help_text() -> Seq<char> {
    "TAB: switch pane | ENTER: open | BACKSPACE: up | \u{2190}/\u{2192}: transfer | M: mkdir | R: rename | D: delete | E: edit | Q: quit"@
}

/// The footer status line: a message, a prompt with its input, or the key
/// hints.
pub fn status_text(mode: &Mode) -> (r: String)
    ensures
        r@ == match mode@ {
            ModeView::Message(m) => m,
            ModeView::TextPrompt { title, input, .. } => title + ": "@ + input,
            _ => help_text(),
        },
{
    match mode {
        Mode::Message(m) => m.clone(),
        Mode::TextPrompt { title, input, .. } => {
            let a = str_concat(title.as_str(), ": ");
            str_concat(a.as_str(), input.as_str())
        },
        _ => String::from_str(
            "TAB: switch pane | ENTER: open | BACKSPACE: up | \u{2190}/\u{2192}: transfer | M: mkdir | R: rename | D: delete | E: edit | Q: quit",
        ),
    }
}

/// The name a status is shown by.
pub open spec fn status_name(s: TransferStatus) -> Seq<char> {
    match s {
        TransferStatus::Queued => "Queued"@,
        TransferStatus::Running => "Running"@,
        TransferStatus::Done => "Done"@,
        TransferStatus::Failed => "Failed"@,
    }
}

/// The arrow a direction is shown by.
pub open spec fn direction_arrow(d: TransferDirection) -> Seq<char> {
    match d {
        TransferDirection::Upload => "->"@,
        TransferDirection::Download => "<-"@,
    }
}

/// The share of a transfer done, in whole percent: 0 while the total is 0.
pub open spec fn percent(done: u64, total: u64) -> nat {
    if total == 0 {
        0
    } else {
        ((done * 100) / (total as int)) as nat
    }
}

/// The line the transfer queue shows for one job: `[status] arrow path pct%`.
pub open spec fn transfer_line_spec(
    status: TransferStatus,
    direction: TransferDirection,
    remote_path: Seq<char>,
    done: u64,
    total: u64,
) -> Seq<char> {
    "["@ + status_name(status) + "] "@ + direction_arrow(direction) + " "@ + remote_path + " "@
        + decimal(percent(done, total)) + "%"@
}

/// How the transfer queue shows one job: `[status] arrow path pct%`.
pub fn transfer_line(
    status: TransferStatus,
    direction: TransferDirection,
    remote_path: &str,
    done: u64,
    total: u64,
) -> (r: String)
    requires
        done * 100 <= u64::MAX,
    ensures
        r@ == transfer_line_spec(status, direction, remote_path@, done, total),
{
    let name = match status {
        TransferStatus::Queued => "Queued",
        TransferStatus::Running => "Running",
        TransferStatus::Done => "Done",
        TransferStatus::Failed => "Failed",
    };
    let arrow = match direction {
        TransferDirection::Upload => "->",
        TransferDirection::Download => "<-",
    };
    let pct: u64 = if total == 0 {
        0
    } else {
        (done * 100) / total
    };
    let a = str_concat("[", name);
    let b = str_concat(a.as_str(), "] ");
    let c = str_concat(b.as_str(), arrow);
    let d = str_concat(c.as_str(), " ");
    let e = str_concat(d.as_str(), remote_path);
    let mut f = str_concat(e.as_str(), " ");
    push_decimal(&mut f, pct);
    str_concat(f.as_str(), "%")
}

/// The transfers the queue shows: the two most recent, newest first.
pub fn recent_transfers(count: usize) -> (r: Vec<usize>)
    ensures
        r@.len() == if count < 2 {
            count as nat
        } else {
            2
        },
        forall|i: int| 0 <= i < r@.len() ==> #[trigger] r@[i] == count - 1 - i,
{
    let mut r: Vec<usize> = Vec::new();
    if count >= 1 {
        r.push(count - 1);
    }
    if count >= 2 {
        r.push(count - 2);
    }
    r
}

// ---------------------------------------------------------------------------
// Properties of the state machine
// ---------------------------------------------------------------------------

/// Once the app is quitting, no key takes that back.
pub proof fn law_quit_is_final(ui: UiState, hosts_len: nat, session: Option<SessionState>, key: Key)
    requires
        ui.should_quit,
    ensures
        key_step(ui, hosts_len, session, key).0.should_quit,
{
}

/// In the host picker the cursor never goes past the "add new host" row,
/// which follows the saved hosts.
pub proof fn law_picker_cursor_bounded(ui: UiState, hosts_len: nat, session: Option<SessionState>, key: Key)
    requires
        ui.mode matches ModeView::HostPicker { cursor } && cursor <= hosts_len,
        hosts_len <= usize::MAX,
    ensures
        key_step(ui, hosts_len, session, key).0.mode matches ModeView::HostPicker { cursor } ==> cursor
            <= hosts_len,
{
}

/// Moving the cursor over a non-empty listing always selects a row of it.
pub proof fn law_move_stays_in_listing(ui: UiState, s: SessionState, delta: int)
    requires
        pane_len(s, ui.focus) > 0,
        pane_len(s, ui.focus) <= usize::MAX,
    ensures
        selected(move_step(ui, Some(s), delta), ui.focus) matches Some(i) && i < pane_len(
            s,
            ui.focus,
        ),
{
}

/// Switching panes twice comes back to the same pane.
pub proof fn law_toggle_twice(p: Pane)
    ensures
        other_pane(other_pane(p)) == p,
{
}

/// Keys never start outside work on a session that is not there: without a
/// session, the only work a key asks for is connecting or saving a host.
pub proof fn law_no_session_work_without_session(ui: UiState, hosts_len: nat, key: Key)
    ensures
        ({
            let cmd = key_step(ui, hosts_len, None, key).1;
            cmd is Nothing || cmd is Connect || cmd is SaveHost
        }),
{
}

/// A failure of the work a key asked for never ends the app: it is shown as
/// a message that starts with the command's prefix and ends with the error
/// text, and the app goes on (whether it was quitting is left as it was).
pub proof fn law_failure_is_shown(ui: UiState, cmd: CommandView, err: Seq<char>)
    ensures
        failure_shown(ui, cmd, err).should_quit == ui.should_quit,
        failure_shown(ui, cmd, err).mode matches ModeView::Message(m) && m.take(failure_prefix(cmd).len() as int) == failure_prefix(cmd)
            && m.skip(failure_prefix(cmd).len() as int) == err,
        failure_shown(ui, cmd, err).focus == ui.focus,
{
    let p = failure_prefix(cmd);
    assert((p + err).take(p.len() as int) =~= p);
    assert((p + err).skip(p.len() as int) =~= err);
}

/// The status a transfer line shows can be read back from it: jobs with
/// different statuses get different lines, whatever their direction, path
/// and progress, because the words of different statuses start with
/// different letters.
pub proof fn law_transfer_line_tells_status(
    s: TransferStatus,
    t: TransferStatus,
    d1: TransferDirection,
    p1: Seq<char>,
    done1: u64,
    total1: u64,
    d2: TransferDirection,
    p2: Seq<char>,
    done2: u64,
    total2: u64,
)
    requires
        s != t,
    ensures
        status_name(s) != status_name(t),
        transfer_line_spec(s, d1, p1, done1, total1) != transfer_line_spec(t, d2, p2, done2, total2),
{
    reveal_strlit("Queued");
    reveal_strlit("Running");
    reveal_strlit("Done");
    reveal_strlit("Failed");
    reveal_strlit("[");
    let a = transfer_line_spec(s, d1, p1, done1, total1);
    let b = transfer_line_spec(t, d2, p2, done2, total2);
    assert(a[1] == status_name(s)[0]);
    assert(b[1] == status_name(t)[0]);
    assert(status_name(s)[0] != status_name(t)[0]);
}

/// Renaming works on any remote entry: in browse mode with the remote pane
/// focused and a listed entry selected, `r` opens a prompt titled
/// "rename '<name>' to" whose input and old name are that entry's name,
/// whether the entry is a directory or a file; nothing else changes and no
/// work is asked for yet.
pub proof fn law_rename_prompt_for_any_entry(ui: UiState, hosts_len: nat, s: SessionState)
    requires
        ui.mode == ModeView::Browse,
        ui.focus == Pane::Remote,
        target_index(ui, Pane::Remote) < s.remote_entries@.len(),
    ensures
        ({
            let name = s.remote_entries@[target_index(ui, Pane::Remote)].name@;
            let (next, cmd) = key_step(ui, hosts_len, Some(s), Key::Char('r'));
            &&& next == with_mode(
                ui,
                ModeView::TextPrompt {
                    title: "rename '"@ + name + "' to"@,
                    input: name,
                    action: PromptActionView::RenameRemote { old_name: name },
                },
            )
            &&& cmd is Nothing
        }),
{
}

/// Handle a key: update the screen state, and say which outside work the key
/// asks for. The session, the saved hosts and a pending edit are left as
/// they are.
pub fn handle_key(app: &mut App, key: Key) -> (r: Command)
    requires
        moves_cursor(old(app).mode@, key) ==> old(app).cursor_fits(),
    ensures
        (final(app).ui(), r@) == key_step(
            old(app).ui(),
            old(app).saved_hosts@.len(),
            old(app).session,
            key,
        ),
        same_data(*final(app), *old(app)),
{
    app.on_key(key)
}

} // verus!
