//! Application state machine: the screen shown, cursors, status line, and
//! how each key changes them. Work that needs the outside world (reading
//! hardware, deleting files, loading a model) is handed back as an action.

use std::path::PathBuf;

use vstd::prelude::*;

use crate::chat::{ChatState, backspaced, cleared, inference_messages, history_view, prev_boundary, scrolled, submitted, typed, utf8};
use crate::config::MarkusConfig;
use crate::menu::MAIN_MENU_LEN;
use crate::model::ModelInfo;
use crate::pipeline::ChatMessage;
use crate::system::SystemInfo;
use crate::text::{chars_equal, chars_of, decimal, trim, trim_chars, with_decimal};

verus! {

broadcast use vstd::string::group_string_axioms;

/// Which screen is currently active.
#[derive(Clone, Copy, Debug, PartialEq, Eq, Structural)]
pub enum AppMode {
    MainMenu,
    ModelBrowser,
    Chat,
    SystemDashboard,
    Downloading,
    Settings,
    Quitting,
}

/// A key press, as far as the screens tell keys apart.
#[derive(Clone, Copy, Debug, PartialEq, Eq, Structural)]
pub enum KeyInput {
    Char(char),
    Up,
    Down,
    Enter,
    Esc,
    Backspace,
    Other,
}

/// Global application state.
pub struct App {
    pub mode: AppMode,
    pub config: MarkusConfig,
    pub models: Vec<ModelInfo>,
    pub selected_model: Option<PathBuf>,
    pub system_info: Option<SystemInfo>,
    /// Main menu cursor position
    pub menu_cursor: usize,
    /// Model browser cursor position
    pub model_cursor: usize,
    /// Whether we're currently loading something
    pub loading: bool,
    pub loading_msg: String,
    /// Status bar message
    pub status_msg: String,
    /// Tick count for animations
    pub tick: u64,
    /// Error message (cleared after display)
    pub error: Option<String>,
}

/// The cursor one step up a list of `len` entries, wrapping to the bottom.
pub open spec fn cursor_up(c: usize, len: usize) -> usize {
    if len == 0 { c } else { ((c + len - 1) % (len as int)) as usize }
}

/// The cursor one step down a list of `len` entries, wrapping to the top.
pub open spec fn cursor_down(c: usize, len: usize) -> usize {
    if len == 0 { c } else { ((c + 1) % (len as int)) as usize }
}

/// `b` is `a` with only the fields the screens' keys move possibly changed:
/// the mode, the two cursors, the status line, the selected model and the error.
pub open spec fn same_data(a: App, b: App) -> bool {
    &&& b.config == a.config
    &&& b.models == a.models
    &&& b.system_info == a.system_info
    &&& b.loading == a.loading
    &&& b.loading_msg == a.loading_msg
    &&& b.tick == a.tick
}

/// Fields the screens' keys move, all unchanged.
pub open spec fn same_view(a: App, b: App) -> bool {
    &&& b.mode == a.mode
    &&& b.menu_cursor == a.menu_cursor
    &&& b.model_cursor == a.model_cursor
    &&& b.status_msg == a.status_msg
    &&& b.selected_model == a.selected_model
    &&& b.error == a.error
}

impl App {
    pub fn new(config: MarkusConfig) -> (r: App)
        ensures
            r.mode == AppMode::MainMenu,
            r.config == config,
            r.models@.len() == 0,
            r.selected_model is None,
            r.system_info is None,
            r.menu_cursor == 0,
            r.model_cursor == 0,
            !r.loading,
            r.loading_msg@ == Seq::<char>::empty(),
            r.status_msg@ == "Ready"@,
            r.tick == 0,
            r.error is None,
    {
        App {
            mode: AppMode::MainMenu,
            config,
            models: Vec::new(),
            selected_model: None,
            system_info: None,
            menu_cursor: 0,
            model_cursor: 0,
            loading: false,
            loading_msg: String::new(),
            status_msg: String::from_str("Ready"),
            tick: 0,
            error: None,
        }
    }

    /// Advances the animation counter, wrapping at the top.
    pub fn tick(&mut self)
        ensures
            *final(self) == (App { tick: if old(self).tick == u64::MAX { 0 } else { (old(self).tick + 1) as u64 }, ..*old(self) }),
    {
        self.tick = self.tick.wrapping_add(1);
    }

    pub fn set_error(&mut self, msg: String)
        ensures
            *final(self) == (App { error: Some(msg), ..*old(self) }),
    {
        self.error = Some(msg);
    }

    pub fn clear_error(&mut self)
        ensures
            *final(self) == (App { error: None, ..*old(self) }),
    {
        self.error = None;
    }

    pub fn set_status(&mut self, msg: String)
        ensures
            *final(self) == (App { status_msg: msg, ..*old(self) }),
    {
        self.status_msg = msg;
    }

    pub fn start_loading(&mut self, msg: String)
        ensures
            *final(self) == (App { loading: true, loading_msg: msg, ..*old(self) }),
    {
        self.loading = true;
        self.loading_msg = msg;
    }

    pub fn stop_loading(&mut self)
        ensures
            *final(self) == (App { loading: false, loading_msg: final(self).loading_msg, ..*old(self) }),
            final(self).loading_msg@ == Seq::<char>::empty(),
    {
        self.loading = false;
        self.loading_msg = String::new();
    }

    pub fn go_to(&mut self, mode: AppMode)
        ensures
            *final(self) == (App { mode: mode, ..*old(self) }),
    {
        self.mode = mode;
    }

    pub fn go_back(&mut self)
        ensures
            *final(self) == (App { mode: AppMode::MainMenu, ..*old(self) }),
    {
        self.mode = AppMode::MainMenu;
    }

    pub fn menu_up(&mut self, len: usize)
        requires
            len == 0 || old(self).menu_cursor + len <= usize::MAX,
        ensures
            *final(self) == (App { menu_cursor: cursor_up(old(self).menu_cursor, len), ..*old(self) }),
    {
        if len == 0 {
            return;
        }
        self.menu_cursor = (self.menu_cursor + len - 1) % len;
    }

    pub fn menu_down(&mut self, len: usize)
        requires
            len == 0 || old(self).menu_cursor + 1 <= usize::MAX,
        ensures
            *final(self) == (App { menu_cursor: cursor_down(old(self).menu_cursor, len), ..*old(self) }),
    {
        if len == 0 {
            return;
        }
        self.menu_cursor = (self.menu_cursor + 1) % len;
    }

    pub fn model_up(&mut self)
        requires
            old(self).models@.len() == 0 || old(self).model_cursor + old(self).models@.len() <= usize::MAX,
        ensures
            *final(self) == (App {
                model_cursor: cursor_up(old(self).model_cursor, old(self).models@.len() as usize),
                ..*old(self)
            }),
    {
        let len = self.models.len();
        if len == 0 {
            return;
        }
        self.model_cursor = (self.model_cursor + len - 1) % len;
    }

    pub fn model_down(&mut self)
        requires
            old(self).models@.len() == 0 || old(self).model_cursor + 1 <= usize::MAX,
        ensures
            *final(self) == (App {
                model_cursor: cursor_down(old(self).model_cursor, old(self).models@.len() as usize),
                ..*old(self)
            }),
    {
        let len = self.models.len();
        if len == 0 {
            return;
        }
        self.model_cursor = (self.model_cursor + 1) % len;
    }

    /// The model under the browser cursor.
    pub fn selected_model_info(&self) -> (r: Option<&ModelInfo>)
        ensures
            match r {
                Some(m) => self.model_cursor < self.models@.len() && *m == self.models@[self.model_cursor as int],
                None => self.model_cursor >= self.models@.len(),
            },
    {
        if self.model_cursor < self.models.len() {
            Some(&self.models[self.model_cursor])
        } else {
            None
        }
    }
}


/// What the main menu asks of the caller after a key.
#[derive(Clone, Copy, Debug, PartialEq, Eq, Structural)]
pub enum MenuAction {
    Stay,
    /// Read the hardware and show it (`App::show_system`).
    ShowSystem,
}

/// The main menu's reaction to a key: (mode, cursor, new status, action).
pub open spec fn main_menu_step(mode: AppMode, cursor: usize, key: KeyInput) -> (AppMode, usize, Option<Seq<char>>, MenuAction) {
    let n = MAIN_MENU_LEN;
    match key {
        KeyInput::Char(c) => if c == 'q' || c == 'Q' {
            (AppMode::Quitting, cursor, None, MenuAction::Stay)
        } else if c == 'k' {
            (mode, cursor_up(cursor, n), None, MenuAction::Stay)
        } else if c == 'j' {
            (mode, cursor_down(cursor, n), None, MenuAction::Stay)
        } else if '1' <= c <= '9' && (c as int) - ('1' as int) < n {
            (mode, ((c as int) - ('1' as int)) as usize, None, MenuAction::Stay)
        } else {
            (mode, cursor, None, MenuAction::Stay)
        },
        KeyInput::Up => (mode, cursor_up(cursor, n), None, MenuAction::Stay),
        KeyInput::Down => (mode, cursor_down(cursor, n), None, MenuAction::Stay),
        KeyInput::Enter => if cursor == 0 {
            (AppMode::ModelBrowser, cursor, Some("Select a model to chat with"@), MenuAction::Stay)
        } else if cursor == 1 {
            (AppMode::ModelBrowser, cursor, Some("Model browser — Enter to chat, s to serve"@), MenuAction::Stay)
        } else if cursor == 2 {
            (mode, cursor, None, MenuAction::ShowSystem)
        } else if cursor == 3 {
            (mode, cursor, Some("Use 'markus-engine pull <model>' from CLI to download"@), MenuAction::Stay)
        } else if cursor == 4 {
            (AppMode::ModelBrowser, cursor, Some("Select a model to serve as API"@), MenuAction::Stay)
        } else if cursor == 5 {
            (AppMode::Quitting, cursor, None, MenuAction::Stay)
        } else {
            (mode, cursor, None, MenuAction::Stay)
        },
        _ => (mode, cursor, None, MenuAction::Stay),
    }
}

/// What the model browser asks of the caller after a key.
pub enum BrowserAction {
    Stay,
    /// Remove this model file, rescan, then call `App::models_rescanned`.
    Delete(PathBuf),
    /// Start the OpenAI-compatible API server for this model, on the
    /// configured host and port.
    Serve(PathBuf),
}

/// The status shown when the API server is started: its address.
pub open spec fn serve_status(host: Seq<char>, port: u16) -> Seq<char> {
    "Starting API server on http://"@ + host + ":"@ + decimal(port as nat)
}

/// The status line for starting the API server on `host:port`.
fn serve_status_text(host: &String, port: u16) -> (r: String)
    ensures
        r@ == serve_status(host@, port),
{
    let mut prefix = String::from_str("Starting API server on http://");
    prefix.append(host.as_str());
    prefix.append(":");
    with_decimal(prefix.as_str(), port as u64)
}

/// std's `PathBuf::clone`: an equal path.
#[verifier::external_body]
fn clone_path(p: &PathBuf) -> (r: PathBuf)
    ensures
        r == *p,
{
    p.clone()
}

/// What the system dashboard asks of the caller after a key.
#[derive(Clone, Copy, Debug, PartialEq, Eq, Structural)]
pub enum SystemAction {
    Stay,
    /// Stop inference processes and drop caches, then call `App::memory_freed`.
    FreeMemory,
    /// Read the hardware again and store it in `system_info`.
    Refresh,
}

/// What the chat screen asks of the caller after a key.
pub enum ChatAction {
    Stay,
    /// Load the selected model, then send the input line with `ChatState::submit`
    /// (or report the failure).
    LoadModel,
    /// Run the model on this conversation.
    Send(Vec<ChatMessage>),
}

impl App {
    /// The main menu's reaction to a key. Digits 1–6 jump to that entry;
    /// any other digit changes nothing.
    pub fn handle_main_menu_key(&mut self, key: KeyInput) -> (r: MenuAction)
        requires
            (key == KeyInput::Up || key == KeyInput::Char('k')) ==> old(self).menu_cursor + MAIN_MENU_LEN <= usize::MAX,
            (key == KeyInput::Down || key == KeyInput::Char('j')) ==> old(self).menu_cursor + 1 <= usize::MAX,
        ensures
            ({
                let (m, c, st, a) = main_menu_step(old(self).mode, old(self).menu_cursor, key);
                &&& final(self).mode == m
                &&& final(self).menu_cursor == c
                &&& r == a
                &&& match st {
                    Some(s) => final(self).status_msg@ == s,
                    None => final(self).status_msg == old(self).status_msg,
                }
            }),
            same_data(*old(self), *final(self)),
            final(self).model_cursor == old(self).model_cursor,
            final(self).selected_model == old(self).selected_model,
            final(self).error == old(self).error,
    {
        let n = MAIN_MENU_LEN;
        match key {
            KeyInput::Char(c) => {
                if c == 'q' || c == 'Q' {
                    self.go_to(AppMode::Quitting);
                } else if c == 'k' {
                    self.menu_up(n);
                } else if c == 'j' {
                    self.menu_down(n);
                } else if '1' <= c && c <= '9' {
                    let idx = ((c as u32) - ('1' as u32)) as usize;
                    if idx < n {
                        self.menu_cursor = idx;
                    }
                }
                MenuAction::Stay
            },
            KeyInput::Up => {
                self.menu_up(n);
                MenuAction::Stay
            },
            KeyInput::Down => {
                self.menu_down(n);
                MenuAction::Stay
            },
            KeyInput::Enter => {
                let c = self.menu_cursor;
                if c == 0 {
                    self.go_to(AppMode::ModelBrowser);
                    self.set_status(String::from_str("Select a model to chat with"));
                    MenuAction::Stay
                } else if c == 1 {
                    self.go_to(AppMode::ModelBrowser);
                    self.set_status(String::from_str("Model browser — Enter to chat, s to serve"));
                    MenuAction::Stay
                } else if c == 2 {
                    MenuAction::ShowSystem
                } else if c == 3 {
                    self.set_status(String::from_str("Use 'markus-engine pull <model>' from CLI to download"));
                    MenuAction::Stay
                } else if c == 4 {
                    self.go_to(AppMode::ModelBrowser);
                    self.set_status(String::from_str("Select a model to serve as API"));
                    MenuAction::Stay
                } else if c == 5 {
                    self.go_to(AppMode::Quitting);
                    MenuAction::Stay
                } else {
                    MenuAction::Stay
                }
            },
            _ => MenuAction::Stay,
        }
    }

    /// Shows freshly read hardware information on the system dashboard.
    pub fn show_system(&mut self, info: SystemInfo)
        ensures
            *final(self) == (App { system_info: Some(info), mode: AppMode::SystemDashboard, ..*old(self) }),
    {
        self.system_info = Some(info);
        self.go_to(AppMode::SystemDashboard);
    }

    /// The model browser's reaction to a key.
    pub fn handle_model_browser_key(&mut self, key: KeyInput) -> (r: BrowserAction)
        requires
            (key == KeyInput::Up || key == KeyInput::Char('k')) ==> old(self).models@.len() == 0
                || old(self).model_cursor + old(self).models@.len() <= usize::MAX,
            (key == KeyInput::Down || key == KeyInput::Char('j')) ==> old(self).models@.len() == 0
                || old(self).model_cursor + 1 <= usize::MAX,
        ensures
            same_data(*old(self), *final(self)),
            final(self).menu_cursor == old(self).menu_cursor,
            final(self).error == old(self).error,
            (key == KeyInput::Esc || key == KeyInput::Char('q')) ==> {
                &&& final(self).mode == AppMode::MainMenu
                &&& final(self).status_msg@ == "Ready"@
                &&& final(self).model_cursor == old(self).model_cursor
                &&& final(self).selected_model == old(self).selected_model
                &&& r is Stay
            },
            (key == KeyInput::Up || key == KeyInput::Char('k')) ==> {
                &&& final(self).model_cursor == cursor_up(old(self).model_cursor, old(self).models@.len() as usize)
                &&& final(self).mode == old(self).mode
                &&& final(self).status_msg == old(self).status_msg
                &&& final(self).selected_model == old(self).selected_model
                &&& r is Stay
            },
            (key == KeyInput::Down || key == KeyInput::Char('j')) ==> {
                &&& final(self).model_cursor == cursor_down(old(self).model_cursor, old(self).models@.len() as usize)
                &&& final(self).mode == old(self).mode
                &&& final(self).status_msg == old(self).status_msg
                &&& final(self).selected_model == old(self).selected_model
                &&& r is Stay
            },
            key == KeyInput::Enter ==> {
                &&& final(self).model_cursor == old(self).model_cursor
                &&& r is Stay
                &&& if old(self).model_cursor < old(self).models@.len() {
                    &&& final(self).selected_model == Some(old(self).models@[old(self).model_cursor as int].path)
                    &&& final(self).mode == AppMode::Chat
                    &&& final(self).status_msg@ == "Chat mode — type your message and press Enter"@
                } else {
                    same_view(*old(self), *final(self))
                }
            },
            key == KeyInput::Char('s') ==> {
                &&& final(self).mode == old(self).mode
                &&& final(self).model_cursor == old(self).model_cursor
                &&& if old(self).model_cursor < old(self).models@.len() {
                    let p = old(self).models@[old(self).model_cursor as int].path;
                    &&& final(self).selected_model == Some(p)
                    &&& final(self).status_msg@ == serve_status(old(self).config.server_host@, old(self).config.server_port)
                    &&& r matches BrowserAction::Serve(q) && q == p
                } else {
                    same_view(*old(self), *final(self)) && r is Stay
                }
            },
            key == KeyInput::Char('d') ==> {
                &&& same_view(*old(self), *final(self))
                &&& if old(self).model_cursor < old(self).models@.len() {
                    r matches BrowserAction::Delete(p) && p == old(self).models@[old(self).model_cursor as int].path
                } else {
                    r is Stay
                }
            },
            !(key == KeyInput::Esc || key == KeyInput::Char('q') || key == KeyInput::Up || key == KeyInput::Char('k')
                || key == KeyInput::Down || key == KeyInput::Char('j') || key == KeyInput::Enter || key == KeyInput::Char('d')
                || key == KeyInput::Char('s'))
                ==> same_view(*old(self), *final(self)) && r is Stay,
    {
        if key == KeyInput::Esc || key == KeyInput::Char('q') {
            self.go_back();
            self.set_status(String::from_str("Ready"));
            BrowserAction::Stay
        } else if key == KeyInput::Up || key == KeyInput::Char('k') {
            self.model_up();
            BrowserAction::Stay
        } else if key == KeyInput::Down || key == KeyInput::Char('j') {
            self.model_down();
            BrowserAction::Stay
        } else if key == KeyInput::Enter {
            if self.model_cursor < self.models.len() {
                let path = clone_path(&self.models[self.model_cursor].path);
                self.selected_model = Some(path);
                self.go_to(AppMode::Chat);
                self.set_status(String::from_str("Chat mode — type your message and press Enter"));
            }
            BrowserAction::Stay
        } else if key == KeyInput::Char('s') {
            if self.model_cursor < self.models.len() {
                let path = clone_path(&self.models[self.model_cursor].path);
                self.selected_model = Some(clone_path(&path));
                let status = serve_status_text(&self.config.server_host, self.config.server_port);
                self.set_status(status);
                BrowserAction::Serve(path)
            } else {
                BrowserAction::Stay
            }
        } else if key == KeyInput::Char('d') {
            if self.model_cursor < self.models.len() {
                BrowserAction::Delete(clone_path(&self.models[self.model_cursor].path))
            } else {
                BrowserAction::Stay
            }
        } else {
            BrowserAction::Stay
        }
    }

    /// Takes the models found by a rescan after a deletion; the cursor stays
    /// where it was, or moves to the last model when the list got shorter.
    pub fn models_rescanned(&mut self, models: Vec<ModelInfo>)
        ensures
            final(self).models == models,
            final(self).model_cursor == if old(self).model_cursor < models@.len() {
                old(self).model_cursor
            } else if models@.len() > 0 {
                (models@.len() - 1) as usize
            } else {
                0
            },
            final(self).status_msg@ == "Model removed"@,
            final(self).mode == old(self).mode,
            final(self).menu_cursor == old(self).menu_cursor,
            final(self).selected_model == old(self).selected_model,
            final(self).error == old(self).error,
            final(self).config == old(self).config,
            final(self).system_info == old(self).system_info,
            final(self).loading == old(self).loading,
            final(self).loading_msg == old(self).loading_msg,
            final(self).tick == old(self).tick,
    {
        let n = models.len();
        self.models = models;
        let last = n.saturating_sub(1);
        self.model_cursor = if self.model_cursor < last { self.model_cursor } else { last };
        self.set_status(String::from_str("Model removed"));
    }

    /// The system dashboard's reaction to a key.
    pub fn handle_system_key(&mut self, key: KeyInput) -> (r: SystemAction)
        ensures
            (key == KeyInput::Esc || key == KeyInput::Char('q')) ==> *final(self) == (App { mode: AppMode::MainMenu, ..*old(self) }) && r == SystemAction::Stay,
            key == KeyInput::Char('f') ==> *final(self) == *old(self) && r == SystemAction::FreeMemory,
            key == KeyInput::Char('r') ==> *final(self) == *old(self) && r == SystemAction::Refresh,
            !(key == KeyInput::Esc || key == KeyInput::Char('q') || key == KeyInput::Char('f') || key == KeyInput::Char('r'))
                ==> *final(self) == *old(self) && r == SystemAction::Stay,
    {
        if key == KeyInput::Esc || key == KeyInput::Char('q') {
            self.go_back();
            SystemAction::Stay
        } else if key == KeyInput::Char('f') {
            SystemAction::FreeMemory
        } else if key == KeyInput::Char('r') {
            SystemAction::Refresh
        } else {
            SystemAction::Stay
        }
    }

    /// Reports how many inference processes were stopped to free memory.
    pub fn memory_freed(&mut self, killed: usize)
        ensures
            final(self).status_msg@ == "Freed memory — killed "@ + crate::text::decimal(killed as nat) + " processes"@,
            *final(self) == (App { status_msg: final(self).status_msg, ..*old(self) }),
    {
        let mut msg = crate::text::with_decimal("Freed memory — killed ", killed as u64);
        msg.append(" processes");
        self.set_status(msg);
    }

    /// The settings screen's reaction to a key.
    pub fn handle_settings_key(&mut self, key: KeyInput)
        ensures
            (key == KeyInput::Esc || key == KeyInput::Char('q')) ==> *final(self) == (App { mode: AppMode::MainMenu, ..*old(self) }),
            !(key == KeyInput::Esc || key == KeyInput::Char('q')) ==> *final(self) == *old(self),
    {
        if key == KeyInput::Esc || key == KeyInput::Char('q') {
            self.go_back();
        }
    }
}


/// What `/help` shows in the chat screen's status line.
pub const CHAT_HELP: &'static str = "Commands: /clear clears the history, /exit (or /quit) goes back to the models, /help shows this";

pub open spec fn chat_help() -> Seq<char> {
    CHAT_HELP@
}

/// Nothing about the app but the fields listed after it changed.
pub open spec fn only_mode_status_error(a: App, b: App) -> bool {
    &&& same_data(a, b)
    &&& b.menu_cursor == a.menu_cursor
    &&& b.model_cursor == a.model_cursor
    &&& b.selected_model == a.selected_model
}

impl App {
    /// The chat screen's reaction to a key. `ctrl` tells whether Control was
    /// held; `model_loaded` whether a model is ready to answer.
    pub fn handle_chat_key(&mut self, chat: &mut ChatState, key: KeyInput, ctrl: bool, model_loaded: bool) -> (r: ChatAction)
        requires
            !old(chat).is_streaming && key == KeyInput::Backspace ==> old(chat).cursor_pos <= utf8(old(chat).input@).len(),
            !old(chat).is_streaming && key == KeyInput::Down ==> old(chat).scroll_offset < usize::MAX,
            !old(chat).is_streaming ==> (key matches KeyInput::Char(c) ==> (!(c == 'l' && ctrl) ==> {
                &&& vstd::utf8::is_char_boundary(utf8(old(chat).input@), old(chat).cursor_pos as int)
                &&& old(chat).cursor_pos + utf8(seq![c]).len() <= usize::MAX
            })),
        ensures
            only_mode_status_error(*old(self), *final(self)),
            old(chat).is_streaming ==> *final(self) == *old(self) && *final(chat) == *old(chat) && r is Stay,
            !old(chat).is_streaming ==> match key {
                KeyInput::Esc => {
                    &&& *final(self) == (App { mode: AppMode::ModelBrowser, ..*old(self) })
                    &&& cleared(*old(chat), *final(chat))
                    &&& r is Stay
                },
                KeyInput::Up => *final(self) == *old(self) && scrolled(*old(chat), *final(chat), true) && r is Stay,
                KeyInput::Down => *final(self) == *old(self) && scrolled(*old(chat), *final(chat), false) && r is Stay,
                KeyInput::Backspace => *final(self) == *old(self) && backspaced(*old(chat), *final(chat)) && r is Stay,
                KeyInput::Char(c) => if c == 'l' && ctrl {
                    &&& *final(self) == (App { status_msg: final(self).status_msg, ..*old(self) })
                    &&& final(self).status_msg@ == "History cleared"@
                    &&& cleared(*old(chat), *final(chat))
                    &&& r is Stay
                } else {
                    *final(self) == *old(self) && typed(*old(chat), *final(chat), c) && r is Stay
                },
                KeyInput::Enter => {
                    let t = trim(old(chat).input@);
                    if t.len() == 0 {
                        *final(self) == *old(self) && *final(chat) == *old(chat) && r is Stay
                    } else if t == "/clear"@ {
                        &&& *final(self) == (App { status_msg: final(self).status_msg, ..*old(self) })
                        &&& final(self).status_msg@ == "History cleared"@
                        &&& cleared(*old(chat), *final(chat))
                        &&& r is Stay
                    } else if t == "/exit"@ || t == "/quit"@ {
                        *final(self) == (App { mode: AppMode::ModelBrowser, ..*old(self) }) && *final(chat) == *old(chat) && r is Stay
                    } else if t == "/help"@ {
                        &&& *final(self) == (App { status_msg: final(self).status_msg, ..*old(self) })
                        &&& final(self).status_msg@ == chat_help()
                        &&& *final(chat) == *old(chat)
                        &&& r is Stay
                    } else if !model_loaded {
                        &&& *final(chat) == *old(chat)
                        &&& if old(self).selected_model is Some {
                            *final(self) == *old(self) && r is LoadModel
                        } else {
                            &&& *final(self) == (App { error: final(self).error, ..*old(self) })
                            &&& final(self).error matches Some(e) && e@ == "No model selected"@
                            &&& r is Stay
                        }
                    } else {
                        &&& *final(self) == *old(self)
                        &&& submitted(*old(chat), *final(chat))
                        &&& r matches ChatAction::Send(msgs) && history_view(msgs@) == inference_messages(*final(chat))
                    }
                },
                _ => *final(self) == *old(self) && *final(chat) == *old(chat) && r is Stay,
            },
    {
        if chat.is_streaming {
            return ChatAction::Stay;
        }
        match key {
            KeyInput::Esc => {
                self.go_to(AppMode::ModelBrowser);
                chat.clear_history();
                ChatAction::Stay
            },
            KeyInput::Up => {
                chat.scroll_up();
                ChatAction::Stay
            },
            KeyInput::Down => {
                chat.scroll_down();
                ChatAction::Stay
            },
            KeyInput::Backspace => {
                chat.backspace();
                ChatAction::Stay
            },
            KeyInput::Char(c) => {
                if c == 'l' && ctrl {
                    chat.clear_history();
                    self.set_status(String::from_str("History cleared"));
                } else {
                    chat.push_char(c);
                }
                ChatAction::Stay
            },
            KeyInput::Enter => {
                let input = chars_of(chat.input.as_str());
                let t = trim_chars(input.as_slice());
                if t.len() == 0 {
                    return ChatAction::Stay;
                }
                if chars_equal(t.as_slice(), chars_of("/clear").as_slice()) {
                    chat.clear_history();
                    self.set_status(String::from_str("History cleared"));
                    return ChatAction::Stay;
                }
                if chars_equal(t.as_slice(), chars_of("/exit").as_slice())
                    || chars_equal(t.as_slice(), chars_of("/quit").as_slice()) {
                    self.go_to(AppMode::ModelBrowser);
                    return ChatAction::Stay;
                }
                if chars_equal(t.as_slice(), chars_of("/help").as_slice()) {
                    self.set_status(String::from_str(CHAT_HELP));
                    return ChatAction::Stay;
                }
                if !model_loaded {
                    if self.selected_model.is_some() {
                        return ChatAction::LoadModel;
                    }
                    self.set_error(String::from_str("No model selected"));
                    return ChatAction::Stay;
                }
                ChatAction::Send(chat.submit())
            },
            _ => ChatAction::Stay,
        }
    }
}


/// What happens to a key press before the current screen sees it.
#[derive(Clone, Copy, Debug, PartialEq, Eq, Structural)]
pub enum KeyRoute {
    /// An error was showing: the key only dismissed it.
    Dismissed,
    /// Ctrl+C: leave the application.
    Quit,
    /// The current screen handles the key.
    Dispatch,
}

impl App {
    /// Routes a key press: any key dismisses a shown error; otherwise Ctrl+C
    /// quits, and everything else goes to the current screen.
    pub fn route_key(&mut self, key: KeyInput, ctrl: bool) -> (r: KeyRoute)
        ensures
            old(self).error is Some ==> r is Dismissed && *final(self) == (App { error: None, ..*old(self) }),
            old(self).error is None ==> *final(self) == *old(self) && if ctrl && key == KeyInput::Char('c') {
                r is Quit
            } else {
                r is Dispatch
            },
    {
        if self.error.is_some() {
            self.clear_error();
            return KeyRoute::Dismissed;
        }
        if ctrl && key == KeyInput::Char('c') {
            return KeyRoute::Quit;
        }
        KeyRoute::Dispatch
    }
}

} // verus!

verus! {

/// Moving a list cursor: from inside a list of `len` entries, a step up or
/// down stays inside it, and a step down followed by a step up (or the
/// other way round) comes back to the same entry.
pub proof fn law_cursor_round_trip(c: usize, len: usize)
    requires
        c < len,
    ensures
        cursor_up(c, len) < len,
        cursor_down(c, len) < len,
        cursor_up(cursor_down(c, len), len) == c,
        cursor_down(cursor_up(c, len), len) == c,
{
    let n = len as int;
    assert(cursor_down(c, len) == if c + 1 < n { c + 1 } else { 0 }) by {
        if c + 1 < n {
            vstd::arithmetic::div_mod::lemma_small_mod((c + 1) as nat, n as nat);
        } else {
            vstd::arithmetic::div_mod::lemma_mod_self_0(n);
        }
    }
    assert(cursor_up(c, len) == if c > 0 { c - 1 } else { n - 1 }) by {
        if c > 0 {
            vstd::arithmetic::div_mod::lemma_mod_add_multiples_vanish((c - 1) as int, n);
            vstd::arithmetic::div_mod::lemma_small_mod((c - 1) as nat, n as nat);
        } else {
            vstd::arithmetic::div_mod::lemma_small_mod((n - 1) as nat, n as nat);
        }
    }
    let d = cursor_down(c, len);
    assert(cursor_up(d, len) == c) by {
        if d > 0 {
            vstd::arithmetic::div_mod::lemma_mod_add_multiples_vanish((d - 1) as int, n);
            vstd::arithmetic::div_mod::lemma_small_mod((d - 1) as nat, n as nat);
        } else {
            vstd::arithmetic::div_mod::lemma_small_mod((n - 1) as nat, n as nat);
        }
    }
    let u = cursor_up(c, len);
    assert(cursor_down(u, len) == c) by {
        if u + 1 < n {
            vstd::arithmetic::div_mod::lemma_small_mod((u + 1) as nat, n as nat);
        } else {
            vstd::arithmetic::div_mod::lemma_mod_self_0(n);
        }
    }
}

} // verus!
