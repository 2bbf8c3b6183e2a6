//! Keyboard, mouse, and sidebar selection handling.
//!
//! All input processing goes here. Side effects are enqueued as [`Action`]s and drained by the
//! event loop.

use crate::app;
use crate::app::{Action, ActionView, App, AppView, Focus, ItemView, SidebarItem};
use crate::bytes;
use crate::chat::{MsgKind, TranscriptView};
use crate::text;
use crate::wire::{Capability, CapabilityView, MeView, ToolView, ZMe};
use vstd::prelude::*;

verus! {

broadcast use text::lemma_views_push;

// ── What the terminal reports ──────────────────────────────────

/// A key.
#[derive(Debug, Clone, Copy, PartialEq, Eq, Structural)]
pub enum KeyCode {
    Char(char),
    Enter,
    Backspace,
    Tab,
    Esc,
    Up,
    Down,
    Left,
    Right,
    Home,
    End,
    PageUp,
    PageDown,
    /// Any other key.
    Other,
}

/// The modifiers held with a key.
#[derive(Debug, Clone, Copy, PartialEq, Eq, Structural)]
pub struct KeyModifiers {
    pub shift: bool,
    pub control: bool,
    pub alt: bool,
    /// Any other modifier.
    pub other: bool,
}

impl KeyModifiers {
    /// No modifier.
    pub fn none() -> (m: KeyModifiers)
        ensures
            m == (KeyModifiers { shift: false, control: false, alt: false, other: false }),
    {
        KeyModifiers { shift: false, control: false, alt: false, other: false }
    }

    /// The control key, and no other modifier.
    pub open spec fn just_control(self) -> bool {
        self.control && !self.shift && !self.alt && !self.other
    }

    fn is_control(&self) -> (r: bool)
        ensures
            r == self.just_control(),
    {
        self.control && !self.shift && !self.alt && !self.other
    }
}

#[derive(Debug, Clone, Copy, PartialEq, Eq, Structural)]
pub enum MouseButton {
    Left,
    Right,
    Middle,
}

/// What the mouse did.
#[derive(Debug, Clone, Copy, PartialEq, Eq, Structural)]
pub enum MouseEventKind {
    Down(MouseButton),
    ScrollDown,
    ScrollUp,
    /// Any other mouse event.
    Other,
}

// ── Texts ──────────────────────────────────────────────────────

/// What the popup completes. `/quit`, `/h`, `/n`, `/credits` and `/me` resolve in
/// [`dispatch_command`] but stay out of here: the popup is a fixed 28-column box, and five
/// near-duplicate entries would fill it with noise.
pub const SLASH_COMMANDS: [&'static str; 10] = [
    "/help",
    "/exit",
    "/new",
    "/sessions",
    "/cancel",
    "/login",
    "/logout",
    "/whoami",
    "/usage",
    "/tools",
];

/// The lines of `/help`.
pub const HELP: [&'static str; 21] = [
    "── Commands ──────────────────────────",
    "  /exit       Exit the program",
    "  /help       Show this help",
    "  /new        Create a new session",
    "  /cancel     Stop the running turn",
    "  /login      Authorize this node again",
    "  /logout     Forget this node's credential",
    "  /whoami     Show identity and granted scopes",
    "  /usage      Show account and session usage",
    "  /tools      What the server announces",
    "  /sessions   Focus the sidebar and refresh it",
    "",
    "── Keys ─────────────────────────────",
    "  Enter       Send message",
    "  Shift+Enter Newline (Alt+Enter, Ctrl+J too)",
    "  Tab         Focus sidebar / autocomplete",
    "  ←→          Move cursor in the input",
    "  ↑↓          Scroll chat history",
    "  Ctrl+↑/↓    Scroll input",
    "  Esc         Stop the running turn",
    "  Ctrl+C      Exit",
];

/// How many columns of the screen the sidebar takes.
pub const SIDEBAR_COLUMNS: u16 = 30;

/// How many sidebar lines are taken to be visible.
pub const SIDEBAR_ROWS: usize = 12;

/// How many rows one step of scrolling moves.
pub const SCROLL_SPEED: usize = 3;

/// How many rows a page is.
pub const PAGE: usize = 10;

// ── Specifications ─────────────────────────────────────────────

/// Addition that stops at the largest number.
pub open spec fn plus(a: usize, b: usize) -> usize {
    if a + b > usize::MAX {
        usize::MAX
    } else {
        (a + b) as usize
    }
}

/// Subtraction that stops at zero.
pub open spec fn minus(a: usize, b: usize) -> usize {
    if a < b {
        0
    } else {
        (a - b) as usize
    }
}

/// A text without the spaces and tabs at its end.
pub open spec fn without_blanks(s: Seq<char>) -> Seq<char>
    decreases s.len(),
{
    if s.len() > 0 && (s.last() == ' ' || s.last() == '\t') {
        without_blanks(s.drop_last())
    } else {
        s
    }
}

/// A text without the word at its end.
pub open spec fn without_word(s: Seq<char>) -> Seq<char>
    decreases s.len(),
{
    if s.len() > 0 && s.last() != ' ' && s.last() != '\t' && s.last() != '\n' {
        without_word(s.drop_last())
    } else {
        s
    }
}

/// What is left of a text when a word is deleted from its end: a lone newline goes by itself;
/// otherwise the blanks at the end, the word before them and one blank before that go, none of them
/// across a newline.
pub open spec fn word_cut(s: Seq<char>) -> Seq<char> {
    if s.len() > 0 && s.last() == '\n' {
        s.drop_last()
    } else {
        let rest = without_word(without_blanks(s));
        if rest.len() > 0 && (rest.last() == ' ' || rest.last() == '\t') {
            rest.drop_last()
        } else {
            rest
        }
    }
}

/// Those of the commands that start with `typed`.
pub open spec fn starting_with(commands: Seq<Seq<char>>, typed: Seq<char>) -> Seq<Seq<char>>
    decreases commands.len(),
{
    if commands.len() == 0 {
        commands
    } else {
        let before = starting_with(commands.drop_last(), typed);
        if text::begins_with(commands.last(), typed) {
            before.push(commands.last())
        } else {
            before
        }
    }
}

/// What the popup offers for an input.
pub open spec fn completions(input: Seq<char>) -> Seq<Seq<char>> {
    let typed = text::trimmed(input);
    if typed.len() > 1 && typed[0] == '/' {
        starting_with(text::views(SLASH_COMMANDS@), typed)
    } else {
        Seq::empty()
    }
}

/// The id of the first session line at or after `i` with that title.
pub open spec fn titled_from(items: Seq<ItemView>, title: Seq<char>, i: int) -> Option<Seq<char>>
    decreases items.len() - i,
{
    if i < 0 || i >= items.len() {
        None
    } else {
        match items[i] {
            ItemView::Session { title: t, id, .. } => if t == title {
                Some(id)
            } else {
                titled_from(items, title, i + 1)
            },
            _ => titled_from(items, title, i + 1),
        }
    }
}

/// The place of the last project header before `i`, and its project.
pub open spec fn header_before(items: Seq<ItemView>, i: int) -> Option<(int, Seq<char>)>
    decreases i,
{
    if i <= 0 || i > items.len() {
        None
    } else {
        match items[i - 1] {
            ItemView::ProjectHeader { id, .. } => Some((i - 1, id)),
            _ => header_before(items, i - 1),
        }
    }
}

/// How a tool is listed.
pub open spec fn tool_line(tool: ToolView) -> Seq<char> {
    "  "@ + tool.name + " ("@ + tool.transfer + ")"@
}

/// How a capability is listed: its name and version, then its tools.
pub open spec fn capability_lines(cap: CapabilityView) -> Seq<Seq<char>> {
    seq![cap.name + " v"@ + text::decimal(cap.version as nat)] + Seq::new(
        cap.tools.len(),
        |i: int| tool_line(cap.tools[i]),
    )
}

/// How several capabilities are listed.
pub open spec fn announced(caps: Seq<CapabilityView>) -> Seq<Seq<char>>
    decreases caps.len(),
{
    if caps.len() == 0 {
        Seq::empty()
    } else {
        announced(caps.drop_last()) + capability_lines(caps.last())
    }
}

/// An account as a name and an address.
pub open spec fn ident(me: MeView) -> Seq<char> {
    me.display_name + " <"@ + me.email + ">"@
}

/// The scopes of a grant, as `/whoami` names them.
pub open spec fn scopes_line(me: MeView) -> Seq<char> {
    if me.scopes.len() == 0 {
        "scopes: "@ + "none granted"@
    } else {
        "scopes: "@ + text::joined(me.scopes, ", "@)
    }
}

/// A transcript with several system lines.
pub open spec fn noted(chat: TranscriptView, lines: Seq<Seq<char>>) -> TranscriptView
    decreases lines.len(),
{
    if lines.len() == 0 {
        chat
    } else {
        noted(chat, lines.drop_last()).pushed(MsgKind::Sys, lines.last())
    }
}

impl AppView {
    /// The insertion point falls between two characters of the input.
    pub open spec fn cursor_ok(self) -> bool {
        bytes::at_boundary(self.input, self.input_cursor as int)
    }

    /// The input before the insertion point.
    pub open spec fn left(self) -> Seq<char> {
        bytes::before(self.input, self.input_cursor as int)
    }

    /// The input after the insertion point.
    pub open spec fn right(self) -> Seq<char> {
        bytes::after(self.input, self.input_cursor as int)
    }

    /// With an input made of what precedes and what follows the insertion point.
    pub open spec fn edited(self, left: Seq<char>, right: Seq<char>) -> AppView {
        AppView {
            input: left + right,
            input_cursor: bytes::byte_len(left) as usize,
            ..self
        }
    }

    /// With a text inserted before the insertion point.
    #[verifier::opaque]
    pub open spec fn typed(self, text: Seq<char>) -> AppView {
        self.edited(self.left() + text, self.right())
    }

    /// Without the character before the insertion point.
    #[verifier::opaque]
    pub open spec fn erased(self) -> AppView {
        if self.left().len() > 0 {
            self.edited(self.left().drop_last(), self.right())
        } else {
            self
        }
    }

    /// Without the word before the insertion point.
    #[verifier::opaque]
    pub open spec fn word_erased(self) -> AppView {
        if self.left().len() > 0 {
            self.edited(word_cut(self.left()), self.right())
        } else {
            self
        }
    }

    /// With the insertion point one character back.
    #[verifier::opaque]
    pub open spec fn moved_left(self) -> AppView {
        if self.left().len() > 0 {
            AppView {
                input_cursor: bytes::byte_len(self.left().drop_last()) as usize,
                ..self
            }
        } else {
            self
        }
    }

    /// With the insertion point one character on.
    #[verifier::opaque]
    pub open spec fn moved_right(self) -> AppView {
        if self.right().len() > 0 {
            AppView {
                input_cursor: bytes::byte_len(self.left().push(self.right()[0])) as usize,
                ..self
            }
        } else {
            self
        }
    }

    /// With the input box scrolled to its end.
    pub open spec fn bottomed(self) -> AppView {
        AppView { input_scroll: usize::MAX, ..self }
    }

    /// With the popup offering what the input calls for.
    #[verifier::opaque]
    pub open spec fn suggested(self) -> AppView {
        AppView {
            autocomplete_suggestions: completions(self.input),
            autocomplete_idx: None,
            ..self
        }
    }

    /// With the next suggestion as the input.
    #[verifier::opaque]
    pub open spec fn cycled(self) -> AppView {
        let n = self.autocomplete_suggestions.len() as int;
        if n == 0 {
            self
        } else {
            let next = match self.autocomplete_idx {
                Some(i) => (i + 1) % n,
                None => 0,
            };
            AppView { autocomplete_idx: Some(next as usize), ..self }.edited(
                self.autocomplete_suggestions[next].push(' '),
                Seq::empty(),
            )
        }
    }

    /// Scrolled `n` rows towards the start of the chat.
    pub open spec fn scrolled_up(self, n: usize) -> AppView {
        if self.at_end {
            AppView { at_end: false, scroll: n, ..self }
        } else {
            AppView { scroll: plus(self.scroll, n), ..self }
        }
    }

    /// Scrolled `n` rows towards the end of the chat.
    pub open spec fn scrolled_down(self, n: usize) -> AppView {
        if self.at_end {
            self
        } else if self.scroll > n {
            AppView { scroll: (self.scroll - n) as usize, ..self }
        } else {
            AppView { at_end: true, scroll: 0, ..self }
        }
    }

    /// The input box's scroll offset, where the largest number stands for its end.
    pub open spec fn input_offset(self) -> usize {
        if self.input_scroll == usize::MAX {
            self.input_max_scroll
        } else {
            self.input_scroll
        }
    }

    /// With several system lines.
    pub open spec fn told_all(self, lines: Seq<Seq<char>>) -> AppView {
        AppView { chat: noted(self.chat, lines), ..self }
    }

    /// With an empty input.
    pub open spec fn emptied(self) -> AppView {
        AppView { input: Seq::empty(), input_cursor: 0, input_scroll: usize::MAX, ..self }
    }

    /// What a command does, given its text and a state whose input has been emptied.
    #[verifier::opaque]
    pub open spec fn commanded(self, raw: Seq<char>) -> AppView {
        if raw == "/exit"@ || raw == "/quit"@ {
            AppView { exit_requested: true, ..self }
        } else if raw == "/help"@ || raw == "/h"@ {
            self.told_all(text::views(HELP@))
        } else if raw == "/new"@ || raw == "/n"@ {
            self.queued(ActionView::Create)
        } else if raw == "/cancel"@ {
            self.queued(ActionView::Cancel)
        } else if raw == "/logout"@ {
            self.queued(ActionView::Logout)
        } else if raw == "/sessions"@ {
            AppView { focus: Focus::Sidebar, ..self }.queued(ActionView::RefreshSessions)
        } else if raw == "/login"@ {
            AppView { login_requested: true, ..self.told("authorizing — see the terminal"@) }
        } else if text::begins_with(raw, "/login "@) {
            self.told(
                "attacca-cli no longer takes a key here — /login re-authorizes this node"@,
            ).told("set ZYRIS_NODE_TOKEN for a static token instead"@)
        } else if raw == "/credits"@ || raw == "/me"@ || raw == "/usage"@ {
            self.queued(ActionView::ShowInfo)
        } else if raw == "/whoami"@ {
            match self.me {
                Some(me) => self.told(ident(me)).told(scopes_line(me)),
                None => self.told("not connected yet"@),
            }
        } else if raw == "/tools"@ {
            match self.peer {
                Some(caps) => self.told_all(announced(caps)),
                None => self.told("not connected yet"@),
            }
        } else if text::begins_with(raw, "/"@) {
            self.told("unknown command: "@ + raw)
        } else {
            AppView { chat: self.chat.pushed(MsgKind::User, raw), ..self }.queued(
                ActionView::Send(raw),
            )
        }
    }

    /// What Enter does: open the session of that title, run a command, or send a message.
    #[verifier::opaque]
    pub open spec fn dispatched(self) -> AppView {
        let raw = text::trimmed(self.input);
        if raw.len() == 0 {
            self
        } else {
            match titled_from(self.sidebar_items, raw, 0) {
                Some(id) => self.emptied().queued(ActionView::Open(id)),
                None => AppView {
                    autocomplete_suggestions: Seq::empty(),
                    autocomplete_idx: None,
                    ..self.emptied()
                }.commanded(raw),
            }
        }
    }

    /// With the selected line acted on: a project is expanded or collapsed, a session opened, a
    /// new session asked for.
    #[verifier::opaque]
    pub open spec fn activated(self) -> AppView {
        if self.sidebar_sel >= self.sidebar_items.len() {
            self
        } else {
            match self.sidebar_items[self.sidebar_sel as int] {
                ItemView::ProjectHeader { id, expanded, .. } => AppView {
                    expanded_projects: if expanded {
                        self.expanded_projects.remove(id)
                    } else {
                        self.expanded_projects.insert(id)
                    },
                    ..self
                }.rebuilt(),
                ItemView::Session { id, .. } => self.queued(ActionView::Open(id)),
                ItemView::NewSession => self.queued(ActionView::Create),
            }
        }
    }

    /// With the scroll offset such that the selection is visible.
    #[verifier::opaque]
    pub open spec fn clamped(self) -> AppView {
        if self.sidebar_sel < self.sidebar_scroll {
            AppView { sidebar_scroll: self.sidebar_sel, ..self }
        } else if self.sidebar_sel >= self.sidebar_scroll + SIDEBAR_ROWS {
            AppView { sidebar_scroll: (minus(self.sidebar_sel, SIDEBAR_ROWS) + 1) as usize, ..self }
        } else {
            self
        }
    }

    /// What a key does in the sidebar.
    #[verifier::opaque]
    pub open spec fn steered(self, code: KeyCode) -> AppView {
        match code {
            KeyCode::Up => if self.sidebar_sel > 0 {
                AppView { sidebar_sel: (self.sidebar_sel - 1) as usize, ..self }.clamped()
            } else {
                self
            },
            KeyCode::Down => if self.sidebar_sel + 1 < self.sidebar_items.len() {
                AppView { sidebar_sel: (self.sidebar_sel + 1) as usize, ..self }.clamped()
            } else {
                self
            },
            KeyCode::Enter => self.activated(),
            KeyCode::Right => self.activated(),
            KeyCode::Left => match header_before(self.sidebar_items, self.sidebar_sel as int) {
                Some((i, id)) => AppView {
                    sidebar_sel: i as usize,
                    ..AppView {
                        expanded_projects: self.expanded_projects.remove(id),
                        ..self
                    }.rebuilt()
                },
                None => self,
            },
            _ => self,
        }
    }

    /// What a key does in the chat.
    #[verifier::opaque]
    pub open spec fn chatted(self, code: KeyCode, m: KeyModifiers) -> AppView {
        match code {
            KeyCode::Up => if m.control {
                AppView { input_scroll: minus(self.input_offset(), 1), ..self }
            } else {
                self.scrolled_up(SCROLL_SPEED)
            },
            KeyCode::Down => if m.control {
                AppView {
                    input_scroll: if self.input_offset() < self.input_max_scroll {
                        (self.input_offset() + 1) as usize
                    } else {
                        self.input_max_scroll
                    },
                    ..self
                }
            } else {
                self.scrolled_down(SCROLL_SPEED)
            },
            KeyCode::PageUp => self.scrolled_up(PAGE),
            KeyCode::PageDown => self.scrolled_down(PAGE),
            KeyCode::Home => AppView { at_end: false, scroll: 9999, ..self },
            KeyCode::End => AppView { at_end: true, scroll: 0, ..self },
            KeyCode::Left => self.moved_left(),
            KeyCode::Right => self.moved_right(),
            KeyCode::Esc => if self.chat.running {
                self.queued(ActionView::Cancel)
            } else {
                self
            },
            KeyCode::Enter => if m.shift || m.alt || m.control {
                self.typed("\n"@).bottomed().suggested()
            } else {
                self.dispatched()
            },
            KeyCode::Backspace => if m.control {
                self.word_erased().bottomed().suggested()
            } else {
                self.erased().bottomed().suggested()
            },
            KeyCode::Char(c) => if c == 'j' && m.just_control() {
                self.typed("\n"@).suggested()
            } else if c == 'w' && m.just_control() {
                self.word_erased().bottomed().suggested()
            } else {
                self.typed(seq![c]).bottomed().suggested()
            },
            _ => self,
        }
    }

    /// What a key does.
    pub open spec fn keyed(self, code: KeyCode, m: KeyModifiers) -> AppView {
        if code == KeyCode::Tab {
            if self.focus == Focus::Chat && self.autocomplete_suggestions.len() > 0 {
                self.cycled()
            } else {
                AppView {
                    focus: match self.focus {
                        Focus::Chat => Focus::Sidebar,
                        Focus::Sidebar => Focus::Chat,
                    },
                    ..self
                }
            }
        } else if code == KeyCode::Char('/') {
            AppView { focus: Focus::Chat, ..self }.chatted(code, m)
        } else {
            match self.focus {
                Focus::Sidebar => self.steered(code),
                Focus::Chat => self.chatted(code, m),
            }
        }
    }

    /// What pasting a text does.
    pub open spec fn pasted(self, text: Seq<char>) -> AppView {
        if self.focus == Focus::Chat {
            self.typed(text).bottomed().suggested()
        } else {
            self
        }
    }

    /// The sidebar scrolled down a step, with the selection kept among the visible lines.
    #[verifier::opaque]
    pub open spec fn list_down(self) -> AppView {
        let len = self.sidebar_items.len();
        let top: int = if self.sidebar_scroll + SCROLL_SPEED < len {
            self.sidebar_scroll + SCROLL_SPEED
        } else {
            len - 1
        };
        let visible: int = if len < SIDEBAR_ROWS {
            len as int
        } else {
            SIDEBAR_ROWS as int
        };
        AppView {
            sidebar_scroll: top as usize,
            sidebar_sel: if self.sidebar_sel < top {
                top as usize
            } else if self.sidebar_sel >= top + visible {
                (top + visible - 1) as usize
            } else {
                self.sidebar_sel
            },
            ..self
        }
    }

    /// The sidebar scrolled up a step, with the selection kept among the visible lines.
    #[verifier::opaque]
    pub open spec fn list_up(self) -> AppView {
        let top = minus(self.sidebar_scroll, SCROLL_SPEED);
        AppView {
            sidebar_scroll: top,
            sidebar_sel: if self.sidebar_sel >= top + SIDEBAR_ROWS {
                (top + SIDEBAR_ROWS - 1) as usize
            } else {
                self.sidebar_sel
            },
            ..self
        }
    }

    /// What a click does.
    #[verifier::opaque]
    pub open spec fn clicked(self, column: u16, row: u16) -> AppView {
        if column < SIDEBAR_COLUMNS {
            let a = AppView { focus: Focus::Sidebar, ..self };
            let line: int = if row < 2 {
                0
            } else {
                row - 2
            };
            if line + self.sidebar_scroll < self.sidebar_items.len() {
                AppView { sidebar_sel: (line + self.sidebar_scroll) as usize, ..a }.activated()
            } else {
                a
            }
        } else {
            AppView { focus: Focus::Chat, ..self }
        }
    }

    /// What the mouse does.
    pub open spec fn moused(self, column: u16, row: u16, kind: MouseEventKind) -> AppView {
        match kind {
            MouseEventKind::Down(MouseButton::Left) => self.clicked(column, row),
            MouseEventKind::ScrollDown => if column < SIDEBAR_COLUMNS {
                self.list_down()
            } else {
                self.scrolled_down(SCROLL_SPEED)
            },
            MouseEventKind::ScrollUp => if column < SIDEBAR_COLUMNS {
                self.list_up()
            } else {
                self.scrolled_up(SCROLL_SPEED)
            },
            _ => self,
        }
    }

    /// The state a key can be handled in: the insertion point is a boundary, the selection is not
    /// past the end of the sidebar, and the popup's index can be stepped.
    pub open spec fn keys_ok(self) -> bool {
        &&& self.cursor_ok()
        &&& self.sidebar_sel <= self.sidebar_items.len()
        &&& self.autocomplete_idx != Some(usize::MAX)
    }

    /// The state a mouse event can be handled in: there is a sidebar line to scroll to.
    pub open spec fn mouse_ok(self, column: u16, kind: MouseEventKind) -> bool {
        kind == MouseEventKind::ScrollDown && column < SIDEBAR_COLUMNS ==> self.sidebar_items.len()
            > 0
    }
}

// ── Keys and mouse ─────────────────────────────────────────────

/// Process a keyboard event. Returns `false` on exit request.
#[verifier::rlimit(40)]
pub fn handle_key(app: &mut App, code: KeyCode, modifiers: KeyModifiers) -> (go_on: bool)
    requires
        old(app)@.keys_ok(),
    ensures
        final(app)@ == old(app)@.keyed(code, modifiers),
        final(app)@.cursor_ok(),
        go_on == !final(app)@.exit_requested,
{
    if let KeyCode::Char(c) = code {
        if c == '/' {
            app.focus = Focus::Chat;
        }
    }
    // Tab: autocomplete cycle or focus toggle
    if code == KeyCode::Tab {
        if app.focus == Focus::Chat && app.autocomplete_suggestions.len() > 0 {
            cycle_autocomplete(app);
        } else {
            app.focus =
            match app.focus {
                Focus::Chat => Focus::Sidebar,
                Focus::Sidebar => Focus::Chat,
            };
        }
    } else {
        match app.focus {
            Focus::Sidebar => handle_sidebar(app, code),
            Focus::Chat => handle_chat(app, code, modifiers),
        };
    }
    !app.exit_requested
}

/// Process a bracketed-paste event. Pasted text is inserted verbatim, including any embedded
/// newlines, without going through the per-key Enter handling, so a newline in clipboard content
/// never submits the message early.
pub fn handle_paste(app: &mut App, text: &str)
    requires
        old(app)@.cursor_ok(),
    ensures
        final(app)@ == old(app)@.pasted(text@),
        final(app)@.cursor_ok(),
{
    if app.focus != Focus::Chat {
        return ;
    }
    insert_at_cursor(app, text);
    app.input_scroll = usize::MAX;
    update_autocomplete(app);
}

/// Process a mouse event.
pub fn handle_mouse(app: &mut App, column: u16, row: u16, kind: MouseEventKind)
    requires
        old(app)@.mouse_ok(column, kind),
    ensures
        final(app)@ == old(app)@.moused(column, row, kind),
        old(app)@.cursor_ok() ==> final(app)@.cursor_ok(),
{
    match kind {
        MouseEventKind::Down(MouseButton::Left) => click(app, column, row),
        MouseEventKind::ScrollDown => {
            if column < SIDEBAR_COLUMNS {
                list_down(app);
            } else {
                scroll_down(app, SCROLL_SPEED);
            }
        },
        MouseEventKind::ScrollUp => {
            if column < SIDEBAR_COLUMNS {
                list_up(app);
            } else {
                scroll_up(app, SCROLL_SPEED);
            }
        },
        _ => {},
    }
}

fn click(app: &mut App, column: u16, row: u16)
    ensures
        final(app)@ == old(app)@.clicked(column, row),
        final(app)@.input == old(app)@.input,
        final(app)@.input_cursor == old(app)@.input_cursor,
{
    proof {
        reveal(AppView::clicked);
    }
    if column < SIDEBAR_COLUMNS {
        app.focus = Focus::Sidebar;
        let line: usize = if row < 2 {
            0
        } else {
            (row - 2) as usize
        };
        let len = app.sidebar_items.len();
        if app.sidebar_scroll < len && line < len - app.sidebar_scroll {
            app.sidebar_sel = line + app.sidebar_scroll;
            activate_sidebar_selection(app);
        }
    } else {
        app.focus = Focus::Chat;
    }
}

fn list_down(app: &mut App)
    requires
        old(app)@.sidebar_items.len() > 0,
    ensures
        final(app)@ == old(app)@.list_down(),
        final(app)@.input == old(app)@.input,
        final(app)@.input_cursor == old(app)@.input_cursor,
{
    proof {
        reveal(AppView::list_down);
    }
    let len = app.sidebar_items.len();
    let top: usize = if app.sidebar_scroll < len && len - app.sidebar_scroll > SCROLL_SPEED {
        app.sidebar_scroll + SCROLL_SPEED
    } else {
        len - 1
    };
    let visible: usize = if len < SIDEBAR_ROWS {
        len
    } else {
        SIDEBAR_ROWS
    };
    app.sidebar_scroll = top;
    if app.sidebar_sel < top {
        app.sidebar_sel = top;
    } else if app.sidebar_sel - top >= visible {
        app.sidebar_sel = top + (visible - 1);
    }
}

fn list_up(app: &mut App)
    ensures
        final(app)@ == old(app)@.list_up(),
        final(app)@.input == old(app)@.input,
        final(app)@.input_cursor == old(app)@.input_cursor,
{
    proof {
        reveal(AppView::list_up);
    }
    let top: usize = if app.sidebar_scroll < SCROLL_SPEED {
        0
    } else {
        app.sidebar_scroll - SCROLL_SPEED
    };
    app.sidebar_scroll = top;
    if app.sidebar_sel >= top && app.sidebar_sel - top >= SIDEBAR_ROWS {
        app.sidebar_sel = top + (SIDEBAR_ROWS - 1);
    }
}

fn scroll_up(app: &mut App, n: usize)
    ensures
        final(app)@ == old(app)@.scrolled_up(n),
{
    if app.at_end {
        app.at_end = false;
        app.scroll = n;
    } else {
        app.scroll = app.scroll.saturating_add(n);
    }
}

fn scroll_down(app: &mut App, n: usize)
    ensures
        final(app)@ == old(app)@.scrolled_down(n),
{
    if !app.at_end {
        if app.scroll > n {
            app.scroll = app.scroll - n;
        } else {
            app.at_end = true;
            app.scroll = 0;
        }
    }
}

// ── Sidebar ────────────────────────────────────────────────────

/// Process a key while the sidebar has the focus.
#[verifier::rlimit(40)]
pub fn handle_sidebar(app: &mut App, code: KeyCode) -> (go_on: bool)
    requires
        old(app)@.sidebar_sel <= old(app)@.sidebar_items.len(),
    ensures
        final(app)@ == old(app)@.steered(code),
        old(app)@.cursor_ok() ==> final(app)@.cursor_ok(),
        go_on,
{
    proof {
        reveal(AppView::steered);
    }
    match code {
        KeyCode::Up => {
            if app.sidebar_sel > 0 {
                app.sidebar_sel = app.sidebar_sel - 1;
                clamp_sidebar_scroll(app);
            }
        },
        KeyCode::Down => {
            let len = app.sidebar_items.len();
            if len > 0 && app.sidebar_sel < len - 1 {
                app.sidebar_sel = app.sidebar_sel + 1;
                clamp_sidebar_scroll(app);
            }
        },
        KeyCode::Enter => activate_sidebar_selection(app),
        KeyCode::Right => activate_sidebar_selection(app),
        KeyCode::Left => {
            if let Some((i, id)) = find_header(&app.sidebar_items, app.sidebar_sel) {
                app.expanded_projects.remove(id.as_str());
                proof {
                    app::lemma_rebuilt(app@);
                }
                app.rebuild_sidebar();
                app.sidebar_sel = i;
            }
        },
        _ => {},
    }
    true
}

/// The last project header before `from`: its place and its project.
fn find_header(items: &Vec<SidebarItem>, from: usize) -> (r: Option<(usize, String)>)
    requires
        from <= items@.len(),
    ensures
        match r {
            Some((i, id)) => header_before(text::views(items@), from as int) == Some((i as int, id@)),
            None => header_before(text::views(items@), from as int) is None,
        },
{
    let mut i: usize = from;
    while i > 0
        invariant
            i <= from <= items@.len(),
            header_before(text::views(items@), from as int) == header_before(
                text::views(items@),
                i as int,
            ),
        decreases i,
    {
        assert(text::views(items@)[i - 1] == items@[i - 1]@);
        if let SidebarItem::ProjectHeader { id, .. } = &items[i - 1] {
            return Some((i - 1, id.clone()));
        }
        i -= 1;
    }
    None
}

/// Bring the selection into view.
pub fn clamp_sidebar_scroll(app: &mut App)
    ensures
        final(app)@ == old(app)@.clamped(),
        final(app)@.input == old(app)@.input,
        final(app)@.input_cursor == old(app)@.input_cursor,
{
    proof {
        reveal(AppView::clamped);
    }
    if app.sidebar_sel < app.sidebar_scroll {
        app.sidebar_scroll = app.sidebar_sel;
    } else if app.sidebar_sel - app.sidebar_scroll >= SIDEBAR_ROWS {
        app.sidebar_scroll = app.sidebar_sel - SIDEBAR_ROWS + 1;
    }
}

/// Act on the selected line.
#[verifier::rlimit(40)]
pub fn activate_sidebar_selection(app: &mut App)
    ensures
        final(app)@ == old(app)@.activated(),
        final(app)@.input == old(app)@.input,
        final(app)@.input_cursor == old(app)@.input_cursor,
{
    proof {
        reveal(AppView::activated);
    }
    if app.sidebar_sel >= app.sidebar_items.len() {
        return ;
    }
    assert(app@.sidebar_items[app.sidebar_sel as int] == app.sidebar_items@[app.sidebar_sel as int]@);
    match &app.sidebar_items[app.sidebar_sel] {
        SidebarItem::ProjectHeader { id, expanded, .. } => {
            let id = id.clone();
            if *expanded {
                app.expanded_projects.remove(id.as_str());
            } else {
                app.expanded_projects.insert(id);
            }
            proof {
                app::lemma_rebuilt(app@);
            }
            app.rebuild_sidebar();
        },
        SidebarItem::Session { id, .. } => {
            let id = id.clone();
            app.actions.push(Action::Open(id));
        },
        SidebarItem::NewSession => {
            app.actions.push(Action::Create);
        },
    }
}

// ── Chat input ─────────────────────────────────────────────────

/// Process a key while the chat has the focus.
#[verifier::rlimit(40)]
pub fn handle_chat(app: &mut App, code: KeyCode, modifiers: KeyModifiers) -> (go_on: bool)
    requires
        old(app)@.cursor_ok(),
    ensures
        final(app)@ == old(app)@.chatted(code, modifiers),
        final(app)@.cursor_ok(),
        go_on,
{
    proof {
        reveal(AppView::chatted);
    }
    match code {
        // Ctrl+↑/↓: scroll the input box by wrapped *visual* rows. The max offset is recomputed
        // each frame, so this stays correct for long soft-wrapped lines, not just `\n` lines.
        KeyCode::Up => {
            if modifiers.control {
                let cur: usize = input_offset(app);
                app.input_scroll = cur.saturating_sub(1);
            } else {
                scroll_up(app, SCROLL_SPEED);
            }
        },
        KeyCode::Down => {
            if modifiers.control {
                let cur: usize = input_offset(app);
                app.input_scroll =
                if cur < app.input_max_scroll {
                    cur + 1
                } else {
                    app.input_max_scroll
                };
            } else {
                scroll_down(app, SCROLL_SPEED);
            }
        },
        KeyCode::PageUp => scroll_up(app, PAGE),
        KeyCode::PageDown => scroll_down(app, PAGE),
        KeyCode::Home => {
            app.at_end = false;
            app.scroll = 9999;
        },
        KeyCode::End => {
            app.at_end = true;
            app.scroll = 0;
        },
        // Left/Right: move the insertion point within the input text. Deliberately not line-bound
        // (unlike Ctrl+W word deletion): moving past a line boundary steps onto the adjacent line,
        // same as most text editors.
        KeyCode::Left => move_left(app),
        KeyCode::Right => move_right(app),
        // Esc: stop an in-flight turn, same as /cancel.
        KeyCode::Esc => {
            if app.chat.running {
                app.actions.push(Action::Cancel);
            }
        },
        // Newline insertion: Enter with any modifier, for terminals that report one.
        KeyCode::Enter => {
            if modifiers.shift || modifiers.alt || modifiers.control {
                type_text(app, "\n", true);
            } else {
                dispatch_command(app);
            }
        },
        KeyCode::Backspace => {
            if modifiers.control {
                erase_word(app);
            } else {
                erase_char(app);
            }
        },
        KeyCode::Char(c) => {
            if c == 'j' && modifiers.is_control() {
                // Ctrl+J is the newline fallback for terminals that report Enter without modifiers.
                type_text(app, "\n", false);
            } else if c == 'w' && modifiers.is_control() {
                erase_word(app);
            } else {
                let mut s = String::new();
                text::push_char(&mut s, c);
                assert(s@ =~= seq![c]);
                type_text(app, s.as_str(), true);
            }
        },
        _ => {},
    }
    true
}

fn type_text(app: &mut App, text: &str, follow: bool)
    requires
        old(app)@.cursor_ok(),
    ensures
        final(app)@ == (if follow {
            old(app)@.typed(text@).bottomed().suggested()
        } else {
            old(app)@.typed(text@).suggested()
        }),
        final(app)@.cursor_ok(),
{
    insert_at_cursor(app, text);
    if follow {
        app.input_scroll = usize::MAX;
    }
    update_autocomplete(app);
}

fn erase_word(app: &mut App)
    requires
        old(app)@.cursor_ok(),
    ensures
        final(app)@ == old(app)@.word_erased().bottomed().suggested(),
        final(app)@.cursor_ok(),
{
    delete_word_backward(app);
    app.input_scroll = usize::MAX;
    update_autocomplete(app);
}

fn erase_char(app: &mut App)
    requires
        old(app)@.cursor_ok(),
    ensures
        final(app)@ == old(app)@.erased().bottomed().suggested(),
        final(app)@.cursor_ok(),
{
    delete_char_backward(app);
    app.input_scroll = usize::MAX;
    update_autocomplete(app);
}

fn input_offset(app: &App) -> (r: usize)
    ensures
        r == app@.input_offset(),
{
    if app.input_scroll == usize::MAX {
        app.input_max_scroll
    } else {
        app.input_scroll
    }
}

/// Open the session of that title, run a command, or send a message.
#[verifier::rlimit(40)]
pub fn dispatch_command(app: &mut App)
    ensures
        final(app)@ == old(app)@.dispatched(),
        old(app)@.cursor_ok() ==> final(app)@.cursor_ok(),
{
    proof {
        reveal(AppView::dispatched);
    }
    let raw = text::trim(app.input.as_str()).to_owned();
    if raw.unicode_len() == 0 {
        return ;
    }
    let hit = session_titled(&app.sidebar_items, raw.as_str());
    app.input = String::new();
    app.input_cursor = 0;
    proof {
        bytes::lemma_end(app@.input);
    }
    app.input_scroll = usize::MAX;
    if let Some(id) = hit {
        app.actions.push(Action::Open(id));
        return ;
    }
    app.autocomplete_suggestions.clear();
    app.autocomplete_idx = None;
    assert(app@.autocomplete_suggestions =~= Seq::empty());
    run_command(app, raw);
}

fn session_titled(items: &Vec<SidebarItem>, title: &str) -> (r: Option<String>)
    ensures
        text::opt_view(r) == titled_from(text::views(items@), title@, 0),
{
    let mut i: usize = 0;
    while i < items.len()
        invariant
            i <= items@.len(),
            titled_from(text::views(items@), title@, 0) == titled_from(
                text::views(items@),
                title@,
                i as int,
            ),
        decreases items@.len() - i,
    {
        assert(text::views(items@)[i as int] == items@[i as int]@);
        if let SidebarItem::Session { title: t, id, .. } = &items[i] {
            if text::same(t.as_str(), title) {
                return Some(id.clone());
            }
        }
        i += 1;
    }
    None
}

#[verifier::rlimit(40)]
fn run_command(app: &mut App, raw: String)
    ensures
        final(app)@ == old(app)@.commanded(raw@),
        final(app)@.input == old(app)@.input,
        final(app)@.input_cursor == old(app)@.input_cursor,
{
    proof {
        reveal(AppView::commanded);
    }
    let cmd = raw.as_str();
    if text::same(cmd, "/exit") || text::same(cmd, "/quit") {
        app.exit_requested = true;
    } else if text::same(cmd, "/help") || text::same(cmd, "/h") {
        show_help(app);
    } else if text::same(cmd, "/new") || text::same(cmd, "/n") {
        app.actions.push(Action::Create);
    } else if text::same(cmd, "/cancel") {
        app.actions.push(Action::Cancel);
    } else if text::same(cmd, "/logout") {
        app.actions.push(Action::Logout);
    } else if text::same(cmd, "/sessions") {
        // Focus *and* refresh, so there is a user-driven way to re-read the list that is not a
        // timer: a turn feed is per session, so nothing else pushes the rest of the sidebar.
        app.focus = Focus::Sidebar;
        app.actions.push(Action::RefreshSessions);
    } else if text::same(cmd, "/login") {
        app.push_sys("authorizing — see the terminal");
        app.login_requested = true;
    } else if text::starts_with(cmd, "/login ") {
        // Every `.env` in the wild still has an API key in it, so say what changed rather than
        // silently ignoring the argument.
        app.push_sys("attacca-cli no longer takes a key here — /login re-authorizes this node");
        app.push_sys("set ZYRIS_NODE_TOKEN for a static token instead");
    } else if text::same(cmd, "/credits") || text::same(cmd, "/me") || text::same(cmd, "/usage") {
        app.actions.push(Action::ShowInfo);
    } else if text::same(cmd, "/whoami") {
        show_identity(app);
    } else if text::same(cmd, "/tools") {
        show_tools(app);
    } else if text::starts_with(cmd, "/") {
        let line = text::cat("unknown command: ", cmd);
        app.push_sys(line.as_str());
    } else {
        // Regular message: echoed optimistically, then settled by its durable event.
        app.chat.push(MsgKind::User, cmd);
        app.actions.push(Action::Send(raw));
    }
}

/// An account as a name and an address.
pub fn identity(me: &ZMe) -> (s: String)
    ensures
        s@ == ident(me@),
{
    text::cat4(me.display_name.as_str(), " <", me.email.as_str(), ">")
}

fn show_identity(app: &mut App)
    ensures
        final(app)@ == (match old(app)@.me {
            Some(me) => old(app)@.told(ident(me)).told(scopes_line(me)),
            None => old(app)@.told("not connected yet"@),
        }),
{
    match &app.me {
        Some(me) => {
            let who = identity(me);
            let scopes = if me.scopes.len() == 0 {
                "none granted".to_owned()
            } else {
                text::join(&me.scopes, ", ")
            };
            let line = text::cat("scopes: ", scopes.as_str());
            app.push_sys(who.as_str());
            app.push_sys(line.as_str());
        },
        None => app.push_sys("not connected yet"),
    }
}

fn push_capability(cap: &Capability, lines: &mut Vec<String>)
    ensures
        text::views(final(lines)@) == text::views(old(lines)@) + capability_lines(cap@),
{
    let version = text::show_u64(cap.version as u64);
    let ghost all = capability_lines(cap@);
    let ghost start = text::views(lines@);
    lines.push(text::cat3(cap.name.as_str(), " v", version.as_str()));
    let mut i: usize = 0;
    assert(text::views(lines@) =~= start + all.take(1));
    while i < cap.tools.len()
        invariant
            i <= cap.tools@.len(),
            all == capability_lines(cap@),
            text::views(lines@) == start + all.take(i + 1),
        decreases cap.tools@.len() - i,
    {
        let tool = &cap.tools[i];
        assert(cap@.tools[i as int] == tool@);
        lines.push(text::cat5("  ", tool.name.as_str(), " (", tool.transfer.as_str(), ")"));
        assert(all[i + 1] == tool_line(tool@));
        assert(all.take(i + 2) =~= all.take(i + 1).push(all[i + 1]));
        assert(text::views(lines@) =~= start + all.take(i + 2));
        i += 1;
    }
    assert(all.take(i + 1) =~= all);
}

/// The lines in which the announced capabilities are listed.
pub fn tool_listing(caps: &Vec<Capability>) -> (lines: Vec<String>)
    ensures
        text::views(lines@) == announced(text::views(caps@)),
{
    let mut lines: Vec<String> = Vec::new();
    let ghost all = text::views(caps@);
    let mut i: usize = 0;
    assert(all.take(0) =~= Seq::empty());
    assert(text::views(lines@) =~= announced(all.take(0)));
    while i < caps.len()
        invariant
            i <= caps@.len(),
            all == text::views(caps@),
            text::views(lines@) == announced(all.take(i as int)),
        decreases caps@.len() - i,
    {
        let ghost next = all.take(i + 1);
        assert(next.drop_last() =~= all.take(i as int));
        assert(next.last() == caps@[i as int]@);
        push_capability(&caps[i], &mut lines);
        i += 1;
    }
    assert(all.take(i as int) =~= all);
    lines
}

fn tell_all(app: &mut App, lines: &Vec<String>)
    ensures
        final(app)@ == old(app)@.told_all(text::views(lines@)),
{
    let ghost all = text::views(lines@);
    let ghost start = app@;
    let mut i: usize = 0;
    assert(all.take(0) =~= Seq::empty());
    while i < lines.len()
        invariant
            i <= lines@.len(),
            all == text::views(lines@),
            app@ == start.told_all(all.take(i as int)),
        decreases lines@.len() - i,
    {
        let ghost next = all.take(i + 1);
        assert(next.drop_last() =~= all.take(i as int));
        assert(next.last() == lines@[i as int]@);
        app.push_sys(lines[i].as_str());
        i += 1;
    }
    assert(all.take(i as int) =~= all);
}

fn show_tools(app: &mut App)
    ensures
        final(app)@ == (match old(app)@.peer {
            Some(caps) => old(app)@.told_all(announced(caps)),
            None => old(app)@.told("not connected yet"@),
        }),
{
    match &app.peer {
        Some(caps) => {
            let lines = tool_listing(caps);
            tell_all(app, &lines);
        },
        None => app.push_sys("not connected yet"),
    }
}

/// List the commands and the keys.
pub fn show_help(app: &mut App)
    ensures
        final(app)@ == old(app)@.told_all(text::views(HELP@)),
{
    let lines = HELP;
    let ghost all = text::views(lines@);
    let ghost start = app@;
    let mut i: usize = 0;
    assert(all.take(0) =~= Seq::empty());
    while i < 21
        invariant
            i <= 21,
            all == text::views(lines@),
            app@ == start.told_all(all.take(i as int)),
        decreases 21 - i,
    {
        let ghost next = all.take(i + 1);
        assert(next.drop_last() =~= all.take(i as int));
        assert(next.last() == lines@[i as int]@);
        app.push_sys(lines[i]);
        i += 1;
    }
    assert(all.take(21) =~= all);
}

// ── Autocomplete ───────────────────────────────────────────────

/// Offer the commands that the input starts.
pub fn update_autocomplete(app: &mut App)
    ensures
        final(app)@ == old(app)@.suggested(),
        final(app)@.input == old(app)@.input,
        final(app)@.input_cursor == old(app)@.input_cursor,
{
    proof {
        reveal(AppView::suggested);
    }
    let mut out: Vec<String> = Vec::new();
    let typed = text::trim(app.input.as_str());
    assert(text::views(out@) =~= Seq::empty());
    if typed.unicode_len() > 1 && typed.get_char(0) == '/' {
        let commands = SLASH_COMMANDS;
        let ghost all = text::views(commands@);
        let mut i: usize = 0;
        assert(all.take(0) =~= Seq::empty());
        while i < 10
            invariant
                i <= 10,
                all == text::views(commands@),
                text::views(out@) == starting_with(all.take(i as int), typed@),
            decreases 10 - i,
        {
            let ghost next = all.take(i + 1);
            assert(next.drop_last() =~= all.take(i as int));
            assert(next.last() == commands@[i as int]@);
            if text::starts_with(commands[i], typed) {
                out.push(commands[i].to_owned());
            }
            i += 1;
        }
        assert(all.take(10) =~= all);
    }
    app.autocomplete_suggestions = out;
    app.autocomplete_idx = None;
}

/// Put the next suggestion into the input.
pub fn cycle_autocomplete(app: &mut App)
    requires
        old(app)@.autocomplete_idx != Some(usize::MAX),
    ensures
        final(app)@ == old(app)@.cycled(),
        old(app)@.cursor_ok() ==> final(app)@.cursor_ok(),
{
    proof {
        reveal(AppView::cycled);
    }
    let n = app.autocomplete_suggestions.len();
    if n == 0 {
        return ;
    }
    let next: usize = match app.autocomplete_idx {
        Some(i) => (i + 1) % n,
        None => 0,
    };
    app.autocomplete_idx = Some(next);
    let mut input = app.autocomplete_suggestions[next].clone();
    text::push_char(&mut input, ' ');
    app.input_cursor = bytes::len(input.as_str());
    proof {
        bytes::lemma_end(input@);
    }
    assert(input@ + Seq::empty() =~= input@);
    app.input = input;
}

// ── Editing ────────────────────────────────────────────────────

/// Insert `text` at the cursor and advance the cursor past it.
pub fn insert_at_cursor(app: &mut App, text: &str)
    requires
        old(app)@.cursor_ok(),
    ensures
        final(app)@ == old(app)@.typed(text@),
        final(app)@.cursor_ok(),
{
    proof {
        reveal(AppView::typed);
    }
    let (left, right) = bytes::split(app.input.as_str(), app.input_cursor);
    let head = text::cat(left, text);
    let all = text::cat(head.as_str(), right);
    app.input_cursor = bytes::len(head.as_str());
    proof {
        bytes::lemma_join(head@, right@);
    }
    app.input = all;
}

/// The char boundary immediately before `i`, scanning left over UTF-8 continuation bytes so it
/// never lands mid-character.
pub fn prev_char_boundary(s: &str, i: usize) -> (r: usize)
    ensures
        i == 0 ==> r == 0,
        i > 0 ==> r < i && bytes::at_boundary(s@, r as int) && forall|j: int|
            r < j < i ==> !bytes::at_boundary(s@, j),
{
    proof {
        bytes::lemma_end(s@);
    }
    if i == 0 {
        return 0;
    }
    let mut j: usize = i - 1;
    while j > 0 && !bytes::boundary(s, j)
        invariant
            j < i,
            bytes::at_boundary(s@, 0),
            forall|k: int| j < k < i ==> !bytes::at_boundary(s@, k),
        decreases j,
    {
        j -= 1;
    }
    j
}

/// The char boundary immediately after `i`, scanning right over UTF-8 continuation bytes so it
/// never lands mid-character.
pub fn next_char_boundary(s: &str, i: usize) -> (r: usize)
    requires
        i < usize::MAX,
    ensures
        i >= bytes::byte_len(s@) ==> r == bytes::byte_len(s@),
        i < bytes::byte_len(s@) ==> i < r && bytes::at_boundary(s@, r as int) && forall|j: int|
            i < j < r ==> !bytes::at_boundary(s@, j),
{
    proof {
        bytes::lemma_end(s@);
    }
    let len: usize = bytes::len(s);
    if i >= len {
        return len;
    }
    let mut j: usize = i + 1;
    while j < len && !bytes::boundary(s, j)
        invariant
            i < j <= len,
            len == bytes::byte_len(s@),
            bytes::at_boundary(s@, len as int),
            forall|k: int| i < k < j ==> !bytes::at_boundary(s@, k),
        decreases len - j,
    {
        j += 1;
    }
    j
}

fn move_left(app: &mut App)
    requires
        old(app)@.cursor_ok(),
    ensures
        final(app)@ == old(app)@.moved_left(),
        final(app)@.cursor_ok(),
{
    proof {
        reveal(AppView::moved_left);
    }
    proof {
        lemma_ends(app@.input, app@.input_cursor as int);
    }
    if app.input_cursor > 0 {
        let prev: usize = prev_char_boundary(app.input.as_str(), app.input_cursor);
        proof {
            lemma_step_left(app@.input, app@.input_cursor as int, prev as int);
        }
        app.input_cursor = prev;
    }
}

fn move_right(app: &mut App)
    requires
        old(app)@.cursor_ok(),
    ensures
        final(app)@ == old(app)@.moved_right(),
        final(app)@.cursor_ok(),
{
    proof {
        reveal(AppView::moved_right);
    }
    proof {
        lemma_ends(app@.input, app@.input_cursor as int);
    }
    if app.input_cursor < bytes::len(app.input.as_str()) {
        let next: usize = next_char_boundary(app.input.as_str(), app.input_cursor);
        proof {
            lemma_step_right(app@.input, app@.input_cursor as int, next as int);
        }
        app.input_cursor = next;
    }
}

/// Delete the character before the cursor.
pub fn delete_char_backward(app: &mut App)
    requires
        old(app)@.cursor_ok(),
    ensures
        final(app)@ == old(app)@.erased(),
        final(app)@.cursor_ok(),
{
    proof {
        reveal(AppView::erased);
    }
    proof {
        lemma_ends(app@.input, app@.input_cursor as int);
    }
    if app.input_cursor > 0 {
        let prev: usize = prev_char_boundary(app.input.as_str(), app.input_cursor);
        proof {
            lemma_step_left(app@.input, app@.input_cursor as int, prev as int);
        }
        let (head, _) = bytes::split(app.input.as_str(), prev);
        let (_, right) = bytes::split(app.input.as_str(), app.input_cursor);
        let all = text::cat(head, right);
        proof {
            bytes::lemma_join(head@, right@);
        }
        app.input = all;
        app.input_cursor = prev;
    }
}

/// Delete one word backward (from the cursor to the previous word boundary). Behaves like bash's
/// Ctrl+W: removes the word and its preceding separator whitespace, then leaves the cursor at that
/// point.
///
/// A newline is a hard boundary, not just another whitespace char: word deletion never crosses into
/// the previous line, and a lone newline right before the cursor is removed on its own (like a
/// plain backspace) rather than being skipped over to reach the word before it.
pub fn delete_word_backward(app: &mut App)
    requires
        old(app)@.cursor_ok(),
    ensures
        final(app)@ == old(app)@.word_erased(),
        final(app)@.cursor_ok(),
{
    proof {
        reveal(AppView::word_erased);
    }
    let (left, right) = bytes::split(app.input.as_str(), app.input_cursor);
    let v = text::chars_of(left);
    if v.len() == 0 {
        return ;
    }
    let mut i: usize = v.len();
    assert(v@.take(i as int) =~= v@);
    if v[i - 1] == '\n' {
        i -= 1;
        assert(v@.take(i as int) =~= v@.drop_last());
    } else {
        // 1. Skip trailing space/tab
        while i > 0 && (v[i - 1] == ' ' || v[i - 1] == '\t')
            invariant
                i <= v@.len(),
                without_blanks(v@.take(i as int)) == without_blanks(v@),
            decreases i,
        {
            assert(v@.take(i as int).drop_last() =~= v@.take(i - 1));
            i -= 1;
        }
        let ghost a = without_blanks(v@);
        assert(a == v@.take(i as int));
        // 2. Skip the word, stopping at whitespace or a line boundary
        while i > 0 && v[i - 1] != ' ' && v[i - 1] != '\t' && v[i - 1] != '\n'
            invariant
                i <= v@.len(),
                without_word(v@.take(i as int)) == without_word(a),
            decreases i,
        {
            assert(v@.take(i as int).drop_last() =~= v@.take(i - 1));
            i -= 1;
        }
        assert(without_word(a) == v@.take(i as int));
        // 3. Skip the space/tab separator before the word too (not a newline)
        if i > 0 && (v[i - 1] == ' ' || v[i - 1] == '\t') {
            assert(v@.take(i as int).drop_last() =~= v@.take(i - 1));
            i -= 1;
        }
    }
    let head = text::string_from(&v, 0, i);
    assert(head@ =~= v@.take(i as int));
    let all = text::cat(head.as_str(), right);
    proof {
        bytes::lemma_join(head@, right@);
    }
    app.input_cursor = bytes::len(head.as_str());
    app.input = all;
}

// ── Boundaries and the characters between them ─────────────────

/// The boundary before a boundary is one character back.
proof fn lemma_step_left(s: Seq<char>, i: int, r: int)
    requires
        bytes::at_boundary(s, i),
        bytes::at_boundary(s, r),
        r < i,
        forall|j: int| r < j < i ==> !bytes::at_boundary(s, j),
    ensures
        bytes::before(s, i).len() > 0,
        r == bytes::byte_len(bytes::before(s, i).drop_last()),
        bytes::before(s, r) == bytes::before(s, i).drop_last(),
{
    bytes::lemma_split(s, i);
    bytes::lemma_split(s, r);
    let n = bytes::chars_before(s, i) as int;
    let m = bytes::chars_before(s, r) as int;
    if m >= n {
        bytes::lemma_byte_len_take(s, n, m);
    }
    bytes::lemma_chars_before(s, n - 1);
    bytes::lemma_byte_len_take(s, m, n - 1);
    bytes::lemma_byte_len_take(s, n - 1, n);
    assert(bytes::before(s, i).drop_last() =~= s.take(n - 1));
}

/// The boundary after a boundary is one character on.
proof fn lemma_step_right(s: Seq<char>, i: int, r: int)
    requires
        bytes::at_boundary(s, i),
        bytes::at_boundary(s, r),
        i < r,
        forall|j: int| i < j < r ==> !bytes::at_boundary(s, j),
    ensures
        bytes::after(s, i).len() > 0,
        r == bytes::byte_len(bytes::before(s, i).push(bytes::after(s, i)[0])),
{
    bytes::lemma_split(s, i);
    bytes::lemma_split(s, r);
    let n = bytes::chars_before(s, i) as int;
    let m = bytes::chars_before(s, r) as int;
    if m <= n {
        bytes::lemma_byte_len_take(s, m, n);
    }
    bytes::lemma_chars_before(s, n + 1);
    bytes::lemma_byte_len_take(s, n, n + 1);
    bytes::lemma_byte_len_take(s, n + 1, m);
    assert(bytes::before(s, i).push(bytes::after(s, i)[0]) =~= s.take(n + 1));
}

/// The ends of a text, as boundaries.
proof fn lemma_ends(s: Seq<char>, i: int)
    requires
        bytes::at_boundary(s, i),
    ensures
        0 <= i <= bytes::byte_len(s),
        i == 0 <==> bytes::before(s, i).len() == 0,
        i == bytes::byte_len(s) <==> bytes::after(s, i).len() == 0,
{
    bytes::lemma_split(s, i);
    let n = bytes::chars_before(s, i) as int;
    assert(s.take(s.len() as int) =~= s);
    bytes::lemma_byte_len_take(s, 0, n);
    bytes::lemma_byte_len_take(s, n, s.len() as int);
    assert(bytes::byte_len(s.take(0)) == 0);
}

} // verus!
