//! What every operation keeps.
//!
//! A state is sound when its parts fit together: the insertion point falls between two characters,
//! the sidebar shows what the session list amounts to with one of its lines selected, the info bar
//! names the open session's project, and the popup's choice is one of its lines. A program starts
//! in such a state, and neither a background event nor an action, a key, the mouse, a re-login or a
//! draw ever leaves one.

use crate::app;
use crate::app::{ActionView, AppView, BgView, Focus, ItemView, RowView};
use crate::app_laws;
use crate::brief::BriefView;
use crate::bytes;
use crate::chat;
use crate::chat::TranscriptView;
use crate::event::{KeyKind, TermEvent};
use crate::handler;
use crate::handler::{KeyCode, KeyModifiers, MouseButton, MouseEventKind};
use crate::handler_laws;
use crate::screen::Rect;
use crate::text;
use crate::ui;
use crate::wire::{FrameView, ProjectView};
use vstd::prelude::*;

verus! {

impl AppView {
    /// The popup offers commands, and its choice is one of them.
    pub open spec fn popup_ok(self) -> bool {
        &&& self.autocomplete_suggestions.len() <= handler::SLASH_COMMANDS@.len()
        &&& self.autocomplete_idx matches Some(i) ==> i < self.autocomplete_suggestions.len()
    }

    /// The parts of the state fit together.
    pub open spec fn sound(self) -> bool {
        &&& self.cursor_ok()
        &&& self.in_sync()
        &&& self.labelled()
        &&& self.popup_ok()
        &&& self.project_order.no_duplicates()
    }

    /// The parts of the state that the sidebar does not show fit together.
    pub open spec fn nearly_sound(self) -> bool {
        &&& self.cursor_ok()
        &&& self.labelled()
        &&& self.popup_ok()
        &&& self.project_order.no_duplicates()
    }

    /// The session list and the projects fit a machine word, line by line.
    pub open spec fn small(self) -> bool {
        self.project_order.len() + 2 * self.sessions.len() < usize::MAX
    }

    /// Whatever a sound state rests on is the same in `b`.
    pub open spec fn rests_as(self, b: AppView) -> bool {
        &&& self.input == b.input
        &&& self.input_cursor == b.input_cursor
        &&& self.autocomplete_suggestions == b.autocomplete_suggestions
        &&& self.autocomplete_idx == b.autocomplete_idx
        &&& self.beside_as(b)
    }

    /// The sidebar, and whatever it shows, is the same in `b`.
    pub open spec fn beside_as(self, b: AppView) -> bool {
        &&& self.sidebar_items == b.sidebar_items
        &&& self.sidebar_sel == b.sidebar_sel
        &&& self.sidebar_scroll == b.sidebar_scroll
        &&& self.same_list(b)
    }

    /// What the sidebar and the info bar show is the same in `b`.
    pub open spec fn same_list(self, b: AppView) -> bool {
        &&& self.sessions == b.sessions
        &&& self.project_order == b.project_order
        &&& self.project_names == b.project_names
        &&& self.expanded_projects == b.expanded_projects
        &&& self.sid == b.sid
        &&& self.current_project_name == b.current_project_name
    }
}

// ── How long the sidebar is ────────────────────────────────────

/// How many rows belong to the projects of an order, taken together.
spec fn row_count(rows: Seq<RowView>, order: Seq<Seq<char>>) -> nat
    decreases order.len(),
{
    if order.len() == 0 {
        0
    } else {
        row_count(rows, order.drop_last()) + app::rows_in(rows, order.last()).len()
    }
}

proof fn lemma_one_more_row(rows: Seq<RowView>, order: Seq<Seq<char>>)
    requires
        rows.len() > 0,
        order.no_duplicates(),
    ensures
        row_count(rows, order) <= row_count(rows.drop_last(), order) + 1,
        !order.contains(rows.last().project_id) ==> row_count(rows, order) == row_count(
            rows.drop_last(),
            order,
        ),
    decreases order.len(),
{
    if order.len() > 0 {
        let rest = order.drop_last();
        assert(rest.no_duplicates());
        lemma_one_more_row(rows, rest);
        if order.last() == rows.last().project_id {
            assert(!rest.contains(rows.last().project_id)) by {
                if rest.contains(rows.last().project_id) {
                    let i = choose|i: int| 0 <= i < rest.len() && rest[i] == rows.last().project_id;
                    assert(order[i] == order[order.len() - 1]);
                }
            }
        }
        if !order.contains(rows.last().project_id) {
            assert(order[order.len() - 1] == order.last());
            assert(!rest.contains(rows.last().project_id)) by {
                if rest.contains(rows.last().project_id) {
                    let i = choose|i: int| 0 <= i < rest.len() && rest[i] == rows.last().project_id;
                    assert(order[i] == rest[i]);
                }
            }
        }
    }
}

proof fn lemma_row_count(rows: Seq<RowView>, order: Seq<Seq<char>>)
    requires
        order.no_duplicates(),
    ensures
        row_count(rows, order) <= rows.len(),
    decreases rows.len(),
{
    if rows.len() > 0 {
        lemma_row_count(rows.drop_last(), order);
        lemma_one_more_row(rows, order);
    } else {
        lemma_no_rows(rows, order);
    }
}

proof fn lemma_no_rows(rows: Seq<RowView>, order: Seq<Seq<char>>)
    requires
        rows.len() == 0,
    ensures
        row_count(rows, order) == 0,
    decreases order.len(),
{
    if order.len() > 0 {
        lemma_no_rows(rows, order.drop_last());
    }
}

proof fn lemma_sections_len(a: AppView, order: Seq<Seq<char>>)
    ensures
        a.sections(order).len() <= order.len() + row_count(a.sessions, order),
    decreases order.len(),
{
    if order.len() > 0 {
        lemma_sections_len(a, order.drop_last());
    }
}

proof fn lemma_order_len(order: Seq<Seq<char>>, rows: Seq<RowView>)
    ensures
        app::order_with(order, rows).len() <= order.len() + rows.len(),
    decreases rows.len(),
{
    if rows.len() > 0 {
        lemma_order_len(order, rows.drop_last());
    }
}

/// A sidebar has a line for each project, one for each session at most, and one more.
pub proof fn law_the_sidebar_is_no_longer_than_the_list(a: AppView)
    requires
        a.project_order.no_duplicates(),
    ensures
        a.sidebar().len() <= a.project_order.len() + 2 * a.sessions.len() + 1,
{
    let order = app::order_with(a.project_order, a.sessions);
    app_laws::law_no_project_is_listed_twice(a.project_order, a.sessions);
    lemma_order_len(a.project_order, a.sessions);
    lemma_row_count(a.sessions, order);
    lemma_sections_len(a, order);
}

// ── Keeping a state sound ──────────────────────────────────────

proof fn lemma_rests(a: AppView, b: AppView)
    requires
        a.sound(),
        a.rests_as(b),
    ensures
        b.sound(),
{
    app_laws::lemma_same_sidebar(a, b);
}

proof fn lemma_nearly(a: AppView, b: AppView)
    requires
        a.nearly_sound(),
        a.input == b.input,
        a.input_cursor == b.input_cursor,
        a.autocomplete_suggestions == b.autocomplete_suggestions,
        a.autocomplete_idx == b.autocomplete_idx,
        a.project_order == b.project_order,
        b.labelled(),
    ensures
        b.nearly_sound(),
{
}

proof fn lemma_rebuilding(b: AppView)
    requires
        b.nearly_sound(),
        b.small(),
    ensures
        b.rebuilt().sound(),
        b.rebuilt().same_list(b),
        b.rebuilt().small(),
        b.rebuilt().chat == b.chat,
{
    reveal(AppView::rebuilt);
    law_the_sidebar_is_no_longer_than_the_list(b);
    app_laws::law_rebuilding_the_sidebar_settles_it(b);
}

proof fn lemma_same_rows(r: Seq<RowView>, t: Seq<RowView>, id: Seq<char>, i: int)
    requires
        r.len() == t.len(),
        forall|k: int|
            0 <= k < r.len() ==> (#[trigger] r[k]).id == t[k].id && r[k].project_id
                == t[k].project_id,
        0 <= i,
    ensures
        app::row_from(r, id, i) is Some <==> app::row_from(t, id, i) is Some,
        app::row_from(r, id, i) matches Some(row) ==> row.project_id == (app::row_from(
            t,
            id,
            i,
        )->0).project_id,
    decreases r.len() - i,
{
    if i < r.len() {
        assert(r[i].id == t[i].id);
        lemma_same_rows(r, t, id, i + 1);
    }
}

proof fn lemma_row_synced(a: AppView)
    requires
        a.sound(),
        a.small(),
    ensures
        a.row_synced().sound(),
        a.row_synced().small(),
{
    reveal(AppView::row_synced);
    if let Some(sid) = a.sid {
        let rows = app::rows_running(a.sessions, sid, a.chat.running);
        let b = AppView { sessions: rows, ..a };
        lemma_same_rows(a.sessions, rows, sid, 0);
        lemma_nearly(a, b);
        lemma_rebuilding(b);
    }
}

proof fn lemma_retitled(a: AppView, title: Seq<char>)
    requires
        a.sound(),
        a.small(),
    ensures
        a.retitled(title).sound(),
        a.retitled(title).small(),
{
    reveal(AppView::retitled);
    if let Some(sid) = a.sid {
        let rows = app::rows_titled(a.sessions, sid, chat::shown_title(Some(title)));
        let b = AppView { sessions: rows, ..a };
        lemma_same_rows(a.sessions, rows, sid, 0);
        lemma_nearly(a, b);
        lemma_rebuilding(b);
    }
}

proof fn lemma_attached(a: AppView, sid: Seq<char>)
    requires
        a.nearly_sound(),
        a.small(),
    ensures
        a.attached(sid).sound(),
        a.attached(sid).small(),
{
    reveal(AppView::attached);
    let f = a.feedless();
    let b = AppView {
        sid: Some(sid),
        chat: TranscriptView { cur: 0, ..f.chat },
        ..f
    }.project_synced();
    lemma_nearly(a, b);
    lemma_rebuilding(b);
}

proof fn lemma_following(a: AppView, sid: Seq<char>)
    requires
        a.nearly_sound(),
        a.small(),
    ensures
        a.following(sid).sound(),
        a.following(sid).small(),
{
    reveal(AppView::following);
    lemma_attached(a, sid);
    lemma_rests(a.attached(sid), a.following(sid));
}

/// The ids of projects.
pub open spec fn project_ids(projects: Seq<ProjectView>) -> Seq<Seq<char>> {
    Seq::new(projects.len(), |i: int| projects[i].id)
}

proof fn lemma_with_projects(a: AppView, projects: Seq<ProjectView>)
    ensures
        a.with_projects(projects).project_order == a.project_order + project_ids(projects),
        a.with_projects(projects) == (AppView {
            project_order: a.with_projects(projects).project_order,
            project_names: a.with_projects(projects).project_names,
            expanded_projects: a.with_projects(projects).expanded_projects,
            ..a
        }),
    decreases projects.len(),
{
    if projects.len() > 0 {
        lemma_with_projects(a, projects.drop_last());
        assert(a.project_order + project_ids(projects) =~= (a.project_order + project_ids(
            projects.drop_last(),
        )).push(projects.last().id));
    } else {
        assert(a.project_order + project_ids(projects) =~= a.project_order);
    }
}

proof fn lemma_projects_listed(a: AppView, projects: Seq<ProjectView>)
    requires
        a.sound(),
        project_ids(projects).no_duplicates(),
        projects.len() + 2 * a.sessions.len() < usize::MAX,
    ensures
        a.projects_listed(projects).sound(),
{
    reveal(AppView::projects_listed);
    let base = AppView { project_order: Seq::empty(), project_names: Seq::empty(), ..a };
    lemma_with_projects(base, projects);
    assert(base.project_order + project_ids(projects) =~= project_ids(projects));
    lemma_rebuilding(base.with_projects(projects).project_synced());
}

proof fn lemma_framed(a: AppView, frame: FrameView)
    requires
        a.sound(),
        a.small(),
    ensures
        a.framed(frame).sound(),
{
    reveal(AppView::framed);
    reveal(AppView::reduced);
    reveal(AppView::asking_again);
    let c = AppView { chat: a.chat.framed(frame, a.debug_events), ..a };
    lemma_rests(a, c);
    if let Some(title) = chat::frame_title(frame) {
        lemma_retitled(c, title);
    }
    let b = a.reduced(frame);
    lemma_row_synced(b);
    lemma_rests(b.row_synced(), b.row_synced().asking_again());
}

// ── The laws ───────────────────────────────────────────────────

/// A program starts in a sound state: greeted, and with a sidebar.
pub proof fn law_the_program_starts_sound(
    node_brief: BriefView,
    debug_events: bool,
    hide_reasoning: bool,
    greeting: Seq<char>,
)
    ensures
        AppView::fresh(node_brief, debug_events, hide_reasoning).told(greeting).rebuilt().sound(),
{
    let a = AppView::fresh(node_brief, debug_events, hide_reasoning).told(greeting);
    assert(bytes::byte_len(a.input.take(0)) == 0);
    lemma_rebuilding(a);
}

/// A background event leaves a sound state sound, where a list of projects names none twice.
pub proof fn law_background_events_keep_the_state_sound(a: AppView, ev: BgView)
    requires
        a.sound(),
        a.small(),
        ev matches BgView::Projects(projects) ==> project_ids(projects).no_duplicates()
            && projects.len() + 2 * a.sessions.len() < usize::MAX,
        ev matches BgView::Sessions(sessions) ==> a.project_order.len() + 2 * sessions.len()
            < usize::MAX,
        ev is SessionCreated ==> a.project_order.len() + 2 * (a.sessions.len() + 1) < usize::MAX,
    ensures
        a.notified(ev).sound(),
{
    match ev {
        BgView::Connected(me) => {
            reveal(AppView::met);
            lemma_rests(a, a.notified(ev));
        },
        BgView::Projects(projects) => lemma_projects_listed(a, projects),
        BgView::Sessions(sessions) => {
            reveal(AppView::listing);
            let b = AppView { sessions: app::rows_of(sessions), ..a }.project_synced();
            lemma_nearly(a, b);
            lemma_rebuilding(b);
            lemma_row_synced(b.rebuilt());
        },
        BgView::SessionCreated(session) => {
            reveal(AppView::with_session);
            let t = a.told("new session "@ + text::prefix(session.id, 8));
            let b = AppView {
                sessions: seq![app::row_of(session)] + t.sessions,
                ..t
            }.project_synced();
            lemma_nearly(a, b);
            lemma_rebuilding(b);
            lemma_following(b.rebuilt(), session.id);
        },
        BgView::StreamHead { session_id, running } => {
            if a.sid == Some(session_id) {
                let b = AppView { chat: TranscriptView { running, ..a.chat }, ..a };
                lemma_rests(a, b);
                lemma_row_synced(b);
            }
        },
        BgView::Frame { session_id, frame } => {
            if a.sid == Some(session_id) {
                lemma_framed(a, frame);
            }
        },
        BgView::Usage(usage) => {
            reveal(AppView::with_usage);
            lemma_rests(a, a.notified(ev));
        },
        BgView::NodeStopped { message, needs_operator } => {
            reveal(AppView::halted);
            lemma_rests(a, a.notified(ev));
        },
        _ => lemma_rests(a, a.notified(ev)),
    }
}

/// Acting on what was queued leaves a sound state sound.
pub proof fn law_actions_keep_the_state_sound(
    a: AppView,
    action: ActionView,
    project_ref: Seq<char>,
    agent_ref: Seq<char>,
)
    requires
        a.sound(),
        a.small(),
    ensures
        a.acted(action, project_ref, agent_ref).sound(),
{
    reveal(AppView::acted);
    reveal(AppView::diagnosed);
    let b = a.acted(action, project_ref, agent_ref);
    match action {
        ActionView::Open(sid) => {
            reveal(AppView::cleared_for);
            lemma_following(a.cleared_for(sid), sid);
            lemma_rests(a.cleared_for(sid).following(sid), b);
        },
        ActionView::Create => {
            reveal(AppView::closed);
            let c = AppView {
                sid: None,
                chat: TranscriptView::empty(),
                scroll: 0,
                at_end: true,
                ..a.feedless()
            }.told("creating session…"@).project_synced();
            lemma_nearly(a, c);
            lemma_rebuilding(c);
            lemma_rests(a.closed(), b);
        },
        ActionView::ShowInfo => {
            reveal(AppView::account_shown);
            lemma_rests(a, b);
        },
        _ => lemma_rests(a, b),
    }
}

/// A re-login leaves a sound state sound, however it ended.
pub proof fn law_a_relogin_keeps_the_state_sound(
    a: AppView,
    outcome: Result<Seq<char>, Seq<char>>,
)
    requires
        a.sound(),
    ensures
        a.relogged(outcome).sound(),
{
    lemma_rests(a, a.relogged(outcome));
}

/// Drawing leaves a sound state sound, and a sound state can be drawn wherever its scroll offset
/// can be counted.
pub proof fn law_drawing_keeps_the_state_sound(a: AppView, area: Rect)
    requires
        a.sound(),
    ensures
        ui::drawn(a, area).sound(),
        area.on_screen() && (a.at_end || a.scroll + area.height <= usize::MAX) ==> a.drawable(area),
{
    lemma_rests(a, ui::drawn(a, area));
}

// ── Input ──────────────────────────────────────────────────────

proof fn lemma_edited(a: AppView, b: AppView)
    requires
        a.sound(),
        a.beside_as(b),
        b.cursor_ok(),
        b.popup_ok(),
    ensures
        b.sound(),
{
    app_laws::lemma_same_sidebar(a, b);
}

proof fn lemma_offered(commands: Seq<Seq<char>>, typed: Seq<char>)
    ensures
        handler::starting_with(commands, typed).len() <= commands.len(),
    decreases commands.len(),
{
    if commands.len() > 0 {
        lemma_offered(commands.drop_last(), typed);
    }
}

proof fn lemma_suggested(a: AppView)
    ensures
        a.suggested().popup_ok(),
{
    reveal(AppView::suggested);
    lemma_offered(text::views(handler::SLASH_COMMANDS@), text::trimmed(a.input));
}

proof fn lemma_commanded(a: AppView, raw: Seq<char>)
    ensures
        a.rests_as(a.commanded(raw)),
{
    reveal(AppView::commanded);
}

proof fn lemma_dispatched(a: AppView)
    requires
        a.sound(),
    ensures
        a.dispatched().sound(),
{
    reveal(AppView::dispatched);
    let raw = text::trimmed(a.input);
    let e = a.emptied();
    assert(bytes::byte_len(e.input.take(0)) == 0);
    let c = AppView { autocomplete_suggestions: Seq::empty(), autocomplete_idx: None, ..e };
    lemma_commanded(c, raw);
    if raw.len() > 0 {
        lemma_edited(a, a.dispatched());
    }
}

proof fn lemma_suggesting(a: AppView, b: AppView)
    requires
        a.sound(),
        a.beside_as(b),
        b.suggested().cursor_ok(),
    ensures
        b.suggested().sound(),
{
    lemma_suggested(b);
    reveal(AppView::suggested);
    lemma_edited(a, b.suggested());
}

proof fn lemma_beside(a: AppView, text: Seq<char>)
    ensures
        a.beside_as(a.typed(text)),
        a.beside_as(a.erased()),
        a.beside_as(a.word_erased()),
        a.beside_as(a.moved_left()),
        a.beside_as(a.moved_right()),
        a.moved_left().popup_ok() == a.popup_ok(),
        a.moved_right().popup_ok() == a.popup_ok(),
{
    reveal(AppView::typed);
    reveal(AppView::erased);
    reveal(AppView::word_erased);
    reveal(AppView::moved_left);
    reveal(AppView::moved_right);
}

proof fn lemma_chatted(a: AppView, code: KeyCode, m: KeyModifiers)
    requires
        a.sound(),
        a.chatted(code, m).cursor_ok(),
    ensures
        a.chatted(code, m).sound(),
{
    reveal(AppView::chatted);
    let b = a.chatted(code, m);
    match code {
        KeyCode::Enter => {
            if m.shift || m.alt || m.control {
                lemma_beside(a, "\n"@);
                lemma_suggesting(a, a.typed("\n"@).bottomed());
            } else {
                lemma_dispatched(a);
            }
        },
        KeyCode::Backspace => {
            lemma_beside(a, Seq::empty());
            if m.control {
                lemma_suggesting(a, a.word_erased().bottomed());
            } else {
                lemma_suggesting(a, a.erased().bottomed());
            }
        },
        KeyCode::Char(c) => {
            if c == 'j' && m.just_control() {
                lemma_beside(a, "\n"@);
                lemma_suggesting(a, a.typed("\n"@));
            } else if c == 'w' && m.just_control() {
                lemma_beside(a, Seq::empty());
                lemma_suggesting(a, a.word_erased().bottomed());
            } else {
                lemma_beside(a, seq![c]);
                lemma_suggesting(a, a.typed(seq![c]).bottomed());
            }
        },
        KeyCode::Left | KeyCode::Right => {
            lemma_beside(a, Seq::empty());
            lemma_edited(a, b);
        },
        _ => lemma_rests(a, b),
    }
}

proof fn lemma_activated(a: AppView)
    requires
        a.sound(),
        a.small(),
    ensures
        a.activated().sound(),
{
    reveal(AppView::activated);
    match a.sidebar_items[a.sidebar_sel as int] {
        ItemView::ProjectHeader { id, expanded, .. } => {
            let b = AppView {
                expanded_projects: if expanded {
                    a.expanded_projects.remove(id)
                } else {
                    a.expanded_projects.insert(id)
                },
                ..a
            };
            lemma_nearly(a, b);
            lemma_rebuilding(b);
        },
        _ => lemma_rests(a, a.activated()),
    }
}

proof fn lemma_steered(a: AppView, code: KeyCode)
    requires
        a.sound(),
        a.small(),
    ensures
        a.steered(code).sound(),
{
    let b = a.steered(code);
    match code {
        KeyCode::Up | KeyCode::Down => {
            reveal(AppView::steered);
            reveal(AppView::clamped);
            app_laws::lemma_same_sidebar(a, b);
        },
        KeyCode::Enter | KeyCode::Right => {
            reveal(AppView::steered);
            lemma_activated(a);
        },
        KeyCode::Left => {
            reveal(AppView::steered);
            match handler::header_before(a.sidebar_items, a.sidebar_sel as int) {
                Some((_, id)) => {
                    let c = AppView { expanded_projects: a.expanded_projects.remove(id), ..a };
                    lemma_nearly(a, c);
                    lemma_rebuilding(c);
                    app_laws::lemma_same_sidebar(c, b);
                    law_the_sidebar_is_no_longer_than_the_list(c);
                    handler_laws::law_left_selects_the_collapsed_project(a);
                },
                None => {},
            }
        },
        _ => {
            reveal(AppView::steered);
        },
    }
}

/// A key leaves a sound state sound, wherever the insertion point can be counted, which
/// [`handle_key`](handler::handle_key) sees to.
pub proof fn law_keys_keep_the_state_sound(a: AppView, code: KeyCode, m: KeyModifiers)
    requires
        a.sound(),
        a.small(),
        a.keyed(code, m).cursor_ok(),
    ensures
        a.keys_ok(),
        a.keyed(code, m).sound(),
{
    let b = a.keyed(code, m);
    if code == KeyCode::Tab {
        reveal(AppView::cycled);
        lemma_edited(a, b);
    } else if code == KeyCode::Char('/') {
        let f = AppView { focus: Focus::Chat, ..a };
        lemma_rests(a, f);
        lemma_chatted(f, code, m);
    } else if a.focus == Focus::Sidebar {
        lemma_steered(a, code);
    } else {
        lemma_chatted(a, code, m);
    }
}

/// The mouse leaves a sound state sound.
pub proof fn law_the_mouse_keeps_the_state_sound(
    a: AppView,
    column: u16,
    row: u16,
    kind: MouseEventKind,
)
    requires
        a.sound(),
        a.small(),
    ensures
        a.mouse_ok(column, kind),
        a.moused(column, row, kind).sound(),
{
    let b = a.moused(column, row, kind);
    match kind {
        MouseEventKind::Down(MouseButton::Left) => {
            reveal(AppView::clicked);
            let f = AppView { focus: Focus::Sidebar, ..a };
            let line: int = if row < 2 {
                0
            } else {
                row - 2
            };
            if column < handler::SIDEBAR_COLUMNS && line + a.sidebar_scroll < a.sidebar_items.len() {
                let g = AppView { sidebar_sel: (line + a.sidebar_scroll) as usize, ..f };
                law_the_sidebar_is_no_longer_than_the_list(a);
                app_laws::lemma_same_sidebar(a, g);
                lemma_activated(g);
            } else {
                lemma_rests(a, b);
            }
        },
        MouseEventKind::ScrollDown | MouseEventKind::ScrollUp => {
            handler_laws::law_the_wheel_keeps_a_line_selected(a, column, row, kind);
            reveal(AppView::list_down);
            reveal(AppView::list_up);
        },
        _ => {},
    }
}

/// What the terminal reports leaves a sound state sound, and a sound state can take whatever the
/// terminal reports.
pub proof fn law_input_keeps_the_state_sound(a: AppView, ev: TermEvent)
    requires
        a.sound(),
        a.small(),
        a.consumed(ev).cursor_ok(),
    ensures
        a.input_ok(ev),
        a.consumed(ev).sound(),
{
    match ev {
        TermEvent::Key { code, modifiers, kind } => {
            assert(a.keys_ok());
            if code == KeyCode::Char('c') && modifiers.control {
                lemma_rests(a, a.consumed(ev));
            } else if kind != KeyKind::Release {
                law_keys_keep_the_state_sound(a, code, modifiers);
            }
        },
        TermEvent::Mouse { column, row, kind } => {
            law_the_mouse_keeps_the_state_sound(a, column, row, kind);
        },
        _ => lemma_rests(a, a.consumed(ev)),
    }
}

/// A paste leaves a sound state sound.
pub proof fn law_a_paste_keeps_the_state_sound(a: AppView, pasted: Seq<char>)
    requires
        a.sound(),
        a.pasted(pasted).cursor_ok(),
    ensures
        a.pasted(pasted).sound(),
{
    let b = a.pasted(pasted);
    if a.focus == Focus::Chat {
        lemma_suggested(a.typed(pasted).bottomed());
        reveal(AppView::typed);
        reveal(AppView::suggested);
        lemma_edited(a, b);
    }
}

} // verus!
