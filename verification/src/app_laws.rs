//! What holds of the application state.

use crate::app;
use crate::app::{AppView, EffectView, ItemView, RowView};
use crate::chat::{MsgKind, TranscriptView};
use crate::refs;
use crate::refs::ChoiceView;
use crate::text;
use crate::wire::{SessionView, UsageView};
use vstd::prelude::*;

verus! {

impl AppView {
    /// The sidebar shows what the session list, the projects and what is expanded amount to, the
    /// selection is one of its lines, and the scroll offset leaves a line to show.
    pub open spec fn in_sync(self) -> bool {
        &&& self.sidebar_items == self.sidebar()
        &&& self.sidebar_sel < self.sidebar_items.len()
        &&& self.sidebar_scroll < self.sidebar_items.len()
    }

    /// The info bar names the open session's project.
    pub open spec fn labelled(self) -> bool {
        self.current_project_name == self.open_project()
    }

    /// The sidebar fits a machine word.
    pub open spec fn sidebar_fits(self) -> bool {
        self.sidebar().len() <= usize::MAX
    }
}

/// A row as the feed knows it: the open session's row says whether a turn is running.
pub open spec fn followed(a: AppView, row: RowView) -> RowView {
    if a.sid == Some(row.id) {
        RowView { running: a.chat.running, ..row }
    } else {
        row
    }
}

// ── Requests in flight ─────────────────────────────────────────

/// A request that starts and finishes leaves the count as it was, and one that is in flight shows.
pub proof fn law_a_finished_request_balances_its_start(a: AppView)
    requires
        a.busy_count < u32::MAX,
    ensures
        a.busier().calmer() == a,
        a.busier().busy_count > 0,
{
}

// ── The sidebar ────────────────────────────────────────────────

/// Rebuilding the sidebar brings it in line with the state, changes nothing else, and doing it
/// again changes nothing.
pub proof fn law_rebuilding_the_sidebar_settles_it(a: AppView)
    requires
        a.sidebar_fits(),
    ensures
        a.rebuilt().in_sync(),
        a.rebuilt().rebuilt() == a.rebuilt(),
        a.rebuilt() == (AppView {
            sidebar_items: a.rebuilt().sidebar_items,
            sidebar_sel: a.rebuilt().sidebar_sel,
            sidebar_scroll: a.rebuilt().sidebar_scroll,
            ..a
        }),
{
    reveal(AppView::rebuilt);
    lemma_same_sidebar(a, a.rebuilt());
}

/// The sidebar depends on the session list, the projects, what is expanded and what is open, and on
/// nothing else.
pub proof fn lemma_same_sidebar(a: AppView, b: AppView)
    requires
        a.sessions == b.sessions,
        a.project_order == b.project_order,
        a.project_names == b.project_names,
        a.expanded_projects == b.expanded_projects,
        a.sid == b.sid,
    ensures
        a.sidebar() == b.sidebar(),
{
    lemma_same_sections(a, b, app::order_with(a.project_order, a.sessions));
}

proof fn lemma_same_sections(a: AppView, b: AppView, order: Seq<Seq<char>>)
    requires
        a.sessions == b.sessions,
        a.project_names == b.project_names,
        a.expanded_projects == b.expanded_projects,
        a.sid == b.sid,
    ensures
        a.sections(order) == b.sections(order),
    decreases order.len(),
{
    if order.len() > 0 {
        lemma_same_sections(a, b, order.drop_last());
    }
}

/// The sidebar is never empty: its last line offers a new session, and no other line does.
pub proof fn law_the_last_line_offers_a_new_session(a: AppView)
    ensures
        a.sidebar().len() > 0,
        a.sidebar().last() == ItemView::NewSession,
        forall|i: int|
            0 <= i < a.sidebar().len() - 1 ==> #[trigger] a.sidebar()[i] != ItemView::NewSession,
{
    let order = app::order_with(a.project_order, a.sessions);
    lemma_no_new_session(a, order);
    assert forall|i: int| 0 <= i < a.sidebar().len() - 1 implies #[trigger] a.sidebar()[i]
        != ItemView::NewSession by {
        assert(a.sidebar()[i] == a.sections(order)[i]);
    }
}

proof fn lemma_no_new_session(a: AppView, order: Seq<Seq<char>>)
    ensures
        forall|i: int|
            0 <= i < a.sections(order).len() ==> #[trigger] a.sections(order)[i]
                != ItemView::NewSession,
    decreases order.len(),
{
    if order.len() > 0 {
        lemma_no_new_session(a, order.drop_last());
    }
}

/// Every session of the list has a header to be found under, and that header says how many sessions
/// its project has.
pub proof fn law_every_session_has_a_header(a: AppView, k: int)
    requires
        0 <= k < a.sessions.len(),
    ensures
        exists|i: int|
            0 <= i < a.sidebar().len() && #[trigger] a.sidebar()[i] == (ItemView::ProjectHeader {
                id: a.sessions[k].project_id,
                name: app::project_label(a.project_names, a.sessions[k].project_id),
                expanded: a.expanded_projects.contains(a.sessions[k].project_id),
                session_count: app::rows_in(a.sessions, a.sessions[k].project_id).len(),
            }),
{
    let pid = a.sessions[k].project_id;
    let order = app::order_with(a.project_order, a.sessions);
    lemma_order_has(a.project_order, a.sessions, k);
    lemma_rows_in(a.sessions, pid);
    let j = choose|j: int| 0 <= j < order.len() && order[j] == pid;
    lemma_section_inside(a, order, j);
    let i = choose|i: int|
        0 <= i < a.sections(order).len() && #[trigger] a.sections(order)[i] == a.section(pid)[0];
    assert(a.sidebar()[i] == a.sections(order)[i]);
}

proof fn lemma_order_has(order: Seq<Seq<char>>, rows: Seq<RowView>, k: int)
    requires
        0 <= k < rows.len(),
    ensures
        app::order_with(order, rows).contains(rows[k].project_id),
    decreases rows.len(),
{
    let before = app::order_with(order, rows.drop_last());
    let all = app::order_with(order, rows);
    let pid = rows[k].project_id;
    if k < rows.len() - 1 {
        lemma_order_has(order, rows.drop_last(), k);
        assert(rows.drop_last()[k] == rows[k]);
        let j = choose|j: int| 0 <= j < before.len() && before[j] == pid;
        assert(all[j] == pid);
    } else if !before.contains(pid) {
        assert(all[before.len() as int] == pid);
    }
}

/// The rows of a project are those of the list that name it, in the order of the list.
proof fn lemma_rows_in(rows: Seq<RowView>, pid: Seq<char>)
    ensures
        forall|k: int|
            0 <= k < app::rows_in(rows, pid).len() ==> (#[trigger] app::rows_in(
                rows,
                pid,
            )[k]).project_id == pid && rows.contains(app::rows_in(rows, pid)[k]),
        forall|k: int|
            0 <= k < rows.len() && rows[k].project_id == pid ==> app::rows_in(rows, pid).contains(
                #[trigger] rows[k],
            ),
        app::rows_in(rows, pid).len() <= rows.len(),
    decreases rows.len(),
{
    if rows.len() > 0 {
        let rest = rows.drop_last();
        let before = app::rows_in(rest, pid);
        let all = app::rows_in(rows, pid);
        lemma_rows_in(rest, pid);
        assert forall|k: int| 0 <= k < all.len() implies (#[trigger] all[k]).project_id == pid
            && rows.contains(all[k]) by {
            if k < before.len() {
                assert(all[k] == before[k]);
                let j = choose|j: int| 0 <= j < rest.len() && rest[j] == before[k];
                assert(rows[j] == all[k]);
            } else {
                assert(rows[rows.len() - 1] == all[k]);
            }
        }
        assert forall|k: int| 0 <= k < rows.len() && rows[k].project_id == pid implies all.contains(
            #[trigger] rows[k],
        ) by {
            if k < rest.len() {
                assert(rest[k] == rows[k]);
                let j = choose|j: int| 0 <= j < before.len() && before[j] == rows[k];
                assert(all[j] == rows[k]);
            } else {
                assert(all[all.len() - 1] == rows[k]);
            }
        }
    }
}

/// A non-empty section of a listed project appears in the sidebar.
proof fn lemma_section_inside(a: AppView, order: Seq<Seq<char>>, j: int)
    requires
        0 <= j < order.len(),
        a.section(order[j]).len() > 0,
    ensures
        exists|i: int|
            0 <= i < a.sections(order).len() && #[trigger] a.sections(order)[i] == a.section(
                order[j],
            )[0],
    decreases order.len(),
{
    let rest = order.drop_last();
    let before = a.sections(rest);
    if j == order.len() - 1 {
        assert(a.sections(order)[before.len() as int] == a.section(order[j])[0]);
    } else {
        assert(rest[j] == order[j]);
        lemma_section_inside(a, rest, j);
        let i = choose|i: int|
            0 <= i < before.len() && #[trigger] before[i] == a.section(order[j])[0];
        assert(a.sections(order)[i] == before[i]);
    }
}

/// No project is listed twice, where the known order names none twice.
pub proof fn law_no_project_is_listed_twice(order: Seq<Seq<char>>, rows: Seq<RowView>)
    requires
        order.no_duplicates(),
    ensures
        app::order_with(order, rows).no_duplicates(),
    decreases rows.len(),
{
    if rows.len() > 0 {
        law_no_project_is_listed_twice(order, rows.drop_last());
    }
}

// ── Toggling a project ─────────────────────────────────────────

/// Expanding or collapsing a project leaves its header where it was.
pub proof fn lemma_header_stays(a: AppView, b: AppView, order: Seq<Seq<char>>, i: int)
    requires
        order.no_duplicates(),
        a.sessions == b.sessions,
        a.project_names == b.project_names,
        a.sid == b.sid,
        0 <= i < a.sections(order).len(),
        a.sections(order)[i] is ProjectHeader,
        forall|q: Seq<char>|
            q != a.sections(order)[i]->ProjectHeader_id ==> (#[trigger] a.expanded_projects.contains(q)
                <==> b.expanded_projects.contains(q)),
    ensures
        i < b.sections(order).len(),
        b.sections(order)[i] == (ItemView::ProjectHeader {
            id: a.sections(order)[i]->ProjectHeader_id,
            name: a.sections(order)[i]->ProjectHeader_name,
            expanded: b.expanded_projects.contains(a.sections(order)[i]->ProjectHeader_id),
            session_count: a.sections(order)[i]->ProjectHeader_session_count,
        }),
        a.sections(order)[i]->ProjectHeader_expanded == a.expanded_projects.contains(
            a.sections(order)[i]->ProjectHeader_id,
        ),
    decreases order.len(),
{
    let rest = order.drop_last();
    let last = order.last();
    let pid = a.sections(order)[i]->ProjectHeader_id;
    let before = a.sections(rest);
    assert(rest.no_duplicates());
    if i < before.len() {
        assert(a.sections(order)[i] == before[i]);
        lemma_header_stays(a, b, rest, i);
        assert(b.sections(order)[i] == b.sections(rest)[i]);
    } else {
        let k = i - before.len();
        assert(a.sections(order)[i] == a.section(last)[k]);
        assert(last == pid && k == 0);
        assert forall|q: Seq<char>| rest.contains(q) implies q != pid by {
            let j = choose|j: int| 0 <= j < rest.len() && rest[j] == q;
            assert(order[j] == q);
            assert(order[order.len() - 1] == last);
        }
        lemma_sections_apart(a, b, rest, pid);
        assert(b.sections(order)[i] == b.section(last)[0]);
    }
}

/// The sections of other projects do not depend on whether a project is expanded.
proof fn lemma_sections_apart(a: AppView, b: AppView, order: Seq<Seq<char>>, pid: Seq<char>)
    requires
        a.sessions == b.sessions,
        a.project_names == b.project_names,
        a.sid == b.sid,
        forall|q: Seq<char>|
            q != pid ==> (#[trigger] a.expanded_projects.contains(q)
                <==> b.expanded_projects.contains(q)),
        forall|q: Seq<char>| #[trigger] order.contains(q) ==> q != pid,
    ensures
        a.sections(order) == b.sections(order),
    decreases order.len(),
{
    if order.len() > 0 {
        let rest = order.drop_last();
        assert(order[order.len() - 1] == order.last());
        assert(order.contains(order.last()));
        assert forall|q: Seq<char>| #[trigger] rest.contains(q) implies q != pid by {
            let j = choose|j: int| 0 <= j < rest.len() && rest[j] == q;
            assert(order[j] == q);
            assert(order.contains(q));
        }
        lemma_sections_apart(a, b, rest, pid);
    }
}

// ── Sessions ───────────────────────────────────────────────────

/// Attaching to a session keeps the transcript's cards, resumes from the start, opens that session,
/// names its project, marks its rows, and leaves no feed running.
pub proof fn law_attaching_keeps_the_transcript(a: AppView, sid: Seq<char>)
    requires
        (AppView { sid: Some(sid), ..a }).sidebar_fits(),
    ensures
        a.attached(sid).chat.msgs == a.chat.msgs,
        a.attached(sid).chat.running == a.chat.running,
        a.attached(sid).chat.cur == 0,
        a.attached(sid).sid == Some(sid),
        a.attached(sid).stream is None,
        a.attached(sid).labelled(),
        a.attached(sid).in_sync(),
        a.attached(sid).actions == a.actions,
{
    reveal(AppView::attached);
    reveal(AppView::rebuilt);
    let b = AppView { sid: Some(sid), ..a };
    let c = AppView {
        sid: Some(sid),
        chat: TranscriptView { cur: 0, ..a.feedless().chat },
        ..a.feedless()
    }.project_synced();
    lemma_same_sidebar(b, c);
    law_rebuilding_the_sidebar_settles_it(c);
}

/// Taking over a session list keeps the sidebar and the info bar in line with it, and taking over
/// the same list again changes nothing.
pub proof fn law_taking_over_a_list_is_idempotent(a: AppView, sessions: Seq<SessionView>)
    requires
        (AppView { sessions: app::rows_of(sessions), ..a }).sidebar_fits(),
    ensures
        a.listing(sessions).in_sync(),
        a.listing(sessions).labelled(),
        a.listing(sessions).listing(sessions) == a.listing(sessions),
{
    reveal(AppView::listing);
    reveal(AppView::rebuilt);
    let b = AppView { sessions: app::rows_of(sessions), ..a };
    let c = b.project_synced();
    lemma_same_sidebar(b, c);
    law_rebuilding_the_sidebar_settles_it(c);
}

/// A session that is put at the top is the first row, and every other row keeps its place.
pub proof fn law_an_inserted_session_comes_first(a: AppView, session: SessionView)
    ensures
        a.with_session(session).sessions[0] == app::row_of(session),
        a.with_session(session).sessions.skip(1) == a.sessions,
        a.with_session(session).labelled(),
{
    reveal(AppView::with_session);
    reveal(AppView::rebuilt);
    assert((seq![app::row_of(session)] + a.sessions).skip(1) =~= a.sessions);
}

/// Marking the open session as running, and giving it another title, touch the rows of that session
/// alone; a sidebar in line with the state stays so, and so does the info bar.
pub proof fn law_the_open_row_follows_the_feed(a: AppView, title: Seq<char>)
    requires
        a.in_sync(),
        a.labelled(),
        a.row_synced().sidebar_fits(),
        a.retitled(title).sidebar_fits(),
    ensures
        a.row_synced().in_sync(),
        a.row_synced().labelled(),
        a.retitled(title).in_sync(),
        a.retitled(title).labelled(),
        a.row_synced().sessions.len() == a.sessions.len(),
        a.retitled(title).sessions.len() == a.sessions.len(),
        forall|i: int|
            0 <= i < a.sessions.len() ==> #[trigger] a.row_synced().sessions[i] == followed(
                a,
                a.sessions[i],
            ),
        a.row_synced().row_synced() == a.row_synced(),
{
    reveal(AppView::row_synced);
    reveal(AppView::retitled);
    reveal(AppView::rebuilt);
    match a.sid {
        None => {},
        Some(sid) => {
            let r = app::rows_running(a.sessions, sid, a.chat.running);
            let b = AppView { sessions: r, ..a };
            lemma_same_sidebar(b, b.rebuilt());
            law_rebuilding_the_sidebar_settles_it(b);
            lemma_row_from_running(a.sessions, sid, a.chat.running, 0);
            assert(app::rows_running(r, sid, a.chat.running) =~= r);
            let t = app::rows_titled(a.sessions, sid, crate::chat::shown_title(Some(title)));
            let c = AppView { sessions: t, ..a };
            lemma_same_sidebar(c, c.rebuilt());
            law_rebuilding_the_sidebar_settles_it(c);
            lemma_row_from_titled(a.sessions, sid, crate::chat::shown_title(Some(title)), 0);
        },
    }
}

proof fn lemma_row_from_running(rows: Seq<RowView>, id: Seq<char>, running: bool, i: int)
    requires
        0 <= i <= rows.len(),
    ensures
        match (
            app::row_from(rows, id, i),
            app::row_from(app::rows_running(rows, id, running), id, i),
        ) {
            (Some(a), Some(b)) => a.project_id == b.project_id,
            (None, None) => true,
            _ => false,
        },
    decreases rows.len() - i,
{
    if i < rows.len() && rows[i].id != id {
        lemma_row_from_running(rows, id, running, i + 1);
    }
}

proof fn lemma_row_from_titled(rows: Seq<RowView>, id: Seq<char>, title: Seq<char>, i: int)
    requires
        0 <= i <= rows.len(),
    ensures
        match (
            app::row_from(rows, id, i),
            app::row_from(app::rows_titled(rows, id, title), id, i),
        ) {
            (Some(a), Some(b)) => a.project_id == b.project_id,
            (None, None) => true,
            _ => false,
        },
    decreases rows.len() - i,
{
    if i < rows.len() && rows[i].id != id {
        lemma_row_from_titled(rows, id, title, i + 1);
    }
}

/// Usage replaces what was on display: only the latest shows.
pub proof fn law_usage_replaces_what_was_shown(a: AppView, first: UsageView, second: UsageView)
    ensures
        a.with_usage(first).with_usage(second) == a.with_usage(second),
{
    reveal(AppView::with_usage);
}

/// At most one feed runs: a feed is only given up by asking for it to be stopped, and nothing is
/// asked for where none runs.
pub proof fn law_a_feed_is_stopped_once(a: AppView)
    ensures
        a.feedless().stream is None,
        a.stream is Some ==> a.feedless().effects == a.effects.push(EffectView::StopFeed),
        a.stream is None ==> a.feedless() == a,
        a.feedless().feedless() == a.feedless(),
{
}

// ── New sessions ───────────────────────────────────────────────

/// A new session is created untitled and with the node brief as its preamble; it is placed in a
/// project only where one was asked for; and there is one to create unless no agent can be had.
pub proof fn law_new_sessions_are_untitled_and_briefed(
    a: AppView,
    project_ref: Seq<char>,
    agent_ref: Seq<char>,
)
    ensures
        a.new_session(project_ref, agent_ref) matches Some(s) ==> s.title is None && s.preamble
            == Some(a.node_brief.preamble()) && (text::is_blank(project_ref)
            ==> s.project_id is None),
        a.new_session(project_ref, agent_ref) is None <==> a.agents.len() == 0 && !(refs::choice(
            agent_ref,
            app::agent_pairs(a.agents),
        ) is Resolved),
        text::is_blank(agent_ref) && a.agents.len() > 0 ==> a.new_session(
            project_ref,
            agent_ref,
        )->0.agent_id == a.agents[0].id,
{
    reveal(AppView::new_session);
    text::lemma_blank(project_ref);
    text::lemma_blank(agent_ref);
}

/// The first card that `b` has beyond those of `a` is that system line.
pub open spec fn says_next(a: AppView, b: AppView, line: Seq<char>) -> bool {
    let n = a.chat.msgs.len() as int;
    &&& b.chat.msgs.len() > n
    &&& b.chat.msgs[n].kind == MsgKind::Sys
    &&& b.chat.msgs[n].text == line
}

/// A reference that matches nothing is called out, and one that is unset or resolves says nothing.
pub proof fn law_only_an_unresolved_reference_is_called_out(
    a: AppView,
    project_ref: Seq<char>,
    agent_ref: Seq<char>,
)
    ensures
        a.diagnosed(project_ref, agent_ref) == (AppView {
            chat: a.diagnosed(project_ref, agent_ref).chat,
            ..a
        }),
        !(refs::choice(project_ref, a.project_names) is Unresolved) && !(refs::choice(
            agent_ref,
            app::agent_pairs(a.agents),
        ) is Unresolved) ==> a.diagnosed(project_ref, agent_ref) == a,
        refs::choice(project_ref, a.project_names) matches ChoiceView::Unresolved(wanted)
            ==> says_next(a, a.diagnosed(project_ref, agent_ref), app::no_project(wanted)),
{
    reveal(AppView::diagnosed);
    if let ChoiceView::Unresolved(wanted) = refs::choice(project_ref, a.project_names) {
        let line = app::no_project(wanted);
        reveal_strlit("ATTACCA_PROJECT \"");
        assert(line[0] == 'A');
        text::lemma_blank(line);
        if text::is_blank(line) {
            assert(text::is_space(line[0]));
        }
    }
}

} // verus!
