//! Laws of the session list and of new sessions: what each operation on the state leaves, and that
//! it leaves the rest alone.

use crate::app;
use crate::app::{ActionView, AppView, EffectView, Focus, RowView};
use crate::brief::BriefView;
use crate::chat;
use crate::chat::{MsgKind, MsgView, TranscriptView};
use crate::refs;
use crate::refs::ChoiceView;
use crate::text;
use crate::wire::{SessionView, UsageView};
use vstd::prelude::*;

verus! {

/// The state with another sidebar, and nothing else changed.
pub open spec fn but_for_the_sidebar(a: AppView, b: AppView) -> bool {
    b == (AppView {
        sidebar_items: b.sidebar_items,
        sidebar_sel: b.sidebar_sel,
        sidebar_scroll: b.sidebar_scroll,
        ..a
    })
}

// ── Rows ───────────────────────────────────────────────────────

/// A session list is taken over row by row, in its order, each row with the session's own id,
/// project, title and state; nothing else changes but the sidebar and the info bar.
pub proof fn law_a_list_is_taken_over_row_by_row(a: AppView, sessions: Seq<SessionView>, i: int)
    ensures
        ({
            let b = a.listing(sessions);
            &&& b.sessions.len() == sessions.len()
            &&& 0 <= i < sessions.len() ==> b.sessions[i] == (RowView {
                project_id: match sessions[i].project_id {
                    Some(p) => p,
                    None => Seq::empty(),
                },
                title: chat::shown_title(sessions[i].title),
                id: sessions[i].id,
                running: sessions[i].running,
            })
            &&& but_for_the_sidebar(
                AppView {
                    sessions: b.sessions,
                    current_project_name: b.current_project_name,
                    ..a
                },
                b,
            )
            &&& b.sidebar_items == b.sidebar()
        }),
{
    reveal(AppView::listing);
    reveal(AppView::rebuilt);
    let b = a.listing(sessions);
    let c = AppView { sessions: app::rows_of(sessions), ..a }.project_synced();
    crate::app_laws::lemma_same_sidebar(b, c);
}

/// A new session comes first, and every other row keeps its order; nothing else changes but the
/// sidebar and the info bar.
pub proof fn law_a_new_session_is_put_first(a: AppView, session: SessionView)
    ensures
        ({
            let b = a.with_session(session);
            let row = RowView {
                project_id: match session.project_id {
                    Some(p) => p,
                    None => Seq::empty(),
                },
                title: chat::shown_title(session.title),
                id: session.id,
                running: session.running,
            };
            &&& b.sessions == seq![row] + a.sessions
            &&& but_for_the_sidebar(
                AppView {
                    sessions: b.sessions,
                    current_project_name: b.current_project_name,
                    ..a
                },
                b,
            )
            &&& b.sidebar_items == b.sidebar()
        }),
{
    reveal(AppView::with_session);
    reveal(AppView::rebuilt);
    let b = a.with_session(session);
    let c = AppView {
        sessions: seq![app::row_of(session)] + a.sessions,
        ..a
    }.project_synced();
    crate::app_laws::lemma_same_sidebar(b, c);
}

/// The open session's rows say whether its turn runs, and take its new title where it gets one; no
/// other row changes, and of each row nothing else.
pub proof fn law_the_open_sessions_rows_are_kept(a: AppView, title: Seq<char>, i: int)
    ensures
        ({
            let listed = 0 <= i < a.sessions.len();
            let mine = listed && a.sid == Some(a.sessions[i].id);
            let other = listed && a.sid != Some(a.sessions[i].id);
            let ran = a.row_synced();
            let named = a.retitled(title);
            &&& ran.sessions.len() == a.sessions.len()
            &&& named.sessions.len() == a.sessions.len()
            &&& mine ==> ran.sessions[i] == (RowView { running: a.chat.running, ..a.sessions[i] })
            &&& mine ==> named.sessions[i] == (RowView {
                title: chat::shown_title(Some(title)),
                ..a.sessions[i]
            })
            &&& other ==> ran.sessions[i] == a.sessions[i]
            &&& other ==> named.sessions[i] == a.sessions[i]
            &&& but_for_the_sidebar(AppView { sessions: ran.sessions, ..a }, ran)
            &&& but_for_the_sidebar(AppView { sessions: named.sessions, ..a }, named)
            &&& ran.sessions != a.sessions ==> ran.sidebar_items == ran.sidebar()
            &&& named.sessions != a.sessions ==> named.sidebar_items == named.sidebar()
        }),
{
    reveal(AppView::row_synced);
    reveal(AppView::retitled);
    reveal(AppView::rebuilt);
    if let Some(sid) = a.sid {
        let r = app::rows_running(a.sessions, sid, a.chat.running);
        let t = app::rows_titled(a.sessions, sid, chat::shown_title(Some(title)));
        crate::app_laws::lemma_same_sidebar(AppView { sessions: r, ..a }, a.row_synced());
        crate::app_laws::lemma_same_sidebar(AppView { sessions: t, ..a }, a.retitled(title));
        assert(0 <= i < r.len() ==> r[i] == if a.sessions[i].id == sid {
            RowView { running: a.chat.running, ..a.sessions[i] }
        } else {
            a.sessions[i]
        });
        assert(0 <= i < t.len() ==> t[i] == if a.sessions[i].id == sid {
            RowView { title: chat::shown_title(Some(title)), ..a.sessions[i] }
        } else {
            a.sessions[i]
        });
    }
}

// ── The open session ───────────────────────────────────────────

/// Attaching to a session opens it, starts its cursor over, and gives up the feed that ran, if one
/// did; nothing else changes but the sidebar and the info bar.
pub proof fn law_attaching_opens_the_session(a: AppView, sid: Seq<char>)
    ensures
        ({
            let b = a.attached(sid);
            &&& but_for_the_sidebar(
                AppView {
                    sid: Some(sid),
                    chat: TranscriptView { msgs: a.chat.msgs, cur: 0, running: a.chat.running },
                    stream: None,
                    effects: if a.stream is Some {
                        a.effects.push(EffectView::StopFeed)
                    } else {
                        a.effects
                    },
                    current_project_name: b.current_project_name,
                    ..a
                },
                b,
            )
            &&& b.sidebar_items == b.sidebar()
            &&& b.current_project_name == b.open_project()
        }),
{
    reveal(AppView::attached);
    reveal(AppView::rebuilt);
    let b = a.attached(sid);
    let f = a.feedless();
    let c = AppView {
        sid: Some(sid),
        chat: TranscriptView { cur: 0, ..f.chat },
        ..f
    }.project_synced();
    crate::app_laws::lemma_same_sidebar(b, c);
}

/// The transcript of a session that is opened starts with one notice that names it, by the beginning
/// of its id, with the end of the chat in view.
pub proof fn law_an_opened_transcript_names_its_session(a: AppView, sid: Seq<char>)
    ensures
        a.cleared_for(sid) == (AppView {
            chat: TranscriptView {
                msgs: seq![
                    MsgView {
                        kind: MsgKind::Sys,
                        text: "session "@ + (if sid.len() <= 8 {
                            sid
                        } else {
                            sid.subrange(0, 8)
                        }),
                        streaming: false,
                    },
                ],
                cur: 0,
                running: false,
            },
            scroll: 0,
            at_end: true,
            ..a
        }),
{
    reveal(AppView::cleared_for);
    reveal_strlit("session ");
    let line = "session "@ + text::prefix(sid, 8);
    assert(line[0] == 's');
    assert(!text::is_space(line[0]));
    assert(Seq::<MsgView>::empty().push(
        MsgView { kind: MsgKind::Sys, text: line, streaming: false },
    ) =~= seq![MsgView { kind: MsgKind::Sys, text: line, streaming: false }]);
}

proof fn lemma_row_from(rows: Seq<RowView>, id: Seq<char>, i: int, k: int)
    requires
        0 <= i <= k < rows.len(),
        rows[k].id == id,
        forall|j: int| i <= j < k ==> (#[trigger] rows[j]).id != id,
    ensures
        app::row_from(rows, id, i) == Some(rows[k]),
    decreases k - i,
{
    if i < k {
        lemma_row_from(rows, id, i + 1, k);
    }
}

/// The info bar names the project of the open session's first row: by its name, or else by the
/// beginning of its id; nothing where the session is in none.
pub proof fn law_the_info_bar_names_the_open_project(a: AppView, k: int)
    requires
        0 <= k < a.sessions.len(),
        a.sid == Some(a.sessions[k].id),
        forall|j: int| 0 <= j < k ==> (#[trigger] a.sessions[j]).id != a.sessions[k].id,
    ensures
        ({
            let pid = a.sessions[k].project_id;
            let shown = a.project_synced().current_project_name;
            &&& pid.len() == 0 ==> shown.len() == 0
            &&& pid.len() > 0 ==> shown == match refs::lookup(a.project_names, pid) {
                Some(name) => name,
                None => if pid.len() <= 8 {
                    pid
                } else {
                    pid.subrange(0, 8)
                },
            }
            &&& a.project_synced() == (AppView { current_project_name: shown, ..a })
        }),
{
    lemma_row_from(a.sessions, a.sessions[k].id, 0, k);
}

/// Without an open session, or one that is listed, the info bar names no project.
pub proof fn law_no_open_session_no_project(a: AppView)
    requires
        a.sid is None || forall|j: int|
            0 <= j < a.sessions.len() ==> Some((#[trigger] a.sessions[j]).id) != a.sid,
    ensures
        a.open_project().len() == 0,
{
    if let Some(sid) = a.sid {
        lemma_no_row(a.sessions, sid, 0);
    }
}

proof fn lemma_no_row(rows: Seq<RowView>, id: Seq<char>, i: int)
    requires
        0 <= i <= rows.len(),
        forall|j: int| i <= j < rows.len() ==> (#[trigger] rows[j]).id != id,
    ensures
        app::row_from(rows, id, i) is None,
    decreases rows.len() - i,
{
    if i < rows.len() {
        lemma_no_row(rows, id, i + 1);
    }
}

/// A session's usage is shown as it was reported, number for number, and what was not reported is
/// not shown.
pub proof fn law_usage_is_shown_as_reported(a: AppView, usage: UsageView)
    ensures
        a.with_usage(usage) == (AppView {
            usage_model: match usage.model {
                Some(s) => s,
                None => Seq::empty(),
            },
            usage_credits_used: match usage.credits_used {
                Some(s) => s,
                None => Seq::empty(),
            },
            usage_context_tokens: match usage.context_tokens {
                Some(n) => text::decimal_int(n as int),
                None => Seq::empty(),
            },
            usage_input_tokens: match usage.input_tokens {
                Some(n) => text::decimal_int(n as int),
                None => Seq::empty(),
            },
            usage_output_tokens: match usage.output_tokens {
                Some(n) => text::decimal_int(n as int),
                None => Seq::empty(),
            },
            usage_total_tokens: match usage.total_tokens {
                Some(n) => text::decimal_int(n as int),
                None => Seq::empty(),
            },
            ..a
        }),
{
    reveal(AppView::with_usage);
}

// ── Small steps ────────────────────────────────────────────────

/// A notice, an action, a request and a change of the count each add one thing, at the end, and leave
/// the rest alone.
pub proof fn law_each_small_step_adds_one_thing(
    a: AppView,
    line: Seq<char>,
    action: ActionView,
    effect: EffectView,
)
    ensures
        !text::is_blank(line) ==> a.told(line) == (AppView {
            chat: TranscriptView {
                msgs: a.chat.msgs.push(
                    MsgView { kind: MsgKind::Sys, text: line, streaming: false },
                ),
                ..a.chat
            },
            ..a
        }),
        text::is_blank(line) ==> a.told(line) == a,
        a.queued(action) == (AppView { actions: a.actions.push(action), ..a }),
        a.asking(effect) == (AppView { effects: a.effects.push(effect), ..a }),
        a.busy_count < u32::MAX ==> a.busier() == (AppView {
            busy_count: (a.busy_count + 1) as u32,
            ..a
        }),
        a.busy_count > 0 ==> a.calmer() == (AppView { busy_count: (a.busy_count - 1) as u32, ..a }),
        a.busy_count == u32::MAX ==> a.busier() == a,
        a.busy_count == 0 ==> a.calmer() == a,
{
}

/// What is kept between restarts is every session of the list, in its order, with its id, its title
/// and its project, and what is open and selected.
pub proof fn law_every_session_is_saved(a: AppView, i: int)
    ensures
        a.saved().sessions.len() == a.sessions.len(),
        0 <= i < a.sessions.len() ==> a.saved().sessions[i].id == a.sessions[i].id
            && a.saved().sessions[i].title == a.sessions[i].title
            && a.saved().sessions[i].project_id == a.sessions[i].project_id,
        a.saved().last_sid == a.sid,
        a.saved().last_project_name == a.current_project_name,
        a.saved().sidebar_sel == a.sidebar_sel,
        a.saved().sidebar_scroll == a.sidebar_scroll,
{
}

/// A client that has just started knows nothing, has nothing open and nothing to do, and takes what
/// is typed into the chat.
pub proof fn law_a_client_starts_empty(brief: BriefView, debug: bool, hide: bool)
    ensures
        ({
            let a = AppView::fresh(brief, debug, hide);
            &&& a.chat.msgs.len() == 0 && a.chat.cur == 0 && !a.chat.running
            &&& a.sid is None && a.pending_restore_sid is None && a.stream is None
            &&& a.input.len() == 0 && a.input_cursor == 0 && a.autocomplete_suggestions.len() == 0
                && a.autocomplete_idx is None
            &&& a.at_end && a.scroll == 0 && a.focus == Focus::Chat
            &&& a.sessions.len() == 0 && a.project_order.len() == 0 && a.project_names.len() == 0
                && a.agents.len() == 0 && a.sidebar_items.len() == 0
            &&& forall|p: Seq<char>| !#[trigger] a.expanded_projects.contains(p)
            &&& !a.connected && a.me is None && a.peer is None
            &&& a.actions.len() == 0 && a.effects.len() == 0 && a.busy_count == 0
            &&& !a.exit_requested && !a.login_requested && a.node_stopped is None
            &&& a.node_brief == brief && a.debug_events == debug && a.hide_reasoning == hide
        }),
{
}

// ── References ─────────────────────────────────────────────────

/// A table gives back what its first entry under a key says, and nothing for a key that it lacks.
pub proof fn law_a_table_gives_its_first_entry(
    entries: Seq<(Seq<char>, Seq<char>)>,
    key: Seq<char>,
    k: int,
)
    ensures
        0 <= k < entries.len() && entries[k].0 == key && (forall|j: int|
            0 <= j < k ==> (#[trigger] entries[j]).0 != key) ==> refs::lookup(entries, key) == Some(
            entries[k].1,
        ),
        (forall|j: int| 0 <= j < entries.len() ==> (#[trigger] entries[j]).0 != key)
            ==> refs::lookup(entries, key) is None,
{
    if 0 <= k < entries.len() && entries[k].0 == key && (forall|j: int|
        0 <= j < k ==> (#[trigger] entries[j]).0 != key) {
        lemma_lookup_from(entries, key, 0, k);
    }
    if forall|j: int| 0 <= j < entries.len() ==> (#[trigger] entries[j]).0 != key {
        lemma_lookup_none(entries, key, 0);
    }
}

proof fn lemma_lookup_from(entries: Seq<(Seq<char>, Seq<char>)>, key: Seq<char>, i: int, k: int)
    requires
        0 <= i <= k < entries.len(),
        entries[k].0 == key,
        forall|j: int| i <= j < k ==> (#[trigger] entries[j]).0 != key,
    ensures
        refs::lookup_from(entries, key, i) == Some(entries[k].1),
    decreases k - i,
{
    if i < k {
        lemma_lookup_from(entries, key, i + 1, k);
    }
}

proof fn lemma_lookup_none(entries: Seq<(Seq<char>, Seq<char>)>, key: Seq<char>, i: int)
    requires
        0 <= i <= entries.len(),
        forall|j: int| i <= j < entries.len() ==> (#[trigger] entries[j]).0 != key,
    ensures
        refs::lookup_from(entries, key, i) is None,
    decreases entries.len() - i,
{
    if i < entries.len() {
        lemma_lookup_none(entries, key, i + 1);
    }
}

/// A reference that is an id resolves to itself; one that is not resolves to the id of the first
/// entry of that name, in any case; and one that is neither is reported.
pub proof fn law_an_id_is_taken_before_a_name(
    wanted: Seq<char>,
    known: Seq<(Seq<char>, Seq<char>)>,
    k: int,
)
    ensures
        ({
            let w = text::trimmed(wanted);
            let listed = 0 <= k < known.len();
            let c = refs::choice(wanted, known);
            let plain = w.len() > 0 && !refs::is_uuid(w) && forall|j: int|
                0 <= j < known.len() ==> (#[trigger] known[j]).0 != w;
            &&& w.len() == 0 ==> c is Unset
            &&& w.len() > 0 && refs::is_uuid(w) ==> c == ChoiceView::Resolved(w)
            &&& listed && w.len() > 0 && known[k].0 == w ==> c == ChoiceView::Resolved(w)
            &&& listed && plain && text::lowered(known[k].1) == text::lowered(w) && (forall|j: int|
                0 <= j < k ==> text::lowered((#[trigger] known[j]).1) != text::lowered(w)) ==> c
                == ChoiceView::Resolved(known[k].0)
            &&& plain && (forall|j: int|
                0 <= j < known.len() ==> text::lowered((#[trigger] known[j]).1) != text::lowered(w))
                ==> c == ChoiceView::Unresolved(w)
        }),
{
    let w = text::trimmed(wanted);
    if 0 <= k < known.len() && known[k].0 == w {
        assert(refs::knows_id(known, w));
    }
    if 0 <= k < known.len() && text::lowered(known[k].1) == text::lowered(w) && (forall|j: int|
        0 <= j < k ==> text::lowered((#[trigger] known[j]).1) != text::lowered(w)) {
        lemma_named(known, w, 0, k);
    }
    if forall|j: int|
        0 <= j < known.len() ==> text::lowered((#[trigger] known[j]).1) != text::lowered(w) {
        lemma_unnamed(known, w, 0);
    }
}

proof fn lemma_named(known: Seq<(Seq<char>, Seq<char>)>, name: Seq<char>, i: int, k: int)
    requires
        0 <= i <= k < known.len(),
        text::lowered(known[k].1) == text::lowered(name),
        forall|j: int| i <= j < k ==> text::lowered((#[trigger] known[j]).1) != text::lowered(name),
    ensures
        refs::named_from(known, name, i) == Some(known[k].0),
    decreases k - i,
{
    if i < k {
        lemma_named(known, name, i + 1, k);
    }
}

proof fn lemma_unnamed(known: Seq<(Seq<char>, Seq<char>)>, name: Seq<char>, i: int)
    requires
        0 <= i <= known.len(),
        forall|j: int|
            i <= j < known.len() ==> text::lowered((#[trigger] known[j]).1) != text::lowered(name),
    ensures
        refs::named_from(known, name, i) is None,
    decreases known.len() - i,
{
    if i < known.len() {
        lemma_unnamed(known, name, i + 1);
    }
}

/// An id of the server: five groups of hexadecimal digits, of 8, 4, 4, 4 and 12, with a dash between
/// each two.
pub proof fn law_an_id_has_five_groups(s: Seq<char>)
    ensures
        refs::is_uuid(s) <==> s.len() == 36 && s[8] == '-' && s[13] == '-' && s[18] == '-' && s[23]
            == '-' && forall|i: int|
            0 <= i < 36 && i != 8 && i != 13 && i != 18 && i != 23 ==> text::is_hex(#[trigger] s[i]),
{
    if s.len() == 36 && s[8] == '-' && s[13] == '-' && s[18] == '-' && s[23] == '-' && forall|i: int|
        0 <= i < 36 && i != 8 && i != 13 && i != 18 && i != 23 ==> text::is_hex(#[trigger] s[i]) {
        assert(refs::is_uuid(s));
    }
    if refs::is_uuid(s) {
        assert(s[8] == '-' && s[13] == '-' && s[18] == '-' && s[23] == '-');
    }
}

/// A new session goes to the agent that was asked for, or else to the first one, and into the project
/// that was asked for, or else into none; a reference that does not resolve changes nothing but that.
pub proof fn law_a_new_session_goes_where_it_was_asked(
    a: AppView,
    project_ref: Seq<char>,
    agent_ref: Seq<char>,
)
    ensures
        ({
            let agents = Seq::new(a.agents.len(), |i: int| (a.agents[i].id, a.agents[i].name));
            let agent = refs::choice(agent_ref, agents);
            let project = refs::choice(project_ref, a.project_names);
            let made = a.new_session(project_ref, agent_ref);
            &&& agent matches ChoiceView::Resolved(id) ==> made is Some && made->0.agent_id == id
            &&& !(agent is Resolved) && a.agents.len() > 0 ==> made is Some && made->0.agent_id
                == a.agents[0].id
            &&& !(agent is Resolved) && a.agents.len() == 0 ==> made is None
            &&& made is Some ==> made->0.title is None && made->0.preamble == Some(
                a.node_brief.preamble(),
            )
            &&& made is Some && project is Resolved ==> made->0.project_id == Some(
                project->Resolved_0,
            )
            &&& made is Some && !(project is Resolved) ==> made->0.project_id is None
        }),
{
    reveal(AppView::new_session);
    assert(app::agent_pairs(a.agents) =~= Seq::new(
        a.agents.len(),
        |i: int| (a.agents[i].id, a.agents[i].name),
    ));
}

/// A reference that matches nothing is called out by what was asked for, the project's first; one
/// that resolves, or was not given, says nothing.
pub proof fn law_what_matched_nothing_is_called_out(
    a: AppView,
    project_ref: Seq<char>,
    agent_ref: Seq<char>,
)
    ensures
        ({
            let agents = Seq::new(a.agents.len(), |i: int| (a.agents[i].id, a.agents[i].name));
            let said = |s: Seq<char>| MsgView { kind: MsgKind::Sys, text: s, streaming: false };
            let first = match refs::choice(project_ref, a.project_names) {
                ChoiceView::Unresolved(w) => a.chat.msgs.push(
                    said(
                        "ATTACCA_PROJECT \""@ + w
                            + "\" matched no project — using the account default"@,
                    ),
                ),
                _ => a.chat.msgs,
            };
            let all = match refs::choice(agent_ref, agents) {
                ChoiceView::Unresolved(w) => first.push(
                    said("ATTACCA_AGENT \""@ + w + "\" matched no agent — using the first one"@),
                ),
                _ => first,
            };
            a.diagnosed(project_ref, agent_ref) == (AppView {
                chat: TranscriptView { msgs: all, ..a.chat },
                ..a
            })
        }),
{
    reveal(AppView::diagnosed);
    reveal_strlit("ATTACCA_PROJECT \"");
    reveal_strlit("ATTACCA_AGENT \"");
    assert(app::agent_pairs(a.agents) =~= Seq::new(
        a.agents.len(),
        |i: int| (a.agents[i].id, a.agents[i].name),
    ));
    assert forall|w: Seq<char>| !text::is_blank(#[trigger] app::no_project(w)) by {
        assert(app::no_project(w)[0] == 'A');
        assert(!text::is_space(app::no_project(w)[0]));
    }
    assert forall|w: Seq<char>| !text::is_blank(#[trigger] app::no_agent(w)) by {
        assert(app::no_agent(w)[0] == 'A');
        assert(!text::is_space(app::no_agent(w)[0]));
    }
}

} // verus!
