//! Laws of the sidebar: which lines it holds, and in what order.

use crate::app;
use crate::app::{AppView, ItemView, RowView};
use crate::refs;
use vstd::prelude::*;

verus! {

/// The sessions of a project, in the order of the list.
spec fn sessions_of(rows: Seq<RowView>, pid: Seq<char>) -> Seq<RowView> {
    rows.filter(|r: RowView| r.project_id == pid)
}

/// The line of a session: its title and its id, whether it is the open one, whether it runs.
spec fn line_of(a: AppView, row: RowView) -> ItemView {
    ItemView::Session {
        title: row.title,
        id: row.id,
        active: match a.sid {
            Some(sid) => row.id == sid,
            None => row.id.len() == 0,
        },
        running: row.running,
    }
}

proof fn lemma_rows_in_is_filter(rows: Seq<RowView>, pid: Seq<char>)
    ensures
        app::rows_in(rows, pid) == sessions_of(rows, pid),
    decreases rows.len(),
{
    reveal(Seq::filter);
    if rows.len() > 0 {
        lemma_rows_in_is_filter(rows.drop_last(), pid);
    } else {
        assert(rows.filter(|r: RowView| r.project_id == pid) =~= rows);
    }
}

proof fn lemma_line(a: AppView, row: RowView)
    ensures
        app::session_item(row, app::or_empty(a.sid)) == line_of(a, row),
{
    if a.sid is None && row.id.len() == 0 {
        assert(row.id =~= Seq::<char>::empty());
    }
}

/// What the sections of the first projects come to begins what the sections of all come to.
proof fn lemma_prefix(a: AppView, order: Seq<Seq<char>>, p: int)
    requires
        0 <= p <= order.len(),
    ensures
        a.sections(order.take(p)).len() <= a.sections(order).len(),
        forall|x: int|
            0 <= x < a.sections(order.take(p)).len() ==> #[trigger] a.sections(order)[x]
                == a.sections(order.take(p))[x],
    decreases order.len() - p,
{
    if p == order.len() {
        assert(order.take(p) =~= order);
    } else {
        lemma_prefix(a, order, p + 1);
        lemma_step(a, order, p);
        assert forall|x: int| 0 <= x < a.sections(order.take(p)).len() implies #[trigger] a.sections(
            order,
        )[x] == a.sections(order.take(p))[x] by {
            assert(a.sections(order)[x] == a.sections(order.take(p + 1))[x]);
        }
    }
}

proof fn lemma_step(a: AppView, order: Seq<Seq<char>>, p: int)
    requires
        0 <= p < order.len(),
    ensures
        a.sections(order.take(p + 1)) == a.sections(order.take(p)) + a.section(order[p]),
{
    assert(order.take(p + 1).drop_last() =~= order.take(p));
    assert(order.take(p + 1).last() == order[p]);
}

proof fn lemma_longer(a: AppView, order: Seq<Seq<char>>, p: int, q: int)
    requires
        0 <= p <= q <= order.len(),
    ensures
        a.sections(order.take(p)).len() <= a.sections(order.take(q)).len(),
{
    lemma_prefix(a, order.take(q), p);
    assert(order.take(q).take(p) =~= order.take(p));
}

/// Every line of the sections is a line of one of them.
proof fn lemma_located(a: AppView, order: Seq<Seq<char>>, i: int) -> (p: int)
    requires
        0 <= i < a.sections(order).len(),
    ensures
        0 <= p < order.len(),
        a.sections(order.take(p)).len() <= i,
        i < a.sections(order.take(p)).len() + a.section(order[p]).len(),
        a.sections(order)[i] == a.section(order[p])[i - a.sections(order.take(p)).len()],
    decreases order.len(),
{
    let rest = order.drop_last();
    let last = order.len() - 1;
    assert(order.take(last) =~= rest);
    if i < a.sections(rest).len() {
        let p = lemma_located(a, rest, i);
        assert(rest.take(p) =~= order.take(p));
        assert(rest[p] == order[p]);
        p
    } else {
        last
    }
}

/// The lines of a section stand one after the other in the sidebar, and what follows them is no
/// session.
proof fn lemma_block(a: AppView, p: int)
    requires
        0 <= p < app::order_with(a.project_order, a.sessions).len(),
    ensures
        ({
            let order = app::order_with(a.project_order, a.sessions);
            let start = a.sections(order.take(p)).len() as int;
            let mine = a.section(order[p]);
            &&& start + mine.len() < a.sidebar().len()
            &&& forall|x: int|
                0 <= x < mine.len() ==> a.sidebar()[start + x] == #[trigger] mine[x]
            &&& !(a.sidebar()[start + mine.len()] is Session)
        }),
{
    let order = app::order_with(a.project_order, a.sessions);
    let all = a.sections(order);
    let start = a.sections(order.take(p)).len() as int;
    let mine = a.section(order[p]);
    let end = start + mine.len();
    lemma_prefix(a, order, p + 1);
    lemma_step(a, order, p);
    assert(a.sections(order.take(p + 1)).len() == end);
    assert forall|x: int| 0 <= x < mine.len() implies a.sidebar()[start + x] == #[trigger] mine[x] by {
        assert(all[start + x] == a.sections(order.take(p + 1))[start + x]);
        assert(a.sidebar()[start + x] == all[start + x]);
    }
    if end < all.len() {
        let q = lemma_located(a, order, end);
        if q <= p {
            lemma_longer(a, order, q + 1, p + 1);
            lemma_step(a, order, q);
            assert(false);
        }
        lemma_longer(a, order, p + 1, q);
        assert(a.sidebar()[end] == all[end]);
        assert(all[end] == a.section(order[q])[0]);
    }
}

/// Under its header an expanded project lists its sessions, all of them and no others, in the order
/// of the list, and a collapsed one lists none; the header says how many there are.
pub proof fn law_a_header_is_followed_by_its_sessions(a: AppView, i: int)
    requires
        0 <= i < a.sidebar().len(),
        a.sidebar()[i] is ProjectHeader,
    ensures
        ({
            let pid = a.sidebar()[i]->ProjectHeader_id;
            let mine = a.sessions.filter(|r: RowView| r.project_id == pid);
            let n = if a.expanded_projects.contains(pid) {
                mine.len() as int
            } else {
                0
            };
            &&& a.sidebar()[i]->ProjectHeader_expanded == a.expanded_projects.contains(pid)
            &&& a.sidebar()[i]->ProjectHeader_session_count == mine.len()
            &&& i + 1 + n < a.sidebar().len()
            &&& forall|j: int|
                0 <= j < n ==> a.sidebar()[i + 1 + j] == (ItemView::Session {
                    title: (#[trigger] mine[j]).title,
                    id: mine[j].id,
                    active: match a.sid {
                        Some(sid) => mine[j].id == sid,
                        None => mine[j].id.len() == 0,
                    },
                    running: mine[j].running,
                })
            &&& !(a.sidebar()[i + 1 + n] is Session)
        }),
{
    let order = app::order_with(a.project_order, a.sessions);
    let pid = a.sidebar()[i]->ProjectHeader_id;
    let mine = sessions_of(a.sessions, pid);
    assert(a.sidebar()[i] == a.sections(order)[i]);
    let p = lemma_located(a, order, i);
    let start = a.sections(order.take(p)).len() as int;
    assert(order[p] == pid && i == start);
    lemma_block(a, p);
    lemma_rows_in_is_filter(a.sessions, pid);
    let lines = a.section(pid);
    if a.expanded_projects.contains(pid) {
        assert forall|j: int| 0 <= j < mine.len() implies a.sidebar()[i + 1 + j] == line_of(
            a,
            #[trigger] mine[j],
        ) by {
            lemma_line(a, mine[j]);
            assert(a.sidebar()[start + (j + 1)] == lines[j + 1]);
        }
    }
}

/// A session of an expanded project always has its line, whatever else is known of the project.
pub proof fn law_every_session_of_an_expanded_project_is_listed(a: AppView, k: int)
    requires
        0 <= k < a.sessions.len(),
        a.expanded_projects.contains(a.sessions[k].project_id),
    ensures
        exists|i: int|
            0 <= i < a.sidebar().len() && #[trigger] a.sidebar()[i] == (ItemView::Session {
                title: a.sessions[k].title,
                id: a.sessions[k].id,
                active: match a.sid {
                    Some(sid) => a.sessions[k].id == sid,
                    None => a.sessions[k].id.len() == 0,
                },
                running: a.sessions[k].running,
            }),
{
    let row = a.sessions[k];
    let pid = row.project_id;
    crate::app_laws::law_every_session_has_a_header(a, k);
    let h = choose|i: int|
        0 <= i < a.sidebar().len() && #[trigger] a.sidebar()[i] == (ItemView::ProjectHeader {
            id: pid,
            name: app::project_label(a.project_names, pid),
            expanded: a.expanded_projects.contains(pid),
            session_count: app::rows_in(a.sessions, pid).len(),
        });
    law_a_header_is_followed_by_its_sessions(a, h);
    let p = |r: RowView| r.project_id == pid;
    let mine = sessions_of(a.sessions, pid);
    assert(mine.contains(row)) by {
        a.sessions.lemma_filter_contains(p, k);
    }
    let j = choose|j: int| 0 <= j < mine.len() && mine[j] == row;
    assert(a.sidebar()[h + 1 + j] == line_of(a, mine[j]));
}

/// Every line of a session is that of a session in the list whose project is expanded; the first
/// line of the sidebar is none.
pub proof fn law_every_session_line_is_a_session(a: AppView, i: int)
    requires
        0 <= i < a.sidebar().len(),
        a.sidebar()[i] is Session,
    ensures
        i > 0,
        exists|k: int|
            0 <= k < a.sessions.len() && a.expanded_projects.contains(
                (#[trigger] a.sessions[k]).project_id,
            ) && a.sidebar()[i] == (ItemView::Session {
                title: a.sessions[k].title,
                id: a.sessions[k].id,
                active: match a.sid {
                    Some(sid) => a.sessions[k].id == sid,
                    None => a.sessions[k].id.len() == 0,
                },
                running: a.sessions[k].running,
            }),
{
    let order = app::order_with(a.project_order, a.sessions);
    assert(a.sidebar()[i] == a.sections(order)[i]);
    let p = lemma_located(a, order, i);
    let pid = order[p];
    let start = a.sections(order.take(p)).len() as int;
    let at = i - start;
    let mine = sessions_of(a.sessions, pid);
    lemma_rows_in_is_filter(a.sessions, pid);
    assert(at > 0);
    let row = mine[at - 1];
    lemma_line(a, row);
    assert(mine.contains(row));
    let f = |r: RowView| r.project_id == pid;
    assert(mine == a.sessions.filter(f));
    a.sessions.lemma_filter_contains_rev(f, row);
    a.sessions.lemma_filter_pred(f, at - 1);
    let k = choose|k: int| 0 <= k < a.sessions.len() && a.sessions[k] == row;
    assert(a.sessions[k].project_id == pid);
}

/// A header names its project: by its name where that is known, else by the beginning of its id, or
/// as no project where there is none.
pub proof fn law_a_header_names_its_project(a: AppView, i: int)
    requires
        0 <= i < a.sidebar().len(),
        a.sidebar()[i] is ProjectHeader,
    ensures
        ({
            let pid = a.sidebar()[i]->ProjectHeader_id;
            let name = a.sidebar()[i]->ProjectHeader_name;
            &&& refs::lookup(a.project_names, pid) matches Some(known) ==> name == "📁 "@ + known
            &&& refs::lookup(a.project_names, pid) is None && pid.len() == 0 ==> name
                == "📁 (no project)"@
            &&& refs::lookup(a.project_names, pid) is None && 0 < pid.len() <= 8 ==> name == "📁 "@
                + pid
            &&& refs::lookup(a.project_names, pid) is None && pid.len() > 8 ==> name == "📁 "@
                + pid.subrange(0, 8)
        }),
{
    let order = app::order_with(a.project_order, a.sessions);
    assert(a.sidebar()[i] == a.sections(order)[i]);
    let p = lemma_located(a, order, i);
}

/// Every project whose name is known is listed, whether or not it has sessions.
pub proof fn law_every_known_project_is_listed(a: AppView, k: int)
    requires
        0 <= k < a.project_order.len(),
        refs::lookup(a.project_names, a.project_order[k]) is Some,
    ensures
        exists|i: int|
            0 <= i < a.sidebar().len() && (#[trigger] a.sidebar()[i]) is ProjectHeader
                && a.sidebar()[i]->ProjectHeader_id == a.project_order[k],
{
    let order = app::order_with(a.project_order, a.sessions);
    lemma_order_begins(a.project_order, a.sessions);
    assert(order[k] == a.project_order[k]);
    lemma_block(a, k);
    let start = a.sections(order.take(k)).len() as int;
    assert(a.section(order[k])[0] is ProjectHeader);
    assert(a.sidebar()[start + 0] == a.section(order[k])[0]);
}

/// A project is listed only where its name is known or it has sessions.
pub proof fn law_a_listed_project_is_known_or_used(a: AppView, i: int)
    requires
        0 <= i < a.sidebar().len(),
        a.sidebar()[i] is ProjectHeader,
    ensures
        ({
            let pid = a.sidebar()[i]->ProjectHeader_id;
            refs::lookup(a.project_names, pid) is Some || exists|k: int|
                0 <= k < a.sessions.len() && (#[trigger] a.sessions[k]).project_id == pid
        }),
{
    let order = app::order_with(a.project_order, a.sessions);
    assert(a.sidebar()[i] == a.sections(order)[i]);
    let p = lemma_located(a, order, i);
    let pid = order[p];
    let mine = sessions_of(a.sessions, pid);
    lemma_rows_in_is_filter(a.sessions, pid);
    if refs::lookup(a.project_names, pid) is None {
        assert(mine.contains(mine[0]));
        let f = |r: RowView| r.project_id == pid;
        assert(mine == a.sessions.filter(f));
        a.sessions.lemma_filter_contains_rev(f, mine[0]);
        a.sessions.lemma_filter_pred(f, 0);
        let k = choose|k: int| 0 <= k < a.sessions.len() && a.sessions[k] == mine[0];
        assert(a.sessions[k].project_id == pid);
    }
}

proof fn lemma_order_begins(order: Seq<Seq<char>>, rows: Seq<RowView>)
    ensures
        app::order_with(order, rows).len() >= order.len(),
        forall|k: int| 0 <= k < order.len() ==> #[trigger] app::order_with(order, rows)[k] == order[k],
    decreases rows.len(),
{
    if rows.len() > 0 {
        lemma_order_begins(order, rows.drop_last());
    }
}

/// The projects are listed in their known order, and those that only a session names behind them, in
/// the order in which the list first names them.
pub proof fn law_projects_are_listed_in_order(
    order: Seq<Seq<char>>,
    rows: Seq<RowView>,
    row: RowView,
)
    ensures
        app::order_with(order, Seq::empty()) == order,
        app::order_with(order, rows).contains(row.project_id) ==> app::order_with(
            order,
            rows.push(row),
        ) == app::order_with(order, rows),
        !app::order_with(order, rows).contains(row.project_id) ==> app::order_with(
            order,
            rows.push(row),
        ) == app::order_with(order, rows).push(row.project_id),
{
    assert(rows.push(row).drop_last() =~= rows);
}

/// Of two headers the upper one's project comes first in the order of the projects.
pub proof fn law_headers_stand_in_the_order_of_the_projects(a: AppView, i: int, j: int)
    requires
        0 <= i < j < a.sidebar().len(),
        a.sidebar()[i] is ProjectHeader,
        a.sidebar()[j] is ProjectHeader,
    ensures
        ({
            let order = app::order_with(a.project_order, a.sessions);
            exists|p: int, q: int|
                0 <= p < q < order.len() && #[trigger] order[p] == a.sidebar()[i]->ProjectHeader_id
                    && #[trigger] order[q] == a.sidebar()[j]->ProjectHeader_id
        }),
{
    let order = app::order_with(a.project_order, a.sessions);
    assert(a.sidebar()[i] == a.sections(order)[i]);
    assert(a.sidebar()[j] == a.sections(order)[j]);
    let p = lemma_located(a, order, i);
    let q = lemma_located(a, order, j);
    assert(order[p] == a.sidebar()[i]->ProjectHeader_id);
    assert(order[q] == a.sidebar()[j]->ProjectHeader_id);
    if q <= p {
        lemma_longer(a, order, q, p);
    }
}

/// Rebuilding gives the sidebar its lines, and moves the selection and the offset no further than to
/// stay inside it: the selection to the last line, the offset to the one before.
pub proof fn law_rebuilding_moves_the_selection_no_further(a: AppView)
    requires
        a.sidebar_fits(),
    ensures
        ({
            let b = a.rebuilt();
            let n = a.sidebar().len() as int;
            &&& b.sidebar_items == a.sidebar()
            &&& a.sidebar_sel < n ==> b.sidebar_sel == a.sidebar_sel
            &&& a.sidebar_sel >= n ==> b.sidebar_sel == n - 1
            &&& n >= 2 && a.sidebar_scroll <= n - 2 ==> b.sidebar_scroll == a.sidebar_scroll
            &&& n >= 2 && a.sidebar_scroll > n - 2 ==> b.sidebar_scroll == n - 2
            &&& n < 2 ==> b.sidebar_scroll == 0
        }),
{
    reveal(AppView::rebuilt);
}

} // verus!
