//! What holds of input handling.

use crate::app;
use crate::app::{ActionView, AppView, Focus, ItemView};
use crate::app_laws;
use crate::bytes;
use crate::chat::MsgKind;
use crate::handler;
use crate::handler::{KeyCode, KeyModifiers, MouseEventKind};
use crate::text;
use vstd::prelude::*;

verus! {

/// No modifier is held.
pub open spec fn plain(m: KeyModifiers) -> bool {
    !m.shift && !m.control && !m.alt && !m.other
}

// ── Editing ────────────────────────────────────────────────────

/// Backspace undoes the typing of a character.
pub proof fn law_backspace_undoes_typing(a: AppView, c: char)
    requires
        a.cursor_ok(),
        bytes::byte_len(a.input) + 4 <= usize::MAX,
    ensures
        a.typed(seq![c]).cursor_ok(),
        a.typed(seq![c]).erased() == a,
{
    reveal(AppView::typed);
    reveal(AppView::erased);
    let left = a.left();
    let right = a.right();
    let i = a.input_cursor as int;
    bytes::lemma_split(a.input, i);
    bytes::lemma_byte_len_concat(left, right);
    let grown = left + seq![c];
    assert(grown.drop_last() =~= left);
    assert(bytes::byte_len(grown) == bytes::byte_len(left) + bytes::width(c));
    bytes::lemma_join(grown, right);
    assert(grown.last() == c);
    assert((left + right) == a.input);
}

/// In the chat, a plain character followed by Backspace leaves the input and the insertion point as
/// they were.
pub proof fn law_typing_a_key_and_erasing_it(a: AppView, c: char, m: KeyModifiers)
    requires
        a.cursor_ok(),
        a.focus == Focus::Chat,
        plain(m),
        bytes::byte_len(a.input) + 4 <= usize::MAX,
    ensures
        a.keyed(KeyCode::Char(c), m).keyed(KeyCode::Backspace, m).input == a.input,
        a.keyed(KeyCode::Char(c), m).keyed(KeyCode::Backspace, m).input_cursor == a.input_cursor,
        a.keyed(KeyCode::Char(c), m).input == a.left() + seq![c] + a.right(),
{
    reveal(AppView::chatted);
    reveal(AppView::typed);
    reveal(AppView::erased);
    reveal(AppView::suggested);
    law_backspace_undoes_typing(a, c);
    let typed = a.typed(seq![c]);
    let b = a.keyed(KeyCode::Char(c), m);
    assert(b == typed.bottomed().suggested()) by {
        assert(AppView { focus: Focus::Chat, ..a } == a);
    }
    let e = b.erased();
    assert(b.keyed(KeyCode::Backspace, m) == e.bottomed().suggested());
    lemma_erasing_looks_at_the_input(typed, b);
}

proof fn lemma_erasing_looks_at_the_input(a: AppView, b: AppView)
    requires
        a.input == b.input,
        a.input_cursor == b.input_cursor,
    ensures
        a.erased().input == b.erased().input,
        a.erased().input_cursor == b.erased().input_cursor,
{
    reveal(AppView::erased);
}

/// Left and Right undo each other wherever there is a character to step over.
pub proof fn law_left_and_right_undo_each_other(a: AppView)
    requires
        a.cursor_ok(),
        bytes::byte_len(a.input) <= usize::MAX,
    ensures
        a.moved_left().cursor_ok(),
        a.moved_right().cursor_ok(),
        a.left().len() > 0 ==> a.moved_left().moved_right() == a,
        a.right().len() > 0 ==> a.moved_right().moved_left() == a,
        a.moved_left().input == a.input,
        a.moved_right().input == a.input,
{
    reveal(AppView::moved_left);
    reveal(AppView::moved_right);
    let left = a.left();
    let right = a.right();
    bytes::lemma_split(a.input, a.input_cursor as int);
    bytes::lemma_byte_len_concat(left, right);
    if left.len() > 0 {
        let l = left.drop_last();
        let r = seq![left.last()] + right;
        assert(l + r =~= a.input);
        bytes::lemma_join(l, r);
        assert(l.push(r[0]) =~= left);
    }
    if right.len() > 0 {
        let l = left.push(right[0]);
        let r = right.drop_first();
        assert(l + r =~= a.input);
        bytes::lemma_join(l, r);
        bytes::lemma_byte_len_concat(l, r);
        assert(l.drop_last() =~= left);
    }
}

/// Deleting a word deletes from the end of what precedes the insertion point, always something, and
/// never across a newline: where a newline goes, it goes alone.
pub proof fn law_a_deleted_word_never_crosses_a_newline(s: Seq<char>)
    requires
        s.len() > 0,
    ensures
        handler::word_cut(s).len() < s.len(),
        handler::word_cut(s) == s.take(handler::word_cut(s).len() as int),
        handler::word_cut(s).len() < s.len() - 1 ==> forall|j: int|
            handler::word_cut(s).len() <= j < s.len() ==> #[trigger] s[j] != '\n',
{
    if s.last() != '\n' {
        lemma_without_blanks(s);
        let a = handler::without_blanks(s);
        lemma_without_word(a);
        let b = handler::without_word(a);
        assert(b =~= s.take(b.len() as int));
        if b.len() > 0 && (b.last() == ' ' || b.last() == '\t') {
            assert(b.drop_last() =~= s.take(b.len() - 1));
        }
        assert forall|j: int| b.len() <= j < s.len() implies #[trigger] s[j] != '\n' by {
            if j < a.len() {
                assert(a[j] == s[j]);
            }
        }
        if a.len() == s.len() {
            assert(a =~= s);
            lemma_without_word(s.drop_last());
            assert(b == handler::without_word(s.drop_last()));
        }
    } else {
        assert(s.drop_last() =~= s.take(s.len() - 1));
    }
}

proof fn lemma_without_blanks(s: Seq<char>)
    ensures
        handler::without_blanks(s).len() <= s.len(),
        handler::without_blanks(s) == s.take(handler::without_blanks(s).len() as int),
        forall|j: int|
            handler::without_blanks(s).len() <= j < s.len() ==> #[trigger] s[j] == ' ' || s[j]
                == '\t',
        handler::without_blanks(s).len() > 0 ==> handler::without_blanks(s).last() != ' '
            && handler::without_blanks(s).last() != '\t',
    decreases s.len(),
{
    if s.len() > 0 && (s.last() == ' ' || s.last() == '\t') {
        let r = s.drop_last();
        lemma_without_blanks(r);
        let n = handler::without_blanks(r).len() as int;
        assert(r.take(n) =~= s.take(n));
        assert forall|j: int| n <= j < s.len() implies #[trigger] s[j] == ' ' || s[j] == '\t' by {
            if j < r.len() {
                assert(r[j] == s[j]);
            }
        }
    } else {
        assert(s.take(s.len() as int) =~= s);
    }
}

proof fn lemma_without_word(s: Seq<char>)
    ensures
        handler::without_word(s).len() <= s.len(),
        handler::without_word(s) == s.take(handler::without_word(s).len() as int),
        forall|j: int|
            handler::without_word(s).len() <= j < s.len() ==> #[trigger] s[j] != ' ' && s[j] != '\t'
                && s[j] != '\n',
    decreases s.len(),
{
    if s.len() > 0 && s.last() != ' ' && s.last() != '\t' && s.last() != '\n' {
        let r = s.drop_last();
        lemma_without_word(r);
        let n = handler::without_word(r).len() as int;
        assert(r.take(n) =~= s.take(n));
        assert forall|j: int| n <= j < s.len() implies #[trigger] s[j] != ' ' && s[j] != '\t'
            && s[j] != '\n' by {
            if j < r.len() {
                assert(r[j] == s[j]);
            }
        }
    } else {
        assert(s.take(s.len() as int) =~= s);
    }
}

/// Pasting inserts the text as it is and does nothing else: whatever newlines it holds, nothing is
/// sent, queued or asked for.
pub proof fn law_a_paste_never_sends(a: AppView, t: Seq<char>)
    ensures
        a.pasted(t).actions == a.actions,
        a.pasted(t).effects == a.effects,
        a.pasted(t).chat == a.chat,
        a.pasted(t).exit_requested == a.exit_requested,
        a.focus == Focus::Chat ==> a.pasted(t).input == a.left() + t + a.right(),
{
    reveal(AppView::typed);
    reveal(AppView::suggested);
}

/// Enter with a modifier inserts a newline and sends nothing.
pub proof fn law_a_modified_enter_only_inserts_a_newline(a: AppView, m: KeyModifiers)
    requires
        m.shift || m.alt || m.control,
    ensures
        a.chatted(KeyCode::Enter, m).actions == a.actions,
        a.chatted(KeyCode::Enter, m).chat == a.chat,
        a.chatted(KeyCode::Enter, m).input == a.left() + "\n"@ + a.right(),
{
    reveal(AppView::chatted);
    reveal(AppView::typed);
    reveal(AppView::suggested);
}

// ── Sending ────────────────────────────────────────────────────

/// What is not a command and not the title of a listed session is sent as it was typed, trimmed: it
/// is queued once, echoed once, and leaves the input empty.
pub proof fn law_a_message_is_echoed_and_queued_once(a: AppView)
    requires
        !text::is_blank(a.input),
        !text::begins_with(text::trimmed(a.input), "/"@),
        handler::titled_from(a.sidebar_items, text::trimmed(a.input), 0) is None,
    ensures
        a.dispatched().actions == a.actions.push(ActionView::Send(text::trimmed(a.input))),
        a.dispatched().chat.msgs.len() == a.chat.msgs.len() + 1,
        a.dispatched().chat.msgs.last().kind == MsgKind::User,
        a.dispatched().chat.msgs.last().text == text::trimmed(a.input),
        a.dispatched().input.len() == 0,
        a.dispatched().input_cursor == 0,
{
    reveal(AppView::dispatched);
    reveal(AppView::commanded);
    let raw = text::trimmed(a.input);
    text::lemma_blank(a.input);
    lemma_trimmed_not_blank(a.input);
    lemma_slash(raw);
}

/// A text that starts with a slash is never sent as a message: it opens a session of that title, or
/// runs, or is called unknown.
pub proof fn law_a_command_is_never_sent(a: AppView)
    requires
        text::begins_with(text::trimmed(a.input), "/"@),
    ensures
        a.dispatched().actions == a.actions || (a.dispatched().actions.len() == a.actions.len() + 1
            && a.dispatched().actions.drop_last() == a.actions
            && !(a.dispatched().actions.last() is Send)),
        a.dispatched().input.len() == 0,
{
    reveal(AppView::dispatched);
    reveal(AppView::commanded);
    let raw = text::trimmed(a.input);
    reveal_strlit("/");
    assert(raw.len() > 0);
    assert(forall|x: ActionView| #[trigger] a.actions.push(x).drop_last() =~= a.actions);
}

/// Nothing but white space in the input: Enter does nothing.
pub proof fn law_a_blank_input_is_not_sent(a: AppView)
    requires
        text::is_blank(a.input),
    ensures
        a.dispatched() == a,
{
    reveal(AppView::dispatched);
    text::lemma_blank(a.input);
}

proof fn lemma_trimmed_not_blank(s: Seq<char>)
    requires
        !text::is_blank(s),
    ensures
        !text::is_blank(text::trimmed(s)),
{
    text::lemma_blank(s);
    text::lemma_trimmed_twice(s);
    text::lemma_blank(text::trimmed(s));
}

/// A text that starts with no slash is none of the commands.
proof fn lemma_slash(raw: Seq<char>)
    requires
        !text::begins_with(raw, "/"@),
    ensures
        raw != "/exit"@ && raw != "/quit"@ && raw != "/help"@ && raw != "/h"@ && raw != "/new"@
            && raw != "/n"@ && raw != "/cancel"@ && raw != "/logout"@ && raw != "/sessions"@ && raw
            != "/login"@ && raw != "/credits"@ && raw != "/me"@ && raw != "/usage"@ && raw
            != "/whoami"@ && raw != "/tools"@,
        !text::begins_with(raw, "/login "@),
{
    reveal_strlit("/");
    reveal_strlit("/exit");
    reveal_strlit("/quit");
    reveal_strlit("/help");
    reveal_strlit("/h");
    reveal_strlit("/new");
    reveal_strlit("/n");
    reveal_strlit("/cancel");
    reveal_strlit("/logout");
    reveal_strlit("/sessions");
    reveal_strlit("/login");
    reveal_strlit("/credits");
    reveal_strlit("/me");
    reveal_strlit("/usage");
    reveal_strlit("/whoami");
    reveal_strlit("/tools");
    reveal_strlit("/login ");
    if raw.len() > 0 && raw[0] == '/' {
        assert(raw.take(1) =~= "/"@);
        assert(text::begins_with(raw, "/"@));
    }
    if text::begins_with(raw, "/login "@) {
        assert(raw.take(7)[0] == '/');
    }
}

// ── Focus and suggestions ──────────────────────────────────────

/// With nothing to complete, Tab moves the focus to the other pane, and twice back again.
pub proof fn law_tab_toggles_the_focus(a: AppView, m: KeyModifiers)
    requires
        a.autocomplete_suggestions.len() == 0,
    ensures
        a.keyed(KeyCode::Tab, m).focus != a.focus,
        a.keyed(KeyCode::Tab, m).keyed(KeyCode::Tab, m) == a,
{
}

/// Wherever the focus is, a slash goes to the chat.
pub proof fn law_a_slash_goes_to_the_chat(a: AppView, m: KeyModifiers)
    requires
        a.cursor_ok(),
    ensures
        a.keyed(KeyCode::Char('/'), m).focus == Focus::Chat,
        a.keyed(KeyCode::Char('/'), m).input == a.left() + seq!['/'] + a.right(),
{
    reveal(AppView::chatted);
    reveal(AppView::typed);
    reveal(AppView::suggested);
}

/// What the popup offers are commands that start with what was typed, and all of those.
pub proof fn law_the_popup_offers_what_was_started(input: Seq<char>, i: int)
    requires
        text::trimmed(input).len() > 1,
        text::trimmed(input)[0] == '/',
        0 <= i < handler::SLASH_COMMANDS@.len(),
    ensures
        handler::completions(input).contains(handler::SLASH_COMMANDS@[i]@) <==> text::begins_with(
            handler::SLASH_COMMANDS@[i]@,
            text::trimmed(input),
        ),
        forall|k: int|
            0 <= k < handler::completions(input).len() ==> text::views(
                handler::SLASH_COMMANDS@,
            ).contains(#[trigger] handler::completions(input)[k]),
{
    let all = text::views(handler::SLASH_COMMANDS@);
    lemma_starting_with(all, text::trimmed(input));
    assert(all[i] == handler::SLASH_COMMANDS@[i]@);
}

proof fn lemma_starting_with(commands: Seq<Seq<char>>, typed: Seq<char>)
    ensures
        forall|k: int|
            0 <= k < handler::starting_with(commands, typed).len() ==> commands.contains(
                #[trigger] handler::starting_with(commands, typed)[k],
            ) && text::begins_with(handler::starting_with(commands, typed)[k], typed),
        forall|i: int|
            0 <= i < commands.len() && text::begins_with(commands[i], typed)
                ==> handler::starting_with(commands, typed).contains(#[trigger] commands[i]),
    decreases commands.len(),
{
    if commands.len() > 0 {
        let rest = commands.drop_last();
        let before = handler::starting_with(rest, typed);
        let all = handler::starting_with(commands, typed);
        lemma_starting_with(rest, typed);
        assert forall|k: int| 0 <= k < all.len() implies commands.contains(#[trigger] all[k])
            && text::begins_with(all[k], typed) by {
            if k < before.len() {
                assert(all[k] == before[k]);
                let j = choose|j: int| 0 <= j < rest.len() && rest[j] == before[k];
                assert(commands[j] == all[k]);
            } else {
                assert(commands[commands.len() - 1] == all[k]);
            }
        }
        assert forall|i: int|
            0 <= i < commands.len() && text::begins_with(
                commands[i],
                typed,
            ) implies all.contains(#[trigger] commands[i]) by {
            if i < rest.len() {
                assert(rest[i] == commands[i]);
                let j = choose|j: int| 0 <= j < before.len() && before[j] == commands[i];
                assert(all[j] == commands[i]);
            } else {
                assert(all[all.len() - 1] == commands[i]);
            }
        }
    }
}

// ── Sidebar ────────────────────────────────────────────────────

/// The lines of a project: its header first, and only that one header.
proof fn lemma_header_of(a: AppView, i: int)
    requires
        a.in_sync(),
        0 <= i < a.sidebar_items.len(),
        a.sidebar_items[i] is ProjectHeader,
    ensures
        i < a.sections(app::order_with(a.project_order, a.sessions)).len(),
        a.sections(app::order_with(a.project_order, a.sessions))[i] == a.sidebar_items[i],
{
    let order = app::order_with(a.project_order, a.sessions);
    if i == a.sections(order).len() {
        assert(a.sidebar()[i] == ItemView::NewSession);
    }
}

/// Acting on a project's header expands or collapses it and keeps it selected; doing it twice
/// brings the sidebar back to what it was.
pub proof fn law_toggling_a_project_twice_restores_the_sidebar(a: AppView)
    requires
        a.in_sync(),
        a.project_order.no_duplicates(),
        a.sidebar_items[a.sidebar_sel as int] is ProjectHeader,
        a.activated().sidebar_fits(),
        a.sidebar_fits(),
    ensures
        a.activated().sidebar_sel == a.sidebar_sel,
        a.activated().in_sync(),
        a.activated().activated().expanded_projects == a.expanded_projects,
        a.activated().activated().sidebar_items == a.sidebar_items,
{
    reveal(AppView::activated);
    reveal(AppView::rebuilt);
    let i = a.sidebar_sel as int;
    let order = app::order_with(a.project_order, a.sessions);
    let pid = a.sidebar_items[i]->ProjectHeader_id;
    let expanded = a.sidebar_items[i]->ProjectHeader_expanded;
    let set = if expanded {
        a.expanded_projects.remove(pid)
    } else {
        a.expanded_projects.insert(pid)
    };
    let b = AppView { expanded_projects: set, ..a };
    app_laws::law_no_project_is_listed_twice(a.project_order, a.sessions);
    lemma_header_of(a, i);
    app_laws::lemma_header_stays(a, b, order, i);
    app_laws::lemma_same_sidebar(b, b.rebuilt());
    app_laws::law_rebuilding_the_sidebar_settles_it(b);
    assert(b.sidebar()[i] == b.sections(order)[i]);
    let c = a.activated();
    assert(c == b.rebuilt());
    assert(c.sidebar_items[i]->ProjectHeader_id == pid);
    assert(c.sidebar_items[i]->ProjectHeader_expanded == !expanded);
    let back = if expanded {
        set.insert(pid)
    } else {
        set.remove(pid)
    };
    assert(back =~= a.expanded_projects);
    let d = AppView { expanded_projects: back, ..c };
    app_laws::lemma_same_sidebar(d, a);
}

/// Left collapses the project that the selection is in and selects its header.
pub proof fn law_left_selects_the_collapsed_project(a: AppView)
    requires
        a.in_sync(),
        a.project_order.no_duplicates(),
        handler::header_before(a.sidebar_items, a.sidebar_sel as int) is Some,
        a.steered(KeyCode::Left).sidebar_fits(),
    ensures
        a.steered(KeyCode::Left).in_sync(),
        a.steered(KeyCode::Left).sidebar_items[a.steered(
            KeyCode::Left,
        ).sidebar_sel as int] is ProjectHeader,
        !a.steered(KeyCode::Left).sidebar_items[a.steered(
            KeyCode::Left,
        ).sidebar_sel as int]->ProjectHeader_expanded,
{
    reveal(AppView::steered);
    reveal(AppView::rebuilt);
    lemma_header_before(a.sidebar_items, a.sidebar_sel as int);
    let (i, pid) = handler::header_before(a.sidebar_items, a.sidebar_sel as int)->0;
    let order = app::order_with(a.project_order, a.sessions);
    let b = AppView { expanded_projects: a.expanded_projects.remove(pid), ..a };
    app_laws::law_no_project_is_listed_twice(a.project_order, a.sessions);
    lemma_header_of(a, i);
    app_laws::lemma_header_stays(a, b, order, i);
    app_laws::lemma_same_sidebar(b, b.rebuilt());
    app_laws::lemma_same_sidebar(b, a.steered(KeyCode::Left));
    app_laws::law_rebuilding_the_sidebar_settles_it(b);
    assert(b.sidebar()[i] == b.sections(order)[i]);
}

proof fn lemma_header_before(items: Seq<ItemView>, i: int)
    requires
        0 <= i <= items.len(),
        handler::header_before(items, i) is Some,
    ensures
        0 <= (handler::header_before(items, i)->0).0 < i,
        items[(handler::header_before(items, i)->0).0] is ProjectHeader,
        items[(handler::header_before(items, i)->0).0]->ProjectHeader_id
            == (handler::header_before(items, i)->0).1,
    decreases i,
{
    if i > 0 && !(items[i - 1] is ProjectHeader) {
        lemma_header_before(items, i - 1);
    }
}

/// Up and Down keep the selection on a line of the sidebar, and in view.
pub proof fn law_the_selection_stays_in_view(a: AppView, code: KeyCode)
    requires
        code == KeyCode::Up || code == KeyCode::Down,
        a.in_sync(),
        a.sidebar_scroll <= a.sidebar_sel < a.sidebar_scroll + handler::SIDEBAR_ROWS,
    ensures
        a.steered(code).in_sync(),
        a.steered(code).sidebar_scroll <= a.steered(code).sidebar_sel,
        a.steered(code).sidebar_sel < a.steered(code).sidebar_scroll + handler::SIDEBAR_ROWS,
{
    reveal(AppView::steered);
    reveal(AppView::clamped);
    app_laws::lemma_same_sidebar(a, a.steered(code));
}

/// Scrolling the sidebar with the mouse keeps the selection on one of its lines.
pub proof fn law_the_wheel_keeps_a_line_selected(a: AppView, column: u16, row: u16, kind: MouseEventKind)
    requires
        a.in_sync(),
        kind == MouseEventKind::ScrollDown || kind == MouseEventKind::ScrollUp,
    ensures
        a.moused(column, row, kind).in_sync(),
{
    reveal(AppView::list_down);
    reveal(AppView::list_up);
    app_laws::lemma_same_sidebar(a, a.moused(column, row, kind));
}

/// Scrolling the chat up a step and down again ends where it began, at the latest message as
/// elsewhere.
pub proof fn law_scrolling_up_and_down_again(a: AppView, n: usize)
    requires
        n > 0,
        a.at_end ==> a.scroll == 0,
        !a.at_end ==> a.scroll > 0 && a.scroll + n <= usize::MAX,
    ensures
        a.scrolled_up(n).scrolled_down(n) == a,
{
}

} // verus!
