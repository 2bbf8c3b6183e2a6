//! Laws of keys and of the mouse: what each one does to the state, and that it does nothing else.

use crate::app::{ActionView, AppView, Focus, ItemView};
use crate::bytes;
use crate::chat::{MsgKind, MsgView, TranscriptView};
use crate::handler;
use crate::handler::{KeyCode, KeyModifiers, MouseButton, MouseEventKind};
use crate::text;
use crate::wire::CapabilityView;
use vstd::prelude::*;

verus! {

// ── Editing ────────────────────────────────────────────────────

/// How many bytes a character and a text take in UTF-8.
pub proof fn law_offsets_count_utf8_bytes(s: Seq<char>, c: char)
    ensures
        bytes::byte_len(Seq::empty()) == 0,
        bytes::byte_len(s.push(c)) == bytes::byte_len(s) + (if c as u32 <= 0x7f {
            1int
        } else if c as u32 <= 0x7ff {
            2
        } else if c as u32 <= 0xffff {
            3
        } else {
            4
        }),
{
    assert(s.push(c).drop_last() =~= s);
}

/// The input is `left` and `right`, and the insertion point stands between them.
pub open spec fn split_at(a: AppView, left: Seq<char>, right: Seq<char>) -> bool {
    a.input == left + right && a.input_cursor == bytes::byte_len(left)
}

/// The state with another input, the insertion point behind `left`, the box at its end, and the popup
/// as the input calls for.
pub open spec fn with_input(a: AppView, left: Seq<char>, right: Seq<char>) -> AppView {
    AppView {
        input: left + right,
        input_cursor: bytes::byte_len(left) as usize,
        input_scroll: usize::MAX,
        autocomplete_suggestions: handler::completions(left + right),
        autocomplete_idx: None,
        ..a
    }
}

proof fn lemma_sides(a: AppView, left: Seq<char>, right: Seq<char>)
    requires
        split_at(a, left, right),
    ensures
        a.left() == left,
        a.right() == right,
{
    bytes::lemma_join(left, right);
}

proof fn lemma_typed(a: AppView, left: Seq<char>, right: Seq<char>, t: Seq<char>)
    requires
        split_at(a, left, right),
    ensures
        a.typed(t).bottomed().suggested() == with_input(a, left + t, right),
{
    reveal(AppView::typed);
    reveal(AppView::suggested);
    lemma_sides(a, left, right);
}

/// A character goes in at the insertion point, which moves behind it; the rest of the input stays as
/// it is, and nothing else happens.
pub proof fn law_a_character_goes_in_at_the_cursor(
    a: AppView,
    left: Seq<char>,
    right: Seq<char>,
    c: char,
    m: KeyModifiers,
)
    requires
        a.focus == Focus::Chat,
        split_at(a, left, right),
        !m.control || m.shift || m.alt || m.other || (c != 'j' && c != 'w'),
    ensures
        a.keyed(KeyCode::Char(c), m) == with_input(a, left + seq![c], right),
{
    reveal(AppView::chatted);
    lemma_typed(a, left, right, seq![c]);
    assert(AppView { focus: Focus::Chat, ..a } == a);
}

/// A slash typed into the sidebar goes into the chat's input, and the focus with it.
pub proof fn law_a_slash_typed_anywhere_goes_in(
    a: AppView,
    left: Seq<char>,
    right: Seq<char>,
    m: KeyModifiers,
)
    requires
        split_at(a, left, right),
    ensures
        a.keyed(KeyCode::Char('/'), m) == with_input(
            AppView { focus: Focus::Chat, ..a },
            left + seq!['/'],
            right,
        ),
{
    reveal(AppView::chatted);
    let b = AppView { focus: Focus::Chat, ..a };
    assert(split_at(b, left, right));
    lemma_typed(b, left, right, seq!['/']);
}

/// A pasted text goes in at the insertion point, whole and unchanged, where the chat has the focus;
/// otherwise nothing happens.
pub proof fn law_a_paste_goes_in_whole(
    a: AppView,
    left: Seq<char>,
    right: Seq<char>,
    t: Seq<char>,
)
    requires
        split_at(a, left, right),
    ensures
        a.focus == Focus::Chat ==> a.pasted(t) == with_input(a, left + t, right),
        a.focus == Focus::Sidebar ==> a.pasted(t) == a,
{
    lemma_typed(a, left, right, t);
}

/// Enter with a modifier, and Ctrl+J, put a newline in at the insertion point and do nothing else;
/// Ctrl+J leaves the box scrolled where it is.
pub proof fn law_a_newline_goes_in_at_the_cursor(
    a: AppView,
    left: Seq<char>,
    right: Seq<char>,
    m: KeyModifiers,
)
    requires
        a.focus == Focus::Chat,
        split_at(a, left, right),
    ensures
        m.shift || m.alt || m.control ==> a.keyed(KeyCode::Enter, m) == with_input(
            a,
            left + seq!['\n'],
            right,
        ),
        m.control && !m.shift && !m.alt && !m.other ==> a.keyed(KeyCode::Char('j'), m) == (AppView {
            input_scroll: a.input_scroll,
            ..with_input(a, left + seq!['\n'], right)
        }),
{
    reveal(AppView::chatted);
    reveal(AppView::typed);
    reveal(AppView::suggested);
    reveal_strlit("\n");
    assert("\n"@ =~= seq!['\n']);
    lemma_sides(a, left, right);
    lemma_typed(a, left, right, seq!['\n']);
    assert(AppView { focus: Focus::Chat, ..a } == a);
}

/// Backspace takes away the character before the insertion point and no other; at the start of the
/// input it takes away nothing.
pub proof fn law_backspace_takes_one_character(
    a: AppView,
    left: Seq<char>,
    right: Seq<char>,
    m: KeyModifiers,
)
    requires
        a.focus == Focus::Chat,
        split_at(a, left, right),
        !m.control,
    ensures
        left.len() > 0 ==> a.keyed(KeyCode::Backspace, m) == with_input(
            a,
            left.subrange(0, left.len() - 1),
            right,
        ),
        left.len() == 0 ==> a.keyed(KeyCode::Backspace, m) == with_input(a, left, right),
{
    reveal(AppView::chatted);
    reveal(AppView::erased);
    reveal(AppView::suggested);
    lemma_sides(a, left, right);
    if left.len() > 0 {
        assert(left.drop_last() =~= left.subrange(0, left.len() - 1));
    }
    assert(AppView { focus: Focus::Chat, ..a } == a);
}

/// Ctrl+Backspace and Ctrl+W take away what [`handler::word_cut`] takes off before the insertion
/// point, and nothing behind it.
pub proof fn law_a_word_is_taken_before_the_cursor(
    a: AppView,
    left: Seq<char>,
    right: Seq<char>,
    m: KeyModifiers,
)
    requires
        a.focus == Focus::Chat,
        split_at(a, left, right),
        m.control,
    ensures
        a.keyed(KeyCode::Backspace, m) == with_input(a, handler::word_cut(left), right),
        !m.shift && !m.alt && !m.other ==> a.keyed(KeyCode::Char('w'), m) == with_input(
            a,
            handler::word_cut(left),
            right,
        ),
{
    reveal(AppView::chatted);
    reveal(AppView::word_erased);
    reveal(AppView::suggested);
    lemma_sides(a, left, right);
    if left.len() == 0 {
        assert(handler::word_cut(left) =~= left);
    }
    assert(AppView { focus: Focus::Chat, ..a } == a);
}

/// A space or a tab.
pub open spec fn is_gap(c: char) -> bool {
    c == ' ' || c == '\t'
}

proof fn lemma_gaps_go(s: Seq<char>, gaps: Seq<char>)
    requires
        forall|i: int| 0 <= i < gaps.len() ==> is_gap(#[trigger] gaps[i]),
        s.len() == 0 || !is_gap(s.last()),
    ensures
        handler::without_blanks(s + gaps) == s,
    decreases gaps.len(),
{
    if gaps.len() == 0 {
        assert(s + gaps =~= s);
    } else {
        assert((s + gaps).last() == gaps[gaps.len() - 1]);
        assert((s + gaps).drop_last() =~= s + gaps.drop_last());
        lemma_gaps_go(s, gaps.drop_last());
    }
}

proof fn lemma_word_goes(s: Seq<char>, word: Seq<char>)
    requires
        forall|i: int|
            0 <= i < word.len() ==> !is_gap(#[trigger] word[i]) && word[i] != '\n',
        s.len() == 0 || is_gap(s.last()) || s.last() == '\n',
    ensures
        handler::without_word(s + word) == s,
    decreases word.len(),
{
    if word.len() == 0 {
        assert(s + word =~= s);
    } else {
        assert((s + word).last() == word[word.len() - 1]);
        assert((s + word).drop_last() =~= s + word.drop_last());
        lemma_word_goes(s, word.drop_last());
    }
}

/// Deleting a word takes the gaps at the end, the word before them, whole, and one gap before that,
/// and leaves everything in front; where the text ends with a newline, that alone goes.
pub proof fn law_a_word_goes_whole(rest: Seq<char>, word: Seq<char>, gaps: Seq<char>)
    requires
        word.len() + gaps.len() > 0,
        forall|i: int| 0 <= i < gaps.len() ==> is_gap(#[trigger] gaps[i]),
        forall|i: int| 0 <= i < word.len() ==> !is_gap(#[trigger] word[i]) && word[i] != '\n',
        rest.len() == 0 || (is_gap(rest.last()) && word.len() > 0) || rest.last() == '\n',
    ensures
        handler::word_cut(rest + word + gaps) == if rest.len() > 0 && is_gap(rest.last()) {
            rest.subrange(0, rest.len() - 1)
        } else {
            rest
        },
        handler::word_cut(rest.push('\n')) == rest,
{
    let s = rest + word + gaps;
    let front = rest + word;
    assert(rest.push('\n').drop_last() =~= rest);
    if gaps.len() > 0 {
        assert(s.last() == gaps[gaps.len() - 1]);
    } else {
        assert(s =~= front);
        assert(s.last() == word[word.len() - 1]);
    }
    if word.len() > 0 {
        assert(front.last() == word[word.len() - 1]);
    } else {
        assert(front =~= rest);
    }
    lemma_gaps_go(front, gaps);
    lemma_word_goes(rest, word);
    if rest.len() > 0 {
        assert(rest.drop_last() =~= rest.subrange(0, rest.len() - 1));
    }
}

/// Left and Right move the insertion point over one character, and change nothing else; at either
/// end of the input they do nothing.
pub proof fn law_the_cursor_steps_over_one_character(
    a: AppView,
    left: Seq<char>,
    right: Seq<char>,
    m: KeyModifiers,
)
    requires
        a.focus == Focus::Chat,
        split_at(a, left, right),
    ensures
        left.len() > 0 ==> a.keyed(KeyCode::Left, m) == (AppView {
            input_cursor: bytes::byte_len(left.subrange(0, left.len() - 1)) as usize,
            ..a
        }),
        left.len() == 0 ==> a.keyed(KeyCode::Left, m) == a,
        right.len() > 0 ==> a.keyed(KeyCode::Right, m) == (AppView {
            input_cursor: bytes::byte_len(left.push(right[0])) as usize,
            ..a
        }),
        right.len() == 0 ==> a.keyed(KeyCode::Right, m) == a,
{
    reveal(AppView::chatted);
    reveal(AppView::moved_left);
    reveal(AppView::moved_right);
    lemma_sides(a, left, right);
    if left.len() > 0 {
        assert(left.drop_last() =~= left.subrange(0, left.len() - 1));
    }
}

/// Tab puts the next suggestion into the input, followed by a space, the first one after the last;
/// the suggestions stay.
pub proof fn law_tab_takes_the_next_suggestion(a: AppView, m: KeyModifiers)
    requires
        a.focus == Focus::Chat,
        a.autocomplete_suggestions.len() > 0,
    ensures
        ({
            let n = a.autocomplete_suggestions.len() as int;
            let next = match a.autocomplete_idx {
                None => 0,
                Some(i) => if i + 1 < n {
                    i + 1
                } else {
                    (i + 1) % n
                },
            };
            let taken = a.autocomplete_suggestions[next] + seq![' '];
            a.keyed(KeyCode::Tab, m) == (AppView {
                input: taken,
                input_cursor: bytes::byte_len(taken) as usize,
                autocomplete_idx: Some(next as usize),
                ..a
            })
        }),
{
    reveal(AppView::cycled);
    let n = a.autocomplete_suggestions.len() as int;
    let next: int = match a.autocomplete_idx {
        None => 0,
        Some(i) => if i + 1 < n {
            i + 1
        } else {
            (i + 1) % n
        },
    };
    if let Some(i) = a.autocomplete_idx {
        if i + 1 < n {
            vstd::arithmetic::div_mod::lemma_small_mod((i + 1) as nat, n as nat);
        }
    }
    let taken = a.autocomplete_suggestions[next] + seq![' '];
    assert(a.autocomplete_suggestions[next].push(' ') + Seq::<char>::empty() =~= taken);
    assert(a.autocomplete_suggestions[next].push(' ') =~= taken);
}

// ── Enter ──────────────────────────────────────────────────────

/// The state with nothing in the input and nothing in the popup.
pub open spec fn input_taken(a: AppView) -> AppView {
    AppView {
        input: Seq::empty(),
        input_cursor: 0,
        input_scroll: usize::MAX,
        autocomplete_suggestions: Seq::empty(),
        autocomplete_idx: None,
        ..a
    }
}

/// The state with a card behind everything else that was said.
pub open spec fn carded(a: AppView, kind: MsgKind, said: Seq<char>) -> AppView {
    AppView {
        chat: TranscriptView {
            msgs: a.chat.msgs.push(MsgView { kind, text: said, streaming: false }),
            ..a.chat
        },
        ..a
    }
}

/// A line of the sidebar is a session with that title.
pub open spec fn is_titled(item: ItemView, title: Seq<char>) -> bool {
    item is Session && item->title == title
}

/// Enter, without a modifier, is pressed in the chat on an input that is that text, but for white
/// space around it.
pub open spec fn entering(a: AppView, m: KeyModifiers, raw: Seq<char>) -> bool {
    &&& a.focus == Focus::Chat
    &&& !m.shift && !m.alt && !m.control
    &&& text::trimmed(a.input) == raw
}

/// No line of the sidebar has that title.
pub open spec fn untitled(items: Seq<ItemView>, raw: Seq<char>) -> bool {
    forall|i: int| 0 <= i < items.len() ==> !is_titled(#[trigger] items[i], raw)
}

proof fn lemma_untitled(items: Seq<ItemView>, raw: Seq<char>, i: int)
    requires
        0 <= i <= items.len(),
        untitled(items, raw),
    ensures
        handler::titled_from(items, raw, i) is None,
    decreases items.len() - i,
{
    if i < items.len() {
        assert(!is_titled(items[i], raw));
        lemma_untitled(items, raw, i + 1);
    }
}

proof fn lemma_first_titled(items: Seq<ItemView>, raw: Seq<char>, i: int, k: int)
    requires
        0 <= i <= k < items.len(),
        is_titled(items[k], raw),
        forall|j: int| i <= j < k ==> !is_titled(#[trigger] items[j], raw),
    ensures
        handler::titled_from(items, raw, i) == Some(items[k]->Session_id),
    decreases k - i,
{
    if i < k {
        assert(!is_titled(items[i], raw));
        lemma_first_titled(items, raw, i + 1, k);
    }
}

/// Enter on the title of a listed session opens the first session of that title, and empties the
/// input; nothing is said or sent.
pub proof fn law_enter_on_a_title_opens_the_session(
    a: AppView,
    m: KeyModifiers,
    raw: Seq<char>,
    k: int,
)
    requires
        entering(a, m, raw),
        raw.len() > 0,
        0 <= k < a.sidebar_items.len(),
        is_titled(a.sidebar_items[k], raw),
        forall|j: int| 0 <= j < k ==> !is_titled(#[trigger] a.sidebar_items[j], raw),
    ensures
        a.keyed(KeyCode::Enter, m) == (AppView {
            input: Seq::empty(),
            input_cursor: 0,
            input_scroll: usize::MAX,
            actions: a.actions.push(ActionView::Open(a.sidebar_items[k]->Session_id)),
            ..a
        }),
{
    reveal(AppView::chatted);
    reveal(AppView::dispatched);
    lemma_first_titled(a.sidebar_items, raw, 0, k);
}

proof fn lemma_entered(a: AppView, m: KeyModifiers, raw: Seq<char>)
    requires
        entering(a, m, raw),
        raw.len() > 0,
        untitled(a.sidebar_items, raw),
    ensures
        a.keyed(KeyCode::Enter, m) == input_taken(a).commanded(raw),
{
    reveal(AppView::chatted);
    reveal(AppView::dispatched);
    lemma_untitled(a.sidebar_items, raw, 0);
}

/// Enter on an input without anything but white space does nothing.
pub proof fn law_enter_on_nothing_does_nothing(a: AppView, m: KeyModifiers)
    requires
        entering(a, m, Seq::empty()),
    ensures
        a.keyed(KeyCode::Enter, m) == a,
{
    reveal(AppView::chatted);
    reveal(AppView::dispatched);
}

/// The commands, each by its length and its second character.
proof fn lemma_commands()
    ensures
        "/exit"@.len() == 5 && "/exit"@[0] == '/' && "/exit"@[1] == 'e',
        "/quit"@.len() == 5 && "/quit"@[0] == '/' && "/quit"@[1] == 'q',
        "/help"@.len() == 5 && "/help"@[0] == '/' && "/help"@[1] == 'h',
        "/h"@.len() == 2 && "/h"@[0] == '/' && "/h"@[1] == 'h',
        "/new"@.len() == 4 && "/new"@[0] == '/' && "/new"@[1] == 'n',
        "/n"@.len() == 2 && "/n"@[0] == '/' && "/n"@[1] == 'n',
        "/cancel"@.len() == 7 && "/cancel"@[0] == '/' && "/cancel"@[1] == 'c',
        "/logout"@.len() == 7 && "/logout"@[0] == '/' && "/logout"@[1] == 'l',
        "/sessions"@.len() == 9 && "/sessions"@[0] == '/' && "/sessions"@[1] == 's',
        "/login"@.len() == 6 && "/login"@[0] == '/' && "/login"@[1] == 'l',
        "/credits"@.len() == 8 && "/credits"@[0] == '/' && "/credits"@[1] == 'c',
        "/me"@.len() == 3 && "/me"@[0] == '/' && "/me"@[1] == 'm',
        "/usage"@.len() == 6 && "/usage"@[0] == '/' && "/usage"@[1] == 'u',
        "/whoami"@.len() == 7 && "/whoami"@[0] == '/' && "/whoami"@[1] == 'w',
        "/tools"@.len() == 6 && "/tools"@[0] == '/' && "/tools"@[1] == 't',
        "/login "@.len() == 7 && "/login "@[0] == '/' && "/login "@[1] == 'l' && "/login "@[6] == ' ',
        "/logout"@[6] == 't',
{
    reveal_strlit("/exit");
    reveal_strlit("/quit");
    reveal_strlit("/help");
    reveal_strlit("/h");
    reveal_strlit("/new");
    reveal_strlit("/n");
    reveal_strlit("/cancel");
    reveal_strlit("/logout");
    reveal_strlit("/sessions");
    reveal_strlit("/login");
    reveal_strlit("/credits");
    reveal_strlit("/me");
    reveal_strlit("/usage");
    reveal_strlit("/whoami");
    reveal_strlit("/tools");
    reveal_strlit("/login ");
}

/// A message is sent and shown as it was typed, but for white space around it: queued once, shown
/// once, behind everything else; and the input is empty again.
pub proof fn law_enter_sends_the_message(a: AppView, m: KeyModifiers, raw: Seq<char>)
    requires
        entering(a, m, raw),
        raw.len() > 0,
        raw[0] != '/',
        untitled(a.sidebar_items, raw),
    ensures
        ({
            let e = input_taken(a);
            a.keyed(KeyCode::Enter, m) == (AppView {
                actions: a.actions.push(ActionView::Send(raw)),
                ..carded(e, MsgKind::User, raw)
            })
        }),
{
    reveal(AppView::commanded);
    lemma_entered(a, m, raw);
    lemma_commands();
    reveal_strlit("/");
    assert("/"@[0] == '/');
    if text::begins_with(raw, "/"@) {
        assert(raw.take(1)[0] == raw[0]);
    }
    if text::begins_with(raw, "/login "@) {
        assert(raw.take(7)[0] == raw[0]);
    }
    text::lemma_trimmed_twice(a.input);
    text::lemma_blank(raw);
}

/// The commands that ask for something: each queues its own action or request, and nothing else.
pub proof fn law_a_command_asks_for_its_own_action(a: AppView, m: KeyModifiers, raw: Seq<char>)
    requires
        entering(a, m, raw),
        raw.len() > 0,
        untitled(a.sidebar_items, raw),
    ensures
        ({
            let b = a.keyed(KeyCode::Enter, m);
            let e = input_taken(a);
            &&& raw == "/exit"@ || raw == "/quit"@ ==> b == (AppView { exit_requested: true, ..e })
            &&& raw == "/new"@ || raw == "/n"@ ==> b == (AppView {
                actions: a.actions.push(ActionView::Create),
                ..e
            })
            &&& raw == "/cancel"@ ==> b == (AppView {
                actions: a.actions.push(ActionView::Cancel),
                ..e
            })
            &&& raw == "/logout"@ ==> b == (AppView {
                actions: a.actions.push(ActionView::Logout),
                ..e
            })
            &&& raw == "/sessions"@ ==> b == (AppView {
                focus: Focus::Sidebar,
                actions: a.actions.push(ActionView::RefreshSessions),
                ..e
            })
            &&& raw == "/usage"@ || raw == "/credits"@ || raw == "/me"@ ==> b == (AppView {
                actions: a.actions.push(ActionView::ShowInfo),
                ..e
            })
        }),
{
    reveal(AppView::commanded);
    lemma_entered(a, m, raw);
    lemma_commands();
    if text::begins_with(raw, "/login "@) {
        assert(raw.take(7)[6] == raw[6]);
        assert(raw.take(7)[1] == raw[1]);
    }
}

proof fn lemma_says(s: Seq<char>, i: int)
    requires
        0 <= i < s.len(),
        !text::is_space(s[i]),
    ensures
        !text::is_blank(s),
{
}

/// Asking to authorize again says where to look, and asks for it; a key given with it is refused,
/// with what to do instead.
pub proof fn law_login_authorizes_again(a: AppView, m: KeyModifiers, raw: Seq<char>)
    requires
        entering(a, m, raw),
        untitled(a.sidebar_items, raw),
        raw.len() > 0,
    ensures
        ({
            let b = a.keyed(KeyCode::Enter, m);
            let e = input_taken(a);
            &&& raw == "/login"@ ==> b == (AppView {
                login_requested: true,
                ..carded(e, MsgKind::Sys, "authorizing — see the terminal"@)
            })
            &&& text::begins_with(raw, "/login "@) ==> b == carded(
                carded(
                    e,
                    MsgKind::Sys,
                    "attacca-cli no longer takes a key here — /login re-authorizes this node"@,
                ),
                MsgKind::Sys,
                "set ZYRIS_NODE_TOKEN for a static token instead"@,
            )
        }),
{
    reveal(AppView::commanded);
    lemma_entered(a, m, raw);
    lemma_commands();
    reveal_strlit("authorizing — see the terminal");
    reveal_strlit("attacca-cli no longer takes a key here — /login re-authorizes this node");
    reveal_strlit("set ZYRIS_NODE_TOKEN for a static token instead");
    lemma_says("authorizing — see the terminal"@, 0);
    lemma_says("attacca-cli no longer takes a key here — /login re-authorizes this node"@, 0);
    lemma_says("set ZYRIS_NODE_TOKEN for a static token instead"@, 0);
    if text::begins_with(raw, "/login "@) {
        assert(raw.take(7)[6] == raw[6]);
        assert(raw.take(7)[1] == raw[1]);
        assert(raw.take(7)[0] == raw[0]);
    }
}

/// Asking who one is gives the name, the address and every scope that was granted; what the server
/// announces is listed; and either is refused before there is a connection.
pub proof fn law_whoami_and_tools_say_what_is_known(a: AppView, m: KeyModifiers, raw: Seq<char>)
    requires
        entering(a, m, raw),
        untitled(a.sidebar_items, raw),
        raw.len() > 0,
    ensures
        ({
            let b = a.keyed(KeyCode::Enter, m);
            let e = input_taken(a);
            &&& raw == "/whoami"@ ==> match a.me {
                None => b == carded(e, MsgKind::Sys, "not connected yet"@),
                Some(me) => b == carded(
                    carded(e, MsgKind::Sys, me.display_name + " <"@ + me.email + ">"@),
                    MsgKind::Sys,
                    "scopes: "@ + (if me.scopes.len() == 0 {
                        "none granted"@
                    } else {
                        text::joined(me.scopes, ", "@)
                    }),
                ),
            }
            &&& raw == "/tools"@ ==> match a.peer {
                None => b == carded(e, MsgKind::Sys, "not connected yet"@),
                Some(caps) => b == (AppView {
                    chat: handler::noted(a.chat, handler::announced(caps)),
                    ..e
                }),
            }
        }),
{
    reveal(AppView::commanded);
    lemma_entered(a, m, raw);
    lemma_commands();
    reveal_strlit("not connected yet");
    reveal_strlit(" <");
    reveal_strlit(">");
    reveal_strlit("scopes: ");
    lemma_says("not connected yet"@, 0);
    if let Some(me) = a.me {
        let who = me.display_name + " <"@ + me.email + ">"@;
        assert(who[me.display_name.len() as int + 1] == '<');
        lemma_says(who, me.display_name.len() as int + 1);
        let what = "scopes: "@ + (if me.scopes.len() == 0 {
            "none granted"@
        } else {
            text::joined(me.scopes, ", "@)
        });
        assert(what[0] == 's');
        lemma_says(what, 0);
    }
    if text::begins_with(raw, "/login "@) {
        assert(raw.take(7)[1] == raw[1]);
    }
}

/// Help lists its lines; any other text that starts with a slash is called unknown, with that text.
pub proof fn law_other_commands_are_called_unknown(a: AppView, m: KeyModifiers, raw: Seq<char>)
    requires
        entering(a, m, raw),
        untitled(a.sidebar_items, raw),
        raw.len() > 0,
        raw[0] == '/',
    ensures
        ({
            let b = a.keyed(KeyCode::Enter, m);
            let e = input_taken(a);
            &&& raw == "/help"@ || raw == "/h"@ ==> b == (AppView {
                chat: handler::noted(a.chat, text::views(handler::HELP@)),
                ..e
            })
            &&& raw != "/exit"@ && raw != "/quit"@ && raw != "/help"@ && raw != "/h"@ && raw
                != "/new"@ && raw != "/n"@ && raw != "/cancel"@ && raw != "/logout"@ && raw
                != "/sessions"@ && raw != "/login"@ && raw != "/credits"@ && raw != "/me"@ && raw
                != "/usage"@ && raw != "/whoami"@ && raw != "/tools"@ && !text::begins_with(
                raw,
                "/login "@,
            ) ==> b == carded(e, MsgKind::Sys, "unknown command: "@ + raw)
        }),
{
    reveal(AppView::commanded);
    lemma_entered(a, m, raw);
    lemma_commands();
    reveal_strlit("/");
    assert(raw.take(1) =~= "/"@);
    reveal_strlit("unknown command: ");
    let line = "unknown command: "@ + raw;
    assert(line[0] == 'u');
    lemma_says(line, 0);
}

/// Several lines are noted one after the other, each as a notice of its own, but for blank ones.
pub proof fn law_lines_are_noted_one_by_one(
    chat: TranscriptView,
    lines: Seq<Seq<char>>,
    line: Seq<char>,
)
    ensures
        handler::noted(chat, Seq::empty()) == chat,
        text::is_blank(line) ==> handler::noted(chat, lines.push(line)) == handler::noted(
            chat,
            lines,
        ),
        !text::is_blank(line) ==> handler::noted(chat, lines.push(line)) == (TranscriptView {
            msgs: handler::noted(chat, lines).msgs.push(
                MsgView { kind: MsgKind::Sys, text: line, streaming: false },
            ),
            ..handler::noted(chat, lines)
        }),
{
    assert(lines.push(line).drop_last() =~= lines);
}

/// Each capability is listed with its version, followed by each of its tools with how it transfers,
/// in the order in which they were announced.
pub proof fn law_every_capability_is_listed(caps: Seq<CapabilityView>, cap: CapabilityView, i: int)
    ensures
        handler::announced(Seq::empty()) == Seq::<Seq<char>>::empty(),
        handler::announced(caps.push(cap)).len() == handler::announced(caps).len() + 1
            + cap.tools.len(),
        handler::announced(caps.push(cap)).subrange(0, handler::announced(caps).len() as int)
            == handler::announced(caps),
        handler::announced(caps.push(cap))[handler::announced(caps).len() as int] == cap.name
            + " v"@ + text::decimal(cap.version as nat),
        0 <= i < cap.tools.len() ==> handler::announced(
            caps.push(cap),
        )[handler::announced(caps).len() + 1 + i] == "  "@ + cap.tools[i].name + " ("@
            + cap.tools[i].transfer + ")"@,
{
    assert(caps.push(cap).drop_last() =~= caps);
    assert(handler::announced(caps.push(cap)).subrange(0, handler::announced(caps).len() as int)
        =~= handler::announced(caps));
}

/// The popup offers commands, in their order, exactly those that start with what was typed; and it
/// offers nothing before a slash and a character were typed.
pub proof fn law_the_popup_offers_commands_only(input: Seq<char>)
    ensures
        text::views(handler::SLASH_COMMANDS@) == seq![
            "/help"@,
            "/exit"@,
            "/new"@,
            "/sessions"@,
            "/cancel"@,
            "/login"@,
            "/logout"@,
            "/whoami"@,
            "/usage"@,
            "/tools"@,
        ],
        text::trimmed(input).len() < 2 || text::trimmed(input)[0] != '/' ==> handler::completions(
            input,
        ).len() == 0,
        text::trimmed(input).len() >= 2 && text::trimmed(input)[0] == '/' ==> handler::completions(
            input,
        ) == text::views(handler::SLASH_COMMANDS@).filter(
            |c: Seq<char>| text::begins_with(c, text::trimmed(input)),
        ),
{
    lemma_offered(text::views(handler::SLASH_COMMANDS@), text::trimmed(input));
    assert(text::views(handler::SLASH_COMMANDS@) =~= seq![
        "/help"@,
        "/exit"@,
        "/new"@,
        "/sessions"@,
        "/cancel"@,
        "/login"@,
        "/logout"@,
        "/whoami"@,
        "/usage"@,
        "/tools"@,
    ]);
}

proof fn lemma_offered(commands: Seq<Seq<char>>, typed: Seq<char>)
    ensures
        handler::starting_with(commands, typed) == commands.filter(
            |c: Seq<char>| text::begins_with(c, typed),
        ),
    decreases commands.len(),
{
    reveal(Seq::filter);
    if commands.len() > 0 {
        lemma_offered(commands.drop_last(), typed);
    } else {
        assert(commands.filter(|c: Seq<char>| text::begins_with(c, typed)) =~= commands);
    }
}

// ── Scrolling ──────────────────────────────────────────────────

/// The chat scrolled up so many rows: from the end, that many; from elsewhere, that many more.
pub open spec fn up_by(a: AppView, n: int) -> AppView {
    AppView {
        at_end: false,
        scroll: if a.at_end {
            n as usize
        } else if a.scroll + n > usize::MAX {
            usize::MAX
        } else {
            (a.scroll + n) as usize
        },
        ..a
    }
}

/// The chat scrolled down so many rows: that many fewer, and at the end where there are none left.
pub open spec fn down_by(a: AppView, n: int) -> AppView {
    if a.at_end {
        a
    } else if a.scroll > n {
        AppView { scroll: (a.scroll - n) as usize, ..a }
    } else {
        AppView { at_end: true, scroll: 0, ..a }
    }
}

/// The arrows scroll the chat by three rows and the page keys by ten; Home goes to the start, and End
/// to the end.
pub proof fn law_the_chat_scrolls_by_rows_and_pages(a: AppView, m: KeyModifiers)
    requires
        a.focus == Focus::Chat,
    ensures
        !m.control ==> a.keyed(KeyCode::Up, m) == up_by(a, 3),
        !m.control ==> a.keyed(KeyCode::Down, m) == down_by(a, 3),
        a.keyed(KeyCode::PageUp, m) == up_by(a, 10),
        a.keyed(KeyCode::PageDown, m) == down_by(a, 10),
        a.keyed(KeyCode::Home, m) == (AppView { at_end: false, scroll: 9999, ..a }),
        a.keyed(KeyCode::End, m) == (AppView { at_end: true, scroll: 0, ..a }),
{
    reveal(AppView::chatted);
}

/// Ctrl with an arrow scrolls the input box by a row, between its start and its end.
pub proof fn law_control_scrolls_the_input(a: AppView, m: KeyModifiers)
    requires
        a.focus == Focus::Chat,
        m.control,
    ensures
        ({
            let at = if a.input_scroll == usize::MAX {
                a.input_max_scroll
            } else {
                a.input_scroll
            };
            &&& a.keyed(KeyCode::Up, m) == (AppView {
                input_scroll: if at == 0 {
                    0
                } else {
                    (at - 1) as usize
                },
                ..a
            })
            &&& a.keyed(KeyCode::Down, m) == (AppView {
                input_scroll: if at + 1 <= a.input_max_scroll {
                    (at + 1) as usize
                } else {
                    a.input_max_scroll
                },
                ..a
            })
        }),
{
    reveal(AppView::chatted);
}

/// Escape asks for the turn to be stopped while one runs, and does nothing otherwise; keys that mean
/// nothing do nothing.
pub proof fn law_escape_stops_a_running_turn(a: AppView, m: KeyModifiers)
    requires
        a.focus == Focus::Chat,
    ensures
        a.chat.running ==> a.keyed(KeyCode::Esc, m) == (AppView {
            actions: a.actions.push(ActionView::Cancel),
            ..a
        }),
        !a.chat.running ==> a.keyed(KeyCode::Esc, m) == a,
        a.keyed(KeyCode::Other, m) == a,
{
    reveal(AppView::chatted);
}

// ── The sidebar ────────────────────────────────────────────────

/// A selection in the sidebar, with the list scrolled just as far as it takes to show it among
/// twelve lines.
pub open spec fn selecting(a: AppView, sel: int) -> AppView {
    AppView {
        sidebar_sel: sel as usize,
        sidebar_scroll: if sel < a.sidebar_scroll {
            sel as usize
        } else if sel > a.sidebar_scroll + 11 {
            (sel - 11) as usize
        } else {
            a.sidebar_scroll
        },
        ..a
    }
}

/// Up and Down move the selection by one line and no further than the first and the last; the list
/// scrolls no more than it takes.
pub proof fn law_the_arrows_move_the_selection_by_one(a: AppView, m: KeyModifiers)
    requires
        a.focus == Focus::Sidebar,
        a.sidebar_items.len() <= usize::MAX,
    ensures
        a.sidebar_sel > 0 ==> a.keyed(KeyCode::Up, m) == selecting(a, a.sidebar_sel - 1),
        a.sidebar_sel == 0 ==> a.keyed(KeyCode::Up, m) == a,
        a.sidebar_sel + 1 < a.sidebar_items.len() ==> a.keyed(KeyCode::Down, m) == selecting(
            a,
            a.sidebar_sel + 1,
        ),
        a.sidebar_sel + 1 >= a.sidebar_items.len() ==> a.keyed(KeyCode::Down, m) == a,
{
    reveal(AppView::steered);
    reveal(AppView::clamped);
}

/// The state after the line `i` of the sidebar was acted on, as far as it follows from the line
/// alone: a session's line queues the opening of that very session, the last line queues a new one,
/// and a header expands a collapsed project and collapses an expanded one.
pub open spec fn acted_on(a: AppView, i: int, b: AppView) -> bool {
    match a.sidebar_items[i] {
        ItemView::Session { id, .. } => b == (AppView {
            actions: a.actions.push(ActionView::Open(id)),
            ..a
        }),
        ItemView::NewSession => b == (AppView {
            actions: a.actions.push(ActionView::Create),
            ..a
        }),
        ItemView::ProjectHeader { id, expanded, .. } => {
            let c = AppView { expanded_projects: b.expanded_projects, ..a };
            &&& b.expanded_projects.contains(id) == !expanded
            &&& forall|other: Seq<char>|
                other != id ==> (#[trigger] b.expanded_projects.contains(other)
                    <==> a.expanded_projects.contains(other))
            &&& b == (AppView {
                sidebar_items: c.sidebar(),
                sidebar_sel: b.sidebar_sel,
                sidebar_scroll: b.sidebar_scroll,
                ..c
            })
            &&& a.sidebar_sel < c.sidebar().len() <= usize::MAX ==> b.sidebar_sel == a.sidebar_sel
        },
    }
}

proof fn lemma_activated(a: AppView)
    requires
        a.sidebar_sel < a.sidebar_items.len(),
    ensures
        acted_on(a, a.sidebar_sel as int, a.activated()),
{
    reveal(AppView::activated);
    reveal(AppView::rebuilt);
}

/// Enter and Right act on the selected line, and on no other.
pub proof fn law_enter_acts_on_the_selected_line(a: AppView, m: KeyModifiers)
    requires
        a.focus == Focus::Sidebar,
    ensures
        a.sidebar_sel < a.sidebar_items.len() ==> acted_on(
            a,
            a.sidebar_sel as int,
            a.keyed(KeyCode::Enter, m),
        ),
        a.keyed(KeyCode::Right, m) == a.keyed(KeyCode::Enter, m),
        a.sidebar_sel >= a.sidebar_items.len() ==> a.keyed(KeyCode::Enter, m) == a,
{
    reveal(AppView::steered);
    if a.sidebar_sel < a.sidebar_items.len() {
        lemma_activated(a);
    } else {
        reveal(AppView::activated);
    }
}

proof fn lemma_nearest_header(items: Seq<ItemView>, h: int, i: int)
    requires
        0 <= h < i <= items.len(),
        items[h] is ProjectHeader,
        forall|j: int| h < j < i ==> !(#[trigger] items[j] is ProjectHeader),
    ensures
        handler::header_before(items, i) == Some((h, items[h]->ProjectHeader_id)),
    decreases i,
{
    if i - 1 > h {
        assert(!(items[i - 1] is ProjectHeader));
        lemma_nearest_header(items, h, i - 1);
    }
}

proof fn lemma_no_header(items: Seq<ItemView>, i: int)
    requires
        0 <= i <= items.len(),
        forall|j: int| 0 <= j < i ==> !(#[trigger] items[j] is ProjectHeader),
    ensures
        handler::header_before(items, i) is None,
    decreases i,
{
    if i > 0 {
        assert(!(items[i - 1] is ProjectHeader));
        lemma_no_header(items, i - 1);
    }
}

/// Left collapses the project of the nearest header above the selection and selects that header; no
/// other project changes, and nothing else does.
pub proof fn law_left_collapses_the_nearest_project_above(a: AppView, h: int, m: KeyModifiers)
    requires
        a.focus == Focus::Sidebar,
        0 <= h < a.sidebar_sel <= a.sidebar_items.len(),
        a.sidebar_items[h] is ProjectHeader,
        forall|j: int| h < j < a.sidebar_sel ==> !(#[trigger] a.sidebar_items[j] is ProjectHeader),
    ensures
        ({
            let b = a.keyed(KeyCode::Left, m);
            let pid = a.sidebar_items[h]->ProjectHeader_id;
            let c = AppView { expanded_projects: b.expanded_projects, ..a };
            &&& b.sidebar_sel == h
            &&& !b.expanded_projects.contains(pid)
            &&& forall|other: Seq<char>|
                other != pid ==> (#[trigger] b.expanded_projects.contains(other)
                    <==> a.expanded_projects.contains(other))
            &&& b == (AppView {
                sidebar_items: c.sidebar(),
                sidebar_sel: h as usize,
                sidebar_scroll: b.sidebar_scroll,
                ..c
            })
        }),
{
    reveal(AppView::steered);
    reveal(AppView::rebuilt);
    lemma_nearest_header(a.sidebar_items, h, a.sidebar_sel as int);
}

/// Without a header above the selection Left does nothing; nor do keys that mean nothing there.
pub proof fn law_other_keys_leave_the_sidebar(a: AppView, m: KeyModifiers, c: char)
    requires
        a.focus == Focus::Sidebar,
        a.sidebar_sel <= a.sidebar_items.len(),
        c != '/',
    ensures
        (forall|j: int| 0 <= j < a.sidebar_sel ==> !(#[trigger] a.sidebar_items[j] is ProjectHeader))
            ==> a.keyed(KeyCode::Left, m) == a,
        a.keyed(KeyCode::Char(c), m) == a,
        a.keyed(KeyCode::Backspace, m) == a,
        a.keyed(KeyCode::Esc, m) == a,
        a.keyed(KeyCode::Home, m) == a,
        a.keyed(KeyCode::End, m) == a,
        a.keyed(KeyCode::PageUp, m) == a,
        a.keyed(KeyCode::PageDown, m) == a,
        a.keyed(KeyCode::Other, m) == a,
{
    reveal(AppView::steered);
    if forall|j: int| 0 <= j < a.sidebar_sel ==> !(#[trigger] a.sidebar_items[j] is ProjectHeader) {
        lemma_no_header(a.sidebar_items, a.sidebar_sel as int);
    }
}

// ── The mouse ──────────────────────────────────────────────────

/// A left click in the sidebar acts on the line that is drawn under it: the list is drawn from the
/// third row on, from the offset it is scrolled to. The selection moves to that line, and it is acted
/// on as by Enter.
pub proof fn law_a_click_acts_on_the_line_under_it(a: AppView, column: u16, row: u16)
    requires
        column < 30,
        row >= 2,
        (row - 2) + a.sidebar_scroll < a.sidebar_items.len(),
        a.sidebar_items.len() <= usize::MAX,
    ensures
        ({
            let i = (row - 2) + a.sidebar_scroll;
            let b = AppView { focus: Focus::Sidebar, sidebar_sel: i as usize, ..a };
            let c = a.moused(column, row, MouseEventKind::Down(MouseButton::Left));
            &&& acted_on(b, i, c)
            &&& c.focus == Focus::Sidebar
            &&& a.sidebar_items[i] matches ItemView::Session { id, .. } ==> c == (AppView {
                focus: Focus::Sidebar,
                sidebar_sel: i as usize,
                actions: a.actions.push(ActionView::Open(id)),
                ..a
            })
            &&& a.sidebar_items[i] is NewSession ==> c == (AppView {
                focus: Focus::Sidebar,
                sidebar_sel: i as usize,
                actions: a.actions.push(ActionView::Create),
                ..a
            })
        }),
{
    reveal(AppView::clicked);
    let i = (row - 2) + a.sidebar_scroll;
    let b = AppView { focus: Focus::Sidebar, sidebar_sel: i as usize, ..a };
    lemma_activated(b);
}

/// A click on the two rows above the list counts as one on its first line; a click below its last
/// line only gives the sidebar the focus; a click beside it only gives the chat the focus.
pub proof fn law_a_click_beside_the_list(a: AppView, column: u16, row: u16)
    requires
        a.sidebar_items.len() <= usize::MAX,
    ensures
        column < 30 && row < 2 ==> a.moused(column, row, MouseEventKind::Down(MouseButton::Left))
            == a.moused(column, 2, MouseEventKind::Down(MouseButton::Left)),
        column < 30 && row >= 2 && (row - 2) + a.sidebar_scroll >= a.sidebar_items.len()
            ==> a.moused(column, row, MouseEventKind::Down(MouseButton::Left)) == (AppView {
            focus: Focus::Sidebar,
            ..a
        }),
        column >= 30 ==> a.moused(column, row, MouseEventKind::Down(MouseButton::Left))
            == (AppView { focus: Focus::Chat, ..a }),
        a.moused(column, row, MouseEventKind::Down(MouseButton::Right)) == a,
        a.moused(column, row, MouseEventKind::Down(MouseButton::Middle)) == a,
        a.moused(column, row, MouseEventKind::Other) == a,
{
    reveal(AppView::clicked);
}

/// The wheel over the chat scrolls it by three rows; over the sidebar it scrolls the list by three
/// lines, between its first and its last, and moves the selection no further than to keep it among
/// the twelve lines that show.
pub proof fn law_the_wheel_scrolls_what_is_under_it(a: AppView, column: u16, row: u16)
    requires
        0 < a.sidebar_items.len() <= usize::MAX - 12,
    ensures
        column >= 30 ==> a.moused(column, row, MouseEventKind::ScrollUp) == up_by(a, 3),
        column >= 30 ==> a.moused(column, row, MouseEventKind::ScrollDown) == down_by(a, 3),
        column < 30 ==> ({
            let n = a.sidebar_items.len() as int;
            let down = if a.sidebar_scroll + 3 > n - 1 {
                n - 1
            } else {
                a.sidebar_scroll + 3
            };
            let up = if a.sidebar_scroll < 3 {
                0
            } else {
                a.sidebar_scroll - 3
            };
            let rows = if n < 12 {
                n
            } else {
                12
            };
            &&& a.moused(column, row, MouseEventKind::ScrollDown) == (AppView {
                sidebar_scroll: down as usize,
                sidebar_sel: if a.sidebar_sel < down {
                    down as usize
                } else if a.sidebar_sel > down + rows - 1 {
                    (down + rows - 1) as usize
                } else {
                    a.sidebar_sel
                },
                ..a
            })
            &&& a.moused(column, row, MouseEventKind::ScrollUp) == (AppView {
                sidebar_scroll: up as usize,
                sidebar_sel: if a.sidebar_sel > up + 11 {
                    (up + 11) as usize
                } else {
                    a.sidebar_sel
                },
                ..a
            })
        }),
{
    reveal(AppView::list_down);
    reveal(AppView::list_up);
}

/// Tab changes the pane that has the focus, and nothing else, unless the chat has a suggestion to
/// take.
pub proof fn law_tab_changes_the_focus(a: AppView, m: KeyModifiers)
    requires
        a.focus == Focus::Sidebar || a.autocomplete_suggestions.len() == 0,
    ensures
        a.keyed(KeyCode::Tab, m) == (AppView {
            focus: if a.focus == Focus::Chat {
                Focus::Sidebar
            } else {
                Focus::Chat
            },
            ..a
        }),
{
}

} // verus!
