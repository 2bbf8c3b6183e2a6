//! The classic layout.

use attacca::app::SidebarItem;
use attacca::classic::{draw, draw_chat, short_name, ClassicApp, ClassicMsg};
use attacca::screen::{rect, Line, Widget};

fn app() -> ClassicApp {
    ClassicApp {
        msgs: vec![],
        busy: false,
        sid: None,
        key: String::new(),
        sidebar_items: vec![SidebarItem::NewSession],
        sel: 0,
        sidebar_scroll: 0,
        scroll: usize::MAX,
        input: String::new(),
    }
}

fn msg(role: &str, text: &str) -> ClassicMsg {
    ClassicMsg { role: role.into(), text: text.into(), done: false }
}

fn text(line: &Line) -> String {
    line.spans.iter().map(|s| s.text.as_str()).collect()
}

fn texts(w: &Widget) -> Vec<String> {
    match w {
        Widget::Paragraph { lines, .. } => lines.iter().map(text).collect(),
        Widget::List { items, .. } => items.iter().map(text).collect(),
        Widget::Scrolled { lines, .. } => lines.iter().map(text).collect(),
        Widget::Scrollbar { .. } => vec![],
    }
}

fn chat(app: &ClassicApp, height: u16) -> (Vec<String>, u16) {
    let w = draw_chat(app, rect(28, 1, 52, height));
    let offset = match &w {
        Widget::Scrolled { offset, .. } => *offset,
        _ => panic!("expected scrolled rows"),
    };
    (texts(&w), offset)
}

#[test]
fn a_small_classic_screen_stays_empty() {
    assert!(draw(&app(), rect(0, 0, 49, 40)).is_empty());
    assert!(draw(&app(), rect(0, 0, 80, 9)).is_empty());
}

#[test]
fn an_idle_classic_screen_shows_its_hints() {
    let out = draw(&app(), rect(0, 0, 80, 24));
    assert_eq!(texts(&out[1]), vec![" ◆ attacca ● ready  ✗ no key".to_string()]);
    let all: Vec<String> = out.iter().flat_map(texts).collect();
    assert!(all.contains(&" ◆ sessions".to_string()));
    assert!(all.contains(&" ▸ + new".to_string()));
    assert!(all.contains(&"  ↑↓ scroll · enter open".to_string()));
    assert!(all.contains(&"  ◆  enter:send · y/n:tool · /exit\n".to_string()));
    assert!(all.contains(&"─".repeat(80)));
    assert!(all.contains(&" > type a message…".to_string()));
    assert!(out
        .iter()
        .any(|w| matches!(w, Widget::List { area, .. } if *area == rect(3, 2, 25, 17))));
}

#[test]
fn a_busy_classic_screen_says_so() {
    let mut a = app();
    a.busy = true;
    a.key = "k".into();
    a.sid = Some("abcdefghij".into());
    let out = draw(&a, rect(0, 0, 80, 24));
    assert_eq!(texts(&out[1]), vec![" ◆ attacca ◉ running  abcdefgh  ✓ connected".to_string()]);
    let all: Vec<String> = out.iter().flat_map(texts).collect();
    assert!(all.contains(&" ◉ waiting…".to_string()));
    a.input = "hi".into();
    let all: Vec<String> = draw(&a, rect(0, 0, 80, 24)).iter().flat_map(texts).collect();
    assert!(all.contains(&" ◉ hi█".to_string()));
}

#[test]
fn each_role_has_its_look() {
    let mut a = app();
    a.msgs = vec![
        msg("sys", "note"),
        msg("user", "one\ntwo"),
        msg("agent", "reply\nmore"),
        msg("tool", "run ls"),
        msg("result", "fine\nhidden"),
        msg("result", "err: gone"),
        msg("result", "skipped"),
        msg("other", "nothing"),
    ];
    let (rows, offset) = chat(&a, 40);
    assert_eq!(
        rows,
        vec![
            " ── note".to_string(),
            " ── you".to_string(),
            " │ one".to_string(),
            " │ two".to_string(),
            " assistant".to_string(),
            " reply".to_string(),
            " more".to_string(),
            " ◆ run ls".to_string(),
            "    [y] run  [n] skip".to_string(),
            "   ✔ fine".to_string(),
            "   ✖ err: gone".to_string(),
            "   ✖ skipped".to_string(),
        ]
    );
    assert_eq!(offset, 0);
    a.msgs[3].done = true;
    assert_eq!(chat(&a, 40).0.len(), 10);
}

#[test]
fn the_agent_thinks_after_a_question() {
    let mut a = app();
    a.busy = true;
    a.msgs = vec![msg("user", "hi")];
    assert_eq!(chat(&a, 40).0.last().map(|s| s.as_str()), Some(" ◉ thinking…"));
    a.msgs.push(msg("agent", "reply"));
    assert_eq!(chat(&a, 40).0.last().map(|s| s.as_str()), Some(" reply"));
}

#[test]
fn the_classic_chat_follows_its_end_unless_scrolled() {
    let mut a = app();
    a.msgs = (0..10).map(|i| msg("sys", &format!("line {i}"))).collect();
    assert_eq!(chat(&a, 5).1, 6);
    a.scroll = 2;
    assert_eq!(chat(&a, 5).1, 2);
    a.scroll = 8;
    assert_eq!(chat(&a, 5).1, 6);
    assert_eq!(chat(&a, 11).1, 0);
}

#[test]
fn classic_names_end_in_an_ellipsis() {
    assert_eq!(short_name("abc", 3), "abc");
    assert_eq!(short_name("abcd", 3), "ab…");
    assert_eq!(short_name("ab", 0), "…");
}

#[test]
fn the_classic_sidebar_lists_projects_and_sessions() {
    let mut a = app();
    a.sidebar_items = vec![
        SidebarItem::ProjectHeader {
            id: "p".into(),
            name: "Default".into(),
            expanded: true,
            session_count: 2,
        },
        SidebarItem::Session { title: "One".into(), id: "s1".into(), active: true, running: false },
        SidebarItem::Session { title: "Two".into(), id: "s2".into(), active: false, running: true },
        SidebarItem::NewSession,
    ];
    a.sidebar_scroll = 0;
    let list = |a: &ClassicApp| -> Vec<String> {
        let out = draw(a, rect(0, 0, 80, 24));
        let w = out.iter().find(|w| matches!(w, Widget::List { .. })).expect("a list");
        texts(w)
    };
    assert_eq!(
        list(&a),
        vec![
            " ▾ Default 2".to_string(),
            "  ● One".to_string(),
            "  ○ Two".to_string(),
            "   + new".to_string(),
        ]
    );
    a.sidebar_scroll = 3;
    a.sel = 3;
    assert_eq!(list(&a), vec![" ▸ + new".to_string()]);
}
