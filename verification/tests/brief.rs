//! The brief about this node, and taking it off again.

use attacca::brief::{strip, NodeBrief, SENTINEL};

fn brief() -> NodeBrief {
    NodeBrief {
        node_name: "build-box".into(),
        file_root: "/home/ada/project".into(),
        terminal: true,
    }
}

#[test]
fn the_brief_names_the_node_and_its_working_directory() {
    let text = brief().preamble();
    assert!(text.contains("build-box"));
    assert!(text.contains("/home/ada/project"));
    assert!(text.contains("working directory"));
    assert!(text.contains("file_io"));
    assert!(text.contains("terminal"));
    assert!(text.ends_with(SENTINEL));
}

/// With a terminal, the root is the cwd for *both* tools, so the brief may say so.
#[test]
fn the_working_directory_covers_both_tools_when_a_terminal_is_served() {
    let text = brief().preamble();
    assert!(text.contains("both of them"), "{text}");
    assert!(text.contains("`cwd`"), "exec's cwd override is worth knowing about");
}

/// Promising `terminal` when the node does not serve it would earn a `capability_not_announced`.
#[test]
fn a_node_without_a_terminal_does_not_advertise_one() {
    let text = NodeBrief { terminal: false, ..brief() }.preamble();
    assert!(!text.contains("`terminal`"));
    assert!(!text.contains("PTY"));
    assert!(!text.contains("both of them"));
    assert!(text.contains("file_io"));
    assert!(text.contains("/home/ada/project"));
}

/// The root is no jail: `..` and absolute paths pass through. Saying otherwise would have the
/// agent trusting a boundary that is not there.
#[test]
fn the_brief_does_not_claim_a_confinement_that_no_longer_exists() {
    for text in [brief().preamble(), NodeBrief { terminal: false, ..brief() }.preamble()] {
        assert!(!text.to_lowercase().contains("confined"), "{text}");
        assert!(!text.to_lowercase().contains("refused"), "{text}");
        assert!(text.contains("Absolute paths are honoured"), "{text}");
    }
}

/// The point of the sentinel: the durable `user_message` event carries brief *and* message, and
/// only the message may reach the screen.
#[test]
fn strip_recovers_only_the_users_own_text() {
    let sent = format!("{}{}", brief().preamble(), "what is in main.rs?");
    assert_eq!(strip(&sent), "what is in main.rs?");
}

#[test]
fn strip_leaves_an_ordinary_message_alone() {
    assert_eq!(strip("just a message"), "just a message");
    assert_eq!(strip(""), "");
}

#[test]
fn strip_keeps_a_multiline_message_intact() {
    let sent = format!("{}{}", brief().preamble(), "line one\n\nline two");
    assert_eq!(strip(&sent), "line one\n\nline two");
}
