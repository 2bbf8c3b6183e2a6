//! What the agent is told about this machine on a session this client started.
//!
//! The brief goes into the preamble of a new session: system instructions for the session alone,
//! appended to the agent's own on every turn. Sessions started by older clients carry it in front
//! of their first message instead, which is what [`SENTINEL`] and [`strip`] are for.

use crate::text;
use vstd::prelude::*;

verus! {

/// Separates the brief from a message that follows it.
pub const SENTINEL: &'static str =
    "\n──── end of node brief; the user's message follows ────\n\n";

pub const OPENING: &'static str =
    "You are talking with a person working in attacca-cli: a terminal client that runs as a Zyris node on their own computer.\n\n";

pub const NODE_IS: &'static str = "That node is \"";

pub const NODE_ACTS: &'static str =
    "\", and the capabilities it announces act on *that* machine — the one this person is sitting at:\n\n";

pub const FILE_IO: &'static str = "- `file_io` — stat, list, read, write, remove, mkdir.\n";

pub const TERMINAL: &'static str =
    "- `terminal` — `exec` for one-shot commands, plus `open`/`write`/`resize`/`close` for an interactive PTY.\n";

pub const ROOT_FOR: &'static str = "\nThe working directory for ";

pub const BOTH: &'static str = "both of them";

pub const FILES_ONLY: &'static str = "`file_io`";

pub const ROOT_IS: &'static str = " is:\n\n    ";

pub const RELATIVE: &'static str =
    "\n\nA relative path resolves against that directory, so `src/main.rs` means the file of that name inside it";

pub const EXEC_CWD: &'static str = ", and `exec` starts each command there unless you pass a `cwd`";

pub const ABSOLUTE: &'static str =
    ". Absolute paths are honoured as given and reach the rest of the filesystem, so use a relative path when you mean the person's project and an absolute one only when you genuinely mean elsewhere.\n\n";

pub const DEFAULTS: &'static str =
    "Use these by default. When this person says \"this file\", \"my project\", or \"run the tests\", they mean on that node — not on any other machine on the account, and not hypothetically. Its tools are the ones carrying its name; another node is another computer, so do not reach for one by mistake.\n\n";

pub const READ_FIRST: &'static str =
    "Read before you write. Prefer `file_io` over shelling out to `cat`, `ls` or `sed`: it reports failures properly instead of burying them in a shell's stderr.\n\n";

pub const IMMEDIATE: &'static str =
    "These calls run immediately, with no confirmation step in front of them, so treat anything destructive or irreversible as something to propose first and run only once the person has agreed.\n";

/// What this node offers, as the agent should hear it.
#[derive(Debug, Clone)]
pub struct NodeBrief {
    pub node_name: String,
    pub file_root: String,
    /// Whether `terminal` is announced. A brief must not promise a capability the node does not
    /// serve.
    pub terminal: bool,
}

/// A [`NodeBrief`] in the abstract.
#[verifier::ext_equal]
pub struct BriefView {
    pub node_name: Seq<char>,
    pub file_root: Seq<char>,
    pub terminal: bool,
}

impl View for NodeBrief {
    type V = BriefView;

    open spec fn view(&self) -> BriefView {
        BriefView {
            node_name: self.node_name@,
            file_root: self.file_root@,
            terminal: self.terminal,
        }
    }
}

/// `s` when the node serves a terminal, nothing otherwise.
pub open spec fn with_terminal(terminal: bool, s: Seq<char>) -> Seq<char> {
    if terminal {
        s
    } else {
        Seq::empty()
    }
}

impl BriefView {
    /// The brief up to the sentinel.
    pub open spec fn body(self) -> Seq<char> {
        let which = if self.terminal {
            BOTH@
        } else {
            FILES_ONLY@
        };
        OPENING@ + NODE_IS@ + self.node_name + NODE_ACTS@ + FILE_IO@ + with_terminal(
            self.terminal,
            TERMINAL@,
        ) + ROOT_FOR@ + which + ROOT_IS@ + self.file_root + RELATIVE@ + with_terminal(
            self.terminal,
            EXEC_CWD@,
        ) + ABSOLUTE@ + DEFAULTS@ + READ_FIRST@ + with_terminal(self.terminal, IMMEDIATE@)
    }

    /// The whole brief.
    pub open spec fn preamble(self) -> Seq<char> {
        self.body() + SENTINEL@
    }
}

impl NodeBrief {
    /// The brief, for the preamble of a new session.
    pub fn preamble(&self) -> (s: String)
        ensures
            s@ == self@.preamble(),
    {
        let mut s = OPENING.to_owned();
        s.append(NODE_IS);
        s.append(self.node_name.as_str());
        s.append(NODE_ACTS);
        s.append(FILE_IO);
        if self.terminal {
            s.append(TERMINAL);
        }
        s.append(ROOT_FOR);
        if self.terminal {
            s.append(BOTH);
        } else {
            s.append(FILES_ONLY);
        }
        s.append(ROOT_IS);
        s.append(self.file_root.as_str());
        s.append(RELATIVE);
        if self.terminal {
            s.append(EXEC_CWD);
        }
        s.append(ABSOLUTE);
        s.append(DEFAULTS);
        s.append(READ_FIRST);
        if self.terminal {
            s.append(IMMEDIATE);
        }
        assert(s@ =~= self@.body());
        s.append(SENTINEL);
        s
    }
}

/// A message without the brief in front of it: what follows the first sentinel, left-trimmed, or
/// the whole message where there is no sentinel.
pub open spec fn stripped(text: Seq<char>) -> Seq<char> {
    match text::first_at(text, SENTINEL@) {
        Some(i) => text::left_trimmed(text.skip(i + SENTINEL@.len())),
        None => text,
    }
}

/// Drop a brief from the front of a message for display.
///
/// Returns the text unchanged when there is no brief, so it is safe to run over every user message,
/// including history from sessions this client never touched.
pub fn strip(text: &str) -> (r: &str)
    ensures
        r@ == stripped(text@),
{
    match text::find(text, SENTINEL) {
        Some(i) => {
            proof {
                text::lemma_first_from(text@, SENTINEL@, 0);
            }
            let n: usize = text.unicode_len();
            let m: usize = SENTINEL.unicode_len();
            let rest = text.substring_char(i + m, n);
            assert(rest@ =~= text@.skip(i + SENTINEL@.len()));
            text::trim_start(rest)
        },
        None => text,
    }
}

/// Stripping undoes the brief: of a brief followed by a message, the message is left, without the
/// white space it starts with. The one brief for which this fails is one whose own text (through
/// the node's name or its directory) already holds the sentinel.
pub proof fn law_strip_recovers_the_message(brief: BriefView, message: Seq<char>)
    requires
        forall|i: int|
            0 <= i < brief.body().len() ==> !#[trigger] text::occurs_at(brief.preamble(), SENTINEL@, i),
    ensures
        stripped(brief.preamble() + message) == text::left_trimmed(message),
{
    let pre = brief.preamble();
    let sent = pre + message;
    let n = brief.body().len() as int;
    assert(sent.subrange(n, n + SENTINEL@.len()) =~= SENTINEL@);
    assert forall|j: int| 0 <= j < n implies !#[trigger] text::occurs_at(sent, SENTINEL@, j) by {
        assert(!text::occurs_at(pre, SENTINEL@, j));
        assert(sent.subrange(j, j + SENTINEL@.len()) =~= pre.subrange(j, j + SENTINEL@.len()));
    }
    text::lemma_first_is(sent, SENTINEL@, n);
    assert(sent.skip(n + SENTINEL@.len()) =~= message);
}

/// A message that holds no sentinel is left alone.
pub proof fn law_strip_leaves_an_ordinary_message_alone(message: Seq<char>)
    requires
        !text::holds(message, SENTINEL@),
    ensures
        stripped(message) == message,
{
    text::lemma_first_from(message, SENTINEL@, 0);
}

/// The brief names the node and its directory, and ends with the sentinel.
pub proof fn law_the_brief_names_the_node_and_its_directory(brief: BriefView)
    ensures
        text::holds(brief.preamble(), brief.node_name),
        text::holds(brief.preamble(), brief.file_root),
        text::finishes_with(brief.preamble(), SENTINEL@),
{
    let pre = brief.preamble();
    let i = (OPENING@ + NODE_IS@).len() as int;
    assert(pre.subrange(i, i + brief.node_name.len()) =~= brief.node_name);
    assert(text::occurs_at(pre, brief.node_name, i));
    let which = if brief.terminal {
        BOTH@
    } else {
        FILES_ONLY@
    };
    let head = OPENING@ + NODE_IS@ + brief.node_name + NODE_ACTS@ + FILE_IO@ + with_terminal(
        brief.terminal,
        TERMINAL@,
    ) + ROOT_FOR@ + which + ROOT_IS@;
    let j = head.len() as int;
    assert(pre.subrange(j, j + brief.file_root.len()) =~= brief.file_root);
    assert(text::occurs_at(pre, brief.file_root, j));
    assert(pre.skip(pre.len() - SENTINEL@.len()) =~= SENTINEL@);
}

/// The brief promises a terminal exactly where the node serves one, and files in any case.
pub proof fn law_the_brief_promises_what_is_served(brief: BriefView)
    ensures
        brief.terminal ==> brief.preamble() == OPENING@ + NODE_IS@ + brief.node_name + NODE_ACTS@
            + FILE_IO@ + TERMINAL@ + ROOT_FOR@ + BOTH@ + ROOT_IS@ + brief.file_root + RELATIVE@
            + EXEC_CWD@ + ABSOLUTE@ + DEFAULTS@ + READ_FIRST@ + IMMEDIATE@ + SENTINEL@,
        !brief.terminal ==> brief.preamble() == OPENING@ + NODE_IS@ + brief.node_name + NODE_ACTS@
            + FILE_IO@ + ROOT_FOR@ + FILES_ONLY@ + ROOT_IS@ + brief.file_root + RELATIVE@
            + ABSOLUTE@ + DEFAULTS@ + READ_FIRST@ + SENTINEL@,
{
    if !brief.terminal {
        assert(brief.preamble() =~= OPENING@ + NODE_IS@ + brief.node_name + NODE_ACTS@ + FILE_IO@
            + ROOT_FOR@ + FILES_ONLY@ + ROOT_IS@ + brief.file_root + RELATIVE@ + ABSOLUTE@
            + DEFAULTS@ + READ_FIRST@ + SENTINEL@);
    }
}

/// What follows the first sentinel is what is shown of a message, without white space in front.
pub proof fn law_what_follows_the_sentinel_is_shown(front: Seq<char>, rest: Seq<char>)
    requires
        text::first_at(front + SENTINEL@ + rest, SENTINEL@) == Some(front.len() as int),
    ensures
        stripped(front + SENTINEL@ + rest) == text::left_trimmed(rest),
{
    let all = front + SENTINEL@ + rest;
    assert(all.skip(front.len() as int + SENTINEL@.len()) =~= rest);
}

} // verus!
