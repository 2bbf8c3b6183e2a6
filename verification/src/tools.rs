//! Local tools that an agent asks for in fenced blocks: finding the blocks, deciding what they ask
//! for, and wording what came of it.

use crate::bytes;
use crate::json;
use crate::json::{Json, Tree};
use crate::text;
use vstd::prelude::*;

verus! {

broadcast use {text::lemma_views_push, text::lemma_views_empty};

/// Protocol instructions sent to the Attacca agent on first turn.
pub const PROTOCOL: &'static str =
    "\nYou are connected to the user's computer via attacca-cli.\n\nTo access the user's local machine, use ```attacca-tool blocks:\n\n```attacca-tool\n{\"tool\": \"read_file\", \"args\": {\"path\": \"/path/to/file\"} }\n```\n\nAvailable tools:\n- read_file(path) — read any text file\n- write_file(path, content) — write/overwrite\n- list_dir(path) — list directory contents\n- run_command(command) — run shell command (grep, find, git, cat, ls, sed)\n- file_exists(path) — check if exists\n\nAutomatic approval: read_file, and commands starting with \"find\", \"grep\"\nrun without asking. File paths relative to the current directory are\nresolved against the CLI's working directory.\n\nRules: Read before writing. Never invent file contents.";

// ── Blocks ─────────────────────────────────────────────────────

/// What opens a block.
pub open spec fn mark() -> Seq<char> {
    "```attacca-tool"@
}

/// What closes a block.
pub open spec fn fence() -> Seq<char> {
    "```"@
}

/// Where the contents of a block that opens at `s` end: at the next fence, or at the end.
pub open spec fn contents_end(t: Seq<char>, s: int) -> int {
    let from = s + mark().len();
    match text::first_at(t.skip(from), fence()) {
        Some(x) => from + x,
        None => t.len() as int,
    }
}

/// Where a block that opens at `s` ends.
pub open spec fn block_end(t: Seq<char>, s: int) -> int {
    let end = contents_end(t, s);
    if end + fence().len() <= t.len() {
        end + fence().len()
    } else {
        t.len() as int
    }
}

/// The contents of a block that opens at `s`.
pub open spec fn contents(t: Seq<char>, s: int) -> Seq<char> {
    text::trimmed(t.subrange(s + mark().len(), contents_end(t, s)))
}

/// A text without the block that opens at `s`.
pub open spec fn without_block(t: Seq<char>, s: int) -> Seq<char> {
    t.take(s) + t.skip(block_end(t, s))
}

/// What a text comes to: its blocks taken out one after the other, the first one first, until none
/// is left; and the contents of those blocks, after those found before.
pub open spec fn parsed(t: Seq<char>, found: Seq<Seq<char>>) -> (Seq<char>, Seq<Seq<char>>)
    decreases t.len(),
{
    match text::first_at(t, mark()) {
        None => (t, found),
        Some(s) => {
            proof {
                lemma_block(t, s);
            }
            parsed(without_block(t, s), found.push(contents(t, s)))
        },
    }
}

/// A block lies inside its text, and taking it out leaves less.
pub proof fn lemma_block(t: Seq<char>, s: int)
    requires
        text::first_at(t, mark()) == Some(s),
    ensures
        0 <= s,
        s + mark().len() <= contents_end(t, s) <= block_end(t, s) <= t.len(),
        without_block(t, s).len() < t.len(),
        mark().len() == 15,
        fence().len() == 3,
{
    reveal_strlit("```attacca-tool");
    reveal_strlit("```");
    text::lemma_first_from(t, mark(), 0);
    text::lemma_first_from(t.skip(s + mark().len()), fence(), 0);
}

/// Extract the tool blocks from agent response text: the text without them, and their contents.
pub fn parse_tools(text: &str) -> (r: (String, Vec<String>))
    ensures
        r.0@ == text::trimmed(parsed(text@, Seq::empty()).0),
        text::views(r.1@) == parsed(text@, Seq::empty()).1,
{
    let mut tools: Vec<String> = Vec::new();
    let mut clean: String = text.to_owned();
    let ghost mut left: nat = clean@.len();
    loop
        invariant
            left == clean@.len(),
            parsed(clean@, text::views(tools@)) == parsed(text@, Seq::empty()),
        ensures
            text::first_at(clean@, mark()) is None,
        decreases left,
    {
        let start = text::find(clean.as_str(), "```attacca-tool");
        let s: usize = match start {
            Some(s) => s,
            None => {
                break ;
            },
        };
        proof {
            lemma_block(clean@, s as int);
        }
        let t = clean.as_str();
        let n: usize = t.unicode_len();
        let cs: usize = s + 15;
        let rest = t.substring_char(cs, n);
        assert(rest@ =~= t@.skip(cs as int));
        let end: usize = match text::find(rest, "```") {
            Some(x) => cs + x,
            None => n,
        };
        assert(end == contents_end(t@, s as int));
        let inner = text::trim(t.substring_char(cs, end)).to_owned();
        let stop: usize = if n - end >= 3 {
            end + 3
        } else {
            n
        };
        let head = t.substring_char(0, s);
        let tail = t.substring_char(stop, n);
        let shorter = text::cat(head, tail);
        assert(head@ =~= t@.take(s as int));
        assert(tail@ =~= t@.skip(stop as int));
        assert(shorter@ == without_block(t@, s as int));
        tools.push(inner);
        clean = shorter;
        proof {
            left = clean@.len();
        }
    }
    (text::trim(clean.as_str()).to_owned(), tools)
}

// ── What a block asks for ──────────────────────────────────────

/// What a block's text denotes: nothing where it is not JSON.
pub open spec fn described(t: Seq<char>) -> Tree {
    match json::read_json(t) {
        Some(tree) => tree,
        None => Tree::Null,
    }
}

/// The tool that a description names, or `or`.
pub open spec fn tool_in(t: Tree, or: Seq<char>) -> Seq<char> {
    match t.text_at("tool"@) {
        Some(tool) => tool,
        None => or,
    }
}

/// A text argument of a description, or nothing.
pub open spec fn arg_in(t: Tree, key: Seq<char>) -> Seq<char> {
    match t.at("args"@) {
        Some(args) => match args.text_at(key) {
            Some(s) => s,
            None => Seq::empty(),
        },
        None => Seq::empty(),
    }
}

/// Whether a call may run without asking: it reads a file, or finds or greps.
pub open spec fn safe(t: Tree) -> bool {
    let tool = tool_in(t, ""@);
    let command = text::left_trimmed(arg_in(t, "command"@));
    ||| tool == "read_file"@
    ||| tool == "run_command"@ && (text::begins_with(command, "find "@) || text::begins_with(
        command,
        "grep "@,
    ))
}

fn describe(json: &str) -> (j: Json)
    ensures
        j@ == described(json@),
{
    match Json::parse(json) {
        Some(j) => j,
        None => Json::Null,
    }
}

fn tool_of(j: &Json, or: &str) -> (s: String)
    ensures
        s@ == tool_in(j@, or@),
{
    match j.get_text("tool") {
        Some(s) => s.clone(),
        None => or.to_owned(),
    }
}

fn arg_of(j: &Json, key: &str) -> (s: String)
    ensures
        s@ == arg_in(j@, key@),
{
    match j.get("args") {
        Some(args) => match args.get_text(key) {
            Some(s) => s.clone(),
            None => String::new(),
        },
        None => String::new(),
    }
}

/// Whether a described call may run without asking.
pub fn is_safe(call: &Json) -> (r: bool)
    ensures
        r == safe(call@),
{
    let tool = tool_of(call, "");
    if text::same(tool.as_str(), "read_file") {
        return true;
    }
    if !text::same(tool.as_str(), "run_command") {
        return false;
    }
    let arg = arg_of(call, "command");
    let command = text::trim_start(arg.as_str());
    text::starts_with(command, "find ") || text::starts_with(command, "grep ")
}

/// Whether a tool should auto-approve without waiting for y/n.
///
/// Safe tools: `read_file`, and `run_command` starting with `find` or `grep`.
pub fn is_safe_tool(json: &str) -> (r: bool)
    ensures
        r == safe(described(json@)),
{
    let call = describe(json);
    is_safe(&call)
}

// ── Paths ──────────────────────────────────────────────────────

/// Without the slashes at its end.
pub open spec fn without_slashes(s: Seq<char>) -> Seq<char>
    decreases s.len(),
{
    if s.len() > 0 && s.last() == '/' {
        without_slashes(s.drop_last())
    } else {
        s
    }
}

/// Without the slashes at its start.
pub open spec fn after_slashes(s: Seq<char>) -> Seq<char>
    decreases s.len(),
{
    if s.len() > 0 && s[0] == '/' {
        after_slashes(s.skip(1))
    } else {
        s
    }
}

/// Without the `./` at its start, however often it stands there.
pub open spec fn after_dots(s: Seq<char>) -> Seq<char>
    decreases s.len(),
{
    if s.len() >= 2 && s[0] == '.' && s[1] == '/' {
        after_dots(s.skip(2))
    } else {
        s
    }
}

/// A path as seen from a working directory: an absolute path as it is, a relative one inside the
/// directory, and the directory itself where there is none.
pub open spec fn resolved(path: Seq<char>, cwd: Seq<char>) -> Seq<char> {
    if path.len() == 0 {
        cwd
    } else if path[0] == '/' {
        path
    } else {
        without_slashes(cwd) + "/"@ + after_dots(path)
    }
}

/// A string without the slashes at its end.
pub fn trim_end_slashes(s: &str) -> (r: String)
    ensures
        r@ == without_slashes(s@),
{
    let v = text::chars_of(s);
    let mut i: usize = v.len();
    assert(v@.take(i as int) =~= v@);
    while i > 0 && v[i - 1] == '/'
        invariant
            i <= v@.len(),
            without_slashes(v@.take(i as int)) == without_slashes(v@),
        decreases i,
    {
        assert(v@.take(i as int).drop_last() =~= v@.take(i - 1));
        i -= 1;
    }
    let r = text::string_from(&v, 0, i);
    assert(r@ =~= v@.take(i as int));
    r
}

/// A string without the slashes at its start.
pub fn trim_start_slashes(s: &str) -> (r: String)
    ensures
        r@ == after_slashes(s@),
{
    let v = text::chars_of(s);
    let n: usize = v.len();
    let mut i: usize = 0;
    assert(v@.skip(0) =~= v@);
    while i < n && v[i] == '/'
        invariant
            i <= n == v@.len(),
            after_slashes(v@.skip(i as int)) == after_slashes(v@),
        decreases n - i,
    {
        assert(v@.skip(i as int).skip(1) =~= v@.skip(i + 1));
        i += 1;
    }
    let r = text::string_from(&v, i, n);
    assert(r@ =~= v@.skip(i as int));
    r
}

fn trim_start_dots(s: &str) -> (r: String)
    ensures
        r@ == after_dots(s@),
{
    let v = text::chars_of(s);
    let n: usize = v.len();
    let mut i: usize = 0;
    assert(v@.skip(0) =~= v@);
    while n - i >= 2 && v[i] == '.' && v[i + 1] == '/'
        invariant
            i <= n == v@.len(),
            after_dots(v@.skip(i as int)) == after_dots(v@),
        decreases n - i,
    {
        assert(v@.skip(i as int).skip(2) =~= v@.skip(i + 2));
        i += 2;
    }
    let r = text::string_from(&v, i, n);
    assert(r@ =~= v@.skip(i as int));
    r
}

/// Resolve a file path against the current working directory, which is also what an empty path
/// means.
pub fn resolve_path(path: &str, cwd: &str) -> (r: String)
    ensures
        r@ == resolved(path@, cwd@),
{
    if path.unicode_len() == 0 {
        return cwd.to_owned();
    }
    if path.get_char(0) == '/' {
        return path.to_owned();
    }
    let dir = trim_end_slashes(cwd);
    let rest = trim_start_dots(path);
    text::cat3(dir.as_str(), "/", rest.as_str())
}

// ── Calls ──────────────────────────────────────────────────────

/// What a block comes to: something for the surrounding program to do, or an answer.
pub enum ToolCall {
    ReadFile { path: String },
    WriteFile { path: String, content: String },
    ListDir { path: String },
    RunCommand { command: String },
    FileExists { path: String },
    Reply(String),
}

#[verifier::ext_equal]
pub enum ToolCallView {
    ReadFile { path: Seq<char> },
    WriteFile { path: Seq<char>, content: Seq<char> },
    ListDir { path: Seq<char> },
    RunCommand { command: Seq<char> },
    FileExists { path: Seq<char> },
    Reply(Seq<char>),
}

impl View for ToolCall {
    type V = ToolCallView;

    open spec fn view(&self) -> ToolCallView {
        match self {
            ToolCall::ReadFile { path } => ToolCallView::ReadFile { path: path@ },
            ToolCall::WriteFile { path, content } => ToolCallView::WriteFile {
                path: path@,
                content: content@,
            },
            ToolCall::ListDir { path } => ToolCallView::ListDir { path: path@ },
            ToolCall::RunCommand { command } => ToolCallView::RunCommand { command: command@ },
            ToolCall::FileExists { path } => ToolCallView::FileExists { path: path@ },
            ToolCall::Reply(s) => ToolCallView::Reply(s@),
        }
    }
}

/// What a description asks for, from a working directory.
pub open spec fn asked(t: Tree, cwd: Seq<char>) -> ToolCallView {
    let tool = tool_in(t, "?"@);
    let path = resolved(arg_in(t, "path"@), cwd);
    if tool == "read_file"@ {
        ToolCallView::ReadFile { path }
    } else if tool == "write_file"@ {
        ToolCallView::WriteFile { path, content: arg_in(t, "content"@) }
    } else if tool == "list_dir"@ {
        ToolCallView::ListDir { path }
    } else if tool == "run_command"@ {
        ToolCallView::RunCommand { command: arg_in(t, "command"@) }
    } else if tool == "file_exists"@ {
        ToolCallView::FileExists { path }
    } else {
        ToolCallView::Reply("? unknown tool: "@ + tool)
    }
}

/// What a described call asks for.
pub fn call_of(call: &Json, cwd: &str) -> (r: ToolCall)
    ensures
        r@ == asked(call@, cwd@),
{
    let tool = tool_of(call, "?");
    let name = tool.as_str();
    let arg = arg_of(call, "path");
    let path = resolve_path(arg.as_str(), cwd);
    if text::same(name, "read_file") {
        ToolCall::ReadFile { path }
    } else if text::same(name, "write_file") {
        ToolCall::WriteFile { path, content: arg_of(call, "content") }
    } else if text::same(name, "list_dir") {
        ToolCall::ListDir { path }
    } else if text::same(name, "run_command") {
        ToolCall::RunCommand { command: arg_of(call, "command") }
    } else if text::same(name, "file_exists") {
        ToolCall::FileExists { path }
    } else {
        ToolCall::Reply(text::cat("? unknown tool: ", name))
    }
}

/// What a block's JSON description asks for.
pub fn exec_tool(json: &str, cwd: &str) -> (r: ToolCall)
    ensures
        r@ == asked(described(json@), cwd@),
{
    let call = describe(json);
    call_of(&call, cwd)
}

// ── Answers ────────────────────────────────────────────────────

/// The answer to something that failed.
pub open spec fn failed(e: Seq<char>) -> Seq<char> {
    "err: "@ + e
}

/// How many bytes of a file are shown.
pub const READ_LIMIT: usize = 50_000;

/// A file's contents as the answer shows them: the first part of a long one.
pub open spec fn clipped(s: Seq<char>) -> Seq<char> {
    if bytes::byte_len(s) > READ_LIMIT {
        "[truncated to 50k]"@ + bytes::before(s, READ_LIMIT as int)
    } else {
        s
    }
}

/// The answer to a file to read. The place where a long file is cut falls between two of its
/// characters.
pub fn read_file(outcome: Result<String, String>) -> (r: String)
    requires
        outcome matches Ok(s) ==> bytes::byte_len(s@) > READ_LIMIT ==> bytes::at_boundary(
            s@,
            READ_LIMIT as int,
        ),
    ensures
        r@ == (match outcome {
            Ok(s) => clipped(s@),
            Err(e) => failed(e@),
        }),
{
    match outcome {
        Ok(s) => {
            if bytes::len(s.as_str()) > READ_LIMIT {
                let (head, _) = bytes::split(s.as_str(), READ_LIMIT);
                text::cat("[truncated to 50k]", head)
            } else {
                s
            }
        },
        Err(e) => text::cat("err: ", e.as_str()),
    }
}

/// The answer to a file to write.
pub fn write_file(outcome: Result<(), String>) -> (r: String)
    ensures
        r@ == (match outcome {
            Ok(_) => "ok"@,
            Err(e) => failed(e@),
        }),
{
    match outcome {
        Ok(_) => "ok".to_owned(),
        Err(e) => text::cat("err: ", e.as_str()),
    }
}

/// An entry of a directory.
pub struct DirEntry {
    pub name: String,
    pub is_dir: bool,
}

/// How an entry is listed.
pub open spec fn entry_line(name: Seq<char>, is_dir: bool) -> Seq<char> {
    if is_dir {
        "📁 "@ + name
    } else {
        "  "@ + name
    }
}

/// How entries are listed.
pub open spec fn entry_lines(entries: Seq<DirEntry>) -> Seq<Seq<char>> {
    Seq::new(entries.len(), |i: int| entry_line(entries[i].name@, entries[i].is_dir))
}

/// The answer to a directory to list, its entries in the order in which they came.
pub fn list_dir(outcome: Result<Vec<DirEntry>, String>) -> (r: String)
    ensures
        r@ == (match outcome {
            Ok(entries) => text::joined(entry_lines(entries@), "\n"@),
            Err(e) => failed(e@),
        }),
{
    match outcome {
        Ok(entries) => {
            let mut lines: Vec<String> = Vec::new();
            let ghost want = entry_lines(entries@);
            let mut i: usize = 0;
            assert(text::views(lines@) =~= want.take(0));
            while i < entries.len()
                invariant
                    i <= entries@.len(),
                    want == entry_lines(entries@),
                    text::views(lines@) == want.take(i as int),
                decreases entries@.len() - i,
            {
                let e = &entries[i];
                lines.push(
                    text::cat(
                        if e.is_dir {
                            "📁 "
                        } else {
                            "  "
                        },
                        e.name.as_str(),
                    ),
                );
                assert(want.take(i + 1) =~= want.take(i as int).push(want[i as int]));
                i += 1;
            }
            assert(want.take(i as int) =~= want);
            text::join(&lines, "\n")
        },
        Err(e) => text::cat("err: ", e.as_str()),
    }
}

/// The answer to a command to run: what it wrote, and after a mark what it wrote to its error
/// stream, if anything.
pub fn run_cmd(outcome: Result<(String, String), String>) -> (r: String)
    ensures
        r@ == (match outcome {
            Ok((out, err)) => if err@.len() == 0 {
                out@
            } else {
                out@ + "\n[err]\n"@ + err@
            },
            Err(e) => failed(e@),
        }),
{
    match outcome {
        Ok((out, err)) => {
            if err.as_str().unicode_len() == 0 {
                out
            } else {
                text::cat3(out.as_str(), "\n[err]\n", err.as_str())
            }
        },
        Err(e) => text::cat("err: ", e.as_str()),
    }
}

/// The answer to a file to look for.
pub fn file_exists(found: bool) -> (r: String)
    ensures
        r@ == (if found {
            "true"@
        } else {
            "false"@
        }),
{
    if found {
        "true".to_owned()
    } else {
        "false".to_owned()
    }
}

/// Shorten a UUID for display.
pub fn short(s: &str) -> (r: String)
    ensures
        r@ == text::prefix(s@, 8),
{
    text::first_chars(s, 8)
}

// ── Laws ───────────────────────────────────────────────────────

/// What is left of a text opens no block, and a text that opens none is only trimmed.
pub proof fn law_no_block_is_left(t: Seq<char>, found: Seq<Seq<char>>)
    ensures
        !text::holds(text::trimmed(parsed(t, found).0), mark()),
        !text::holds(t, mark()) ==> parsed(t, found) == (t, found),
        found.len() <= parsed(t, found).1.len(),
        found == parsed(t, found).1.take(found.len() as int),
    decreases t.len(),
{
    text::lemma_first_from(t, mark(), 0);
    match text::first_at(t, mark()) {
        None => {
            assert(found.take(found.len() as int) =~= found);
            lemma_trimmed_inside(t);
            let s = text::trimmed(t);
            let a = choose|a: int| 0 <= a && a + s.len() <= t.len() && #[trigger] t.subrange(
                a,
                a + s.len(),
            ) == s;
            assert forall|i: int| !#[trigger] text::occurs_at(s, mark(), i) by {
                if text::occurs_at(s, mark(), i) {
                    assert(t.subrange(a + i, a + i + mark().len()) =~= s.subrange(
                        i,
                        i + mark().len(),
                    ));
                    assert(text::occurs_at(t, mark(), a + i));
                }
            }
        },
        Some(s) => {
            lemma_block(t, s);
            let more = found.push(contents(t, s));
            law_no_block_is_left(without_block(t, s), more);
            assert(parsed(t, found).1.take(found.len() as int) =~= more.take(found.len() as int));
            assert(more.take(found.len() as int) =~= found);
        },
    }
}

/// Trimming takes from the ends only.
proof fn lemma_trimmed_inside(t: Seq<char>)
    ensures
        exists|a: int|
            0 <= a && a + text::trimmed(t).len() <= t.len() && #[trigger] t.subrange(
                a,
                a + text::trimmed(t).len(),
            ) == text::trimmed(t),
{
    let l = text::left_trimmed(t);
    lemma_left(t);
    lemma_right(l);
    let a = t.len() - l.len();
    assert(t.subrange(a, a + text::trimmed(t).len()) =~= text::trimmed(t));
}

proof fn lemma_left(t: Seq<char>)
    ensures
        text::left_trimmed(t).len() <= t.len(),
        text::left_trimmed(t) == t.skip(t.len() - text::left_trimmed(t).len()),
    decreases t.len(),
{
    if t.len() > 0 && text::is_space(t[0]) {
        let r = t.skip(1);
        lemma_left(r);
        assert(t.drop_first() =~= r);
        let n = text::left_trimmed(r).len();
        assert(r.skip(r.len() - n) =~= t.skip(t.len() - n));
    } else {
        assert(t.skip(0) =~= t);
    }
}

proof fn lemma_right(t: Seq<char>)
    ensures
        text::right_trimmed(t).len() <= t.len(),
        text::right_trimmed(t) == t.take(text::right_trimmed(t).len() as int),
    decreases t.len(),
{
    if t.len() > 0 && text::is_space(t.last()) {
        let r = t.drop_last();
        lemma_right(r);
        let n = text::right_trimmed(r).len() as int;
        assert(r.take(n) =~= t.take(n));
    } else {
        assert(t.take(t.len() as int) =~= t);
    }
}

/// Writing a file and listing a directory always ask, and so does a command other than a search.
pub proof fn law_only_reading_and_searching_run_unasked(t: Tree)
    requires
        safe(t),
    ensures
        ({
            let tool = tool_in(t, ""@);
            tool == "read_file"@ || tool == "run_command"@
        }),
        tool_in(t, ""@) != "write_file"@,
        tool_in(t, ""@) != "list_dir"@,
        tool_in(t, ""@) != "file_exists"@,
{
    reveal_strlit("read_file");
    reveal_strlit("file_exists");
    reveal_strlit("run_command");
    reveal_strlit("write_file");
    reveal_strlit("list_dir");
    let tool = tool_in(t, ""@);
    assert("write_file"@[0] == 'w' && "list_dir"@[0] == 'l');
    assert("read_file"@[0] == 'r' && "file_exists"@[0] == 'f' && "run_command"@[0] == 'r');
}

/// From an absolute working directory every path resolves to an absolute one, and an absolute path
/// to itself.
pub proof fn law_paths_resolve_to_absolute_ones(path: Seq<char>, cwd: Seq<char>)
    requires
        cwd.len() > 0,
        cwd[0] == '/',
    ensures
        resolved(path, cwd).len() > 0,
        resolved(path, cwd)[0] == '/',
        path.len() > 0 && path[0] == '/' ==> resolved(path, cwd) == path,
{
    reveal_strlit("/");
    lemma_without_slashes(cwd);
}

proof fn lemma_without_slashes(s: Seq<char>)
    ensures
        without_slashes(s).len() <= s.len(),
        without_slashes(s) == s.take(without_slashes(s).len() as int),
    decreases s.len(),
{
    if s.len() > 0 && s.last() == '/' {
        let r = s.drop_last();
        lemma_without_slashes(r);
        let n = without_slashes(r).len() as int;
        assert(r.take(n) =~= s.take(n));
    } else {
        assert(s.take(s.len() as int) =~= s);
    }
}

} // verus!
