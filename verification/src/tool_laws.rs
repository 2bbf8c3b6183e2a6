//! Laws of tool calls, of requests and of connections: what is read, asked for and reported.

use crate::api;
use crate::app::BgView;
use crate::auth;
use crate::auth::AuthEvent;
use crate::bytes;
use crate::json;
use crate::json::Tree;
use crate::text;
use crate::tools;
use crate::tools::{DirEntry, ToolCallView};
use crate::transport;
use crate::zyris_client;
use crate::zyris_client::{ConnEvent, ConnStep, FetchedView};
use vstd::prelude::*;

verus! {

// ── Blocks ─────────────────────────────────────────────────────

/// The first block of a text is taken out whole, fences and all, and its contents are kept, trimmed,
/// behind those found before; what stands before and behind it is read on as one text.
pub proof fn law_a_block_is_taken_out_whole(
    before: Seq<char>,
    body: Seq<char>,
    after: Seq<char>,
    found: Seq<Seq<char>>,
)
    requires
        text::first_at(before + "```attacca-tool"@ + body + "```"@ + after, "```attacca-tool"@)
            == Some(before.len() as int),
        text::first_at(body + "```"@ + after, "```"@) == Some(body.len() as int),
    ensures
        tools::parsed(before + "```attacca-tool"@ + body + "```"@ + after, found) == tools::parsed(
            before + after,
            found.push(text::trimmed(body)),
        ),
{
    let t = before + "```attacca-tool"@ + body + "```"@ + after;
    let s = before.len() as int;
    let m = "```attacca-tool"@.len() as int;
    tools::lemma_block(t, s);
    assert(t.skip(s + m) =~= body + "```"@ + after);
    assert(tools::contents_end(t, s) == s + m + body.len());
    assert(t.subrange(s + m, s + m + body.len()) =~= body);
    assert(tools::without_block(t, s) =~= before + after);
}

/// A block that is never closed takes everything behind it.
pub proof fn law_an_open_block_takes_the_rest(
    before: Seq<char>,
    body: Seq<char>,
    found: Seq<Seq<char>>,
)
    requires
        text::first_at(before + "```attacca-tool"@ + body, "```attacca-tool"@) == Some(
            before.len() as int,
        ),
        text::first_at(body, "```"@) is None,
    ensures
        tools::parsed(before + "```attacca-tool"@ + body, found) == tools::parsed(
            before,
            found.push(text::trimmed(body)),
        ),
{
    let t = before + "```attacca-tool"@ + body;
    let s = before.len() as int;
    let m = "```attacca-tool"@.len() as int;
    tools::lemma_block(t, s);
    assert(t.skip(s + m) =~= body);
    assert(tools::contents_end(t, s) == t.len());
    assert(t.subrange(s + m, t.len() as int) =~= body);
    assert(tools::without_block(t, s) =~= before);
}

/// A text without a block is left as it is, and nothing is found in it.
pub proof fn law_a_text_without_blocks_is_left(t: Seq<char>, found: Seq<Seq<char>>)
    requires
        text::first_at(t, "```attacca-tool"@) is None,
    ensures
        tools::parsed(t, found) == (t, found),
{
}

// ── Calls ──────────────────────────────────────────────────────

proof fn lemma_tool_names()
    ensures
        "read_file"@.len() == 9 && "read_file"@[0] == 'r',
        "write_file"@.len() == 10 && "write_file"@[0] == 'w',
        "list_dir"@.len() == 8 && "list_dir"@[0] == 'l',
        "run_command"@.len() == 11 && "run_command"@[0] == 'r',
        "file_exists"@.len() == 11 && "file_exists"@[0] == 'f',
{
    reveal_strlit("read_file");
    reveal_strlit("write_file");
    reveal_strlit("list_dir");
    reveal_strlit("run_command");
    reveal_strlit("file_exists");
}

/// The string that a call gives as an argument, or nothing.
pub open spec fn argument(t: Tree, key: Seq<char>) -> Seq<char> {
    match t.at("args"@) {
        Some(args) => match args.at(key) {
            Some(Tree::Text(s)) => s,
            _ => Seq::empty(),
        },
        None => Seq::empty(),
    }
}

/// A described call asks for what its tool is called: its path, as seen from the working directory,
/// its contents and its command are its own arguments, unchanged; a tool that is not known is
/// answered with its name.
pub proof fn law_a_call_asks_for_its_own_tool(t: Tree, name: Seq<char>, cwd: Seq<char>)
    requires
        t.at("tool"@) == Some(Tree::Text(name)),
    ensures
        ({
            let path = tools::resolved(argument(t, "path"@), cwd);
            let call = tools::asked(t, cwd);
            &&& name == "read_file"@ ==> call == (ToolCallView::ReadFile { path })
            &&& name == "write_file"@ ==> call == (ToolCallView::WriteFile {
                path,
                content: argument(t, "content"@),
            })
            &&& name == "list_dir"@ ==> call == (ToolCallView::ListDir { path })
            &&& name == "run_command"@ ==> call == (ToolCallView::RunCommand {
                command: argument(t, "command"@),
            })
            &&& name == "file_exists"@ ==> call == (ToolCallView::FileExists { path })
            &&& name != "read_file"@ && name != "write_file"@ && name != "list_dir"@ && name
                != "run_command"@ && name != "file_exists"@ ==> call == ToolCallView::Reply(
                "? unknown tool: "@ + name,
            )
        }),
{
    lemma_tool_names();
}

/// A call runs unasked exactly where it reads a file, or runs a command that begins with `find` or
/// `grep`, white space in front of it aside.
pub proof fn law_what_runs_unasked(t: Tree, name: Seq<char>)
    requires
        t.at("tool"@) == Some(Tree::Text(name)),
    ensures
        ({
            let command = text::left_trimmed(argument(t, "command"@));
            let search = text::begins_with(command, "find "@) || text::begins_with(
                command,
                "grep "@,
            );
            tools::safe(t) <==> name == "read_file"@ || (name == "run_command"@ && search)
        }),
{
    lemma_tool_names();
}

/// A call that names no tool never runs unasked and is answered as unknown; and what is no JSON is
/// such a call.
pub proof fn law_a_call_without_a_tool(t: Tree, cwd: Seq<char>, raw: Seq<char>)
    ensures
        !(t.at("tool"@) matches Some(Tree::Text(_))) ==> !tools::safe(t) && tools::asked(t, cwd)
            == ToolCallView::Reply("? unknown tool: "@ + "?"@),
        json::read_json(raw) is None ==> !tools::safe(tools::described(raw)),
        json::read_json(raw) matches Some(tree) ==> tools::described(raw) == tree,
{
    lemma_tool_names();
    reveal_strlit("");
    reveal_strlit("?");
    assert(""@.len() == 0);
    assert("?"@.len() == 1);
    assert(Tree::Null.at("tool"@) is None);
}

// ── Paths ──────────────────────────────────────────────────────

/// A path begins with the directory it is seen from.
pub open spec fn dotted(path: Seq<char>) -> bool {
    path.len() >= 2 && path[0] == '.' && path[1] == '/'
}

/// No path is the working directory; an absolute path is itself; a relative one stands below the
/// working directory, with one slash between them.
pub proof fn law_a_relative_path_stands_below_the_directory(path: Seq<char>, cwd: Seq<char>)
    ensures
        tools::resolved(Seq::empty(), cwd) == cwd,
        path.len() > 0 && path[0] == '/' ==> tools::resolved(path, cwd) == path,
        path.len() > 0 && path[0] != '/' && !dotted(path) && (cwd.len() == 0 || cwd.last() != '/')
            ==> tools::resolved(path, cwd) == cwd + seq!['/'] + path,
        path.len() > 0 && path[0] != '/' ==> tools::resolved(path, cwd.push('/'))
            == tools::resolved(path, cwd),
        dotted(path) ==> tools::resolved("./"@ + path, cwd) == tools::resolved(path, cwd),
        !dotted(path) && (cwd.len() == 0 || cwd.last() != '/') ==> tools::resolved("./"@ + path, cwd)
            == cwd + seq!['/'] + path,
{
    reveal_strlit("/");
    reveal_strlit("./");
    assert("/"@ =~= seq!['/']);
    assert(cwd.push('/').drop_last() =~= cwd);
    let longer = "./"@ + path;
    assert(longer[0] == '.' && longer[1] == '/');
    assert(longer.skip(2) =~= path);
}

// ── Answers ────────────────────────────────────────────────────

proof fn lemma_chars_before(s: Seq<char>, i: int)
    requires
        0 <= i,
    ensures
        bytes::chars_before(s, i) <= s.len(),
        bytes::byte_len(s.take(bytes::chars_before(s, i) as int)) <= i,
        bytes::chars_before(s, i) < s.len() ==> bytes::byte_len(
            s.take(bytes::chars_before(s, i) as int + 1),
        ) > i,
    decreases s.len(),
{
    let n = bytes::chars_before(s, i) as int;
    assert(s.take(s.len() as int) =~= s);
    if s.len() > 0 && bytes::byte_len(s) > i {
        let rest = s.drop_last();
        lemma_chars_before(rest, i);
        assert(rest.take(n) =~= s.take(n));
        if n < rest.len() {
            assert(rest.take(n + 1) =~= s.take(n + 1));
        } else {
            assert(s.take(n + 1) =~= s);
        }
    }
}

/// A file of up to fifty thousand bytes is answered whole; a longer one with a note and as many of
/// its first characters as those bytes hold.
pub proof fn law_a_long_file_is_cut_at_its_limit(s: Seq<char>)
    ensures
        bytes::byte_len(s) <= 50_000 ==> tools::clipped(s) == s,
        bytes::byte_len(s) > 50_000 ==> exists|n: int|
            0 <= n < s.len() && tools::clipped(s) == "[truncated to 50k]"@ + #[trigger] s.take(n)
                && bytes::byte_len(s.take(n)) <= 50_000 && bytes::byte_len(s.take(n + 1)) > 50_000,
{
    if bytes::byte_len(s) > 50_000 {
        lemma_chars_before(s, 50_000);
        let n = bytes::chars_before(s, 50_000) as int;
        if n == s.len() {
            assert(s.take(n) =~= s);
        }
        assert(tools::clipped(s) == "[truncated to 50k]"@ + s.take(n));
    }
}

/// Every entry of a directory is listed, in its order, a directory with its mark; a failure is
/// answered in its own words.
pub proof fn law_every_entry_is_listed(entries: Seq<DirEntry>, i: int, e: Seq<char>)
    ensures
        tools::entry_lines(entries).len() == entries.len(),
        0 <= i < entries.len() ==> tools::entry_lines(entries)[i] == (if entries[i].is_dir {
            "📁 "@ + entries[i].name@
        } else {
            "  "@ + entries[i].name@
        }),
        tools::failed(e) == "err: "@ + e,
{
}

// ── URLs and replies ───────────────────────────────────────────

/// However many slashes the base ends in and the path begins with, the URL is the same.
pub proof fn law_slashes_between_do_not_count(base: Seq<char>, path: Seq<char>)
    ensures
        transport::full_url(base.push('/'), path) == transport::full_url(base, path),
        transport::full_url(base, seq!['/'] + path) == transport::full_url(base, path),
{
    assert(base.push('/').drop_last() =~= base);
    let q = seq!['/'] + path;
    assert(q[0] == '/');
    assert(q.skip(1) =~= path);
    assert(tools::after_slashes(q) == tools::after_slashes(path));
}

/// A URL is the base and the path with one slash between them, and with one version where both bring
/// it.
pub proof fn law_a_url_is_the_base_and_the_path(base: Seq<char>, path: Seq<char>)
    requires
        base.len() == 0 || base.last() != '/',
        path.len() == 0 || path[0] != '/',
    ensures
        ({
            let twice = text::finishes_with(base, "/v1"@) && text::begins_with(path, "v1/"@);
            &&& !twice ==> transport::full_url(base, path) == base + seq!['/'] + path
            &&& twice ==> transport::full_url(base, path) == base + seq!['/'] + path.subrange(
                3,
                path.len() as int,
            )
        }),
{
    reveal_strlit("/");
    reveal_strlit("v1/");
    assert("/"@ =~= seq!['/']);
    assert(tools::without_slashes(base) == base);
    assert(tools::after_slashes(path) == path);
    if text::begins_with(path, "v1/"@) {
        assert(path.skip(3) =~= path.subrange(3, path.len() as int));
    }
}

/// A reply of a status from 200 up to 299 gives its body, as it is; any other its status and its
/// body; and none at all the status 0 with what went wrong.
pub proof fn law_only_a_success_gives_the_body(status: u16, body: Seq<char>)
    ensures
        200 <= status <= 299 ==> transport::settled(Ok((status, body))) == Ok::<
            Seq<char>,
            (u16, Seq<char>),
        >(body),
        status < 200 || status > 299 ==> transport::settled(Ok((status, body))) == Err::<
            Seq<char>,
            (u16, Seq<char>),
        >((status, body)),
        transport::settled(Err(body)) == Err::<Seq<char>, (u16, Seq<char>)>((0, body)),
        status <= 299 ==> api::settled(Ok((status, body))) == Ok::<
            Seq<char>,
            (u16, Seq<char>),
        >(body),
        status >= 300 ==> api::settled(Ok((status, body))) == Err::<
            Seq<char>,
            (u16, Seq<char>),
        >((status, body)),
        api::settled(Err(body)) == Err::<Seq<char>, (u16, Seq<char>)>((0, body)),
{
}

/// A value that is set is used, and the default only where none is.
pub proof fn law_what_is_set_is_used(value: Seq<char>, default: Seq<char>)
    ensures
        transport::set_or(Some(value), default) == value,
        transport::set_or(None, default) == default,
{
}

/// An account is greeted by its name; a reply that gives none is greeted all the same; and a failure
/// says its status and the beginning of its body.
pub proof fn law_an_account_is_greeted(body: Seq<char>, status: u16)
    ensures
        json::read_json(body) is None ==> api::greeting(Ok(body)) == "✓ ok"@,
        json::read_json(body) matches Some(t) ==> api::greeting(Ok(body)) == "✓ "@ + (match t.at(
            "display_name"@,
        ) {
            Some(Tree::Text(name)) => name,
            _ => "?"@,
        }),
        api::greeting(Err((status, body))) == "✖ HTTP "@ + text::decimal(status as nat) + ": "@ + (
        if body.len() <= 60 {
            body
        } else {
            body.subrange(0, 60)
        }),
{
}

// ── Credentials ────────────────────────────────────────────────

/// A login opens the store, clears it, makes an enroller, asks for a bearer, and only then puts it in
/// place; a logout opens the store and clears it. Whatever fails ends it, in its own words.
pub proof fn law_a_login_goes_step_by_step(ev: AuthEvent)
    ensures
        ev is Begun ==> auth::next_in_relogin(ev) is OpenStore && auth::next_in_logout(
            ev,
        ) is OpenStore,
        ev matches AuthEvent::StoreOpened(Ok(_)) ==> auth::next_in_relogin(ev) is ClearStore
            && auth::next_in_logout(ev) is ClearStore,
        ev matches AuthEvent::StoreCleared(Ok(_)) ==> auth::next_in_relogin(ev) is MakeEnroller
            && auth::next_in_logout(ev) is Done,
        ev matches AuthEvent::EnrollerMade(Ok(_)) ==> auth::next_in_relogin(ev) is AskForBearer,
        ev matches AuthEvent::Bearer(Ok(shown)) ==> auth::next_in_relogin(ev)
            == auth::StepView::Swap(shown@),
        ev matches AuthEvent::StoreOpened(Err(e)) ==> auth::next_in_relogin(ev)
            == auth::StepView::Failed(e@) && auth::next_in_logout(ev) == auth::StepView::Failed(e@),
        ev matches AuthEvent::StoreCleared(Err(e)) ==> auth::next_in_relogin(ev)
            == auth::StepView::Failed(e@) && auth::next_in_logout(ev) == auth::StepView::Failed(e@),
        ev matches AuthEvent::EnrollerMade(Err(e)) ==> auth::next_in_relogin(ev)
            == auth::StepView::Failed(e@),
        ev matches AuthEvent::Bearer(Err(e)) ==> auth::next_in_relogin(ev)
            == auth::StepView::Failed(e@),
{
}

// ── Connections ────────────────────────────────────────────────

/// A new connection reports the account, the projects, the sessions and the agents, each as it was
/// read, or in its place what went wrong with it: one failure takes none of the others with it.
pub proof fn law_each_fetch_is_reported_by_itself(f: FetchedView)
    ensures
        zyris_client::reports(f).len() == 4,
        f.me matches Ok(me) ==> zyris_client::reports(f)[0] == BgView::Connected(me),
        f.me matches Err(e) ==> zyris_client::reports(f)[0] == BgView::Notice("me: "@ + e),
        f.projects matches Ok(p) ==> zyris_client::reports(f)[1] == BgView::Projects(p),
        f.projects matches Err(e) ==> zyris_client::reports(f)[1] == BgView::Notice(
            "list_projects: "@ + e,
        ),
        f.sessions matches Ok(s) ==> zyris_client::reports(f)[2] == BgView::Sessions(s),
        f.sessions matches Err(e) ==> zyris_client::reports(f)[2] == BgView::Notice(
            "list_sessions: "@ + e,
        ),
        f.agents matches Ok(a) ==> zyris_client::reports(f)[3] == BgView::Agents(a),
        f.agents matches Err(e) ==> zyris_client::reports(f)[3] == BgView::Notice(
            "list_agents: "@ + e,
        ),
{
}

/// A connection that the server announces its API on is asked for everything, up to two hundred
/// sessions, and then waited on until it closes; one that it does not is called out; and a
/// connection that closes is reported with its reason.
pub proof fn law_a_connection_goes_step_by_step<C>(event: ConnEvent<C>)
    ensures
        event matches ConnEvent::Announced(Ok(_)) ==> zyris_client::conn_next(event)
            == (ConnStep::Fetch { session_limit: 200 }) && zyris_client::conn_reports(event).len()
            == 0,
        event matches ConnEvent::Announced(Err(e)) ==> zyris_client::conn_next(event)
            == ConnStep::Finished && zyris_client::conn_reports(event) == seq![
            BgView::Notice("server did not announce attacca_api: "@ + e@),
        ],
        event matches ConnEvent::Fetched(f) ==> zyris_client::conn_next(event)
            == ConnStep::AwaitClose && zyris_client::conn_reports(event) == zyris_client::reports(
            f@,
        ),
        event matches ConnEvent::Closed(reason) ==> zyris_client::conn_next(event)
            == ConnStep::Finished && zyris_client::conn_reports(event) == seq![
            BgView::Disconnected(reason@),
        ],
{
}

/// What a grant is missing are the wanted scopes that it lacks, in their order, and no others; the
/// wanted ones are those to read agents, projects, sessions and events, and to write sessions.
pub proof fn law_missing_scopes_are_those_not_granted(granted: Seq<Seq<char>>)
    ensures
        zyris_client::missing(granted) == seq![
            "agents:read"@,
            "projects:read"@,
            "sessions:read"@,
            "sessions:write"@,
            "events:read"@,
        ].filter(|s: Seq<char>| !granted.contains(s)),
{
    let wanted = text::views(zyris_client::DEFAULT_SCOPES@);
    lemma_lacking(wanted, granted);
    assert(wanted =~= seq![
        "agents:read"@,
        "projects:read"@,
        "sessions:read"@,
        "sessions:write"@,
        "events:read"@,
    ]);
}

proof fn lemma_lacking(wanted: Seq<Seq<char>>, granted: Seq<Seq<char>>)
    ensures
        zyris_client::lacking(wanted, granted) == wanted.filter(
            |s: Seq<char>| !granted.contains(s),
        ),
    decreases wanted.len(),
{
    reveal(Seq::filter);
    if wanted.len() > 0 {
        lemma_lacking(wanted.drop_last(), granted);
    } else {
        assert(wanted.filter(|s: Seq<char>| !granted.contains(s)) =~= wanted);
    }
}

} // verus!
