//! Tool blocks, their approval, and the answers to them.

use attacca::tools::{
    exec_tool, file_exists, is_safe_tool, list_dir, parse_tools, read_file, resolve_path, run_cmd,
    short, write_file, DirEntry, ToolCall, PROTOCOL,
};

const CWD: &str = "/home/ada/attacca-cli";

fn reply(call: ToolCall) -> String {
    match call {
        ToolCall::Reply(text) => text,
        _ => panic!("expected an answer"),
    }
}

#[test]
fn test_parse_tools_empty() {
    let (text, tools) = parse_tools("hello world");
    assert_eq!(text, "hello world");
    assert!(tools.is_empty());
}

#[test]
fn test_parse_tools_single() {
    let (text, tools) = parse_tools("say hi\n```attacca-tool\n{\"tool\":\"read_file\",\"args\":{\"path\":\"x\"}}\n```\nok");
    assert!(text.contains("say hi"));
    assert!(text.contains("ok"));
    assert_eq!(tools.len(), 1);
    assert!(tools[0].contains("\"read_file\""));
}

#[test]
fn test_parse_tools_multiple() {
    let input = "a\n```attacca-tool\n{\"tool\":\"read_file\",\"args\":{\"path\":\"x\"}}\n```\nb\n```attacca-tool\n{\"tool\":\"list_dir\",\"args\":{\"path\":\".\"}}\n```\nc";
    let (text, tools) = parse_tools(input);
    assert!(text.contains("a"));
    assert!(text.contains("b"));
    assert!(text.contains("c"));
    assert_eq!(tools.len(), 2);
}

#[test]
fn an_unclosed_block_runs_to_the_end() {
    let (text, tools) = parse_tools("before ```attacca-tool {\"tool\":\"x\"}");
    assert_eq!(text, "before");
    assert_eq!(tools, vec!["{\"tool\":\"x\"}".to_string()]);
    let (text, tools) = parse_tools("```attacca-tool\na\n``` tail ```attacca-tool b");
    assert_eq!(text, "tail");
    assert_eq!(tools, vec!["a".to_string(), "b".to_string()]);
}

#[test]
fn test_short() {
    assert_eq!(short("abc12345def67890"), "abc12345");
    assert_eq!(short("abc"), "abc");
}

#[test]
fn test_exec_unknown_tool() {
    let result = reply(exec_tool(r#"{"tool":"nonexistent","args":{}}"#, CWD));
    assert!(result.contains("unknown"));
}

#[test]
fn test_exec_missing_tool() {
    let result = reply(exec_tool(r#"{}"#, CWD));
    assert!(result.contains("unknown"));
}

#[test]
fn an_unknown_tool_is_named() {
    assert_eq!(reply(exec_tool(r#"{"tool":"dance"}"#, CWD)), "? unknown tool: dance");
    assert_eq!(reply(exec_tool("not json", CWD)), "? unknown tool: ?");
}

#[test]
fn a_block_asks_for_the_tool_it_names() {
    let at = |json: &str| exec_tool(json, CWD);
    assert!(matches!(
        at(r#"{"tool":"read_file","args":{"path":"a.txt"}}"#),
        ToolCall::ReadFile { path } if path == "/home/ada/attacca-cli/a.txt"
    ));
    assert!(matches!(
        at(r#"{"tool":"write_file","args":{"path":"/tmp/x","content":"y"}}"#),
        ToolCall::WriteFile { path, content } if path == "/tmp/x" && content == "y"
    ));
    assert!(matches!(
        at(r#"{"tool":"list_dir","args":{}}"#),
        ToolCall::ListDir { path } if path == CWD
    ));
    assert!(matches!(
        at(r#"{"tool":"run_command","args":{"command":"ls -l"}}"#),
        ToolCall::RunCommand { command } if command == "ls -l"
    ));
    assert!(matches!(
        at(r#"{"tool":"file_exists","args":{"path":"./b"}}"#),
        ToolCall::FileExists { path } if path == "/home/ada/attacca-cli/b"
    ));
}

#[test]
fn test_is_safe_read_file() {
    assert!(is_safe_tool(r#"{"tool":"read_file","args":{"path":"x"}}"#));
}

#[test]
fn test_is_safe_find() {
    assert!(is_safe_tool(r#"{"tool":"run_command","args":{"command":"find . -name '*.rs'"}}"#));
}

#[test]
fn test_is_safe_grep() {
    assert!(is_safe_tool(r#"{"tool":"run_command","args":{"command":"grep -r 'foo' ."}}"#));
}

#[test]
fn test_is_not_safe_write() {
    assert!(!is_safe_tool(r#"{"tool":"write_file","args":{"path":"x","content":"y"}}"#));
}

#[test]
fn test_is_not_safe_rm() {
    assert!(!is_safe_tool(r#"{"tool":"run_command","args":{"command":"rm -rf /"}}"#));
}

#[test]
fn only_the_documented_tools_are_safe() {
    assert!(is_safe_tool(r#"{"tool":"run_command","args":{"command":"  find . -type f"}}"#));
    assert!(!is_safe_tool(r#"{"tool":"run_command","args":{"command":"finder"}}"#));
    assert!(!is_safe_tool(r#"{"tool":"run_command","args":{}}"#));
    assert!(!is_safe_tool(r#"{"tool":"list_dir","args":{"path":"."}}"#));
    assert!(!is_safe_tool(r#"{"tool":"file_exists","args":{"path":"x"}}"#));
    assert!(!is_safe_tool("not json"));
}

#[test]
fn test_resolve_path_absolute() {
    let r = resolve_path("/etc/passwd", CWD);
    assert_eq!(r, "/etc/passwd");
}

#[test]
fn test_resolve_path_empty() {
    let r = resolve_path("", CWD);
    assert!(r.contains("/attacca-cli") || r.contains('/'));
}

#[test]
fn test_resolve_path_relative() {
    let r = resolve_path("foo/bar.txt", CWD);
    assert!(r.contains("foo/bar.txt"));
    assert!(r.starts_with('/')); // absolute result
}

#[test]
fn a_relative_path_joins_the_working_directory() {
    assert_eq!(resolve_path("././a", "/w//"), "/w/a");
    assert_eq!(resolve_path("../a", "/w"), "/w/../a");
    assert_eq!(resolve_path("a", "/"), "/a");
}

#[test]
fn answers_say_what_came_of_it() {
    assert_eq!(read_file(Ok("text".into())), "text");
    assert_eq!(read_file(Err("gone".into())), "err: gone");
    let long = "x".repeat(60_000);
    let cut = read_file(Ok(long));
    assert!(cut.starts_with("[truncated to 50k]xxx"));
    assert_eq!(cut.len(), "[truncated to 50k]".len() + 50_000);
    assert_eq!(read_file(Ok("y".repeat(50_000))).len(), 50_000);
    assert_eq!(write_file(Ok(())), "ok");
    assert_eq!(write_file(Err("full".into())), "err: full");
    let entries = vec![
        DirEntry { name: "src".into(), is_dir: true },
        DirEntry { name: "a.rs".into(), is_dir: false },
    ];
    assert_eq!(list_dir(Ok(entries)), "📁 src\n  a.rs");
    assert_eq!(list_dir(Ok(vec![])), "");
    assert_eq!(list_dir(Err("gone".into())), "err: gone");
    assert_eq!(run_cmd(Ok(("out".into(), "".into()))), "out");
    assert_eq!(run_cmd(Ok(("out".into(), "bad".into()))), "out\n[err]\nbad");
    assert_eq!(run_cmd(Err("no sh".into())), "err: no sh");
    assert_eq!(file_exists(true), "true");
    assert_eq!(file_exists(false), "false");
}

#[test]
fn the_protocol_names_every_tool() {
    for tool in ["read_file", "write_file", "list_dir", "run_command", "file_exists"] {
        assert!(PROTOCOL.contains(tool), "{tool}");
    }
    assert!(PROTOCOL.starts_with("\nYou are connected to the user's computer"));
}
