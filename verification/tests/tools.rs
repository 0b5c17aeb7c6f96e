use myo::capabilities::Capabilities;
use myo::json::Json;
use myo::tools::files::{read_args, read_result, write_args, write_result, ReadFileTool, WriteFileTool};
use myo::tools::shell::{capture_take, render_result, shell_args, shell_command, ShellTool, MAX_OUTPUT_BYTES};
use myo::tools::web::WebSearchTool;
use myo::tools::{find, registry, tool_schemas, Category, ToolKind, ToolResult};

fn caps(web: bool, files: bool, code: bool) -> Capabilities {
    Capabilities { web, files, code, reach_out: false }
}

fn j(text: &str) -> Json {
    Json::parse(text).unwrap()
}

#[test]
fn registry_offers_only_enabled_categories() {
    let r = registry(caps(true, false, false));
    let names: Vec<&str> = r.iter().map(|t| t.name()).collect();
    assert_eq!(names, vec!["web_search"]);
    let r = registry(caps(false, false, true));
    let names: Vec<&str> = r.iter().map(|t| t.name()).collect();
    assert_eq!(names, vec!["shell"]);
    let r = registry(caps(true, true, true));
    let names: Vec<&str> = r.iter().map(|t| t.name()).collect();
    assert_eq!(names, vec!["shell", "read_file", "write_file", "web_search"]);
}

#[test]
fn find_is_a_gate_backstop() {
    let r = registry(caps(false, false, true));
    assert!(find(&r, "shell").is_some());
    assert!(find(&r, "read_file").is_none());
    assert!(find(&r, "nonexistent").is_none());
}

#[test]
fn schemas_are_well_formed_openai_functions() {
    let r = registry(caps(true, true, true));
    let schemas = tool_schemas(&r, false);
    assert_eq!(schemas.len(), 4);
    for s in &schemas {
        assert_eq!(s.get("type"), Some(&j(r#""function""#)));
        assert!(s.get("function").and_then(|f| f.get("name")).and_then(|n| n.as_str()).is_some());
        assert_eq!(
            s.get("function").and_then(|f| f.get("parameters")).and_then(|p| p.get("type")),
            Some(&j(r#""object""#))
        );
    }
}

#[test]
fn every_tool_knows_its_kind_and_category() {
    assert_eq!(ShellTool.kind(), ToolKind::Shell);
    assert_eq!(ReadFileTool.kind(), ToolKind::ReadFile);
    assert_eq!(WriteFileTool.kind(), ToolKind::WriteFile);
    assert_eq!(WebSearchTool.kind(), ToolKind::WebSearch);
    assert_eq!(ToolKind::Shell.category(), Category::Code);
    assert_eq!(ToolKind::WriteFile.category(), Category::Files);
    assert!(Category::Web.enabled(Capabilities::default()));
    assert!(!Category::Code.enabled(Capabilities::default()));
    assert_eq!(ToolKind::Shell.headline(&j(r#"{"command":"ls -la"}"#)), Some("ls -la".into()));
    assert_eq!(ToolKind::WebSearch.headline(&j(r#"{"command":"ls"}"#)), None);
    assert_eq!(ToolResult::text("x"), ToolResult { text: "x".into(), exit_code: None });
}

#[test]
fn shell_schema_names_the_platform_shell() {
    let s = ToolKind::Shell.schema(true);
    let d = s.get("function").and_then(|f| f.get("description")).and_then(|d| d.as_str()).unwrap();
    assert!(d.contains("cmd /C"));
    let s = ToolKind::Shell.schema(false);
    let d = s.get("function").and_then(|f| f.get("description")).and_then(|d| d.as_str()).unwrap();
    assert!(d.contains("sh -c"));
}

#[test]
fn rejects_empty_command() {
    assert_eq!(shell_args(&j(r#"{"command":"   "}"#)), Err("command must be non-empty".to_string()));
    assert_eq!(shell_args(&j("{}")), Err("shell requires a 'command' string".to_string()));
}

#[test]
fn shell_args_clamp_the_timeout_and_drop_an_empty_cwd() {
    let a = shell_args(&j(r#"{"command":"ls","cwd":"","timeout_ms":99999999}"#)).unwrap();
    assert_eq!(a.command, "ls");
    assert_eq!(a.cwd, None);
    assert_eq!(a.timeout_ms, 3_600_000);
    let b = shell_args(&j(r#"{"command":"ls","cwd":"/tmp","timeout_ms":0}"#)).unwrap();
    assert_eq!(b.cwd.as_deref(), Some("/tmp"));
    assert_eq!(b.timeout_ms, 1);
    assert_eq!(shell_args(&j(r#"{"command":"ls"}"#)).unwrap().timeout_ms, 600_000);
}

#[test]
fn commands_run_through_the_platform_shell() {
    assert_eq!(shell_command("ls", false), ("sh".to_string(), vec!["-c".to_string(), "ls".to_string()]));
    assert_eq!(shell_command("dir", true), ("cmd".to_string(), vec!["/C".to_string(), "dir".to_string()]));
}

#[test]
fn capture_stops_at_the_output_cap() {
    assert_eq!(capture_take(0, 10), (10, false));
    assert_eq!(capture_take(MAX_OUTPUT_BYTES - 4, 10), (4, true));
    assert_eq!(capture_take(MAX_OUTPUT_BYTES, 10), (0, true));
}

#[test]
fn rendered_results_report_status_and_sections() {
    assert_eq!(render_result(Some(0), false, "hi\n", false, "", false), "Exit code: 0\n\n[stdout]\nhi\n\n");
    assert_eq!(
        render_result(Some(2), false, "", false, "bad", true),
        "Exit code: 2\n\n[stderr]\nbad\n…(stderr truncated)\n"
    );
    assert_eq!(render_result(None, false, " ", false, "", false), "Command exited without a status code.\n\n(no output)\n");
    assert_eq!(render_result(None, true, "", false, "", false), "Command timed out and was killed before it exited.\n");
}

#[test]
fn missing_args_error() {
    assert_eq!(read_args(&j("{}")), Err("read_file requires a 'path' string".to_string()));
    assert_eq!(write_args(&j(r#"{"path":"x"}"#)).map(|_| ()), Err("write_file requires a 'content' string".to_string()));
    assert_eq!(write_args(&j(r#"{"content":"x"}"#)).map(|_| ()), Err("write_file requires a 'path' string".to_string()));
}

#[test]
fn read_budget_defaults_and_caps() {
    assert_eq!(read_args(&j(r#"{"path":"a"}"#)), Ok(("a".to_string(), 1_048_576)));
    assert_eq!(read_args(&j(r#"{"path":"a","max_bytes":99999999999}"#)), Ok(("a".to_string(), 16_777_216)));
    assert_eq!(read_args(&j(r#"{"path":"a","max_bytes":0}"#)), Err("max_bytes must be > 0".to_string()));
}

#[test]
fn read_truncates_at_max_bytes() {
    assert_eq!(read_result(b"hello world", 5, Some(11)), "hello\n…(truncated: returned 5 of 11 bytes)");
    assert_eq!(read_result(b"hello", 5, Some(5)), "hello");
    assert_eq!(read_result(b"hello!", 5, None), "hello\n…(truncated: returned 5 of unknown bytes)");
}

#[test]
fn write_defaults_and_report() {
    let w = write_args(&j(r#"{"path":"a/b","content":"x"}"#)).unwrap();
    assert_eq!(w.path, "a/b");
    assert_eq!(w.content, "x");
    assert!(w.create_dirs);
    assert!(!w.append);
    assert_eq!(write_result(false, 3, "a/b", true), "Wrote 3 bytes to a/b (created parent directories).");
    assert_eq!(write_result(true, 1, "f", false), "Appended 1 bytes to f.");
}

use myo::event::MyoEvent;
use myo::tools::shell::StreamCapture;

#[test]
fn runs_and_streams_then_captures() {
    let mut c = StreamCapture::new();
    let ev = c.absorb(b"hello\n", "shell", 7, 2);
    assert_eq!(
        ev,
        MyoEvent::ActivityProgress { turn: 7, tool: "shell".into(), progress: Some("hello\n".into()), round: Some(2) }
    );
    c.absorb(b"world\n", "shell", 7, 2);
    assert_eq!(c.finish(), ("hello\nworld\n".to_string(), false));
}

#[test]
fn capture_clips_at_the_cap_but_streams_everything() {
    let mut c = StreamCapture::new();
    let big = vec![b'a'; MAX_OUTPUT_BYTES - 3];
    c.absorb(&big, "shell", 1, 1);
    let ev = c.absorb(b"bcdef", "shell", 1, 1);
    assert!(matches!(ev, MyoEvent::ActivityProgress { progress: Some(ref p), .. } if p == "bcdef"));
    c.absorb(b"more", "shell", 1, 1);
    let (text, truncated) = c.finish();
    assert!(truncated);
    assert_eq!(text.len(), MAX_OUTPUT_BYTES);
    assert!(text.ends_with("abcd"));
}
