use mojentic::file_tools::{
    content_matches, created_message, filter_by_extension, find_lines_matching, split_path, text_lines, wrote_message,
    FilesystemGateway, ListFilesTool,
};
use mojentic::tool_runner::{aborted_outcome, finished_outcome, not_found_outcome, order_by_index, ParallelToolRunner, SerialToolRunner, ToolCallExecution, ToolCallOutcome};
use mojentic::user_tools::{AskUserTool, CurrentDatetimeTool, TellUserTool};
use mojentic::error::MojenticError;
use mojentic::lexical_path::lexically_normalize;

#[test]
fn split_paths() {
    let (d, f) = split_path("src/main.rs");
    assert_eq!((d.as_str(), f.as_str()), ("src", "main.rs"));
    let (d, f) = split_path("README.md");
    assert_eq!((d.as_str(), f.as_str()), ("", "README.md"));
    let (d, f) = split_path("/");
    assert_eq!((d.as_str(), f.as_str()), (".", ""));
}

#[test]
fn test_resolve_path_security() {
    let fs = FilesystemGateway::new("/sandbox", true, "/sandbox".to_string()).ok().unwrap();
    assert_eq!(fs.resolve_path("a/b.txt", None).ok().unwrap(), "/sandbox/a/b.txt");
    match fs.resolve_path("../../../etc/passwd", None) {
        Err(MojenticError::ToolError(m)) => assert_eq!(m, "Path \"../../../etc/passwd\" attempts to escape the sandbox"),
        other => panic!("{:?}", other),
    }
    match fs.resolve_path("../etc/passwd", Some("/etc/passwd".to_string())) {
        Err(MojenticError::ToolError(m)) => assert_eq!(m, "Path \"../etc/passwd\" attempts to escape the sandbox"),
        other => panic!("{:?}", other),
    }
}

#[test]
fn test_filesystem_gateway_new() {
    match FilesystemGateway::new("/nope", false, String::new()) {
        Err(MojenticError::ToolError(m)) => assert_eq!(m, "Base path \"/nope\" is not a directory"),
        other => panic!("{:?}", other.map(|_| ())),
    }
    let fs = FilesystemGateway::new(".", true, "/work".to_string()).ok().unwrap();
    let tool = ListFilesTool::new(fs);
    assert_eq!(tool.fs.base_path(), "/work");
}

#[test]
fn extension_filter_and_messages() {
    let files = vec!["a.py".to_string(), "b.txt".to_string(), "c.py".to_string()];
    assert_eq!(filter_by_extension(files.clone(), Some(".py")), vec!["a.py".to_string(), "c.py".to_string()]);
    assert_eq!(filter_by_extension(files.clone(), None), files);
    assert_eq!(wrote_message("x.txt"), "Successfully wrote to x.txt");
    assert_eq!(created_message("d"), "Successfully created directory 'd'");
}

fn exec(id: &str) -> ToolCallExecution {
    ToolCallExecution { id: id.to_string(), name: "echo".to_string(), args: "{}".to_string() }
}

fn done(id: &str) -> ToolCallOutcome {
    ToolCallOutcome { id: id.to_string(), name: "echo".to_string(), ok: true, result: Some("1".to_string()), error: None, duration_ms: 1 }
}

#[test]
fn parallel_preserves_output_order() {
    let indexed = vec![(2usize, done("c")), (0, done("a")), (1, done("b"))];
    let ordered = order_by_index(indexed, 3);
    assert_eq!(ordered.iter().map(|o| o.id.as_str()).collect::<Vec<_>>(), vec!["a", "b", "c"]);
}

#[test]
fn pre_cancelled_batch_skips_dispatch() {
    let o = aborted_outcome(&exec("1"));
    assert!(!o.ok);
    assert_eq!(o.error.as_deref(), Some("Tool batch aborted"));
    assert_eq!(o.id, "1");
}

#[test]
fn runner_defaults() {
    assert_eq!(ParallelToolRunner::default().max_concurrency, 4);
    assert_eq!(ParallelToolRunner::new(2).max_concurrency, 2);
    let _ = SerialToolRunner::default();
}

#[test]
fn test_default_implementation() {
    let _ = TellUserTool::default();
    let _ = AskUserTool::default();
    let _ = CurrentDatetimeTool::default();
}

#[test]
fn user_tool_texts() {
    let tell = TellUserTool::new();
    assert_eq!(tell.display_text("Hi"), "\n\n\nMESSAGE FROM ASSISTANT:\nHi");
    assert_eq!(tell.result_text(), "Message delivered to user.");
    let ask = AskUserTool::new();
    assert_eq!(ask.prompt_text("Why?"), "\n\n\nI NEED YOUR HELP!\nWhy?");
    assert_eq!(ask.answer("  blue \n"), "blue");
    let now = CurrentDatetimeTool::new();
    assert_eq!(now.format_string(None), "%Y-%m-%d %H:%M:%S");
    assert_eq!(now.format_string(Some("%A")), "%A");
}

#[test]
fn test_run_with_message() {
    let tool = TellUserTool::new();
    let message = "This is an important update";

    assert_eq!(tool.display_text(message), "\n\n\nMESSAGE FROM ASSISTANT:\nThis is an important update");
    assert_eq!(tool.result_text(), "Message delivered to user.");
}

#[test]
fn test_run_without_message() {
    let tool = TellUserTool::new();

    assert_eq!(tool.display_text(""), "\n\n\nMESSAGE FROM ASSISTANT:\n");
    assert_eq!(tool.result_text(), "Message delivered to user.");
}

#[test]
fn test_multiline_message() {
    let tool = TellUserTool::new();

    assert_eq!(tool.display_text("Line 1\nLine 2\nLine 3"), "\n\n\nMESSAGE FROM ASSISTANT:\nLine 1\nLine 2\nLine 3");
    assert_eq!(tool.result_text(), "Message delivered to user.");
}

#[test]
fn listed_files_are_relative_to_the_base() {
    let fs = FilesystemGateway::new("/sandbox", true, "/sandbox".to_string()).ok().unwrap();
    let found = vec!["/sandbox/a.txt".to_string(), "/sandbox/src/main.rs".to_string()];
    assert_eq!(fs.list_all_files(&found), Some(vec!["a.txt".to_string(), "src/main.rs".to_string()]));
    assert_eq!(fs.list_all_files(&vec![]), Some(vec![]));

    let outside = vec!["/sandbox/a.txt".to_string(), "/elsewhere/b.txt".to_string()];
    assert_eq!(fs.list_all_files(&outside), None);
}

#[test]
fn glob_results_leave_out_paths_outside_the_base() {
    let fs = FilesystemGateway::new("/sandbox", true, "/sandbox".to_string()).ok().unwrap();
    let matched = vec!["/elsewhere/x.rs".to_string(), "/sandbox/lib.rs".to_string(), "/sandboxed/y.rs".to_string()];
    assert_eq!(fs.glob_results(&matched), vec!["lib.rs".to_string()]);
}

#[test]
fn lines_split_like_str_lines() {
    assert_eq!(text_lines("a\nb\r\nc"), vec!["a", "b", "c"]);
    assert_eq!(text_lines("a\n"), vec!["a"]);
    assert_eq!(text_lines("\n\nx\r"), vec!["", "", "x\r"]);
    assert!(text_lines("").is_empty());
    let sample = "one\r\ntwo\n\nthree\n";
    assert_eq!(text_lines(sample), sample.lines().collect::<Vec<_>>());
}

#[test]
fn matching_lines_carry_their_numbers() {
    let content = "fn main() {\n    let x = 1;\n}\nfn helper() {}\n";
    let found = find_lines_matching(content, r"^fn \w+").ok().unwrap();
    assert_eq!(found, vec![(1, "fn main() {".to_string()), (4, "fn helper() {}".to_string())]);
    assert!(find_lines_matching(content, "nothing here").ok().unwrap().is_empty());
}

#[test]
fn invalid_patterns_are_tool_errors() {
    match find_lines_matching("text", "(unclosed") {
        Err(MojenticError::ToolError(m)) => assert!(m.starts_with("Invalid regex pattern: ")),
        other => panic!("{:?}", other),
    }
    match content_matches("text", "[z-a]") {
        Err(MojenticError::ToolError(m)) => assert!(m.starts_with("Invalid regex pattern: ")),
        other => panic!("{:?}", other),
    }
    assert_eq!(content_matches("hello world", "wor.d").ok(), Some(true));
    assert_eq!(content_matches("hello", "^world").ok(), Some(false));
}

#[test]
fn test_resolve_path_resolves_dots_inside_the_sandbox() {
    let fs = FilesystemGateway::new("/sandbox", true, "/sandbox".to_string()).ok().unwrap();
    assert_eq!(fs.resolve_path("sub/../x.txt", None).ok().unwrap(), "/sandbox/x.txt");
    assert_eq!(fs.resolve_path("./a//b/./c/", None).ok().unwrap(), "/sandbox/a/b/c");
    assert_eq!(fs.resolve_path(".", None).ok().unwrap(), "/sandbox");
    assert!(fs.resolve_path("..", None).is_err());
    assert!(fs.resolve_path("../x", None).is_err());
    assert!(fs.resolve_path("a/../../x", None).is_err());
    assert!(fs.resolve_path("../sandbox2/x", None).is_err());
    assert_eq!(fs.resolve_path("../sandbox/x", None).ok().unwrap(), "/sandbox/x");
}

#[test]
fn test_lexically_normalize() {
    assert_eq!(lexically_normalize("/a/b/../c"), "/a/c");
    assert_eq!(lexically_normalize("/../../x"), "/x");
    assert_eq!(lexically_normalize("/"), "/");
    assert_eq!(lexically_normalize("//a//./b/"), "/a/b");
    assert_eq!(lexically_normalize("a/.."), ".");
    assert_eq!(lexically_normalize(""), ".");
    assert_eq!(lexically_normalize("../a/../../b"), "../../b");
    assert_eq!(lexically_normalize("a/b/.."), "a");
}

#[test]
fn outcomes_of_finished_and_unknown_calls() {
    let call = ToolCallExecution { id: "c1".to_string(), name: "say \"hi\"".to_string(), args: "{}".to_string() };
    let missing = not_found_outcome(&call, 3);
    assert!(!missing.ok);
    assert_eq!(missing.error.as_deref(), Some("Tool \"say \\\"hi\\\"\" not found"));
    assert_eq!((missing.id.as_str(), missing.name.as_str(), missing.duration_ms), ("c1", "say \"hi\"", 3));
    let done = finished_outcome(&call, Ok("{\"x\":1}".to_string()), 7);
    assert!(done.ok);
    assert_eq!(done.result.as_deref(), Some("{\"x\":1}"));
    assert!(done.error.is_none());
    assert_eq!(done.duration_ms, 7);
    let failed = finished_outcome(&call, Err("boom".to_string()), 9);
    assert!(!failed.ok);
    assert!(failed.result.is_none());
    assert_eq!(failed.error.as_deref(), Some("boom"));
}

#[test]
fn lexical_normal_form_is_stable() {
    for p in ["/a/./b/../../c/", "../../x/./y/..", "", ".", "/", "a//b", "/../..", "./../a/b/../.."] {
        let once = lexically_normalize(p);
        assert_eq!(lexically_normalize(&once), once, "{}", p);
    }
}
