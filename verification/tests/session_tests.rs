use agent_sessions::codec::{convert_dir_name_to_path, convert_path_to_dir_name};
use agent_sessions::json::content_from_json;
use agent_sessions::model::{ClaudeProcess, Content, CpuUsage, Session, SessionStatus};
use agent_sessions::parser::parse_session_file;
use agent_sessions::status::{
    determine_status, has_tool_result, has_tool_use, is_interrupted_request,
    is_local_slash_command, status_sort_priority,
};

// Helper functions

fn json(text: &str) -> Content {
    let value: serde_json::Value = serde_json::from_str(text).unwrap();
    content_from_json(&value)
}

fn text(s: &str) -> Content {
    Content::Text(s.to_string())
}

fn to_lines(lines: &[&str]) -> Vec<String> {
    lines.iter().map(|l| l.to_string()).collect()
}

fn create_test_process() -> ClaudeProcess {
    ClaudeProcess {
        pid: 12345,
        cwd: Some(String::from("/Users/test/Projects/test-project")),
        cpu_usage: CpuUsage::from_bits(0.0f32.to_bits()),
        memory: 0,
    }
}

fn parse(lines: &[&str], fresh: bool) -> Option<Session> {
    let process = create_test_process();
    parse_session_file(
        &to_lines(lines),
        fresh,
        "/Users/test/Projects/test-project",
        &process,
        &None,
    )
}

// Unit tests for helper functions

#[test]
fn test_convert_dir_name_to_path() {
    // Test basic project path
    assert_eq!(
        convert_dir_name_to_path("-Users-ozan-Projects-ai-image-dashboard"),
        "/Users/ozan/Projects/ai-image-dashboard"
    );

    // Test project with multiple dashes
    assert_eq!(
        convert_dir_name_to_path("-Users-ozan-Projects-backend-service-generator-ai"),
        "/Users/ozan/Projects/backend-service-generator-ai"
    );

    // Test UnityProjects
    assert_eq!(
        convert_dir_name_to_path("-Users-ozan-UnityProjects-my-game"),
        "/Users/ozan/UnityProjects/my-game"
    );

    // Test worktree paths (with double dashes -> hidden folders)
    assert_eq!(
        convert_dir_name_to_path("-Users-ozan-Projects-ai-image-dashboard--rsworktree-analytics"),
        "/Users/ozan/Projects/ai-image-dashboard/.rsworktree/analytics"
    );

    // Test multiple hidden folders
    assert_eq!(
        convert_dir_name_to_path("-Users-ozan-Projects-myproject--hidden--subfolder"),
        "/Users/ozan/Projects/myproject/.hidden/.subfolder"
    );

    // Test just Projects folder
    assert_eq!(
        convert_dir_name_to_path("-Users-ozan-Projects"),
        "/Users/ozan/Projects"
    );
}

#[test]
fn test_convert_path_to_dir_name() {
    // Basic path
    assert_eq!(
        convert_path_to_dir_name("/Users/ozan/Projects/ai-image-dashboard"),
        "-Users-ozan-Projects-ai-image-dashboard"
    );

    // Path with hidden folder (.rsworktree)
    assert_eq!(
        convert_path_to_dir_name("/Users/ozan/Projects/unity-build-service/.rsworktree/improve-prov-prof-creation"),
        "-Users-ozan-Projects-unity-build-service--rsworktree-improve-prov-prof-creation"
    );

    // Path with .worktrees
    assert_eq!(
        convert_path_to_dir_name("/Users/ozan/Projects/autogoals-v2/.worktrees/docker-containers"),
        "-Users-ozan-Projects-autogoals-v2--worktrees-docker-containers"
    );

    // Subfolder path (no hidden folders)
    assert_eq!(
        convert_path_to_dir_name("/Users/ozan/Projects/autogoals-v2/examples/test"),
        "-Users-ozan-Projects-autogoals-v2-examples-test"
    );
}

#[test]
fn test_has_tool_use() {
    // Array with tool_use block
    let content_with_tool_use = json(
        r#"[
        {"type": "text", "text": "Let me run that command"},
        {"type": "tool_use", "id": "123", "name": "Bash", "input": {"command": "ls"}}
    ]"#,
    );
    assert!(has_tool_use(&content_with_tool_use));

    // Array without tool_use
    let content_without_tool_use = json(r#"[{"type": "text", "text": "Here is the result"}]"#);
    assert!(!has_tool_use(&content_without_tool_use));

    // Empty array
    let empty_array = json("[]");
    assert!(!has_tool_use(&empty_array));

    // String content (not an array)
    let string_content = json(r#""Just a string""#);
    assert!(!has_tool_use(&string_content));

    // Array with tool_result (not tool_use)
    let content_with_tool_result =
        json(r#"[{"type": "tool_result", "tool_use_id": "123", "content": "output"}]"#);
    assert!(!has_tool_use(&content_with_tool_result));
}

#[test]
fn test_has_tool_result() {
    // Array with tool_result block
    let content_with_tool_result =
        json(r#"[{"type": "tool_result", "tool_use_id": "123", "content": "command output"}]"#);
    assert!(has_tool_result(&content_with_tool_result));

    // Array without tool_result
    let content_without_tool_result = json(r#"[{"type": "text", "text": "Just text"}]"#);
    assert!(!has_tool_result(&content_without_tool_result));

    // Empty array
    let empty_array = json("[]");
    assert!(!has_tool_result(&empty_array));

    // String content (not an array)
    let string_content = json(r#""Just a string""#);
    assert!(!has_tool_result(&string_content));

    // Array with tool_use (not tool_result)
    let content_with_tool_use = json(r#"[{"type": "tool_use", "id": "123", "name": "Read"}]"#);
    assert!(!has_tool_result(&content_with_tool_use));
}

#[test]
fn test_is_local_slash_command() {
    // Test recognized local commands
    assert!(is_local_slash_command(&text("/clear")));
    assert!(is_local_slash_command(&text("/compact")));
    assert!(is_local_slash_command(&text("/help")));
    assert!(is_local_slash_command(&text("/config")));
    assert!(is_local_slash_command(&text("/cost")));
    assert!(is_local_slash_command(&text("/doctor")));
    assert!(is_local_slash_command(&text("/init")));
    assert!(is_local_slash_command(&text("/login")));
    assert!(is_local_slash_command(&text("/logout")));
    assert!(is_local_slash_command(&text("/memory")));
    assert!(is_local_slash_command(&text("/model")));
    assert!(is_local_slash_command(&text("/permissions")));
    assert!(is_local_slash_command(&text("/pr-comments")));
    assert!(is_local_slash_command(&text("/review")));
    assert!(is_local_slash_command(&text("/status")));
    assert!(is_local_slash_command(&text("/terminal-setup")));
    assert!(is_local_slash_command(&text("/vim")));

    // Test commands with arguments
    assert!(is_local_slash_command(&text("/model sonnet")));
    assert!(is_local_slash_command(&text("/memory add something")));

    // Test commands with whitespace
    assert!(is_local_slash_command(&text("  /clear  ")));

    // Test non-local commands (these start an answer)
    assert!(!is_local_slash_command(&text("Hello there")));
    assert!(!is_local_slash_command(&text("/custom-command")));
    assert!(!is_local_slash_command(&text("/fix the bug")));

    // Test array content with text block
    let array_content = json(r#"[{"type": "text", "text": "/clear"}]"#);
    assert!(is_local_slash_command(&array_content));

    // Test array content with non-local command
    let array_non_local = json(r#"[{"type": "text", "text": "fix the bug"}]"#);
    assert!(!is_local_slash_command(&array_non_local));

    // Test empty and edge cases
    assert!(!is_local_slash_command(&text("")));
    assert!(!is_local_slash_command(&json("null")));
    assert!(!is_local_slash_command(&json("123")));
}

#[test]
fn test_determine_status_assistant_with_tool_use() {
    // Assistant message with tool_use -> Processing
    let status = determine_status(
        Some("assistant"),
        true,  // has_tool_use
        false, // has_tool_result
        false, // is_local_command
        false, // is_interrupted
        false, // file_recently_modified
    );
    assert!(matches!(status, SessionStatus::Processing));

    // Even with file recently modified, tool_use means Processing
    let status = determine_status(
        Some("assistant"),
        true,
        false,
        false,
        false,
        true, // file_recently_modified
    );
    assert!(matches!(status, SessionStatus::Processing));
}

#[test]
fn test_determine_status_assistant_text_only() {
    // Assistant message with only text -> Waiting
    let status = determine_status(
        Some("assistant"),
        false, // no tool_use
        false,
        false,
        false, // is_interrupted
        false,
    );
    assert!(matches!(status, SessionStatus::Waiting));

    // If file was recently modified, treat as Processing (the answer may still be streaming)
    let status = determine_status(
        Some("assistant"),
        false,
        false,
        false,
        false, // is_interrupted
        true,  // file_recently_modified
    );
    assert!(matches!(status, SessionStatus::Processing));
}

#[test]
fn test_determine_status_user_message() {
    // Regular user message -> Thinking (an answer is being generated)
    let status = determine_status(
        Some("user"),
        false,
        false,
        false, // not a local command
        false, // is_interrupted
        false,
    );
    assert!(matches!(status, SessionStatus::Thinking));

    // User message that's a local command -> Waiting
    let status = determine_status(
        Some("user"),
        false,
        false,
        true,  // is_local_command
        false, // is_interrupted
        false,
    );
    assert!(matches!(status, SessionStatus::Waiting));

    // User message that's an interrupted request -> Waiting
    let status = determine_status(
        Some("user"),
        false,
        false,
        false,
        true, // is_interrupted
        false,
    );
    assert!(matches!(status, SessionStatus::Waiting));
}

#[test]
fn test_determine_status_user_with_tool_result() {
    // User message with tool_result and recent file modification -> Thinking
    let status = determine_status(
        Some("user"),
        false,
        true, // has_tool_result
        false,
        false, // is_interrupted
        true,  // file_recently_modified
    );
    assert!(matches!(status, SessionStatus::Thinking));

    // User message with tool_result but no recent modification -> Processing
    let status = determine_status(
        Some("user"),
        false,
        true, // has_tool_result
        false,
        false, // is_interrupted
        false, // not recently modified
    );
    assert!(matches!(status, SessionStatus::Processing));
}

#[test]
fn test_determine_status_unknown_type() {
    // Unknown message type with recent file activity -> Thinking
    let status = determine_status(
        None, false, false, false, false, // is_interrupted
        true,  // file_recently_modified
    );
    assert!(matches!(status, SessionStatus::Thinking));

    // Unknown message type without recent activity -> Idle
    let status = determine_status(
        None, false, false, false, false, // is_interrupted
        false,
    );
    assert!(matches!(status, SessionStatus::Idle));
}

#[test]
fn test_is_interrupted_request() {
    // Message with interruption text
    assert!(is_interrupted_request(&text("[Request interrupted by user]")));
    assert!(is_interrupted_request(&text(
        "Some text [Request interrupted by user] more text"
    )));

    // Array content with interruption
    let array_content = json(r#"[{"type": "text", "text": "[Request interrupted by user]"}]"#);
    assert!(is_interrupted_request(&array_content));

    // Normal messages
    assert!(!is_interrupted_request(&text("Hello there")));
    assert!(!is_interrupted_request(&text("Fix the bug")));
    assert!(!is_interrupted_request(&text("")));
}

#[test]
fn test_status_sort_priority() {
    // Thinking and Processing have highest priority (0)
    assert_eq!(status_sort_priority(&SessionStatus::Thinking), 0);
    assert_eq!(status_sort_priority(&SessionStatus::Processing), 0);

    // Waiting has second priority (1)
    assert_eq!(status_sort_priority(&SessionStatus::Waiting), 1);

    // Idle has lowest priority (2)
    assert_eq!(status_sort_priority(&SessionStatus::Idle), 2);

    // Verify ordering: Thinking/Processing < Waiting < Idle
    assert!(status_sort_priority(&SessionStatus::Thinking) < status_sort_priority(&SessionStatus::Waiting));
    assert!(status_sort_priority(&SessionStatus::Waiting) < status_sort_priority(&SessionStatus::Idle));
}

// Integration tests for log parsing

#[test]
fn test_parse_jsonl_assistant_text_only_is_waiting() {
    // Scenario: the answer was text only (no tool_use), file not recently modified
    // Expected: Waiting
    let session = parse(
        &[
            r#"{"sessionId":"test-session","type":"user","message":{"role":"user","content":"Hello there"},"timestamp":"2024-01-01T00:00:00Z"}"#,
            r#"{"sessionId":"test-session","type":"assistant","message":{"role":"assistant","content":[{"type":"text","text":"Hello! How can I help you today?"}]},"timestamp":"2024-01-01T00:00:01Z"}"#,
        ],
        false,
    );

    assert!(session.is_some());
    let session = session.unwrap();
    assert!(
        matches!(session.status, SessionStatus::Waiting),
        "Expected Waiting when last message is assistant text-only, got {:?}",
        session.status
    );
}

#[test]
fn test_parse_jsonl_assistant_with_tool_use_is_processing() {
    // Scenario: a tool_use was sent (waiting for tool execution)
    // Expected: Processing
    let session = parse(
        &[
            r#"{"sessionId":"test-session","type":"user","message":{"role":"user","content":"List files"},"timestamp":"2024-01-01T00:00:00Z"}"#,
            r#"{"sessionId":"test-session","type":"assistant","message":{"role":"assistant","content":[{"type":"text","text":"Let me list the files"},{"type":"tool_use","id":"123","name":"Bash","input":{"command":"ls"}}]},"timestamp":"2024-01-01T00:00:01Z"}"#,
        ],
        true,
    );

    assert!(session.is_some());
    let session = session.unwrap();
    assert!(
        matches!(session.status, SessionStatus::Processing),
        "Expected Processing when last message is assistant with tool_use, got {:?}",
        session.status
    );
}

#[test]
fn test_parse_jsonl_user_message_is_thinking() {
    // Scenario: User just sent a message
    // Expected: Thinking
    let session = parse(
        &[
            r#"{"sessionId":"test-session","type":"assistant","message":{"role":"assistant","content":[{"type":"text","text":"How can I help?"}]},"timestamp":"2024-01-01T00:00:00Z"}"#,
            r#"{"sessionId":"test-session","type":"user","message":{"role":"user","content":"Fix the bug in main.rs"},"timestamp":"2024-01-01T00:00:01Z"}"#,
        ],
        true,
    );

    assert!(session.is_some());
    let session = session.unwrap();
    assert!(
        matches!(session.status, SessionStatus::Thinking),
        "Expected Thinking when last message is user input, got {:?}",
        session.status
    );
}

#[test]
fn test_parse_jsonl_user_tool_result_is_thinking() {
    // Scenario: Tool result was just sent and the log is fresh
    // Expected: Thinking
    let session = parse(
        &[
            r#"{"sessionId":"test-session","type":"assistant","message":{"role":"assistant","content":[{"type":"tool_use","id":"123","name":"Bash","input":{"command":"ls"}}]},"timestamp":"2024-01-01T00:00:00Z"}"#,
            r#"{"sessionId":"test-session","type":"user","message":{"role":"user","content":[{"type":"tool_result","tool_use_id":"123","content":"file1.txt\nfile2.txt"}]},"timestamp":"2024-01-01T00:00:01Z"}"#,
        ],
        true,
    );

    assert!(session.is_some());
    let session = session.unwrap();
    assert!(
        matches!(session.status, SessionStatus::Thinking),
        "Expected Thinking when last message is tool_result with recently modified file, got {:?}",
        session.status
    );
}

#[test]
fn test_parse_jsonl_local_command_is_waiting() {
    // Scenario: User typed /clear or other local command
    // Expected: Waiting
    let session = parse(
        &[
            r#"{"sessionId":"test-session","type":"assistant","message":{"role":"assistant","content":[{"type":"text","text":"Done!"}]},"timestamp":"2024-01-01T00:00:00Z"}"#,
            r#"{"sessionId":"test-session","type":"user","message":{"role":"user","content":"/clear"},"timestamp":"2024-01-01T00:00:01Z"}"#,
        ],
        true,
    );

    assert!(session.is_some());
    let session = session.unwrap();
    assert!(
        matches!(session.status, SessionStatus::Waiting),
        "Expected Waiting when last message is local command, got {:?}",
        session.status
    );
}

#[test]
fn test_parse_jsonl_complex_conversation_flow() {
    // Scenario: user asks, a tool is called, the tool runs, the answer is text
    // File is old (not recently modified)
    // Expected: Waiting
    let session = parse(
        &[
            r#"{"sessionId":"test-session","type":"user","message":{"role":"user","content":"What files are in this directory?"},"timestamp":"2024-01-01T00:00:00Z"}"#,
            r#"{"sessionId":"test-session","type":"assistant","message":{"role":"assistant","content":[{"type":"tool_use","id":"tool1","name":"Bash","input":{"command":"ls -la"}}]},"timestamp":"2024-01-01T00:00:01Z"}"#,
            r#"{"sessionId":"test-session","type":"user","message":{"role":"user","content":[{"type":"tool_result","tool_use_id":"tool1","content":"file1.txt\nfile2.txt"}]},"timestamp":"2024-01-01T00:00:02Z"}"#,
            r#"{"sessionId":"test-session","type":"assistant","message":{"role":"assistant","content":[{"type":"text","text":"I found 2 files: file1.txt and file2.txt"}]},"timestamp":"2024-01-01T00:00:03Z"}"#,
        ],
        false,
    );

    assert!(session.is_some());
    let session = session.unwrap();
    assert!(
        matches!(session.status, SessionStatus::Waiting),
        "Expected Waiting after a text answer, got {:?}",
        session.status
    );
}

#[test]
fn test_parse_jsonl_multiple_tool_calls_in_progress() {
    // Scenario: a tool_use was sent, waiting for result
    // Expected: Processing
    let session = parse(
        &[
            r#"{"sessionId":"test-session","type":"user","message":{"role":"user","content":"Run tests and check coverage"},"timestamp":"2024-01-01T00:00:00Z"}"#,
            r#"{"sessionId":"test-session","type":"assistant","message":{"role":"assistant","content":[{"type":"text","text":"I'll run the tests first"},{"type":"tool_use","id":"tool1","name":"Bash","input":{"command":"npm test"}}]},"timestamp":"2024-01-01T00:00:01Z"}"#,
        ],
        true,
    );

    assert!(session.is_some());
    let session = session.unwrap();
    assert!(
        matches!(session.status, SessionStatus::Processing),
        "Expected Processing when tool is executing, got {:?}",
        session.status
    );
}

#[test]
fn test_parse_jsonl_empty_content_skipped() {
    // Scenario: Some messages have empty content, should skip to find real message
    // File is old (not recently modified)
    let session = parse(
        &[
            r#"{"sessionId":"test-session","type":"user","message":{"role":"user","content":"Hello"},"timestamp":"2024-01-01T00:00:00Z"}"#,
            r#"{"sessionId":"test-session","type":"assistant","message":{"role":"assistant","content":[]},"timestamp":"2024-01-01T00:00:01Z"}"#,
            r#"{"sessionId":"test-session","type":"assistant","message":{"role":"assistant","content":[{"type":"text","text":"Hi there!"}]},"timestamp":"2024-01-01T00:00:02Z"}"#,
        ],
        false,
    );

    assert!(session.is_some());
    let session = session.unwrap();
    // The parser reads from the end, so it should find the last non-empty message
    assert!(
        matches!(session.status, SessionStatus::Waiting),
        "Expected Waiting after finding text-only assistant message, got {:?}",
        session.status
    );
}
