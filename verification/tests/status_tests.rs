use agent_sessions::model::SessionStatus;
use agent_sessions::status::{determine_status, is_local_command_line, is_local_slash_command};
use agent_sessions::model::{Content, ContentBlock};

fn expected(kind: Option<&str>, tool_use: bool, tool_result: bool, local: bool, interrupted: bool, fresh: bool) -> SessionStatus {
    match kind {
        Some("assistant") => match (tool_use, fresh) {
            (true, _) => SessionStatus::Processing,
            (false, true) => SessionStatus::Processing,
            (false, false) => SessionStatus::Waiting,
        },
        Some("user") => match (local, interrupted, tool_result, fresh) {
            (true, _, _, _) => SessionStatus::Waiting,
            (false, true, _, _) => SessionStatus::Waiting,
            (false, false, true, true) => SessionStatus::Thinking,
            (false, false, true, false) => SessionStatus::Processing,
            (false, false, false, _) => SessionStatus::Thinking,
        },
        _ => match fresh {
            true => SessionStatus::Thinking,
            false => SessionStatus::Idle,
        },
    }
}

#[test]
fn status_follows_the_table_for_every_combination_of_signals() {
    let kinds = [Some("assistant"), Some("user"), Some("system"), Some(""), Some("User"), None];
    let mut seen = Vec::new();
    for kind in kinds {
        for bits in 0..32u32 {
            let flag = |n: u32| bits & (1 << n) != 0;
            let status = determine_status(kind, flag(0), flag(1), flag(2), flag(3), flag(4));
            assert_eq!(
                status,
                expected(kind, flag(0), flag(1), flag(2), flag(3), flag(4)),
                "{:?} {:05b}",
                kind,
                bits
            );
            // the same signals give the same status
            assert_eq!(status, determine_status(kind, flag(0), flag(1), flag(2), flag(3), flag(4)));
            if !seen.contains(&status) {
                seen.push(status);
            }
        }
    }
    // every status is reached
    for status in [
        SessionStatus::Waiting,
        SessionStatus::Processing,
        SessionStatus::Thinking,
        SessionStatus::Idle,
    ] {
        assert!(seen.contains(&status), "{:?}", status);
    }
}

#[test]
fn local_commands_are_told_from_other_text() {
    let text = |s: &str| Content::Text(s.to_string());
    assert!(is_local_slash_command(&text("/model sonnet")));
    assert!(is_local_slash_command(&text("/clear")));
    assert!(!is_local_slash_command(&text("/custom-command")));
    assert!(!is_local_slash_command(&text("explain this function")));
    // the list of commands is matched exactly and with its case
    assert!(!is_local_slash_command(&text("/Clear")));
    assert!(!is_local_slash_command(&text("/clearall")));
    assert!(!is_local_slash_command(&text("/clear\tnow")));
    assert!(is_local_slash_command(&text("\n/vim \n")));
    assert!(is_local_slash_command(&text("/pr-comments 12")));
    assert!(!is_local_slash_command(&text("/pr")));
    assert!(!is_local_slash_command(&text("run /clear")));
    assert!(!is_local_command_line(&" /clear".chars().collect()));
    assert!(is_local_command_line(&"/clear ".chars().collect()));
}

#[test]
fn list_content_speaks_through_its_first_text_block() {
    let block = |kind: &str, text: Option<&str>| ContentBlock {
        kind: Some(kind.to_string()),
        text: text.map(String::from),
    };
    let first = Content::Blocks(vec![
        block("tool_result", None),
        block("text", Some("/help")),
        block("text", Some("more")),
    ]);
    assert!(is_local_slash_command(&first));
    let second = Content::Blocks(vec![block("text", Some("more")), block("text", Some("/help"))]);
    assert!(!is_local_slash_command(&second));
    let blank = Content::Blocks(vec![block("text", Some("")), block("text", Some("/help"))]);
    assert!(!is_local_slash_command(&blank));
    assert!(!is_local_slash_command(&Content::Blocks(Vec::new())));
    assert!(!is_local_slash_command(&Content::Other));
}
