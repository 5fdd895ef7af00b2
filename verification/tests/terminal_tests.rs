use agent_sessions::terminal::{
    begin_next, execute_applescript, find_pane_target, focus_any_terminal_with_tmux,
    focus_iterm_by_tty, focus_session, focus_step, focus_terminal_app_by_tty,
    focus_terminal_by_path, focus_terminal_for_pid, focus_tmux_pane_by_tty, get_tty_for_pid,
    is_safe, last_path_segment, Attempt, CommandOutcome, FocusAction, FocusError, FocusStep,
    Pending, ANY_TERMINAL, ITERM_NAME_HEAD, ITERM_NAME_TAIL, ITERM_TTY_HEAD, ITERM_TTY_TAIL,
    TERMINAL_CHECK, TERMINAL_TTY_HEAD, TERMINAL_TTY_TAIL,
};

fn printed(stdout: &str) -> CommandOutcome {
    CommandOutcome { ran: true, success: true, stdout: stdout.to_string() }
}

fn failed(stdout: &str) -> CommandOutcome {
    CommandOutcome { ran: true, success: false, stdout: stdout.to_string() }
}

fn not_run() -> CommandOutcome {
    CommandOutcome { ran: false, success: false, stdout: String::new() }
}

fn script_of(step: &FocusStep) -> &str {
    match &step.action {
        FocusAction::RunScript { script } => script.as_str(),
        other => panic!("expected a script, got {:?}", other),
    }
}

fn result_of(step: &FocusStep) -> Result<(), FocusError> {
    match &step.action {
        FocusAction::Done { result } => *result,
        other => panic!("expected the end, got {:?}", other),
    }
}

fn iterm_script(tty: &str) -> String {
    format!("{}{}{}", ITERM_TTY_HEAD, tty, ITERM_TTY_TAIL)
}

fn terminal_script(tty: &str) -> String {
    format!("{}{}{}", TERMINAL_TTY_HEAD, tty, TERMINAL_TTY_TAIL)
}

fn name_script(name: &str) -> String {
    format!("{}{}{}", ITERM_NAME_HEAD, name, ITERM_NAME_TAIL)
}

#[test]
fn request_starts_with_the_query_for_the_terminal_device() {
    let step = focus_session(77, "/Users/u/Projects/demo");
    assert!(matches!(step.action, FocusAction::QueryTty { pid: 77 }));
    assert!(matches!(step.state.pending, Pending::Tty));
    assert_eq!(step.state.remaining.len(), 1);
    assert!(matches!(&step.state.remaining[0], Attempt::PathHint { name } if name == "demo"));
    let step = focus_terminal_for_pid(78);
    assert!(matches!(step.action, FocusAction::QueryTty { pid: 78 }));
    assert!(step.state.remaining.is_empty());
}

#[test]
fn first_emulator_that_finds_the_device_ends_the_request() {
    let step = focus_session(77, "/Users/u/Projects/demo");
    let step = focus_step(step.state, &printed("ttys003\n"));
    assert!(matches!(step.action, FocusAction::ListPanes));
    let step = focus_step(step.state, &not_run());
    assert_eq!(script_of(&step), iterm_script("ttys003"));
    assert!(script_of(&step).contains("if tty of s contains \"ttys003\" then"));
    let step = focus_step(step.state, &printed("found\n"));
    assert_eq!(result_of(&step), Ok(()));
    assert!(matches!(step.state.pending, Pending::Nothing));
    assert!(step.state.remaining.is_empty());
    // an ended request stays ended
    let again = focus_step(step.state, &printed("found"));
    assert!(result_of(&again).is_err());
}

#[test]
fn attempts_follow_each_other_until_none_is_left() {
    let step = focus_session(77, "/Users/u/Projects/demo");
    let step = focus_step(step.state, &printed("ttys003"));
    let step = focus_step(step.state, &failed(""));
    assert_eq!(script_of(&step), iterm_script("ttys003"));
    let step = focus_step(step.state, &printed("not found\n"));
    assert_eq!(script_of(&step), TERMINAL_CHECK);
    let step = focus_step(step.state, &printed("true\n"));
    assert_eq!(script_of(&step), terminal_script("ttys003"));
    assert!(script_of(&step).contains("if tty of t contains \"ttys003\" then"));
    let step = focus_step(step.state, &printed("  not found  "));
    assert_eq!(script_of(&step), name_script("demo"));
    assert!(script_of(&step).contains("if name of s contains \"demo\" then"));
    let step = focus_step(step.state, &printed("not found"));
    assert_eq!(result_of(&step), Err(FocusError::TabNotFound));
}

#[test]
fn zero_exit_code_alone_is_no_success() {
    assert_eq!(execute_applescript(&printed("not found\n")), Err(FocusError::TabNotFound));
    assert_eq!(execute_applescript(&printed("found\n")), Ok(()));
    assert_eq!(execute_applescript(&printed("  found \r\n")), Ok(()));
    assert_eq!(execute_applescript(&printed("")), Err(FocusError::TabNotFound));
    assert_eq!(execute_applescript(&printed("not found at all")), Err(FocusError::TabNotFound));
    assert_eq!(execute_applescript(&printed("Found")), Err(FocusError::TabNotFound));
    assert_eq!(execute_applescript(&printed("found it")), Err(FocusError::TabNotFound));
    assert_eq!(execute_applescript(&printed("true")), Err(FocusError::TabNotFound));
    assert_eq!(execute_applescript(&failed("found")), Err(FocusError::ScriptFailed));
    assert_eq!(execute_applescript(&not_run()), Err(FocusError::CommandNotRun));

    // the same through a request: a script that ends well and prints nothing has not focused
    let step = focus_iterm_by_tty("ttys003");
    assert_eq!(result_of(&focus_step(step.state, &printed(""))), Err(FocusError::TabNotFound));
    let step = focus_iterm_by_tty("ttys003");
    assert_eq!(result_of(&focus_step(step.state, &printed("found\n"))), Ok(()));
}

#[test]
fn pane_of_the_multiplexer_is_selected_and_its_client_brought_forward() {
    let step = focus_terminal_for_pid(5);
    let step = focus_step(step.state, &printed("ttys003\n"));
    assert!(matches!(step.action, FocusAction::ListPanes));
    let step = focus_step(
        step.state,
        &printed("/dev/ttys001 main:0.0\n/dev/ttys003 work:1.2\n/dev/ttys0031 late:9.9\n"),
    );
    assert!(matches!(&step.action, FocusAction::SelectWindow { target } if target == "work:1.2"));
    let step = focus_step(step.state, &failed("ignored"));
    assert!(matches!(&step.action, FocusAction::SelectPane { target } if target == "work:1.2"));
    let step = focus_step(step.state, &not_run());
    assert!(matches!(step.action, FocusAction::QueryClientTty));
    let step = focus_step(step.state, &printed("/dev/ttys009\n"));
    assert_eq!(script_of(&step), iterm_script("ttys009"));
    let step = focus_step(step.state, &printed("not found"));
    assert_eq!(script_of(&step), TERMINAL_CHECK);
    let step = focus_step(step.state, &printed("false"));
    assert_eq!(script_of(&step), ANY_TERMINAL);
    let step = focus_step(step.state, &printed("found"));
    assert_eq!(result_of(&step), Ok(()));
}

#[test]
fn unknown_client_device_brings_any_emulator_forward() {
    for outcome in [failed("/dev/ttys009"), printed("  \n")] {
        let step = focus_tmux_pane_by_tty("ttys003");
        let step = focus_step(step.state, &printed("/dev/ttys003 a:0.0"));
        let step = focus_step(step.state, &printed(""));
        let step = focus_step(step.state, &printed(""));
        assert!(matches!(step.action, FocusAction::QueryClientTty));
        let step = focus_step(step.state, &outcome);
        assert_eq!(script_of(&step), ANY_TERMINAL);
        let step = focus_step(step.state, &printed("not found"));
        assert_eq!(result_of(&step), Err(FocusError::TabNotFound));
    }
    // where the query could not be run the attempt has failed
    let step = focus_terminal_for_pid(5);
    let step = focus_step(step.state, &printed("ttys003"));
    let step = focus_step(step.state, &printed("/dev/ttys003 a:0.0"));
    let step = focus_step(step.state, &printed(""));
    let step = focus_step(step.state, &printed(""));
    let step = focus_step(step.state, &not_run());
    assert_eq!(script_of(&step), iterm_script("ttys003"));
}

#[test]
fn request_by_pid_and_path_asks_for_at_most_thirteen_commands() {
    let outcomes = [
        printed("ttys003"),
        printed("/dev/ttys003 a:0.0"),
        printed(""),
        printed(""),
        printed("/dev/ttys009"),
        printed("not found"),
        printed("true"),
        printed("not found"),
        printed("not found"),
        printed("not found"),
        printed("true"),
        printed("not found"),
        printed("not found"),
    ];
    let mut step = focus_session(1, "/Users/u/Projects/demo");
    let mut commands = 0;
    for outcome in outcomes.iter() {
        assert!(!matches!(step.action, FocusAction::Done { .. }));
        commands += 1;
        step = focus_step(step.state, outcome);
    }
    assert_eq!(commands, 13);
    assert_eq!(result_of(&step), Err(FocusError::TabNotFound));

    // whatever the outcomes are, the request has ended after thirteen
    for outcome in [not_run(), failed("x"), printed("found"), printed("true"), printed("a b")] {
        let mut step = focus_session(1, "/Users/u/Projects/demo");
        let mut commands = 0;
        while !matches!(step.action, FocusAction::Done { .. }) {
            commands += 1;
            assert!(commands <= 13);
            step = focus_step(step.state, &outcome);
        }
    }
}

#[test]
fn failed_device_query_leaves_the_match_by_name() {
    for (outcome, error) in [
        (not_run(), FocusError::CommandNotRun),
        (failed("ttys003"), FocusError::TtyQueryFailed),
        (printed("??\n"), FocusError::NoTty),
        (printed("\n"), FocusError::NoTty),
    ] {
        let step = focus_session(9, "/Users/u/Projects/demo");
        let step = focus_step(step.state, &outcome);
        assert_eq!(script_of(&step), name_script("demo"));
        let step = focus_terminal_for_pid(9);
        let step = focus_step(step.state, &outcome);
        assert_eq!(result_of(&step), Err(error));
        assert_eq!(get_tty_for_pid(&outcome), Err(error));
    }
    assert_eq!(get_tty_for_pid(&printed("  ttys012 \n")), Ok("ttys012".to_string()));
    assert_eq!(get_tty_for_pid(&printed("?")), Ok("?".to_string()));
}

#[test]
fn every_failure_is_reported() {
    assert_eq!(
        result_of(&begin_next(Vec::new(), FocusError::NothingTried)),
        Err(FocusError::NothingTried)
    );
    let step = focus_tmux_pane_by_tty("ttys003");
    assert!(matches!(step.action, FocusAction::ListPanes));
    assert_eq!(
        result_of(&focus_step(step.state, &failed(""))),
        Err(FocusError::MultiplexerNotRunning)
    );
    let step = focus_tmux_pane_by_tty("ttys003");
    assert_eq!(
        result_of(&focus_step(step.state, &printed("/dev/ttys001 a:0.0\n"))),
        Err(FocusError::PaneNotFound)
    );
    let step = focus_tmux_pane_by_tty("ttys003");
    assert_eq!(result_of(&focus_step(step.state, &not_run())), Err(FocusError::CommandNotRun));
    let step = focus_terminal_app_by_tty("ttys003");
    assert_eq!(script_of(&step), TERMINAL_CHECK);
    assert_eq!(
        result_of(&focus_step(step.state, &printed("false\n"))),
        Err(FocusError::TerminalNotRunning)
    );
    let step = focus_terminal_app_by_tty("ttys003");
    assert_eq!(result_of(&focus_step(step.state, &not_run())), Err(FocusError::CommandNotRun));
    let step = focus_terminal_app_by_tty("ttys003");
    let step = focus_step(step.state, &failed("true"));
    assert_eq!(script_of(&step), terminal_script("ttys003"));
    let step = focus_iterm_by_tty("ttys003");
    assert_eq!(script_of(&step), iterm_script("ttys003"));
    assert_eq!(result_of(&focus_step(step.state, &failed("found"))), Err(FocusError::ScriptFailed));
    let step = focus_any_terminal_with_tmux();
    assert_eq!(script_of(&step), ANY_TERMINAL);
    assert_eq!(result_of(&focus_step(step.state, &printed("not found"))), Err(FocusError::TabNotFound));
    let step = focus_terminal_by_path("/Users/u/Projects/demo");
    assert_eq!(script_of(&step), name_script("demo"));
    assert_eq!(result_of(&focus_step(step.state, &printed("found"))), Ok(()));
    let step = focus_terminal_by_path("/Users/u/Projects/demo");
    assert_eq!(result_of(&focus_step(step.state, &printed("ok"))), Err(FocusError::TabNotFound));
    assert_eq!(
        result_of(&focus_iterm_by_tty("x\" then\nerror")),
        Err(FocusError::UnsafeArgument)
    );
}

#[test]
fn text_with_quote_backslash_or_control_character_goes_into_no_script() {
    let chars = |s: &str| s.chars().collect::<Vec<char>>();
    assert!(is_safe(&chars("ttys003")));
    assert!(is_safe(&chars("my project (1) \u{e9}~'")));
    assert!(is_safe(&chars("")));
    assert!(!is_safe(&chars("a\"b")));
    assert!(!is_safe(&chars("a\\b")));
    assert!(!is_safe(&chars("a\nb")));
    assert!(!is_safe(&chars("a\tb")));
    assert!(!is_safe(&chars("a\u{0}b")));
    assert!(!is_safe(&chars("a\u{1f}")));
    assert!(!is_safe(&chars("\u{7f}")));
    assert!(!is_safe(&chars("a\u{80}")));
    assert!(!is_safe(&chars("\u{85}b")));
    assert!(!is_safe(&chars("\u{9f}")));
    assert!(is_safe(&chars(" ~\u{a0}\u{ff}")));
    // what is refused is what the standard library calls a control character, and the two signs
    for code in 0..=0x10FFFFu32 {
        if let Some(c) = char::from_u32(code) {
            assert_eq!(is_safe(&vec![c]), !(c.is_control() || c == '"' || c == '\\'), "{:x}", code);
        }
    }

    assert_eq!(
        result_of(&focus_terminal_by_path("/Users/u/Projects/de\"mo")),
        Err(FocusError::UnsafeArgument)
    );
    assert_eq!(
        result_of(&focus_terminal_app_by_tty("tty\\s")),
        Err(FocusError::UnsafeArgument)
    );
    // only the last segment of the path goes into the script
    let step = focus_terminal_by_path("/Users/\"u\"/Projects/demo");
    assert_eq!(script_of(&step), name_script("demo"));
    // an attempt that cannot be made is passed over
    let step = focus_session(3, "/Users/u/Projects/demo");
    let step = focus_step(step.state, &printed("tty\"s"));
    assert!(matches!(step.action, FocusAction::ListPanes));
    let step = focus_step(step.state, &failed(""));
    assert_eq!(script_of(&step), name_script("demo"));
    let step = focus_terminal_for_pid(3);
    let step = focus_step(step.state, &printed("tty\"s"));
    let step = focus_step(step.state, &failed(""));
    assert_eq!(result_of(&step), Err(FocusError::UnsafeArgument));
}

#[test]
fn pane_is_found_by_the_name_of_its_device() {
    let listing = "/dev/ttys001 main:0.0\n\n  /dev/ttys003\t work:1.2  extra\r\nlonely\n/dev/ttys003 second:0.0";
    assert_eq!(find_pane_target(listing, "ttys003"), Some("work:1.2".to_string()));
    assert_eq!(find_pane_target(listing, "/dev/ttys001"), Some("main:0.0".to_string()));
    assert_eq!(find_pane_target(listing, "tty"), Some("main:0.0".to_string()));
    assert_eq!(find_pane_target(listing, "ttys004"), None);
    assert_eq!(find_pane_target(listing, "lonely"), None);
    assert_eq!(find_pane_target(listing, "work"), None);
    assert_eq!(find_pane_target("", "ttys003"), None);
    assert_eq!(find_pane_target("/dev/ttys003", "ttys003"), None);
    assert_eq!(find_pane_target("/dev/ttys003 a:1.1", ""), Some("a:1.1".to_string()));
}

#[test]
fn last_segment_of_a_path() {
    let seg = |s: &str| last_path_segment(&s.chars().collect()).iter().collect::<String>();
    assert_eq!(seg("/dev/ttys009"), "ttys009");
    assert_eq!(seg("ttys009"), "ttys009");
    assert_eq!(seg("/Users/u/Projects/demo/"), "");
    assert_eq!(seg(""), "");
    assert_eq!(seg("/"), "");
}
