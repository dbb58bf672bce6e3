use ralph::pty::{
    dimension_or_default, finish_execution, idle_expired, CliBackend, CtrlCAction, CtrlCState,
    PtyConfig, PtyExecutor, TerminationType,
};

#[test]
fn test_double_ctrl_c_within_window() {
    let mut state = CtrlCState::new();

    let action = state.handle_ctrl_c(0);
    assert_eq!(action, CtrlCAction::ForwardAndStartWindow);

    let action = state.handle_ctrl_c(500);
    assert_eq!(action, CtrlCAction::Terminate);
}

#[test]
fn test_ctrl_c_window_expires() {
    let mut state = CtrlCState::new();

    state.handle_ctrl_c(0);

    let action = state.handle_ctrl_c(2000);
    assert_eq!(action, CtrlCAction::ForwardAndStartWindow);
}

#[test]
fn test_third_press_after_terminate_forwards_again() {
    let mut state = CtrlCState::new();
    state.handle_ctrl_c(0);
    assert_eq!(state.handle_ctrl_c(300), CtrlCAction::Terminate);
    assert_eq!(state.handle_ctrl_c(400), CtrlCAction::ForwardAndStartWindow);
}

#[test]
fn test_pty_config_defaults() {
    let config = PtyConfig::default();
    assert!(config.interactive);
    assert_eq!(config.idle_timeout_secs, 30);
    assert_eq!(config.cols, 80);
    assert_eq!(config.rows, 24);
}

#[test]
fn test_strip_ansi_basic() {
    let input = b"\x1b[1;36m  Thinking...\x1b[0m\r\n";
    let result = finish_execution(input, true, Some(0), TerminationType::Natural);
    assert!(result.stripped_output.contains("Thinking..."));
    assert!(!result.stripped_output.contains("\x1b["));
}

#[test]
fn test_completion_promise_extraction() {
    let mut term = vt100::Parser::new(24, 80, 0);

    term.process(b"\x1b[1;36m  Thinking...\x1b[0m\r\n");
    term.process(b"\x1b[2K\x1b[1;32m  Done!\x1b[0m\r\n");
    term.process(b"\x1b[33mLOOP_COMPLETE\x1b[0m\r\n");

    let stripped = term.screen().contents();

    assert!(stripped.contains("LOOP_COMPLETE"));
    assert!(!stripped.contains("\x1b["));
}

#[test]
fn test_event_tag_extraction() {
    let mut term = vt100::Parser::new(24, 80, 0);

    term.process(b"\x1b[90m<event topic=\"build.done\">\x1b[0m\r\n");
    term.process(b"Task completed successfully\r\n");
    term.process(b"\x1b[90m</event>\x1b[0m\r\n");

    let stripped = term.screen().contents();

    assert!(stripped.contains("<event topic=\"build.done\">"));
    assert!(stripped.contains("</event>"));
}

#[test]
fn test_finish_execution_decodes_output() {
    let result = finish_execution(b"plain output", true, Some(0), TerminationType::Natural);
    assert_eq!(result.output, "plain output");
    assert!(result.success);
    assert_eq!(result.exit_code, Some(0));
    assert_eq!(result.termination, TerminationType::Natural);
}

#[test]
fn test_finish_execution_replaces_invalid_utf8() {
    let result = finish_execution(b"ab\xffcd", false, None, TerminationType::ForceKill);
    assert_eq!(result.output, "ab\u{fffd}cd");
    assert_eq!(result.termination, TerminationType::ForceKill);
}

#[test]
fn test_idle_timeout_zero_disables() {
    assert!(!idle_expired(0, 0, u64::MAX));
    assert!(!idle_expired(0, 0, 0));
}

#[test]
fn test_idle_timeout_expires_after_window() {
    assert!(idle_expired(5, 1_000, 7_001));
    assert!(!idle_expired(5, 1_000, 6_000));
    assert!(!idle_expired(5, 1_000, 500));
}

#[test]
fn test_build_command_prompt_as_argument() {
    let backend = CliBackend {
        program: "agent".to_string(),
        args: vec!["--print".to_string()],
        prompt_via_stdin: false,
    };
    let (program, args, stdin) = backend.build_command("do the thing".to_string());
    assert_eq!(program, "agent");
    assert_eq!(args, vec!["--print".to_string(), "do the thing".to_string()]);
    assert!(stdin.is_none());
}

#[test]
fn test_build_command_prompt_via_stdin() {
    let backend = CliBackend {
        program: "agent".to_string(),
        args: vec![],
        prompt_via_stdin: true,
    };
    let executor = PtyExecutor::new(backend, PtyConfig::default());
    let (program, args, stdin) = executor.backend.build_command("hello".to_string());
    assert_eq!(program, "agent");
    assert!(args.is_empty());
    assert_eq!(stdin, Some("hello".to_string()));
}

#[test]
fn test_grace_period_expires_after_five_seconds() {
    assert!(!ralph::pty::grace_expired(1_000, 5_999));
    assert!(ralph::pty::grace_expired(1_000, 6_000));
    // A clock running backwards counts as no time passed.
    assert!(!ralph::pty::grace_expired(1_000, 500));
}

#[test]
fn test_dimension_or_default_parses_or_falls_back() {
    assert_eq!(dimension_or_default("120", 80), 120);
    assert_eq!(dimension_or_default("+42", 80), 42);
    assert_eq!(dimension_or_default("65535", 80), 65535);
    assert_eq!(dimension_or_default("65536", 80), 80);
    assert_eq!(dimension_or_default("", 80), 80);
    assert_eq!(dimension_or_default("abc", 24), 24);
    assert_eq!(dimension_or_default("12a", 24), 24);
    assert_eq!(dimension_or_default("-3", 24), 24);
}
