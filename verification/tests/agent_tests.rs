use ccauto::agent::pty_process::command_output_line;
use ccauto::agent::ht_process::{
    clean_terminal_output, ht_arguments, is_startup_notice, view_from_response as ht_view,
    HtProcessConfig, HtProcessError, HtResponse, SnapshotData as HtSnapshotData,
};
use ccauto::agent::pty_process::{
    is_monitored_command, parse_shell_command, view_from_response, PtyProcessConfig,
    PtyProcessError, PtyResponse, SnapshotData,
};
use ccauto::agent::pty_session::{command_writes, parse_ctrl_key, parse_key, PtyCommand};
use ccauto::agent::pty_terminal::{command_argv, OutputBuffer, TerminalState, OUTPUT_KEEP, OUTPUT_LIMIT};
use ccauto::agent::status::{
    agent_id, agent_web_port, parse_child_pids, pool_slot, status_change, status_for_children,
    AgentStatus,
};
use ccauto::agent::terminal_monitor::{
    AgentState, MonitorConfig, MonitorError, TerminalOutputMonitor, TerminalSnapshot,
};

#[test]
fn test_monitor_creation() {
    let monitor = TerminalOutputMonitor::new("test-agent".to_string());
    assert_eq!(monitor.current_state(), &AgentState::Idle);
    assert!(!monitor.is_running());
}

#[test]
fn test_prompt_detection() {
    let config = MonitorConfig::default();
    let monitor = TerminalOutputMonitor::with_config("test-agent".to_string(), config);

    let snapshot = TerminalSnapshot {
        content: "user@host:/path$ ".to_string(),
        cursor_position: Some((17, 0)),
        width: 80,
        height: 24,
    };

    assert!(monitor.is_idle_state(&snapshot));
}

#[test]
fn test_state_monitoring() {
    let mut monitor = TerminalOutputMonitor::new("test-agent".to_string());
    monitor.start_monitoring(0);
    assert!(monitor.is_running());

    monitor.stop_monitoring();
    assert!(!monitor.is_running());
}

fn snap(content: &str) -> TerminalSnapshot {
    TerminalSnapshot { content: content.to_string(), cursor_position: None, width: 80, height: 24 }
}

#[test]
fn monitor_reports_state_changes() {
    let mut monitor = TerminalOutputMonitor::new("a".to_string());
    assert_eq!(monitor.agent_id(), "a");
    assert!(matches!(monitor.process_snapshot(snap("x"), 0), Err(MonitorError::NotRunning)));
    monitor.start_monitoring(0);
    let t = monitor.process_snapshot(snap("compiling..."), 100).unwrap().unwrap();
    assert_eq!((t.from, t.to, t.timestamp_ms), (AgentState::Idle, AgentState::Active, 100));
    assert!(monitor.process_snapshot(snap("compiling..."), 2_000).unwrap().is_none());
    let t = monitor.process_snapshot(snap("compiling..."), 3_100).unwrap().unwrap();
    assert_eq!((t.from, t.to), (AgentState::Active, AgentState::Wait));
    let t = monitor.process_snapshot(snap("done\nuser@host:~$ "), 3_200).unwrap().unwrap();
    assert_eq!((t.from, t.to), (AgentState::Wait, AgentState::Idle));
    assert!(monitor.is_idle_state(&snap("done\n$\n\n")));
    assert!(!monitor.is_idle_state(&snap("\n  \n")));
}

#[test]
fn test_parse_shell_command() {
    let test_cases = vec![
        ("assistant 'say hello, in Japanese'", vec!["assistant", "say hello, in Japanese"]),
        ("assistant \"hello world\"", vec!["assistant", "hello world"]),
        ("assistant simple", vec!["assistant", "simple"]),
        ("assistant arg1 arg2", vec!["assistant", "arg1", "arg2"]),
        ("assistant 'complex arg' another", vec!["assistant", "complex arg", "another"]),
    ];

    for (input, expected) in test_cases {
        let result = parse_shell_command(input);
        assert_eq!(result, expected, "Failed for input: {}", input);
    }
}

#[test]
fn shell_command_quotes_nest_and_blanks_collapse() {
    assert_eq!(parse_shell_command("  a\t\tb  "), vec!["a", "b"]);
    assert_eq!(parse_shell_command("say \"it's\" ok"), vec!["say", "it's", "ok"]);
    assert_eq!(parse_shell_command("x''y"), vec!["xy"]);
    assert!(parse_shell_command("   ").is_empty());
    assert_eq!(parse_shell_command("'open"), vec!["open"]);
}

#[test]
fn monitored_commands_start_with_the_program() {
    assert!(is_monitored_command("  assistant \"hi\"  ", "assistant"));
    assert!(!is_monitored_command("assistant", "assistant"));
    assert!(!is_monitored_command("assistantx run", "assistant"));
}

#[test]
fn pty_views_come_from_responses() {
    let snap = PtyResponse::Snapshot {
        response_type: "snapshot".to_string(),
        data: SnapshotData { seq: "abc".to_string(), cols: 80, rows: 24 },
    };
    assert_eq!(view_from_response(Some(snap)).unwrap(), "abc");
    let view = PtyResponse::View { view: Some("v".to_string()), status: "ok".to_string() };
    assert_eq!(view_from_response(Some(view)).unwrap(), "v");
    let empty = PtyResponse::View { view: None, status: "ok".to_string() };
    match view_from_response(Some(empty)) {
        Err(PtyProcessError::CommunicationError(m)) => assert_eq!(m, "No view data in response"),
        _ => panic!("expected a communication error"),
    }
    match view_from_response(None) {
        Err(PtyProcessError::CommunicationError(m)) => assert_eq!(m, "No response received"),
        _ => panic!("expected a communication error"),
    }
}

#[test]
fn pty_config_defaults_to_bash() {
    let c = PtyProcessConfig::from_shell_var(None);
    assert_eq!(c.shell_command, Some("bash".to_string()));
    assert_eq!((c.cols, c.rows), (80, 24));
    let c = PtyProcessConfig::from_shell_var(Some("/bin/zsh".to_string()));
    assert_eq!(c.shell_command, Some("/bin/zsh".to_string()));
}

#[test]
fn keys_encode_to_terminal_bytes() {
    assert_eq!(parse_key("Enter"), b"\r".to_vec());
    assert_eq!(parse_key("Tab"), b"\t".to_vec());
    assert_eq!(parse_key("Up"), b"\x1b[A".to_vec());
    assert_eq!(parse_key("C-Left"), b"\x1b[1;5D".to_vec());
    assert_eq!(parse_key("F12"), b"\x1b[24~".to_vec());
    assert_eq!(parse_key("C-Space"), vec![0u8]);
    assert_eq!(parse_key("C-\\"), vec![0x1cu8]);
    assert_eq!(parse_key("C-c"), vec![3u8]);
    assert_eq!(parse_key("^Z"), vec![26u8]);
    assert_eq!(parse_key("hello"), b"hello".to_vec());
    assert_eq!(parse_key("é"), "é".as_bytes().to_vec());
}

#[test]
fn ctrl_keys_take_the_letter_after_the_prefix() {
    assert_eq!(parse_ctrl_key("C-a"), Some(1));
    assert_eq!(parse_ctrl_key("C-Z"), Some(26));
    assert_eq!(parse_ctrl_key("^c"), Some(3));
    assert_eq!(parse_ctrl_key("C-cx"), Some(3));
    assert_eq!(parse_ctrl_key("C-1"), None);
    assert_eq!(parse_ctrl_key("C-"), None);
    assert_eq!(parse_ctrl_key("^"), None);
    assert_eq!(parse_ctrl_key("x"), None);
}

#[test]
fn commands_write_their_bytes() {
    let w = command_writes(&PtyCommand::SendKeys { keys: vec!["ls".to_string(), "Enter".to_string()] });
    assert_eq!(w, vec![b"ls".to_vec(), b"\r".to_vec()]);
    let w = command_writes(&PtyCommand::Input { payload: "echo hi\n".to_string() });
    assert_eq!(w, vec![b"echo hi\n".to_vec()]);
    assert!(command_writes(&PtyCommand::Resize { cols: 100, rows: 30 }).is_empty());
}

#[test]
fn command_lines_split_on_whitespace() {
    assert_eq!(command_argv("  bash  -l\t-i "), vec!["bash", "-l", "-i"]);
    assert!(command_argv(" \t\n").is_empty());
}

#[test]
fn output_buffer_keeps_the_latest_bytes() {
    let mut b = OutputBuffer::new();
    b.append(b"hello ");
    b.append(b"world");
    assert_eq!(b.contents(), b"hello world".to_vec());
    let big: Vec<u8> = (0..OUTPUT_LIMIT).map(|i| (i % 251) as u8).collect();
    b.append(&big);
    let kept = b.contents();
    assert_eq!(kept.len(), OUTPUT_KEEP);
    let mut all = b"hello world".to_vec();
    all.extend_from_slice(&big);
    assert_eq!(kept[..], all[all.len() - OUTPUT_KEEP..]);
}

#[test]
fn agents_are_named_and_placed_by_position() {
    assert_eq!(agent_id(0), "agent-0");
    assert_eq!(agent_id(12), "agent-12");
    assert_eq!(agent_web_port(9990, 2), 9992);
    assert_eq!(pool_slot(3, 3), 0);
    assert_eq!(pool_slot(4, 3), 1);
    assert_eq!(status_for_children(0), AgentStatus::Idle);
    assert_eq!(status_for_children(2), AgentStatus::Active);
    assert_eq!(status_change(AgentStatus::Idle, AgentStatus::Idle), None);
    assert_eq!(status_change(AgentStatus::Idle, AgentStatus::Active), Some(AgentStatus::Active));
}

#[test]
fn child_pids_are_parsed_from_pgrep_output() {
    assert_eq!(parse_child_pids("123\n 456 \nabc\n\n+7\n4294967296\n"), vec![123, 456, 7]);
    assert!(parse_child_pids("").is_empty());
}

#[test]
fn terminal_output_is_cleaned() {
    let raw = "\x1b[1;32mHello\x1b[0m\r\n  world \x07\n";
    assert_eq!(clean_terminal_output(raw).unwrap(), "Hello  world");
    assert_eq!(clean_terminal_output("\x1b[2J\x1b[H").unwrap(), "");
    assert_eq!(clean_terminal_output("  a  ").unwrap(), "a");
    assert_eq!(clean_terminal_output("\x1b[31mhello\x1b[0m\r\n").unwrap(), "hello");
}

#[test]
fn ht_views_come_from_responses() {
    let snap = HtResponse::Snapshot {
        response_type: "snapshot".to_string(),
        data: HtSnapshotData { seq: "\x1b[31mred\x1b[0m".to_string(), cols: 80, rows: 24 },
    };
    assert_eq!(ht_view(Some(snap)).unwrap(), "red");
    let none = HtResponse::View { view: None, status: "x".to_string() };
    assert!(matches!(ht_view(Some(none)), Err(HtProcessError::CommunicationError(_))));
    assert!(matches!(ht_view(None), Err(HtProcessError::CommunicationError(_))));
}

#[test]
fn ht_is_started_with_its_web_view_and_shell() {
    let c = HtProcessConfig::from_shell_var(Some("zsh".to_string()));
    assert_eq!(ht_arguments(&c), vec!["-l", "0.0.0.0:9999", "--subscribe", "snapshot", "zsh"]);
    let mut c = HtProcessConfig::from_shell_var(None);
    c.shell_command = None;
    c.port = 80;
    assert_eq!(ht_arguments(&c), vec!["-l", "0.0.0.0:80", "--subscribe", "snapshot"]);
}

#[test]
fn ht_startup_notices_are_recognized() {
    assert!(is_startup_notice("[info] HTTP server listening on 0.0.0.0:9999"));
    assert!(is_startup_notice("launching \"/bin/zsh\" in terminal"));
    assert!(!is_startup_notice("panic: something broke"));
}

#[test]
fn blank_command_lines_are_skipped() {
    assert!(command_output_line("   ".to_string(), true).is_none());
    let o = command_output_line("hi".to_string(), false).unwrap();
    assert_eq!(o.content, "hi");
    assert!(!o.is_stdout);
}

#[test]
fn terminal_screen_shows_what_was_printed() {
    let mut t = TerminalState::new(20, 4);
    assert_eq!(t.screen_contents(), "");
    t.on_output(b"\x1b[31mred\x1b[0m text\r\nnext");
    assert_eq!(t.screen_contents(), "red text\nnext");
    assert_eq!(t.accumulated_output(), b"\x1b[31mred\x1b[0m text\r\nnext".to_vec());
    t.on_output(b"\x1b[2J\x1b[Hclear");
    assert_eq!(t.screen_contents(), "clear");
}

#[test]
fn terminal_resize_keeps_output_and_cuts_the_screen() {
    let mut t = TerminalState::new(10, 2);
    t.on_output(b"abcdefgh");
    t.resize(4, 2);
    assert_eq!(t.screen_contents(), "abcd");
    assert_eq!(t.accumulated_output(), b"abcdefgh".to_vec());
}

#[test]
fn cleaned_output_has_no_outer_whitespace() {
    for raw in ["  \x1b[31m hi \n there  ", "\t\r\n x \n\n", " \u{a0}a b\u{a0} "] {
        let c = clean_terminal_output(raw).unwrap();
        assert_eq!(c, c.trim());
    }
    assert_eq!(clean_terminal_output("  \x1b[31m hi \n there  ").unwrap(), "hi  there");
}
