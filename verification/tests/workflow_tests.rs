use ccauto::cli::helpers::has_data_to_process;
use ccauto::ht_client::{command_response, process_call, snapshot_from_response, CallOutcome, HtClientError, HtCommand, ProcessCall};
use ccauto::ht_process::{MonitorSwitches, RestartAction, RestartRetry};
use ccauto::workflow::{workflow_start, workflow_step, StepOutcome, WorkflowAction, WorkflowState};
use ccauto::config::error::ConfigError;
use ccauto::manager::{default_session_file, session_file_path};
use ccauto::queue::command_invocation;
use ccauto::pattern::Regex;
use ccauto::rule_engine::decision::{ActionType as EngineAction, CompiledRule};
use ccauto::rule_engine::engine::RuleSet;
use ccauto::rule_engine::rule_file::CmdKind;
use ccauto::manager::editor_command;
use ccauto::ht_process::{monitor_action, ProcessCheck};
use ccauto::cli::helpers::keys_to_send;
use ccauto::cli::args::{config_path, Cli};
use ccauto::cli::helpers::{key_to_send, lines_to_process, source_actions, source_has_data};
use ccauto::config::types::ActionType;
use ccauto::ht_client::{event_type, snapshot_of_view, EventSubscribers, HtEvent};
use ccauto::ht_process::{
    restart_failure, restart_step, view_from_response, HtProcessConfig, HtProcessError,
    HtResponse, RestartStep,
};
use ccauto::manager::{
    branch_name, draft_pr_commands, git_sync, issue_number, retry_step, worktree_add_command,
    worktree_path, AgentResult, GitSync, RetryStep,
};
use ccauto::monitor::{web_ui_url, web_ui_urls};
use ccauto::queue::{QueueManager, QueueStorage};
use ccauto::retry::backoff_ms;

#[test]
fn source_lines_skip_blanks_and_dedupe_keeps_first() {
    let out = "b\n\na\n  \nb\r\nc\na";
    assert_eq!(lines_to_process(out, false), vec!["b", "a", "b", "c", "a"]);
    assert_eq!(lines_to_process(out, true), vec!["b", "a", "c"]);
    assert!(lines_to_process("", true).is_empty());
}

#[test]
fn source_actions_fill_each_line() {
    let action = ActionType::SendKeys(vec!["open ${1}".to_string(), "\r".to_string()]);
    let acts = source_actions(&action, "x\ny\nx\n", true);
    assert_eq!(acts.len(), 2);
    match &acts[1] {
        ActionType::SendKeys(k) => assert_eq!(k, &vec!["open y".to_string(), "\r".to_string()]),
        _ => panic!("expected keys"),
    }
    let wf = ActionType::Workflow("w-${1}".to_string(), vec!["${1}".to_string()]);
    match &source_actions(&wf, "z", false)[0] {
        ActionType::Workflow(n, a) => {
            assert_eq!(n, "w-z");
            assert_eq!(a, &vec!["z".to_string()]);
        }
        _ => panic!("expected workflow"),
    }
}

#[test]
fn source_data_needs_success_and_a_line() {
    assert!(source_has_data(true, "test line\n"));
    assert!(!source_has_data(true, ""));
    assert!(!source_has_data(true, "   \n"));
    assert!(!source_has_data(false, "line"));
}

#[test]
fn written_carriage_returns_are_sent_as_such() {
    assert_eq!(key_to_send("\\r"), "\r");
    assert_eq!(key_to_send("\r"), "\r");
    assert_eq!(key_to_send("ls"), "ls");
}

#[test]
fn config_path_defaults() {
    assert_eq!(config_path(&Cli { config: None, debug: false }), "config.yaml");
    assert_eq!(config_path(&Cli { config: Some("a.yaml".to_string()), debug: true }), "a.yaml");
}

#[test]
fn backoff_doubles_from_the_base() {
    assert_eq!(backoff_ms(100, 1), Some(100));
    assert_eq!(backoff_ms(100, 4), Some(800));
    assert_eq!(backoff_ms(1000, 3), Some(4000));
    assert_eq!(backoff_ms(u64::MAX, 2), None);
    assert_eq!(backoff_ms(1, 65), None);
}

#[test]
fn retry_steps_follow_the_agent() {
    assert_eq!(retry_step(1, 3, &AgentResult::Success), RetryStep::Done);
    assert_eq!(retry_step(1, 3, &AgentResult::Retry), RetryStep::Wait(100));
    assert_eq!(retry_step(2, 3, &AgentResult::Retry), RetryStep::Wait(200));
    assert_eq!(
        retry_step(3, 3, &AgentResult::Retry),
        RetryStep::Fail("Max retry attempts reached".to_string())
    );
    assert_eq!(
        retry_step(1, 3, &AgentResult::Failed("boom".to_string())),
        RetryStep::Fail("Agent failed: boom".to_string())
    );
}

#[test]
fn restart_steps_back_off_then_give_up() {
    let c = HtProcessConfig::default();
    assert_eq!(c.restart_attempts, 3);
    assert_eq!(restart_step(1, 3, 1000, false), RestartStep::RetryAfter(1000));
    assert_eq!(restart_step(2, 3, 1000, false), RestartStep::RetryAfter(2000));
    assert_eq!(restart_step(3, 3, 1000, false), RestartStep::GiveUp);
    assert_eq!(restart_step(2, 3, 1000, true), RestartStep::Restarted);
    match restart_failure(3) {
        HtProcessError::ProcessCrashed(m) => assert_eq!(m, "Failed to restart after 3 attempts"),
        _ => panic!("expected a crash"),
    }
    let r = HtResponse { view: Some("v".to_string()), status: "ok".to_string() };
    assert_eq!(view_from_response(Some(r)).unwrap(), "v");
    assert!(view_from_response(None).is_err());
}

#[test]
fn issues_name_branches_and_worktrees() {
    assert_eq!(issue_number("agent-42", &[]), "42");
    assert_eq!(issue_number("agent", &[]), "agent");
    assert_eq!(issue_number("agent-42", &["7".to_string()]), "7");
    assert_eq!(branch_name("7"), "issue-7");
    assert_eq!(worktree_path("7"), ".worktree/issue-7");
    assert_eq!(worktree_add_command("7", true), "git worktree add .worktree/issue-7 issue-7");
    assert_eq!(worktree_add_command("7", false), "git worktree add .worktree/issue-7 -b issue-7");
}

#[test]
fn git_is_synced_outside_worktrees() {
    assert_eq!(git_sync("/repo/.worktree/issue-7\n", "x", "7"), GitSync::Skip);
    assert_eq!(git_sync("/repo/.worktree/other", "x", "7"), GitSync::Skip);
    assert_eq!(git_sync("/repo\n", "feature\n", "7"), GitSync::CheckoutAndPull);
    assert_eq!(git_sync("/repo", " main\n", "7"), GitSync::Pull);
}

#[test]
fn draft_pr_commands_name_the_issue() {
    let c = draft_pr_commands("9");
    assert_eq!(c[0], "gh issue view 9");
    assert_eq!(c[1], "git commit --allow-empty -m \"Fix issue #9\"");
    assert_eq!(c[2], "git push -u origin issue-9");
    assert_eq!(
        c[3],
        "gh pr create --draft --title \"Fix issue #9\" --body \"Closes #9\n\n## Summary\nImplementation for issue #9\n\n🤖 Generated with Terminal Backend\""
    );
}

#[test]
fn events_reach_their_subscribers() {
    let out = HtEvent::TerminalOutput { data: "x".to_string() };
    assert_eq!(event_type(&out), "terminalOutput");
    assert_eq!(event_type(&HtEvent::ProcessExit { code: 1 }), "processExit");
    let mut reg = EventSubscribers::new();
    reg.subscribe(&["terminalOutput".to_string(), "error".to_string()], 1);
    reg.subscribe(&["terminalOutput".to_string()], 2);
    assert_eq!(reg.recipients(&out), vec![1, 2]);
    assert_eq!(reg.recipients(&HtEvent::Error { message: "e".to_string() }), vec![1]);
    reg.unsubscribe(&["terminalOutput".to_string()]);
    assert!(reg.recipients(&out).is_empty());
    assert_eq!(reg.recipients(&HtEvent::Error { message: "e".to_string() }), vec![1]);
    let s = snapshot_of_view("screen".to_string());
    assert_eq!((s.content.as_str(), s.width, s.height, s.cursor_x, s.cursor_y), ("screen", 80, 24, 0, 0));
}

#[test]
fn web_views_and_storage() {
    assert_eq!(web_ui_url("localhost", 9990), "http://localhost:9990");
    assert_eq!(web_ui_urls("h", 9990, 2), vec!["http://h:9990", "http://h:9991"]);
    assert_eq!(QueueManager::new(), QueueManager);
    assert_eq!(QueueStorage::new("/tmp/q.json").file_path(), "/tmp/q.json");
}

#[test]
fn rule_actions_send_their_keys() {
    let a = ActionType::SendKeys(vec!["q".to_string(), "\\r".to_string()]);
    assert_eq!(keys_to_send(&a), vec!["q", "\r"]);
    let w = ActionType::Workflow("w".to_string(), vec![]);
    assert!(keys_to_send(&w).is_empty());
}

#[test]
fn process_monitor_restarts_gone_processes() {
    let a = monitor_action(ProcessCheck::Running, true);
    assert!(!a.forget_process && !a.restart);
    let a = monitor_action(ProcessCheck::Exited, true);
    assert!(a.forget_process && a.restart);
    let a = monitor_action(ProcessCheck::CheckFailed, false);
    assert!(a.forget_process && !a.restart);
    let a = monitor_action(ProcessCheck::Absent, true);
    assert!(!a.forget_process && a.restart);
}

#[test]
fn editors_default_to_vim() {
    assert_eq!(editor_command("a.txt", None), "vim a.txt");
    assert_eq!(editor_command("a.txt", Some("nano")), "nano a.txt");
}

#[test]
fn session_files_live_under_the_config_dir() {
    assert_eq!(session_file_path(true, Some(b"/x".to_vec())), b"/tmp/rule-agents-test-sessions.json".to_vec());
    assert_eq!(session_file_path(false, Some(b"/home/u/.config".to_vec())), b"/home/u/.config/rule-agents/sessions.json".to_vec());
    assert_eq!(session_file_path(false, Some(b"/cfg/".to_vec())), b"/cfg/rule-agents/sessions.json".to_vec());
    assert_eq!(session_file_path(false, None), b"./rule-agents/sessions.json".to_vec());
    assert!(default_session_file(false).ends_with(b"rule-agents/sessions.json"));
}

#[test]
fn session_files_keep_the_config_dir_bytes() {
    let dir: Vec<u8> = vec![b'/', b'c', 0xff, 0xfe];
    let mut expected = dir.clone();
    expected.extend_from_slice(b"/rule-agents/sessions.json");
    assert_eq!(session_file_path(false, Some(dir)), expected);
}

#[test]
fn rule_sets_keep_rules_when_a_reload_fails() {
    let rule = |p: u32, pat: &str| CompiledRule {
        priority: p,
        regex: Regex::new(pat).unwrap(),
        action: EngineAction::Legacy(CmdKind::Entry, vec![]),
    };
    let mut set = RuleSet::new(vec![rule(1, "a")]);
    set.register_rule(rule(2, "b"));
    assert_eq!(set.get_rules().len(), 2);
    assert!(!set.apply_reload(Err(ConfigError::InvalidRegex)));
    assert_eq!(set.get_rules()[1].regex.as_str(), "b");
    assert!(set.apply_reload(Ok(vec![rule(3, "c")])));
    let rs = set.get_rules();
    assert_eq!((rs.len(), rs[0].priority, rs[0].regex.as_str()), (1, 3, "c"));
}

#[test]
fn test_has_data_to_process_with_empty_source() {
    // `true` prints nothing and succeeds.
    assert!(!source_has_data(true, ""));
}

#[test]
fn test_has_data_to_process_with_data() {
    // `echo 'test line'`
    assert!(source_has_data(true, "test line\n"));
}

#[test]
fn test_has_data_to_process_with_whitespace_only() {
    // `echo '   '`
    assert!(!source_has_data(true, "   \n"));
}

#[test]
fn test_has_data_to_process_with_failing_command() {
    // `false` fails without output.
    assert!(!source_has_data(false, ""));
}

fn ran(output: &str, code: i32) -> StepOutcome {
    StepOutcome::Ran { output: output.to_string(), exit_code: Some(code), error: "boom".to_string() }
}

fn run(c: &str) -> WorkflowAction {
    WorkflowAction::Run(c.to_string())
}

#[test]
fn entry_workflow_runs_its_steps_in_order() {
    assert_eq!(workflow_start(true), (WorkflowState::Done, WorkflowAction::Finish));
    let (mut s, a) = workflow_start(false);
    assert_eq!(a, run("pwd"));
    let steps: Vec<(StepOutcome, WorkflowAction)> = vec![
        (ran("/repo\n", 0), run("git branch --show-current")),
        (ran("feature\n", 0), run("git checkout main")),
        (ran("", 0), run("git pull origin main")),
        (ran("", 0), run("test -d .worktree/issue-7")),
        (ran("", 1), run("git show-ref --verify --quiet refs/heads/issue-7")),
        (ran("", 1), run("git worktree add .worktree/issue-7 -b issue-7")),
        (ran("", 0), WorkflowAction::SwitchTo(".worktree/issue-7".to_string())),
        (ran("", 0), run("gh issue view 7")),
        (ran("", 0), run("git commit --allow-empty -m \"Fix issue #7\"")),
        (ran("", 0), run("git push -u origin issue-7")),
    ];
    for (outcome, want) in steps {
        let (next, action) = workflow_step(s, "7", &outcome);
        assert_eq!(action, want);
        s = next;
    }
    let (next, _) = workflow_step(s, "7", &ran("", 0));
    assert_eq!(next, WorkflowState::AwaitPr);
    let (next, action) = workflow_step(next, "7", &ran("https://x/pr/1", 0));
    assert_eq!(action, run("test -f Cargo.toml"));
    let (next, action) = workflow_step(next, "7", &ran("", 0));
    assert_eq!(action, run("cargo fmt --check"));
    let (next, action) = workflow_step(next, "7", &ran("", 1));
    assert_eq!(action, run("cargo clippy"));
    let (next, action) = workflow_step(next, "7", &ran("", 0));
    assert_eq!(action, run("cargo test"));
    let (next, action) = workflow_step(next, "7", &ran("", 0));
    assert_eq!((next, action), (WorkflowState::Done, WorkflowAction::Finish));
}

#[test]
fn entry_workflow_stops_on_errors() {
    let (s, a) = workflow_step(WorkflowState::AwaitPull, "7", &ran("", 1));
    assert_eq!((s, a), (WorkflowState::Done, WorkflowAction::Fail("Git pull failed: boom".to_string())));
    let (s, a) = workflow_step(WorkflowState::AwaitPwd, "7", &StepOutcome::NotRun("gone".to_string()));
    assert_eq!(
        (s, a),
        (WorkflowState::Done, WorkflowAction::Fail("Failed to get current directory: gone".to_string()))
    );
    let (s, a) = workflow_step(WorkflowState::AwaitPwd, "7", &ran("/r/.worktree/issue-7", 0));
    assert_eq!((s, a), (WorkflowState::AwaitWorktreeTest, run("test -d .worktree/issue-7")));
    let (_, a) = workflow_step(WorkflowState::AwaitBranch, "7", &ran(" main\n", 0));
    assert_eq!(a, run("git pull origin main"));
    let (_, a) = workflow_step(WorkflowState::AwaitQualityCheck(1), "7", &StepOutcome::NotRun("x".to_string()));
    assert_eq!(a, WorkflowAction::Fail("Failed to run cargo clippy: x".to_string()));
}

#[test]
fn restart_loop_backs_off_then_gives_up() {
    let mut r = RestartRetry::new(3, 1000);
    assert!(matches!(r.step(None), RestartAction::Restart));
    assert!(matches!(r.step(Some(false)), RestartAction::Wait(1000)));
    assert!(matches!(r.step(None), RestartAction::Restart));
    assert!(matches!(r.step(Some(false)), RestartAction::Wait(2000)));
    assert!(matches!(r.step(None), RestartAction::Restart));
    match r.step(Some(false)) {
        RestartAction::Fail(HtProcessError::ProcessCrashed(m)) => {
            assert_eq!(m, "Failed to restart after 3 attempts")
        }
        _ => panic!("expected the loop to give up"),
    }
    let mut ok = RestartRetry::new(3, 1000);
    assert!(matches!(ok.step(None), RestartAction::Restart));
    assert!(matches!(ok.step(Some(true)), RestartAction::Restarted));
    let mut none = RestartRetry::new(0, 1000);
    assert!(matches!(none.step(None), RestartAction::Fail(_)));
}

#[test]
fn monitor_switches_gate_restarts() {
    let mut m = MonitorSwitches::new();
    assert!(m.is_auto_restart_enabled());
    assert!(m.poll(ProcessCheck::Exited).is_none());
    m.start_process_monitor();
    let a = m.poll(ProcessCheck::Exited).unwrap();
    assert!(a.forget_process && a.restart);
    m.disable_auto_restart();
    assert!(!m.poll(ProcessCheck::Absent).unwrap().restart);
    m.enable_auto_restart();
    assert!(m.poll(ProcessCheck::Absent).unwrap().restart);
}

#[test]
fn test_has_data_to_process_with_no_source() {
    assert!(has_data_to_process(None));
    assert!(has_data_to_process(Some((true, "x\n".to_string()))));
    assert!(!has_data_to_process(Some((true, "  \n".to_string()))));
}

#[test]
fn client_commands_map_to_process_calls_and_answers() {
    assert_eq!(process_call(&HtCommand::SendKeys { keys: "ls".to_string() }), ProcessCall::SendInput("ls".to_string()));
    assert_eq!(process_call(&HtCommand::TakeSnapshot), ProcessCall::GetView);
    assert_eq!(process_call(&HtCommand::Resize { width: 1, height: 2 }), ProcessCall::Nothing);
    assert_eq!(process_call(&HtCommand::Subscribe { events: vec![] }), ProcessCall::Nothing);
    let r = command_response(Ok(CallOutcome::View("screen".to_string()))).unwrap();
    assert!(r.success && r.error.is_none());
    let snap = snapshot_from_response(r).unwrap();
    assert_eq!((snap.content.as_str(), snap.width, snap.height), ("screen", 80, 24));
    let r = command_response(Ok(CallOutcome::Sent)).unwrap();
    assert!(r.success && r.data.is_none());
    match snapshot_from_response(r) {
        Err(HtClientError::InvalidResponse(m)) => assert_eq!(m, "No snapshot data in response"),
        _ => panic!("expected an invalid response"),
    }
    let e = command_response(Err(ccauto::agent::ht_process::HtProcessError::NotRunning));
    assert!(matches!(e, Err(HtClientError::ProcessError(_))));
    let e = command_response(Err(ccauto::agent::ht_process::HtProcessError::CommunicationError("gone".to_string())));
    match e {
        Err(HtClientError::ProcessError(ccauto::agent::ht_process::HtProcessError::CommunicationError(m))) => assert_eq!(m, "gone"),
        _ => panic!("expected the same process error"),
    }
}

#[test]
fn queue_commands_split_into_program_and_arguments() {
    assert_eq!(
        command_invocation("  echo   hello world "),
        Ok(("echo".to_string(), vec!["hello".to_string(), "world".to_string()]))
    );
    assert_eq!(command_invocation("false"), Ok(("false".to_string(), vec![])));
    assert_eq!(command_invocation(" \t "), Err("Empty command".to_string()));
    assert_eq!(command_invocation(""), Err("Empty command".to_string()));
}
