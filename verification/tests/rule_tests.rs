use ccauto::rule_engine::rule_file::{compile_rule_file, Rule as FileRule, RuleFile};
use ccauto::config::helper::ActionType;
use ccauto::config::rules_config::{Rule, RuleType};
use ccauto::pattern::Regex;
use ccauto::rule::capture::{resolve_capture_groups, resolve_capture_groups_in_vec};
use ccauto::rule::diff_timeout::DiffTimeout;
use ccauto::rule::when::{normalized_lines, When};
use ccauto::rule_engine::decision::{decide_cmd, ActionType as EngineAction, CompiledRule};
use ccauto::rule_engine::rule_file::CmdKind;
use std::time::Instant;

#[test]
fn test_resolve_capture_groups_single() {
    let template = "echo ${1}";
    let groups = vec!["hello".to_string()];
    let result = resolve_capture_groups(template, &groups);
    assert_eq!(result, "echo hello");
}

#[test]
fn test_resolve_capture_groups_multiple() {
    let template = "cp ${1} ${2}";
    let groups = vec!["file1.txt".to_string(), "/tmp/file2.txt".to_string()];
    let result = resolve_capture_groups(template, &groups);
    assert_eq!(result, "cp file1.txt /tmp/file2.txt");
}

#[test]
fn test_resolve_capture_groups_no_placeholder() {
    let template = "echo hello";
    let groups = vec!["world".to_string()];
    let result = resolve_capture_groups(template, &groups);
    assert_eq!(result, "echo hello");
}

#[test]
fn test_resolve_capture_groups_in_vec() {
    let templates = vec!["echo ${1}".to_string(), "cd ${2}".to_string()];
    let groups = vec!["hello".to_string(), "/tmp".to_string()];
    let result = resolve_capture_groups_in_vec(&templates, &groups);
    assert_eq!(result, vec!["echo hello", "cd /tmp"]);
}

#[test]
fn capture_groups_without_groups_leave_template() {
    assert_eq!(resolve_capture_groups("a ${1} b", &[]), "a ${1} b");
}

fn when_rule(pattern: &str, keys: Vec<String>) -> Rule {
    Rule {
        rule_type: RuleType::When(Regex::new(pattern).unwrap()),
        action: ActionType::SendKeys(keys),
    }
}

#[test]
fn test_decide_action_exact_match() {
    let rules = vec![
        when_rule(r"issue\s+(\d+)", vec!["open_issue".to_string(), "${1}".to_string()]),
        when_rule(r"resume", vec!["resume_task".to_string()]),
    ];
    let when = When::new(rules);
    let action = when.decide_action("issue 123");
    assert_eq!(
        action,
        ActionType::SendKeys(vec!["open_issue".to_string(), "123".to_string()])
    );
}

#[test]
fn test_decide_action_priority_ordering() {
    let rules = vec![
        when_rule(r"test", vec!["high_priority".to_string()]),
        when_rule(r"test", vec!["low_priority".to_string()]),
    ];
    let when = When::new(rules);
    let action = when.decide_action("test");
    assert_eq!(action, ActionType::SendKeys(vec!["high_priority".to_string()]));
}

#[test]
fn test_decide_action_no_match() {
    let rules = vec![
        when_rule(r"issue\s+(\d+)", vec!["open_issue".to_string()]),
        when_rule(r"resume", vec!["resume_task".to_string()]),
    ];
    let when = When::new(rules);
    let action = when.decide_action("no matching pattern here");
    assert_eq!(action, ActionType::SendKeys(vec![]));
}

#[test]
fn test_decide_action_empty_capture() {
    let rules = vec![when_rule(r"issue\s+(\d+)", vec!["open_issue".to_string()])];
    let when = When::new(rules);
    let action = when.decide_action("");
    assert_eq!(action, ActionType::SendKeys(vec![]));
}

#[test]
fn test_decide_action_empty_rules() {
    let when = When::new(vec![]);
    let action = when.decide_action("any text");
    assert_eq!(action, ActionType::SendKeys(vec![]));
}

#[test]
fn test_decide_action_capture_groups() {
    let rules = vec![when_rule(
        r"deploy\s+(\w+)\s+to\s+(\w+)",
        vec!["deploy".to_string(), "${1}".to_string(), "${2}".to_string()],
    )];
    let when = When::new(rules);
    let action = when.decide_action("deploy app to production");
    assert_eq!(
        action,
        ActionType::SendKeys(vec![
            "deploy".to_string(),
            "app".to_string(),
            "production".to_string()
        ])
    );
}

#[test]
fn when_test_performance_100_rules() {
    let rules: Vec<Rule> = (0..100)
        .map(|i| when_rule(&format!("unique_pattern_{}", i), vec![]))
        .collect();
    let start = Instant::now();
    let when = When::new(rules);
    let action = when.decide_action("non-matching test input");
    let duration = start.elapsed();
    assert_eq!(action, ActionType::SendKeys(vec![]));
    assert!(
        duration.as_millis() < 200,
        "Should complete within 200ms for 100 rules, took {}ms",
        duration.as_millis()
    );
}

#[test]
fn test_japanese_hello_pattern() {
    let rules = vec![when_rule(r"こんにちは|Hello", vec!["q".to_string(), "\r".to_string()])];
    let actual_content = "Users/sonesuke/rule-agents                │\n╰───────────────────────────────────────────────────╯\n\n\n> say hello, in Japanese\n\n⏺ こんにちは！\n\n╭──────────────────────────────────────────────────────────────────────────────╮\n│ > Try \"how does compiled_rule.rs work?\"                                      │\n╰──────────────────────────────────────────────────────────────────────────────╯\n  ? for shortcuts";
    let when = When::new(rules);
    let action = when.decide_action(actual_content);
    assert_eq!(
        action,
        ActionType::SendKeys(vec!["q".to_string(), "\r".to_string()]),
        "Pattern should match こんにちは in the content"
    );
}

#[test]
fn normalized_lines_strip_escapes_and_blank_lines() {
    let lines = normalized_lines("\x1b[32mok\x1b[0m\r\n\n  \nnext line").unwrap();
    assert_eq!(lines, vec!["ok".to_string(), "next line".to_string()]);
}

fn timeout_rule(secs: u64, key: &str) -> Rule {
    Rule {
        rule_type: RuleType::DiffTimeout(secs),
        action: ActionType::SendKeys(vec![key.to_string()]),
    }
}

#[test]
fn diff_timeout_fires_once_per_quiet_period() {
    let rules = vec![timeout_rule(2, "a"), when_rule("x", vec!["w".to_string()]), timeout_rule(5, "b")];
    let mut dt = DiffTimeout::new(rules, 1_000);
    assert_eq!(dt.actions().len(), 2);
    assert!(dt.find_triggered_timeout_indices(2_999).is_empty());
    assert_eq!(dt.find_triggered_timeout_indices(3_000), vec![0]);
    assert!(dt.find_triggered_timeout_indices(4_000).is_empty());
    assert_eq!(dt.find_triggered_timeout_indices(6_000), vec![1]);
    dt.reset_timeout_activity(7_000);
    assert!(dt.find_triggered_timeout_indices(8_000).is_empty());
    assert_eq!(dt.find_triggered_timeout_indices(9_000), vec![0]);
}

fn engine_rule(priority: u32, pattern: &str, command: CmdKind, args: Vec<String>) -> CompiledRule {
    CompiledRule {
        priority,
        regex: Regex::new(pattern).unwrap(),
        action: EngineAction::Legacy(command, args),
    }
}

#[test]
fn test_decide_cmd_exact_match() {
    let rules = vec![
        engine_rule(10, r"issue\s+(\d+)", CmdKind::Entry, vec![]),
        engine_rule(20, r"resume", CmdKind::Resume, vec![]),
    ];
    let (command, args) = decide_cmd("issue 123", &rules);
    assert_eq!(command, CmdKind::Entry);
    assert_eq!(args, vec!["123"]);
}

#[test]
fn test_decide_cmd_priority_ordering() {
    let rules = vec![
        engine_rule(10, r"test", CmdKind::Entry, vec!["high".to_string()]),
        engine_rule(20, r"test", CmdKind::Resume, vec!["low".to_string()]),
    ];
    let (command, args) = decide_cmd("test", &rules);
    assert_eq!(command, CmdKind::Entry);
    assert_eq!(args, vec!["high"]);
}

#[test]
fn test_decide_cmd_no_match() {
    let rules = vec![
        engine_rule(10, r"issue\s+(\d+)", CmdKind::Entry, vec![]),
        engine_rule(20, r"resume", CmdKind::Resume, vec![]),
    ];
    let (command, args) = decide_cmd("no matching pattern here", &rules);
    assert_eq!(command, CmdKind::Resume);
    assert!(args.is_empty());
}

#[test]
fn test_decide_cmd_empty_capture() {
    let rules = vec![engine_rule(10, r"issue\s+(\d+)", CmdKind::Entry, vec![])];
    let (command, args) = decide_cmd("", &rules);
    assert_eq!(command, CmdKind::Resume);
    assert!(args.is_empty());
}

#[test]
fn test_decide_cmd_empty_rules() {
    let (command, args) = decide_cmd("any text", &[]);
    assert_eq!(command, CmdKind::Resume);
    assert!(args.is_empty());
}

#[test]
fn test_decide_cmd_capture_groups() {
    let rules = vec![engine_rule(
        10,
        r"deploy\s+(\w+)\s+to\s+(\w+)",
        CmdKind::Entry,
        vec!["static".to_string()],
    )];
    let (command, args) = decide_cmd("deploy app to production", &rules);
    assert_eq!(command, CmdKind::Entry);
    assert_eq!(args, vec!["static", "app", "production"]);
}

#[test]
fn test_decide_cmd_no_capture_groups() {
    let rules = vec![engine_rule(20, r"resume", CmdKind::Resume, vec!["static".to_string()])];
    let (command, args) = decide_cmd("resume", &rules);
    assert_eq!(command, CmdKind::Resume);
    assert_eq!(args, vec!["static"]);
}

#[test]
fn decision_test_performance_100_rules() {
    let rules: Vec<CompiledRule> = (0..100)
        .map(|i| engine_rule(i, &format!("unique_pattern_{}", i), CmdKind::Resume, vec![]))
        .collect();
    let start = Instant::now();
    let (command, _) = decide_cmd("non-matching test input", &rules);
    let duration = start.elapsed();
    assert_eq!(command, CmdKind::Resume);
    assert!(
        duration.as_millis() < 100,
        "Should complete within 100ms for 100 rules, took {}ms",
        duration.as_millis()
    );
}

#[test]
fn output_chunks_give_the_actions_with_keys() {
    let rules = vec![
        when_rule(r"proceed\?", vec!["1".to_string(), "\r".to_string()]),
        when_rule(r"^exit$", vec!["/exit".to_string()]),
    ];
    let when = When::new(rules);
    let acts = when.actions_for_output("\x1b[1mDo you want to proceed?\x1b[0m\r\nnothing\nexit\n").unwrap();
    assert_eq!(
        acts,
        vec![
            ActionType::SendKeys(vec!["1".to_string(), "\r".to_string()]),
            ActionType::SendKeys(vec!["/exit".to_string()]),
        ]
    );
}

#[test]
fn due_timeout_actions_are_returned_once() {
    let rules = vec![timeout_rule(1, "a"), timeout_rule(3, "b")];
    let mut dt = DiffTimeout::new(rules, 0);
    assert_eq!(dt.due_actions(3_000), vec![
        ActionType::SendKeys(vec!["a".to_string()]),
        ActionType::SendKeys(vec!["b".to_string()]),
    ]);
    assert!(dt.due_actions(10_000).is_empty());
}

#[test]
fn rule_files_are_sorted_stably_by_priority() {
    let rule = |p: u32, pat: &str, cmd: &str| FileRule {
        priority: p,
        pattern: pat.to_string(),
        command: cmd.to_string(),
        args: vec![],
    };
    let file = RuleFile {
        rules: vec![rule(20, "b", "resume"), rule(10, "a", "entry"), rule(20, "c", "entry"), rule(5, "d", "resume")],
    };
    let compiled = compile_rule_file(file).unwrap();
    let order: Vec<(u32, &str)> = compiled.iter().map(|r| (r.priority, r.regex.as_str())).collect();
    assert_eq!(order, vec![(5, "d"), (10, "a"), (20, "b"), (20, "c")]);
    let bad = RuleFile { rules: vec![rule(1, "x", "jump")] };
    assert!(matches!(compile_rule_file(bad), Err(ccauto::config::error::ConfigError::UnknownCommand)));
}

fn triggered_actions(dt: &mut DiffTimeout, now_ms: u64) -> Vec<ActionType> {
    let indices = dt.find_triggered_timeout_indices(now_ms);
    indices.into_iter().map(|i| dt.actions()[i].clone()).collect()
}

#[test]
fn test_check_timeout_rules() {
    let rules = vec![timeout_rule(1, "timeout1"), timeout_rule(2, "timeout2")];
    let mut dt = DiffTimeout::new(rules, 0);
    let actions = triggered_actions(&mut dt, 1_500);
    assert_eq!(actions.len(), 1);
    assert_eq!(actions[0], ActionType::SendKeys(vec!["timeout1".to_string()]));
}

#[test]
fn test_multiple_timeout_rules() {
    let rules = vec![timeout_rule(1, "short_timeout"), timeout_rule(2, "long_timeout")];
    let mut dt = DiffTimeout::new(rules, 0);
    let actions = triggered_actions(&mut dt, 2_500);
    assert_eq!(actions.len(), 2);
    assert_eq!(actions[0], ActionType::SendKeys(vec!["short_timeout".to_string()]));
    assert_eq!(actions[1], ActionType::SendKeys(vec!["long_timeout".to_string()]));
}

#[test]
fn test_diff_timeout_multiple_triggers() {
    let rules = vec![timeout_rule(1, "timeout_action")];
    let mut dt = DiffTimeout::new(rules, 0);
    let actions = triggered_actions(&mut dt, 1_500);
    assert_eq!(actions.len(), 1);
    assert_eq!(actions[0], ActionType::SendKeys(vec!["timeout_action".to_string()]));

    dt.reset_timeout_activity(1_500);
    assert_eq!(triggered_actions(&mut dt, 1_500).len(), 0);

    let actions = triggered_actions(&mut dt, 3_000);
    assert_eq!(actions.len(), 1);
    assert_eq!(actions[0], ActionType::SendKeys(vec!["timeout_action".to_string()]));
}
