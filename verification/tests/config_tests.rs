use ccauto::config::agents::FullAgentsConfig;
use ccauto::config::loader::{compile_config_file, ConfigFile};
use ccauto::config::trigger::{TriggerConfig as LegacyTriggerConfig, TriggerManager, TriggerType as LegacyTriggerType};
use ccauto::config::agents_config::{default_pool_size, AgentsConfig};
use ccauto::config::error::ConfigError;
use ccauto::config::helper::{parse_action, parse_duration, ActionType};
use ccauto::config::rule::{Rule as LegacyRule, RuleType as LegacyRuleType};
use ccauto::config::rules_config::{Rule, RuleConfig, RuleType};
use ccauto::config::triggers_config::{Trigger, TriggerConfig, TriggerType};
use ccauto::config::web_ui_config::{
    default_base_port, default_cols, default_enabled, default_host, default_rows, WebUIConfig,
};
use std::time::Duration;

fn secs(r: Result<u64, ConfigError>) -> Duration {
    Duration::from_secs(r.unwrap())
}

#[test]
fn test_default_agents_config() {
    let config = AgentsConfig::default();
    assert_eq!(config.pool, 1);
    assert!(config.triggers.is_empty());
    assert!(config.rules.is_empty());
}

#[test]
fn test_default_pool_size() {
    assert_eq!(default_pool_size(), 1);
}

#[test]
fn helper_test_parse_duration() {
    assert_eq!(secs(parse_duration("30s")), Duration::from_secs(30));
    assert_eq!(secs(parse_duration("5m")), Duration::from_secs(300));
    assert_eq!(secs(parse_duration("2h")), Duration::from_secs(7200));

    assert!(parse_duration("").is_err());
    assert!(parse_duration("30").is_err());
    assert!(parse_duration("abc").is_err());
    assert!(parse_duration("30x").is_err());
}

#[test]
fn rule_test_parse_duration() {
    assert_eq!(secs(parse_duration("30s")), Duration::from_secs(30));
    assert_eq!(secs(parse_duration("5m")), Duration::from_secs(300));
    assert_eq!(secs(parse_duration("2h")), Duration::from_secs(7200));

    assert!(parse_duration("").is_err());
    assert!(parse_duration("30").is_err());
    assert!(parse_duration("abc").is_err());
    assert!(parse_duration("30x").is_err());
}

#[test]
fn trigger_test_parse_duration() {
    assert_eq!(secs(parse_duration("30s")), Duration::from_secs(30));
    assert_eq!(secs(parse_duration("5m")), Duration::from_secs(300));
    assert_eq!(secs(parse_duration("2h")), Duration::from_secs(7200));

    assert!(parse_duration("").is_err());
    assert!(parse_duration("30").is_err());
    assert!(parse_duration("abc").is_err());
    assert!(parse_duration("30x").is_err());
}

#[test]
fn parse_duration_errors_name_their_cause() {
    assert_eq!(parse_duration(""), Err(ConfigError::EmptyDuration));
    assert_eq!(parse_duration("30"), Err(ConfigError::InvalidDurationUnit));
    assert_eq!(parse_duration("30x"), Err(ConfigError::InvalidDurationUnit));
    assert_eq!(parse_duration("abcs"), Err(ConfigError::InvalidDurationNumber));
    assert_eq!(parse_duration("+7s"), Ok(7));
    assert_eq!(parse_duration("0m"), Ok(0));
    assert_eq!(parse_duration("7m").unwrap(), 60 * parse_duration("7s").unwrap());
    assert_eq!(parse_duration("7h").unwrap(), 3600 * parse_duration("7s").unwrap());
}

#[test]
fn test_parse_action_send_keys() {
    let action = Some("send_keys".to_string());
    let keys = vec!["hello".to_string(), "world".to_string()];
    let result = parse_action(&action, &keys).unwrap();
    assert_eq!(
        result,
        ActionType::SendKeys(vec!["hello".to_string(), "world".to_string()])
    );
}

#[test]
fn test_parse_action_send_keys_empty_keys() {
    let action = Some("send_keys".to_string());
    let keys = vec![];
    let result = parse_action(&action, &keys);
    assert!(result.is_err());
}

#[test]
fn test_parse_action_no_action() {
    let action = None;
    let keys = vec!["hello".to_string()];
    let result = parse_action(&action, &keys);
    assert!(result.is_err());
}

#[test]
fn test_parse_action_unknown_action() {
    let action = Some("unknown_action".to_string());
    let keys = vec!["hello".to_string()];
    let result = parse_action(&action, &keys);
    assert!(result.is_err());
}

#[test]
fn parse_action_errors_name_their_cause() {
    assert_eq!(parse_action(&None, &["k".to_string()]).err(), Some(ConfigError::MissingAction));
    assert_eq!(
        parse_action(&Some("send_keys".to_string()), &[]).err(),
        Some(ConfigError::MissingKeys)
    );
    assert_eq!(
        parse_action(&Some("jump".to_string()), &["k".to_string()]).err(),
        Some(ConfigError::UnknownAction)
    );
}

#[test]
fn test_trigger_from_startup_config() {
    let config = TriggerConfig {
        name: "test_startup".to_string(),
        event: "startup".to_string(),
        action: Some("send_keys".to_string()),
        keys: vec!["hello".to_string()],
        source: None,
        dedupe: false,
    };

    let trigger = Trigger::try_from(config).unwrap();
    assert_eq!(trigger.name, "test_startup");
    assert_eq!(trigger.trigger, TriggerType::OnStart);
    match trigger.action {
        ActionType::SendKeys(keys) => assert_eq!(keys, vec!["hello"]),
    }
}

#[test]
fn test_trigger_from_timer_config() {
    let config = TriggerConfig {
        name: "test_timer".to_string(),
        event: "timer:30s".to_string(),
        action: Some("send_keys".to_string()),
        keys: vec!["tick".to_string()],
        source: Some("source1".to_string()),
        dedupe: true,
    };

    let trigger = Trigger::try_from(config).unwrap();
    assert_eq!(trigger.name, "test_timer");
    assert_eq!(trigger.trigger, TriggerType::Periodic { interval_secs: 30 });
    assert_eq!(trigger.source, Some("source1".to_string()));
    assert_eq!(trigger.dedupe, true);
}

#[test]
fn test_trigger_from_invalid_event() {
    let config = TriggerConfig {
        name: "test_invalid".to_string(),
        event: "invalid_event".to_string(),
        action: Some("send_keys".to_string()),
        keys: vec!["hello".to_string()],
        source: None,
        dedupe: false,
    };

    assert!(Trigger::try_from(config).is_err());
}

#[test]
fn test_trigger_from_invalid_timer_format() {
    let config = TriggerConfig {
        name: "test_bad_timer".to_string(),
        event: "timer:invalid".to_string(),
        action: Some("send_keys".to_string()),
        keys: vec!["hello".to_string()],
        source: None,
        dedupe: false,
    };

    assert!(Trigger::try_from(config).is_err());
}

#[test]
fn test_trigger_type_equality() {
    assert_eq!(TriggerType::OnStart, TriggerType::OnStart);
    assert_eq!(
        TriggerType::Periodic { interval_secs: 30 },
        TriggerType::Periodic { interval_secs: 30 }
    );
    assert_ne!(TriggerType::OnStart, TriggerType::Periodic { interval_secs: 30 });
}

#[test]
fn test_default_web_ui_config() {
    let config = WebUIConfig::default();
    assert_eq!(config.enabled, true);
    assert_eq!(config.host, "localhost");
    assert_eq!(config.base_port, 9990);
    assert_eq!(config.cols, 80);
    assert_eq!(config.rows, 24);
}

#[test]
fn test_default_functions() {
    assert_eq!(default_base_port(), 9990);
    assert_eq!(default_enabled(), true);
    assert_eq!(default_host(), "localhost");
    assert_eq!(default_cols(), 80);
    assert_eq!(default_rows(), 24);
}

#[test]
fn test_rule_compilation_pattern() {
    let rule = LegacyRule {
        when: Some("test".to_string()),
        diff_timeout: None,
        action: Some("send_keys".to_string()),
        keys: vec!["hello".to_string()],
        workflow: None,
        args: vec![],
    };

    let compiled = rule.compile().unwrap();
    match compiled.rule_type {
        LegacyRuleType::Pattern(ref regex) => {
            assert_eq!(regex.as_str(), "test");
        }
        _ => panic!("Expected pattern rule type"),
    }
}

#[test]
fn test_rule_compilation_diff_timeout() {
    let rule = LegacyRule {
        when: None,
        diff_timeout: Some("5m".to_string()),
        action: Some("send_keys".to_string()),
        keys: vec!["timeout".to_string()],
        workflow: None,
        args: vec![],
    };

    let compiled = rule.compile().unwrap();
    match compiled.rule_type {
        LegacyRuleType::DiffTimeout(duration) => {
            assert_eq!(Duration::from_secs(duration), Duration::from_secs(300));
        }
        _ => panic!("Expected diff timeout rule type"),
    }
}

#[test]
fn test_rule_compilation_both_fields_error() {
    let rule = LegacyRule {
        when: Some("test".to_string()),
        diff_timeout: Some("5m".to_string()),
        action: Some("send_keys".to_string()),
        keys: vec!["hello".to_string()],
        workflow: None,
        args: vec![],
    };

    assert!(rule.compile().is_err());
}

#[test]
fn test_rule_compilation_no_fields_error() {
    let rule = LegacyRule {
        when: None,
        diff_timeout: None,
        action: Some("send_keys".to_string()),
        keys: vec!["hello".to_string()],
        workflow: None,
        args: vec![],
    };

    assert!(rule.compile().is_err());
}

#[test]
fn test_rule_try_from_pattern() {
    let rule = RuleConfig {
        when: Some("test".to_string()),
        diff_timeout: None,
        action: Some("send_keys".to_string()),
        keys: vec!["hello".to_string()],
    };

    let rule = Rule::try_from(rule).unwrap();
    match rule.rule_type {
        RuleType::When(ref regex) => {
            assert_eq!(regex.as_str(), "test");
        }
        _ => panic!("Expected when rule type"),
    }
}

#[test]
fn test_rule_try_from_diff_timeout() {
    let rule = RuleConfig {
        when: None,
        diff_timeout: Some("5m".to_string()),
        action: Some("send_keys".to_string()),
        keys: vec!["timeout".to_string()],
    };

    let rule = Rule::try_from(rule).unwrap();
    match rule.rule_type {
        RuleType::DiffTimeout(duration) => {
            assert_eq!(Duration::from_secs(duration), Duration::from_secs(300));
        }
        _ => panic!("Expected diff timeout rule type"),
    }
}

#[test]
fn test_rule_try_from_both_fields_error() {
    let rule = RuleConfig {
        when: Some("test".to_string()),
        diff_timeout: Some("5m".to_string()),
        action: Some("send_keys".to_string()),
        keys: vec!["hello".to_string()],
    };

    assert!(Rule::try_from(rule).is_err());
}

#[test]
fn test_rule_try_from_no_fields_error() {
    let rule = RuleConfig {
        when: None,
        diff_timeout: None,
        action: Some("send_keys".to_string()),
        keys: vec!["hello".to_string()],
    };

    assert!(Rule::try_from(rule).is_err());
}

#[test]
fn rule_condition_errors_name_their_cause() {
    let both = RuleConfig {
        when: Some("x".to_string()),
        diff_timeout: Some("1s".to_string()),
        action: Some("send_keys".to_string()),
        keys: vec!["k".to_string()],
    };
    assert!(matches!(Rule::try_from(both), Err(ConfigError::BothWhenAndDiffTimeout)));
    let bad_regex = RuleConfig {
        when: Some("(".to_string()),
        diff_timeout: None,
        action: Some("send_keys".to_string()),
        keys: vec!["k".to_string()],
    };
    assert!(matches!(Rule::try_from(bad_regex), Err(ConfigError::InvalidRegex)));
}

fn legacy_trigger(name: &str, event: &str) -> LegacyTriggerConfig {
    LegacyTriggerConfig {
        name: name.to_string(),
        event: event.to_string(),
        action: Some("send_keys".to_string()),
        keys: vec!["k".to_string()],
        workflow: None,
        args: vec![],
        source: None,
        dedupe: false,
    }
}

#[test]
fn config_files_compile_in_order() {
    let file = ConfigFile {
        web_ui: WebUIConfig::default(),
        agents: FullAgentsConfig {
            pool: 2,
            triggers: vec![legacy_trigger("a", "startup"), legacy_trigger("b", "timer:1m")],
            rules: vec![LegacyRule {
                when: Some("x".to_string()),
                diff_timeout: None,
                action: Some("send_keys".to_string()),
                keys: vec!["y".to_string()],
                workflow: None,
                args: vec![],
            }],
        },
    };
    let (triggers, rules, monitor) = compile_config_file(file.clone()).unwrap();
    assert_eq!(triggers.len(), 2);
    assert_eq!(triggers[1].trigger, LegacyTriggerType::Periodic { interval_secs: 60 });
    assert_eq!(rules.len(), 1);
    assert_eq!(monitor.get_agent_pool_size(), 2);
    assert_eq!(monitor.get_web_ui_port(), 9990);
    assert_eq!(monitor.get_agent_dimensions(1), (80, 24));
    let manager = TriggerManager::new(triggers);
    assert_eq!(manager.get_on_start_triggers().len(), 1);
    assert_eq!(manager.get_periodic_triggers()[0].name, "b");

    let mut bad = file;
    bad.agents.triggers.push(legacy_trigger("c", "timer:soon"));
    assert_eq!(compile_config_file(bad).err(), Some(ConfigError::InvalidDurationUnit));
    let user = legacy_trigger("d", "deploy");
    let (ts, _, _) = compile_config_file(ConfigFile {
        web_ui: WebUIConfig::default(),
        agents: FullAgentsConfig { pool: 1, triggers: vec![user], rules: vec![] },
    })
    .unwrap();
    assert_eq!(ts[0].trigger, LegacyTriggerType::UserCommand("deploy".to_string()));
}

#[test]
fn config_entries_must_fit_in_range() {
    let mut config = ccauto::config::Config::default();
    assert!(config.entries_within_range());
    config.agents.triggers.push(TriggerConfig {
        name: "t".to_string(),
        event: "timer:18446744073709551615h".to_string(),
        action: Some("send_keys".to_string()),
        keys: vec!["k".to_string()],
        source: None,
        dedupe: false,
    });
    assert!(!config.entries_within_range());
}
