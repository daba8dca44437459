pub mod decision;
pub mod engine;
pub mod rule_file;

pub use decision::{decide_action, decide_cmd, ActionType, CompiledRule};
pub use rule_file::{compile_rule_file, CmdKind, RuleFile};
