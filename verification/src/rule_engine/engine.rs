//! The rules an engine holds: replaced when the rule file is reloaded,
//! kept when the reload fails, and extended by registration.
use crate::config::error::ConfigError;
use crate::rule_engine::decision::{rules_view, ActionType, CompiledRule, RuleSpec};
use crate::text::clone_strings;
use vstd::prelude::*;

verus! {

impl ActionType {
    /// A copy of the action.
    pub fn copy(&self) -> (a: ActionType)
        ensures
            a@ == self@,
    {
        match self {
            ActionType::SendKeys(k) => ActionType::SendKeys(clone_strings(k.as_slice())),
            ActionType::Workflow(w, args) => ActionType::Workflow(
                w.clone(),
                clone_strings(args.as_slice()),
            ),
            ActionType::Legacy(c, args) => ActionType::Legacy(*c, clone_strings(args.as_slice())),
        }
    }
}

impl CompiledRule {
    /// A copy of the rule.
    pub fn copy(&self) -> (r: CompiledRule)
        ensures
            r@ == self@,
    {
        CompiledRule { priority: self.priority, regex: self.regex.clone(), action: self.action.copy() }
    }
}

/// The rules of an engine, in the order they are tried.
pub struct RuleSet {
    rules: Vec<CompiledRule>,
}

impl View for RuleSet {
    type V = Seq<RuleSpec>;

    closed spec fn view(&self) -> Seq<RuleSpec> {
        rules_view(self.rules@)
    }
}

impl RuleSet {
    /// The rules as loaded.
    pub fn new(rules: Vec<CompiledRule>) -> (s: RuleSet)
        ensures
            s@ == rules_view(rules@),
    {
        RuleSet { rules }
    }

    /// A copy of the rules.
    pub fn get_rules(&self) -> (rs: Vec<CompiledRule>)
        ensures
            rules_view(rs@) == self@,
    {
        let mut rs: Vec<CompiledRule> = Vec::new();
        let mut i: usize = 0;
        while i < self.rules.len()
            invariant
                i <= self.rules@.len(),
                rules_view(rs@) == rules_view(self.rules@).take(i as int),
            decreases self.rules@.len() - i,
        {
            let ghost before = rules_view(rs@);
            let r = self.rules[i].copy();
            rs.push(r);
            assert(rules_view(rs@) =~= before.push(r@));
            assert(rules_view(self.rules@).take(i + 1) =~= before.push(r@));
            i = i + 1;
        }
        assert(rules_view(self.rules@).take(self.rules@.len() as int) =~= rules_view(self.rules@));
        rs
    }

    /// Adds a rule after the others.
    pub fn register_rule(&mut self, rule: CompiledRule)
        ensures
            final(self)@ == old(self)@.push(rule@),
    {
        let ghost before = self@;
        self.rules.push(rule);
        assert(self@ =~= before.push(rule@));
    }

    /// Takes the outcome of reloading the rule file: the new rules replace
    /// the old ones; a failed reload keeps them. Says whether they changed.
    pub fn apply_reload(&mut self, reloaded: Result<Vec<CompiledRule>, ConfigError>) -> (replaced: bool)
        ensures
            match reloaded {
                Ok(rs) => replaced && final(self)@ == rules_view(rs@),
                Err(_) => !replaced && final(self)@ == old(self)@,
            },
    {
        match reloaded {
            Ok(rs) => {
                self.rules = rs;
                true
            },
            Err(_) => false,
        }
    }
}

} // verus!
