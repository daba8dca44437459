//! Timeout rules: actions for when the terminal has shown nothing new for a
//! while. Each rule fires once per quiet period.
use crate::config::helper::ActionType;
use crate::config::rules_config::{Rule, RuleCondition, RuleType};
use vstd::prelude::*;

verus! {

/// The state of an agent's timeout rules, as values: their durations in
/// seconds, their keys, the time of the last output in milliseconds, and
/// which rules have fired since then.
pub struct TimeoutState {
    pub durations: Seq<u64>,
    pub actions: Seq<Seq<Seq<char>>>,
    pub last_activity: u64,
    pub triggered: Seq<bool>,
}

/// The timeout rules of a rule list, as (seconds, keys), in order.
pub open spec fn timeout_rules(rules: Seq<Rule>) -> Seq<(u64, Seq<Seq<char>>)>
    decreases rules.len(),
{
    if rules.len() == 0 {
        Seq::empty()
    } else {
        let p = timeout_rules(rules.drop_last());
        match rules.last().rule_type {
            RuleType::DiffTimeout(secs) => p.push((secs, rules.last().action@)),
            RuleType::When(_) => p,
        }
    }
}

/// Milliseconds since the last output, none if the clock reads earlier.
pub open spec fn elapsed_ms(s: TimeoutState, now: u64) -> nat {
    if now >= s.last_activity {
        (now - s.last_activity) as nat
    } else {
        0
    }
}

/// Rule `i` fires at `now`: it has not fired since the last output, and at
/// least its duration has passed.
pub open spec fn fires(s: TimeoutState, now: u64, i: int) -> bool {
    !s.triggered[i] && elapsed_ms(s, now) / 1000 >= s.durations[i]
}

/// The rules below `k` that fire at `now`, in increasing order.
pub open spec fn firing_upto(s: TimeoutState, now: u64, k: nat) -> Seq<usize>
    decreases k,
{
    if k == 0 {
        Seq::empty()
    } else {
        let p = firing_upto(s, now, (k - 1) as nat);
        if fires(s, now, k - 1) {
            p.push((k - 1) as usize)
        } else {
            p
        }
    }
}

/// A check at `now`: the rules that fire, and the state in which they are
/// marked as fired.
pub open spec fn spec_check(s: TimeoutState, now: u64) -> (TimeoutState, Seq<usize>) {
    (
        TimeoutState {
            triggered: Seq::new(s.triggered.len(), |i: int| s.triggered[i] || fires(s, now, i)),
            ..s
        },
        firing_upto(s, now, s.durations.len()),
    )
}

/// Output at `now`: the quiet period starts again and no rule has fired in it.
pub open spec fn spec_reset(s: TimeoutState, now: u64) -> TimeoutState {
    TimeoutState {
        last_activity: now,
        triggered: Seq::new(s.triggered.len(), |i: int| false),
        ..s
    }
}

/// The durations, actions and flags line up.
pub open spec fn state_aligned(s: TimeoutState) -> bool {
    s.durations.len() == s.actions.len() && s.durations.len() == s.triggered.len()
}

/// The timeout rules of one agent.
pub struct DiffTimeout {
    durations: Vec<u64>,
    actions: Vec<ActionType>,
    last_activity: u64,
    triggered: Vec<bool>,
}

impl View for DiffTimeout {
    type V = TimeoutState;

    closed spec fn view(&self) -> TimeoutState {
        TimeoutState {
            durations: self.durations@,
            actions: Seq::new(self.actions@.len(), |i: int| self.actions@[i]@),
            last_activity: self.last_activity,
            triggered: self.triggered@,
        }
    }
}

impl DiffTimeout {
    #[verifier::type_invariant]
    spec fn aligned(self) -> bool {
        self.durations@.len() == self.actions@.len() && self.durations@.len()
            == self.triggered@.len()
    }

    /// Keeps the timeout rules, in order, none fired, the quiet period
    /// starting at `now_ms`.
    pub fn new(rules: Vec<Rule>, now_ms: u64) -> (d: DiffTimeout)
        ensures
            state_aligned(d@),
            d@.durations == timeout_rules(rules@).map_values(|r: (u64, Seq<Seq<char>>)| r.0),
            d@.actions == timeout_rules(rules@).map_values(|r: (u64, Seq<Seq<char>>)| r.1),
            d@.last_activity == now_ms,
            forall|i: int| 0 <= i < d@.triggered.len() ==> !#[trigger] d@.triggered[i],
    {
        let mut durations: Vec<u64> = Vec::new();
        let mut actions: Vec<ActionType> = Vec::new();
        let mut triggered: Vec<bool> = Vec::new();
        let mut i: usize = 0;
        while i < rules.len()
            invariant
                i <= rules@.len(),
                durations@.len() == actions@.len(),
                durations@.len() == triggered@.len(),
                forall|k: int| 0 <= k < triggered@.len() ==> !#[trigger] triggered@[k],
                durations@ == timeout_rules(rules@.take(i as int)).map_values(
                    |r: (u64, Seq<Seq<char>>)| r.0,
                ),
                Seq::new(actions@.len(), |k: int| actions@[k]@) == timeout_rules(
                    rules@.take(i as int),
                ).map_values(|r: (u64, Seq<Seq<char>>)| r.1),
            decreases rules@.len() - i,
        {
            assert(rules@.take(i + 1).drop_last() == rules@.take(i as int));
            assert(rules@.take(i + 1).last() == rules@[i as int]);
            let ghost before_a = Seq::new(actions@.len(), |k: int| actions@[k]@);
            let ghost before_d = durations@;
            let rule = &rules[i];
            match &rule.rule_type {
                RuleType::DiffTimeout(secs) => {
                    durations.push(*secs);
                    actions.push(rule.action.clone_keys());
                    triggered.push(false);
                    assert(Seq::new(actions@.len(), |k: int| actions@[k]@) =~= before_a.push(
                        rule.action@,
                    ));
                    assert(durations@ =~= before_d.push(*secs));
                },
                RuleType::When(_) => {
                    assert(Seq::new(actions@.len(), |k: int| actions@[k]@) =~= before_a);
                },
            }
            proof {
                let t = timeout_rules(rules@.take(i + 1));
                let tp = timeout_rules(rules@.take(i as int));
                assert(t.map_values(|r: (u64, Seq<Seq<char>>)| r.0) =~= durations@);
                assert(t.map_values(|r: (u64, Seq<Seq<char>>)| r.1) =~= Seq::new(
                    actions@.len(),
                    |k: int| actions@[k]@,
                ));
            }
            i = i + 1;
        }
        assert(rules@.take(rules@.len() as int) == rules@);
        DiffTimeout { durations, actions, last_activity: now_ms, triggered }
    }

    /// The actions of the timeout rules, in order.
    pub fn actions(&self) -> (a: &[ActionType])
        ensures
            a@.len() == self@.actions.len(),
            forall|i: int| 0 <= i < a@.len() ==> #[trigger] a@[i]@ == self@.actions[i],
            state_aligned(self@),
            self@.durations.len() <= usize::MAX,
    {
        proof {
            use_type_invariant(self);
        }
        let _n = self.durations.len();
        self.actions.as_slice()
    }

    /// Output was received at `now_ms`: a new quiet period starts.
    pub fn reset_timeout_activity(&mut self, now_ms: u64)
        ensures
            final(self)@ == spec_reset(old(self)@, now_ms),
    {
        proof {
            use_type_invariant(&*self);
        }
        self.last_activity = now_ms;
        let n = self.triggered.len();
        let mut flags: Vec<bool> = Vec::new();
        let mut i: usize = 0;
        while i < n
            invariant
                i <= n,
                flags@.len() == i,
                forall|k: int| 0 <= k < i ==> !#[trigger] flags@[k],
            decreases n - i,
        {
            flags.push(false);
            i = i + 1;
        }
        self.triggered = flags;
        assert(self.triggered@ =~= Seq::new(old(self)@.triggered.len(), |k: int| false));
    }

    /// The timeout rules that fire at `now_ms`, in order; they are marked so
    /// that they do not fire again before the next output.
    pub fn find_triggered_timeout_indices(&mut self, now_ms: u64) -> (r: Vec<usize>)
        ensures
            (final(self)@, r@) == spec_check(old(self)@, now_ms),
    {
        proof {
            use_type_invariant(&*self);
        }
        let ghost s = self@;
        let elapsed: u64 = if now_ms >= self.last_activity {
            now_ms - self.last_activity
        } else {
            0
        };
        let secs = elapsed / 1000;
        let n = self.durations.len();
        let mut flags: Vec<bool> = Vec::new();
        let mut out: Vec<usize> = Vec::new();
        let mut i: usize = 0;
        while i < n
            invariant
                i <= n,
                n == s.durations.len(),
                n == s.triggered.len(),
                s == self@,
                secs == elapsed_ms(s, now_ms) / 1000,
                flags@.len() == i,
                forall|k: int| 0 <= k < i ==> #[trigger] flags@[k] == (s.triggered[k] || fires(s, now_ms, k)),
                out@ == firing_upto(s, now_ms, i as nat),
            decreases n - i,
        {
            let fire = !self.triggered[i] && secs >= self.durations[i];
            assert(fire == fires(s, now_ms, i as int));
            if fire {
                out.push(i);
            }
            flags.push(self.triggered[i] || fire);
            i = i + 1;
        }
        self.triggered = flags;
        assert(self.triggered@ =~= Seq::new(
            s.triggered.len(),
            |k: int| s.triggered[k] || fires(s, now_ms, k),
        ));
        out
    }

    /// The actions of the timeout rules that fire at `now_ms`, in order;
    /// those rules are marked so that they do not fire again before the next
    /// output.
    pub fn due_actions(&mut self, now_ms: u64) -> (acts: Vec<ActionType>)
        ensures
            final(self)@ == spec_check(old(self)@, now_ms).0,
            acts@.map_values(|a: ActionType| a@) == spec_check(old(self)@, now_ms).1.map_values(
                |i: usize| old(self)@.actions[i as int],
            ),
    {
        proof {
            use_type_invariant(&*self);
        }
        let ghost s = self@;
        let n = self.durations.len();
        proof {
            lemma_firing_upto_members(s, now_ms, s.durations.len());
        }
        let idx = self.find_triggered_timeout_indices(now_ms);
        proof {
            use_type_invariant(&*self);
        }
        let ghost want = idx@.map_values(|i: usize| s.actions[i as int]);
        let mut acts: Vec<ActionType> = Vec::new();
        let mut j: usize = 0;
        while j < idx.len()
            invariant
                j <= idx@.len(),
                idx@ == spec_check(s, now_ms).1,
                s.actions == self@.actions,
                self.actions@.len() == s.actions.len(),
                forall|a: int| 0 <= a < idx@.len() ==> idx@[a] < s.durations.len(),
                s.durations.len() == s.actions.len(),
                want == idx@.map_values(|i: usize| s.actions[i as int]),
                acts@.map_values(|a: ActionType| a@) == want.take(j as int),
            decreases idx@.len() - j,
        {
            let k = idx[j];
            let a = self.actions[k].clone_keys();
            let ghost before = acts@.map_values(|a: ActionType| a@);
            assert(self@.actions[k as int] == self.actions@[k as int]@);
            acts.push(a);
            assert(acts@.map_values(|a: ActionType| a@) =~= before.push(a@));
            assert(want.take(j + 1) =~= want.take(j as int).push(want[j as int]));
            j = j + 1;
        }
        assert(want.take(want.len() as int) == want);
        acts
    }
}

proof fn lemma_firing_upto_members(s: TimeoutState, now: u64, k: nat)
    requires
        k <= s.durations.len(),
        state_aligned(s),
        s.durations.len() <= usize::MAX,
    ensures
        forall|x: usize| #[trigger] firing_upto(s, now, k).contains(x) <==> (x < k && fires(s, now, x as int)),
        forall|a: int, b: int|
            0 <= a < b < firing_upto(s, now, k).len() ==> firing_upto(s, now, k)[a] < firing_upto(s, now, k)[b],
        forall|a: int| 0 <= a < firing_upto(s, now, k).len() ==> firing_upto(s, now, k)[a] < k,
    decreases k,
{
    if k > 0 {
        lemma_firing_upto_members(s, now, (k - 1) as nat);
        let p = firing_upto(s, now, (k - 1) as nat);
        if fires(s, now, k - 1) {
            assert forall|x: usize| #[trigger] p.push((k - 1) as usize).contains(x) <==> (x < k && fires(s, now, x as int)) by {
                if x == (k - 1) as usize {
                    assert(p.push((k - 1) as usize)[p.len() as int] == x);
                } else if p.push((k - 1) as usize).contains(x) {
                    let i = choose|i: int| 0 <= i < p.len() + 1 && #[trigger] p.push((k - 1) as usize)[i] == x;
                    assert(i < p.len());
                    assert(p.contains(x));
                } else if x < k && fires(s, now, x as int) {
                    assert(p.contains(x));
                    let i = choose|i: int| 0 <= i < p.len() && #[trigger] p[i] == x;
                    assert(p.push((k - 1) as usize)[i] == x);
                }
            }
        }
    }
}

/// A timeout rule fires at most once in a quiet period: what one check
/// reports, a later check without output in between does not report again.
pub proof fn law_fires_once_per_quiet_period(s: TimeoutState, t1: u64, t2: u64)
    requires
        state_aligned(s),
        s.durations.len() <= usize::MAX,
    ensures
        forall|x: usize| #[trigger] spec_check(s, t1).1.contains(x) ==> !spec_check(
            spec_check(s, t1).0,
            t2,
        ).1.contains(x),
{
    let s1 = spec_check(s, t1).0;
    lemma_firing_upto_members(s, t1, s.durations.len());
    lemma_firing_upto_members(s1, t2, s1.durations.len());
}

/// A check reports exactly the rules that have not fired since the last
/// output and whose duration has passed, in increasing order.
pub proof fn law_check_reports_due_rules(s: TimeoutState, now: u64)
    requires
        state_aligned(s),
        s.durations.len() <= usize::MAX,
    ensures
        forall|x: usize| #[trigger] spec_check(s, now).1.contains(x) <==> (x < s.durations.len()
            && !s.triggered[x as int] && elapsed_ms(s, now) / 1000 >= s.durations[x as int]),
        forall|a: int, b: int|
            0 <= a < b < spec_check(s, now).1.len() ==> spec_check(s, now).1[a] < spec_check(
                s,
                now,
            ).1[b],
{
    lemma_firing_upto_members(s, now, s.durations.len());
}

/// After output, every rule can fire again: a check reports exactly the
/// rules whose duration has passed since that output.
pub proof fn law_output_rearms_all_rules(s: TimeoutState, t: u64, now: u64)
    requires
        state_aligned(s),
        s.durations.len() <= usize::MAX,
        t <= now,
    ensures
        forall|x: usize| #[trigger] spec_check(spec_reset(s, t), now).1.contains(x) <==> (x
            < s.durations.len() && (now - t) / 1000 >= s.durations[x as int]),
{
    let r = spec_reset(s, t);
    lemma_firing_upto_members(r, now, r.durations.len());
}

/// The state and the reports after checks at successive times, with no
/// output in between.
pub open spec fn check_results(s: TimeoutState, times: Seq<u64>) -> (TimeoutState, Seq<Seq<usize>>)
    decreases times.len(),
{
    if times.len() == 0 {
        (s, Seq::empty())
    } else {
        let (s1, rs) = check_results(s, times.drop_last());
        let (s2, r) = spec_check(s1, times.last());
        (s2, rs.push(r))
    }
}

proof fn lemma_check_results(s: TimeoutState, times: Seq<u64>)
    requires
        state_aligned(s),
        s.durations.len() <= usize::MAX,
    ensures
        ({
            let (sk, rs) = check_results(s, times);
            &&& state_aligned(sk)
            &&& sk.durations == s.durations
            &&& rs.len() == times.len()
            &&& forall|a: int, x: usize|
                0 <= a < rs.len() && #[trigger] rs[a].contains(x) ==> x < s.durations.len()
                    && sk.triggered[x as int]
            &&& forall|a: int, b: int, x: usize|
                0 <= a < b < rs.len() && #[trigger] rs[a].contains(x) ==> !#[trigger] rs[b].contains(x)
        }),
    decreases times.len(),
{
    if times.len() > 0 {
        let t = times.last();
        lemma_check_results(s, times.drop_last());
        let (s1, rs) = check_results(s, times.drop_last());
        let (s2, r) = spec_check(s1, t);
        lemma_firing_upto_members(s1, t, s1.durations.len());
        let rs2 = rs.push(r);
        assert forall|a: int, x: usize|
            0 <= a < rs2.len() && #[trigger] rs2[a].contains(x) implies x < s.durations.len()
                && s2.triggered[x as int] by {
            if a < rs.len() {
                assert(rs2[a] == rs[a]);
            } else {
                assert(rs2[a] == r);
            }
        }
        assert forall|a: int, b: int, x: usize|
            0 <= a < b < rs2.len() && #[trigger] rs2[a].contains(x) implies !#[trigger] rs2[b].contains(
            x,
        ) by {
            assert(rs2[a] == rs[a]);
            if b < rs.len() {
                assert(rs2[b] == rs[b]);
            } else {
                assert(rs2[b] == r);
                assert(rs[a].contains(x));
            }
        }
    }
}

/// Each timeout rule fires at most once between two outputs: among the
/// reports of successive checks with no output in between, no rule appears
/// twice.
pub proof fn law_each_rule_fires_once_between_outputs(s: TimeoutState, times: Seq<u64>)
    requires
        state_aligned(s),
        s.durations.len() <= usize::MAX,
    ensures
        forall|a: int, b: int, x: usize|
            0 <= a < b < check_results(s, times).1.len() && #[trigger] check_results(
                s,
                times,
            ).1[a].contains(x) ==> !#[trigger] check_results(s, times).1[b].contains(x),
{
    lemma_check_results(s, times);
}

/// Right after output nothing fires: a check at the moment of the output
/// reports no rule, when every rule waits at least a second.
pub proof fn law_nothing_fires_right_after_output(s: TimeoutState, t: u64)
    requires
        state_aligned(s),
        s.durations.len() <= usize::MAX,
        forall|i: int| 0 <= i < s.durations.len() ==> s.durations[i] > 0,
    ensures
        spec_check(spec_reset(s, t), t).1 == Seq::<usize>::empty(),
{
    let r = spec_reset(s, t);
    lemma_firing_upto_members(r, t, r.durations.len());
    let f = spec_check(r, t).1;
    if f.len() > 0 {
        assert(f.contains(f[0]));
        assert(f[0] < r.durations.len());
        assert(r.durations[f[0] as int] > 0);
    }
}

} // verus!
