//! Deciding, from snapshots of a terminal, whether its agent is idle at a
//! prompt, waiting on a command that prints nothing, or active.
use crate::pattern::{spec_regex_captures, spec_regex_compiles, Regex};
use crate::text::{chars_of, is_blank, keep_non_blank, lines, lines_of, non_blank, string_of, texts_view};
use std::collections::VecDeque;
use vstd::prelude::*;

verus! {

/// What a terminal showed at one moment.
#[derive(Debug, Clone)]
pub struct TerminalSnapshot {
    pub content: String,
    pub cursor_position: Option<(u32, u32)>,
    pub width: u32,
    pub height: u32,
}

/// A snapshot as values.
pub struct SnapshotView {
    pub content: Seq<char>,
    pub cursor_position: Option<(u32, u32)>,
    pub width: u32,
    pub height: u32,
}

impl View for TerminalSnapshot {
    type V = SnapshotView;

    open spec fn view(&self) -> SnapshotView {
        SnapshotView {
            content: self.content@,
            cursor_position: self.cursor_position,
            width: self.width,
            height: self.height,
        }
    }
}

impl TerminalSnapshot {
    /// A copy of the snapshot.
    pub fn copy(&self) -> (s: TerminalSnapshot)
        ensures
            s@ == self@,
    {
        TerminalSnapshot {
            content: self.content.clone(),
            cursor_position: self.cursor_position,
            width: self.width,
            height: self.height,
        }
    }
}

/// What an agent is doing, judged from its terminal.
#[derive(Debug, Clone, Copy, PartialEq, Eq, Structural)]
pub enum AgentState {
    /// A shell prompt is displayed.
    Idle,
    /// A command runs and the output has not changed for a while.
    Wait,
    /// A command runs and the output keeps changing.
    Active,
}

/// A change of state, with the time it was seen and the snapshot that showed it.
#[derive(Debug, Clone)]
pub struct StateTransition {
    pub from: AgentState,
    pub to: AgentState,
    pub timestamp_ms: u64,
    pub snapshot: TerminalSnapshot,
}

/// Why a snapshot was not processed.
#[derive(Debug, Clone, Copy, PartialEq, Eq, Structural)]
pub enum MonitorError {
    NotRunning,
}

/// Settings of the terminal output monitor.
#[derive(Debug, Clone)]
pub struct MonitorConfig {
    /// Interval between snapshots, in milliseconds.
    pub change_detection_interval_ms: u64,
    /// How long the output must stay unchanged before the state is `Wait`, in
    /// milliseconds.
    pub output_stable_duration_ms: u64,
    /// Patterns of a shell prompt on the last non-blank line.
    pub prompt_patterns: Vec<String>,
    /// How many snapshots are kept for comparison.
    pub max_snapshot_history: usize,
}

impl Default for MonitorConfig {
    fn default() -> (c: Self)
        ensures
            c.change_detection_interval_ms == 500,
            c.output_stable_duration_ms == 3000,
            c.prompt_patterns@.map_values(|p: String| p@) == seq![
                "\\$\\s*$"@,
                ">\\s*$"@,
                "#\\s*$"@,
                "%\\s*$"@,
                "❯\\s*$"@,
                "➜\\s*$"@,
            ],
            c.max_snapshot_history == 10,
    {
        let mut prompt_patterns: Vec<String> = Vec::new();
        prompt_patterns.push("\\$\\s*$".to_owned());
        prompt_patterns.push(">\\s*$".to_owned());
        prompt_patterns.push("#\\s*$".to_owned());
        prompt_patterns.push("%\\s*$".to_owned());
        prompt_patterns.push("❯\\s*$".to_owned());
        prompt_patterns.push("➜\\s*$".to_owned());
        assert(prompt_patterns@.map_values(|p: String| p@) =~= seq![
            "\\$\\s*$"@,
            ">\\s*$"@,
            "#\\s*$"@,
            "%\\s*$"@,
            "❯\\s*$"@,
            "➜\\s*$"@,
        ]);
        MonitorConfig {
            change_detection_interval_ms: 500,
            output_stable_duration_ms: 3000,
            prompt_patterns,
            max_snapshot_history: 10,
        }
    }
}

/// The last line of the content that is not blank.
pub open spec fn last_non_blank_line(content: Seq<char>) -> Option<Seq<char>> {
    let ls = non_blank(lines(content));
    if ls.len() == 0 {
        None
    } else {
        Some(ls.last())
    }
}

/// Some prompt pattern matches the last non-blank line.
pub open spec fn shows_prompt(patterns: Seq<Seq<char>>, content: Seq<char>) -> bool {
    match last_non_blank_line(content) {
        Some(l) => exists|i: int| 0 <= i < patterns.len() && #[trigger] spec_regex_captures(patterns[i], l) is Some,
        None => false,
    }
}

/// The snapshot differs from the last one kept, or none is kept.
pub open spec fn output_changed(history: Seq<SnapshotView>, s: SnapshotView) -> bool {
    history.len() == 0 || history.last().content != s.content || history.last().cursor_position
        != s.cursor_position
}

/// The monitor as values.
pub struct MonitorView {
    pub agent_id: Seq<char>,
    pub state: AgentState,
    pub running: bool,
    pub history: Seq<SnapshotView>,
    pub last_output_change_ms: u64,
    pub patterns: Seq<Seq<char>>,
    pub stable_ms: u64,
    pub max_history: usize,
}

/// The state a snapshot at `now` shows, and when the output last changed.
pub open spec fn spec_determine_state(m: MonitorView, s: SnapshotView, now: u64) -> (AgentState, u64) {
    if shows_prompt(m.patterns, s.content) {
        (AgentState::Idle, m.last_output_change_ms)
    } else if output_changed(m.history, s) {
        (AgentState::Active, now)
    } else if now >= m.last_output_change_ms && now - m.last_output_change_ms >= m.stable_ms {
        (AgentState::Wait, m.last_output_change_ms)
    } else {
        (AgentState::Active, m.last_output_change_ms)
    }
}

/// The kept snapshots after one more: the oldest is dropped beyond the limit.
pub open spec fn spec_record(h: Seq<SnapshotView>, s: SnapshotView, max: usize) -> Seq<SnapshotView> {
    if h.push(s).len() > max {
        h.push(s).drop_first()
    } else {
        h.push(s)
    }
}

/// Processing a snapshot at `now` while running: the new state, the change
/// of state if there is one, and the snapshot kept.
pub open spec fn spec_process(m: MonitorView, s: SnapshotView, now: u64) -> (MonitorView, Option<(AgentState, AgentState)>) {
    let (st, last) = spec_determine_state(m, s, now);
    (
        MonitorView {
            state: st,
            history: spec_record(m.history, s, m.max_history),
            last_output_change_ms: last,
            ..m
        },
        if st != m.state {
            Some((m.state, st))
        } else {
            None
        },
    )
}

/// The patterns that compile, in order.
pub open spec fn compiling(ps: Seq<Seq<char>>) -> Seq<Seq<char>>
    decreases ps.len(),
{
    if ps.len() == 0 {
        Seq::empty()
    } else if spec_regex_compiles(ps.last()) {
        compiling(ps.drop_last()).push(ps.last())
    } else {
        compiling(ps.drop_last())
    }
}

/// Watches one agent's terminal through snapshots.
pub struct TerminalOutputMonitor {
    agent_id: String,
    config: MonitorConfig,
    current_state: AgentState,
    previous_snapshots: VecDeque<TerminalSnapshot>,
    prompt_patterns: Vec<Regex>,
    last_output_change_ms: u64,
    running: bool,
}

impl View for TerminalOutputMonitor {
    type V = MonitorView;

    closed spec fn view(&self) -> MonitorView {
        MonitorView {
            agent_id: self.agent_id@,
            state: self.current_state,
            running: self.running,
            history: self.previous_snapshots@.map_values(|s: TerminalSnapshot| s@),
            last_output_change_ms: self.last_output_change_ms,
            patterns: self.prompt_patterns@.map_values(|r: Regex| r@),
            stable_ms: self.config.output_stable_duration_ms,
            max_history: self.config.max_snapshot_history,
        }
    }
}

impl TerminalOutputMonitor {
    #[verifier::type_invariant]
    spec fn history_bounded(self) -> bool {
        self.previous_snapshots@.len() <= self.config.max_snapshot_history
    }

    /// A monitor with the default settings, idle and not running.
    pub fn new(agent_id: String) -> (m: TerminalOutputMonitor)
        ensures
            m@.agent_id == agent_id@,
            m@.state == AgentState::Idle,
            !m@.running,
            m@.history.len() == 0,
            m@.stable_ms == 3000,
            m@.max_history == 10,
            m@.patterns == compiling(
                seq![
                    "\\$\\s*$"@,
                    ">\\s*$"@,
                    "#\\s*$"@,
                    "%\\s*$"@,
                    "❯\\s*$"@,
                    "➜\\s*$"@,
                ],
            ),
    {
        Self::with_config(agent_id, MonitorConfig::default())
    }

    /// A monitor with the given settings, idle and not running; prompt
    /// patterns that do not compile are left out.
    pub fn with_config(agent_id: String, config: MonitorConfig) -> (m: TerminalOutputMonitor)
        ensures
            m@.agent_id == agent_id@,
            m@.state == AgentState::Idle,
            !m@.running,
            m@.history.len() == 0,
            m@.patterns == compiling(config.prompt_patterns@.map_values(|p: String| p@)),
            m@.stable_ms == config.output_stable_duration_ms,
            m@.max_history == config.max_snapshot_history,
    {
        let ghost ps = config.prompt_patterns@.map_values(|p: String| p@);
        let mut regexes: Vec<Regex> = Vec::new();
        let mut i: usize = 0;
        while i < config.prompt_patterns.len()
            invariant
                i <= config.prompt_patterns@.len(),
                ps == config.prompt_patterns@.map_values(|p: String| p@),
                regexes@.map_values(|r: Regex| r@) == compiling(ps.take(i as int)),
            decreases config.prompt_patterns@.len() - i,
        {
            assert(ps.take(i + 1).drop_last() == ps.take(i as int));
            assert(ps.take(i + 1).last() == ps[i as int]);
            let ghost before = regexes@.map_values(|r: Regex| r@);
            match Regex::new(config.prompt_patterns[i].as_str()) {
                Ok(re) => {
                    regexes.push(re);
                    assert(regexes@.map_values(|r: Regex| r@) =~= before.push(ps[i as int]));
                },
                Err(_) => {
                    assert(regexes@.map_values(|r: Regex| r@) =~= before);
                },
            }
            i = i + 1;
        }
        assert(ps.take(ps.len() as int) == ps);
        let snapshots: VecDeque<TerminalSnapshot> = VecDeque::new();
        assert(snapshots@.map_values(|s: TerminalSnapshot| s@) =~= Seq::<SnapshotView>::empty());
        TerminalOutputMonitor {
            agent_id,
            config,
            current_state: AgentState::Idle,
            previous_snapshots: snapshots,
            prompt_patterns: regexes,
            last_output_change_ms: 0,
            running: false,
        }
    }

    /// Starts monitoring at `now_ms`: the output counts as changed then.
    pub fn start_monitoring(&mut self, now_ms: u64)
        ensures
            final(self)@ == (MonitorView {
                running: true,
                last_output_change_ms: now_ms,
                ..old(self)@
            }),
    {
        proof {
            use_type_invariant(&*self);
        }
        self.running = true;
        self.last_output_change_ms = now_ms;
    }

    /// Stops monitoring.
    pub fn stop_monitoring(&mut self)
        ensures
            final(self)@ == (MonitorView { running: false, ..old(self)@ }),
    {
        proof {
            use_type_invariant(&*self);
        }
        self.running = false;
    }

    /// Whether the monitor is running.
    pub fn is_running(&self) -> (b: bool)
        ensures
            b == self@.running,
    {
        self.running
    }

    /// The agent whose terminal is watched.
    pub fn agent_id(&self) -> (id: &String)
        ensures
            id@ == self@.agent_id,
    {
        &self.agent_id
    }

    /// The current state.
    pub fn current_state(&self) -> (s: &AgentState)
        ensures
            *s == self@.state,
    {
        &self.current_state
    }

    /// Whether the terminal shows a shell prompt on its last non-blank line.
    pub fn is_idle_state(&self, snapshot: &TerminalSnapshot) -> (b: bool)
        ensures
            b == shows_prompt(self@.patterns, snapshot.content@),
    {
        let content = chars_of(snapshot.content.as_str());
        let ls = lines_of(content.as_slice());
        let kept = keep_non_blank(ls.as_slice());
        if kept.len() == 0 {
            return false;
        }
        let line = string_of(kept[kept.len() - 1].as_slice());
        assert(texts_view(kept@)[kept.len() - 1] == kept@[kept.len() - 1]@);
        assert(last_non_blank_line(snapshot.content@) == Some(line@));
        let ghost pats = self@.patterns;
        let mut i: usize = 0;
        while i < self.prompt_patterns.len()
            invariant
                i <= self.prompt_patterns@.len(),
                pats == self.prompt_patterns@.map_values(|r: Regex| r@),
                last_non_blank_line(snapshot.content@) == Some(line@),
                forall|k: int| 0 <= k < i ==> spec_regex_captures(#[trigger] pats[k], line@) is None,
            decreases self.prompt_patterns@.len() - i,
        {
            if self.prompt_patterns[i].is_match(line.as_str()) {
                assert(spec_regex_captures(pats[i as int], line@) is Some);
                return true;
            }
            i = i + 1;
        }
        false
    }

    /// Whether the snapshot differs from the last one kept.
    fn has_output_changed(&self, snapshot: &TerminalSnapshot) -> (b: bool)
        ensures
            b == output_changed(self@.history, snapshot@),
    {
        let n = self.previous_snapshots.len();
        if n == 0 {
            return true;
        }
        let last = &self.previous_snapshots[n - 1];
        let a = chars_of(last.content.as_str());
        let b = chars_of(snapshot.content.as_str());
        if !crate::text::chars_eq(a.as_slice(), b.as_slice()) {
            return true;
        }
        let same_cursor = match (last.cursor_position, snapshot.cursor_position) {
            (Some((x1, y1)), Some((x2, y2))) => x1 == x2 && y1 == y2,
            (None, None) => true,
            _ => false,
        };
        !same_cursor
    }

    /// The state the snapshot shows; the time of the last change moves to
    /// `now_ms` when the output changed.
    fn determine_state(&mut self, snapshot: &TerminalSnapshot, now_ms: u64) -> (st: AgentState)
        ensures
            (st, final(self)@.last_output_change_ms) == spec_determine_state(old(self)@, snapshot@, now_ms),
            final(self)@ == (MonitorView { last_output_change_ms: final(self)@.last_output_change_ms, ..old(self)@ }),
    {
        proof {
            use_type_invariant(&*self);
        }
        if self.is_idle_state(snapshot) {
            return AgentState::Idle;
        }
        if self.has_output_changed(snapshot) {
            self.last_output_change_ms = now_ms;
            return AgentState::Active;
        }
        if now_ms >= self.last_output_change_ms && now_ms - self.last_output_change_ms
            >= self.config.output_stable_duration_ms {
            return AgentState::Wait;
        }
        AgentState::Active
    }

    /// Processes a snapshot taken at `now_ms`: refused unless running;
    /// otherwise the state is updated, the change of state (if any) is
    /// returned, and the snapshot is kept, the oldest dropped beyond the limit.
    pub fn process_snapshot(&mut self, snapshot: TerminalSnapshot, now_ms: u64) -> (r: Result<
        Option<StateTransition>,
        MonitorError,
    >)
        ensures
            !old(self)@.running ==> r == Err::<Option<StateTransition>, MonitorError>(
                MonitorError::NotRunning,
            ) && final(self)@ == old(self)@,
            old(self)@.running ==> {
                let (m, t) = spec_process(old(self)@, snapshot@, now_ms);
                &&& final(self)@ == m
                &&& r matches Ok(tr) && match t {
                    Some((from, to)) => tr matches Some(x) && x.from == from && x.to == to
                        && x.timestamp_ms == now_ms && x.snapshot@ == snapshot@,
                    None => tr is None,
                }
            },
    {
        proof {
            use_type_invariant(&*self);
        }
        if !self.running {
            return Err(MonitorError::NotRunning);
        }
        let new_state = self.determine_state(&snapshot, now_ms);
        let transition = if new_state != self.current_state {
            let t = StateTransition {
                from: self.current_state,
                to: new_state,
                timestamp_ms: now_ms,
                snapshot: snapshot.copy(),
            };
            self.current_state = new_state;
            Some(t)
        } else {
            None
        };
        let mut history: VecDeque<TerminalSnapshot> = VecDeque::new();
        std::mem::swap(&mut history, &mut self.previous_snapshots);
        let ghost before = history@.map_values(|s: TerminalSnapshot| s@);
        let ghost sv = snapshot@;
        history.push_back(snapshot);
        assert(history@.map_values(|s: TerminalSnapshot| s@) =~= before.push(sv));
        if history.len() > self.config.max_snapshot_history {
            history.pop_front();
            assert(history@.map_values(|s: TerminalSnapshot| s@) =~= before.push(sv).drop_first());
        }
        self.previous_snapshots = history;
        Ok(transition)
    }
}

/// The kept snapshots never exceed the limit: recording one more into a
/// history within the limit stays within it.
pub proof fn law_history_stays_bounded(h: Seq<SnapshotView>, s: SnapshotView, max: usize)
    requires
        h.len() <= max,
    ensures
        spec_record(h, s, max).len() <= max,
        spec_record(h, s, max).len() > 0 ==> spec_record(h, s, max).last() == s,
{
}

/// A change of state is reported exactly when the state changes, from the
/// old state to the new one; a terminal showing a prompt is idle.
pub proof fn law_transition_iff_state_changes(m: MonitorView, s: SnapshotView, now: u64)
    ensures
        spec_process(m, s, now).1 is Some <==> spec_process(m, s, now).0.state != m.state,
        spec_process(m, s, now).1 matches Some((from, to)) ==> from == m.state && to
            == spec_process(m, s, now).0.state && from != to,
        shows_prompt(m.patterns, s.content) ==> spec_process(m, s, now).0.state == AgentState::Idle,
        !shows_prompt(m.patterns, s.content) && output_changed(m.history, s) ==> spec_process(
            m,
            s,
            now,
        ).0.state == AgentState::Active,
{
}


/// Every prompt pattern counts, whatever its place in the list: the terminal
/// shows a prompt when any one of them matches the last non-blank line, and
/// not when none does or every line is blank.
pub proof fn law_any_prompt_pattern_counts(patterns: Seq<Seq<char>>, content: Seq<char>, i: int)
    ensures
        (0 <= i < patterns.len() && last_non_blank_line(content) is Some && spec_regex_captures(
            patterns[i],
            last_non_blank_line(content).unwrap(),
        ) is Some) ==> shows_prompt(patterns, content),
        last_non_blank_line(content) is None ==> !shows_prompt(patterns, content),
        (last_non_blank_line(content) is Some && forall|k: int|
            0 <= k < patterns.len() ==> spec_regex_captures(
                #[trigger] patterns[k],
                last_non_blank_line(content).unwrap(),
            ) is None) ==> !shows_prompt(patterns, content),
{
    if 0 <= i < patterns.len() && last_non_blank_line(content) is Some {
        let l = last_non_blank_line(content).unwrap();
        if spec_regex_captures(patterns[i], l) is Some {
            assert(shows_prompt(patterns, content));
        }
    }
}


proof fn lemma_last_non_blank(ls: Seq<Seq<char>>)
    ensures
        non_blank(ls).len() == 0 ==> forall|k: int| 0 <= k < ls.len() ==> is_blank(#[trigger] ls[k]),
        non_blank(ls).len() > 0 ==> exists|k: int|
            0 <= k < ls.len() && #[trigger] ls[k] == non_blank(ls).last() && !is_blank(ls[k])
                && forall|k2: int| k < k2 < ls.len() ==> is_blank(#[trigger] ls[k2]),
    decreases ls.len(),
{
    if ls.len() > 0 {
        let init = ls.drop_last();
        lemma_last_non_blank(init);
        if is_blank(ls.last()) {
            if non_blank(init).len() == 0 {
                assert forall|k: int| 0 <= k < ls.len() implies is_blank(#[trigger] ls[k]) by {
                    if k < init.len() {
                        assert(ls[k] == init[k]);
                    }
                }
            } else {
                let k = choose|k: int|
                    0 <= k < init.len() && #[trigger] init[k] == non_blank(init).last() && !is_blank(init[k])
                        && forall|k2: int| k < k2 < init.len() ==> is_blank(#[trigger] init[k2]);
                assert(ls[k] == init[k]);
                assert forall|k2: int| k < k2 < ls.len() implies is_blank(#[trigger] ls[k2]) by {
                    if k2 < init.len() {
                        assert(ls[k2] == init[k2]);
                    }
                }
            }
        } else {
            let k = ls.len() - 1;
            assert(ls[k] == non_blank(ls).last());
        }
    }
}

/// The prompt is looked for on the right line: the last non-blank line is
/// a line of the content that is not blank and after which every line is
/// blank; there is none exactly when every line is blank.
pub proof fn law_last_non_blank_line_is_last(content: Seq<char>)
    ensures
        match last_non_blank_line(content) {
            Some(l) => !is_blank(l) && exists|k: int|
                0 <= k < lines(content).len() && #[trigger] lines(content)[k] == l && forall|k2: int|
                    k < k2 < lines(content).len() ==> is_blank(#[trigger] lines(content)[k2]),
            None => forall|k: int| 0 <= k < lines(content).len() ==> is_blank(#[trigger] lines(content)[k]),
        },
{
    lemma_last_non_blank(lines(content));
}

} // verus!
