//! The first generation of the `ht` process messages and settings, and the
//! decisions of restarting it with retries.
use crate::retry::{backoff_delay, backoff_ms};
use crate::text::{append_str, decimal, decimal_chars, string_of};
use vstd::prelude::*;

verus! {

/// Why an operation on an `ht` process failed.
#[derive(Debug)]
pub enum HtProcessError {
    StartupFailure(String),
    CommunicationError(String),
    ProcessCrashed(String),
    NotRunning,
    JsonError(serde_json::Error),
    IoError(std::io::Error),
}

/// A message sent to the `ht` process.
#[derive(Debug, Clone)]
pub enum HtMessage {
    Input { payload: String },
    GetView,
}

/// An answer of the `ht` process.
#[derive(Debug, Clone)]
pub struct HtResponse {
    pub view: Option<String>,
    pub status: String,
}

/// Settings of an `ht` process.
#[derive(Debug, Clone)]
pub struct HtProcessConfig {
    pub ht_binary_path: String,
    pub shell_command: Option<String>,
    pub restart_attempts: u32,
    pub restart_delay_ms: u64,
}

impl Default for HtProcessConfig {
    fn default() -> (c: Self)
        ensures
            c.ht_binary_path@ == "ht"@,
            c.shell_command matches Some(s) && s@ == "bash"@,
            c.restart_attempts == 3,
            c.restart_delay_ms == 1000,
    {
        HtProcessConfig {
            ht_binary_path: "ht".to_owned(),
            shell_command: Some("bash".to_owned()),
            restart_attempts: 3,
            restart_delay_ms: 1000,
        }
    }
}

/// The view of the `ht` process's answer; refused when it carries none or
/// when no answer came.
pub fn view_from_response(response: Option<HtResponse>) -> (r: Result<String, HtProcessError>)
    ensures
        match response {
            Some(HtResponse { view: Some(v), .. }) => r matches Ok(s) && s@ == v@,
            Some(HtResponse { view: None, .. }) => r matches Err(
                HtProcessError::CommunicationError(m),
            ) && m@ == "No view data in response"@,
            None => r matches Err(HtProcessError::CommunicationError(m)) && m@
                == "No response received"@,
        },
{
    match response {
        Some(resp) => match resp.view {
            Some(v) => Ok(v),
            None => Err(HtProcessError::CommunicationError("No view data in response".to_owned())),
        },
        None => Err(HtProcessError::CommunicationError("No response received".to_owned())),
    }
}

/// What to do after a restart attempt.
#[derive(Debug, Clone, PartialEq, Eq)]
pub enum RestartStep {
    /// The process is running again.
    Restarted,
    /// Wait this many milliseconds, then attempt again.
    RetryAfter(u64),
    /// No attempt is left; the process crashed for good.
    GiveUp,
}

/// After restart attempt `attempt` of `max_attempts`: done when it
/// succeeded; otherwise, while attempts are left, a wait of
/// `delay_ms * 2^(attempt - 1)` ms; else give up.
pub fn restart_step(attempt: u32, max_attempts: u32, delay_ms: u64, succeeded: bool) -> (step: RestartStep)
    requires
        1 <= attempt <= max_attempts,
        (!succeeded && attempt < max_attempts) ==> backoff_delay(delay_ms as nat, attempt as nat)
            <= u64::MAX,
    ensures
        succeeded ==> step == RestartStep::Restarted,
        !succeeded && attempt < max_attempts ==> (step matches RestartStep::RetryAfter(d) && d
            == backoff_delay(delay_ms as nat, attempt as nat)),
        !succeeded && attempt == max_attempts ==> step == RestartStep::GiveUp,
{
    if succeeded {
        RestartStep::Restarted
    } else if attempt < max_attempts {
        match backoff_ms(delay_ms, attempt) {
            Some(d) => RestartStep::RetryAfter(d),
            None => RestartStep::GiveUp,
        }
    } else {
        RestartStep::GiveUp
    }
}

/// The error after every restart attempt failed.
pub fn restart_failure(max_attempts: u32) -> (e: HtProcessError)
    ensures
        e matches HtProcessError::ProcessCrashed(m) && m@ == "Failed to restart after "@ + decimal(
            max_attempts as nat,
        ) + " attempts"@,
{
    let n = decimal_chars(max_attempts as usize);
    let mut m = "Failed to restart after ".to_owned();
    append_str(&mut m, string_of(n.as_slice()).as_str());
    append_str(&mut m, " attempts");
    HtProcessError::ProcessCrashed(m)
}

/// What a check of the `ht` child process found.
#[derive(Debug, Clone, Copy, PartialEq, Eq, Structural)]
pub enum ProcessCheck {
    /// The child still runs.
    Running,
    /// The child exited.
    Exited,
    /// Its state could not be read.
    CheckFailed,
    /// No child is recorded.
    Absent,
}

/// What the process monitor does after a check.
#[derive(Debug, Clone, Copy, PartialEq, Eq, Structural)]
pub struct MonitorAction {
    /// Forget the recorded child, which is gone.
    pub forget_process: bool,
    /// Restart the process.
    pub restart: bool,
}

/// A running child is left alone; a child that exited, or whose state
/// cannot be read, is forgotten; the process is restarted when it is gone
/// or missing and automatic restart is on.
pub fn monitor_action(check: ProcessCheck, auto_restart: bool) -> (a: MonitorAction)
    ensures
        a.forget_process == (check == ProcessCheck::Exited || check == ProcessCheck::CheckFailed),
        a.restart == (check != ProcessCheck::Running && auto_restart),
{
    match check {
        ProcessCheck::Running => MonitorAction { forget_process: false, restart: false },
        ProcessCheck::Exited | ProcessCheck::CheckFailed => MonitorAction {
            forget_process: true,
            restart: auto_restart,
        },
        ProcessCheck::Absent => MonitorAction { forget_process: false, restart: auto_restart },
    }
}

/// What the restart loop does next.
#[derive(Debug)]
pub enum RestartAction {
    /// Stop the process and start it again.
    Restart,
    /// Wait this many milliseconds before the next attempt.
    Wait(u64),
    /// The process runs again.
    Restarted,
    /// Every attempt failed.
    Fail(HtProcessError),
}

/// The restart loop as values: attempts made, attempts allowed, base delay.
pub struct RestartRetryView {
    pub attempts: u32,
    pub max_attempts: u32,
    pub delay_ms: u64,
}

/// Restarting the process with up to `max_attempts` attempts, waiting
/// `delay_ms * 2^(k - 1)` ms after failed attempt `k` when attempts remain.
pub struct RestartRetry {
    attempts: u32,
    max_attempts: u32,
    delay_ms: u64,
}

impl View for RestartRetry {
    type V = RestartRetryView;

    closed spec fn view(&self) -> RestartRetryView {
        RestartRetryView {
            attempts: self.attempts,
            max_attempts: self.max_attempts,
            delay_ms: self.delay_ms,
        }
    }
}

impl RestartRetry {
    #[verifier::type_invariant]
    spec fn within_attempts(self) -> bool {
        self.attempts <= self.max_attempts
    }

    /// A loop that has made no attempt yet.
    pub fn new(max_attempts: u32, delay_ms: u64) -> (r: RestartRetry)
        ensures
            r@ == (RestartRetryView { attempts: 0, max_attempts, delay_ms }),
    {
        RestartRetry { attempts: 0, max_attempts, delay_ms }
    }

    /// The next step: `outcome` is the result of the restart just made, or
    /// `None` when none is pending (at the start and after a wait). A
    /// successful restart ends the loop; an attempt is made while attempts
    /// remain; a failed attempt is followed by a wait if another may follow;
    /// once the attempts are spent the loop fails.
    pub fn step(&mut self, outcome: Option<bool>) -> (a: RestartAction)
        requires
            (outcome == Some(false) && 1 <= old(self)@.attempts < old(self)@.max_attempts) ==> backoff_delay(
                old(self)@.delay_ms as nat,
                old(self)@.attempts as nat,
            ) <= u64::MAX,
        ensures
            final(self)@.max_attempts == old(self)@.max_attempts,
            final(self)@.delay_ms == old(self)@.delay_ms,
            final(self)@.attempts <= final(self)@.max_attempts,
            outcome == Some(true) ==> (a is Restarted && final(self)@ == old(self)@),
            (outcome == Some(false) && 1 <= old(self)@.attempts < old(self)@.max_attempts) ==> (a matches RestartAction::Wait(d)
                && d == backoff_delay(old(self)@.delay_ms as nat, old(self)@.attempts as nat)
                && final(self)@ == old(self)@),
            (outcome is None || (outcome == Some(false) && old(self)@.attempts == 0)) ==> if old(
                self,
            )@.attempts < old(self)@.max_attempts {
                a is Restart && final(self)@.attempts == old(self)@.attempts + 1
            } else {
                (a matches RestartAction::Fail(HtProcessError::ProcessCrashed(m)) && m@
                    == "Failed to restart after "@ + decimal(old(self)@.max_attempts as nat)
                    + " attempts"@ && final(self)@ == old(self)@)
            },
            (outcome == Some(false) && old(self)@.attempts >= 1 && old(self)@.attempts
                >= old(self)@.max_attempts) ==> (a matches RestartAction::Fail(
                HtProcessError::ProcessCrashed(m),
            ) && m@ == "Failed to restart after "@ + decimal(old(self)@.max_attempts as nat)
                + " attempts"@ && final(self)@ == old(self)@),
    {
        proof {
            use_type_invariant(&*self);
        }
        match outcome {
            Some(true) => RestartAction::Restarted,
            Some(false) if self.attempts >= 1 => {
                if self.attempts < self.max_attempts {
                    match backoff_ms(self.delay_ms, self.attempts) {
                        Some(d) => RestartAction::Wait(d),
                        None => RestartAction::Fail(restart_failure(self.max_attempts)),
                    }
                } else {
                    RestartAction::Fail(restart_failure(self.max_attempts))
                }
            },
            _ => {
                if self.attempts < self.max_attempts {
                    self.attempts = self.attempts + 1;
                    RestartAction::Restart
                } else {
                    RestartAction::Fail(restart_failure(self.max_attempts))
                }
            },
        }
    }
}

/// The process monitor's switches: whether it runs, and whether it restarts
/// a process that is gone.
#[derive(Debug, Clone, Copy, PartialEq, Eq, Structural)]
pub struct MonitorSwitches {
    pub monitor_running: bool,
    pub auto_restart: bool,
}

impl MonitorSwitches {
    /// A monitor that does not run yet and restarts automatically.
    pub fn new() -> (m: MonitorSwitches)
        ensures
            !m.monitor_running,
            m.auto_restart,
    {
        MonitorSwitches { monitor_running: false, auto_restart: true }
    }

    /// Starts the polling loop.
    pub fn start_process_monitor(&mut self)
        ensures
            *final(self) == (MonitorSwitches { monitor_running: true, ..*old(self) }),
    {
        self.monitor_running = true;
    }

    /// Turns automatic restart on.
    pub fn enable_auto_restart(&mut self)
        ensures
            *final(self) == (MonitorSwitches { auto_restart: true, ..*old(self) }),
    {
        self.auto_restart = true;
    }

    /// Turns automatic restart off.
    pub fn disable_auto_restart(&mut self)
        ensures
            *final(self) == (MonitorSwitches { auto_restart: false, ..*old(self) }),
    {
        self.auto_restart = false;
    }

    /// Whether automatic restart is on.
    pub fn is_auto_restart_enabled(&self) -> (b: bool)
        ensures
            b == self.auto_restart,
    {
        self.auto_restart
    }

    /// One round of the polling loop, given what the check of the child
    /// found: nothing once the loop is stopped, else what `monitor_action`
    /// says under the current switch.
    pub fn poll(&self, check: ProcessCheck) -> (a: Option<MonitorAction>)
        ensures
            !self.monitor_running ==> a is None,
            self.monitor_running ==> (a matches Some(x) && x.forget_process == (check
                == ProcessCheck::Exited || check == ProcessCheck::CheckFailed) && x.restart == (check
                != ProcessCheck::Running && self.auto_restart)),
    {
        if self.monitor_running {
            Some(monitor_action(check, self.auto_restart))
        } else {
            None
        }
    }
}

} // verus!
