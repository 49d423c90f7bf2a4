//! The control loop of the service as a state machine. The loop itself
//! waits, listens and reads files, which this module cannot do; what it
//! decides is here. The caller performs the action that a step asks for and
//! hands back what came of it as the next input.

use vstd::prelude::*;

use crate::codes::Event;
use crate::config::LocalConfig;
use crate::reconcile::PortHealth;
use crate::scheduler::NODE_BACKGROUND_TASKS_MAX_INTERVAL;

verus! {

/// How long, in milliseconds, the loop lets pass between two looks at the
/// configuration and the interfaces.
pub const CONFIG_CHECK_INTERVAL: i64 = 5000;

/// How long, in milliseconds, the loop pauses before it starts again.
pub const RESTART_BACKOFF: u64 = 1000;

/// A wait that took more than this many times the delay asked for is taken
/// as a sign that the machine slept.
pub const SUSPEND_FACTOR: i64 = 4;

/// The exit code of a service that could not bind its control listener.
pub const EXIT_LISTENER_FAILED: i32 = 1;

/// The four states of the service.
#[derive(Clone, Copy, Debug, PartialEq, Eq, Structural)]
pub enum Phase {
    Starting,
    Serving,
    Restarting,
    ShuttingDown,
}

/// Where the loop stands: which outcome it is waiting for.
#[derive(Clone, Copy, Debug, PartialEq, Eq, Structural)]
pub enum Step {
    /// Starting: the control listener is being bound.
    Binding,
    /// Serving: the loop waits for the timer, an interrupt or termination.
    Waiting,
    /// Serving: the configuration is being read again.
    Reloading,
    /// Serving: the sockets are being reconciled.
    Reconciling,
    /// Serving: the engine runs its background tasks.
    Ticking,
    /// Restarting: the control listener is being shut down.
    Stopping,
    /// Restarting: the loop pauses before it starts again.
    BackingOff,
    /// Shutting down: nothing more will happen.
    Done,
}

impl Step {
    /// The state of the service that the step belongs to.
    pub open spec fn phase_spec(self) -> Phase {
        match self {
            Step::Binding => Phase::Starting,
            Step::Waiting | Step::Reloading | Step::Reconciling | Step::Ticking => Phase::Serving,
            Step::Stopping | Step::BackingOff => Phase::Restarting,
            Step::Done => Phase::ShuttingDown,
        }
    }

    /// How far the step is from the end of the loop, for a service that has
    /// been told to stop.
    pub open spec fn distance(self) -> int {
        match self {
            Step::Done => 0,
            Step::BackingOff => 1,
            Step::Stopping => 2,
            Step::Reconciling => 3,
            Step::Reloading => 4,
            Step::Waiting => 5,
            Step::Ticking => 6,
            Step::Binding => 7,
        }
    }

    /// The state of the service that the step belongs to.
    #[verifier::when_used_as_spec(phase_spec)]
    pub fn phase(self) -> (p: Phase)
        ensures
            p == self.phase_spec(),
    {
        match self {
            Step::Binding => Phase::Starting,
            Step::Waiting => Phase::Serving,
            Step::Reloading => Phase::Serving,
            Step::Reconciling => Phase::Serving,
            Step::Ticking => Phase::Serving,
            Step::Stopping => Phase::Restarting,
            Step::BackingOff => Phase::Restarting,
            Step::Done => Phase::ShuttingDown,
        }
    }
}

/// Why a wait ended.
#[derive(Clone, Copy, Debug, PartialEq, Eq, Structural)]
pub enum Wake {
    TimerElapsed,
    Interrupted,
    Terminated,
}

/// What came of the action that the loop asked for.
#[derive(Clone, Debug, PartialEq, Eq)]
pub enum Input {
    /// The control listener is bound.
    ListenerBound,
    /// The control listener could not be bound.
    ListenerFailed,
    /// The wait that began at `started` ended at `now`.
    Woke { cause: Wake, started: i64, now: i64 },
    /// The configuration was read again; `None` if that failed.
    ConfigLoaded { config: Option<LocalConfig> },
    /// The sockets were reconciled, with this outcome for the two ports.
    Reconciled { health: PortHealth },
    /// The background tasks ran and ask to run again after `delay`.
    Ticked { delay: u64 },
    /// The control listener has shut down.
    ListenerStopped,
    /// The pause before a restart is over.
    BackoffElapsed,
}

/// What the loop asks its caller to do next.
#[derive(Clone, Copy, Debug, PartialEq, Eq, Structural)]
pub enum Action {
    /// Bind the control listener at `port`; answer with `ListenerBound` or
    /// `ListenerFailed`.
    BindListener { port: u16 },
    /// Wait for the timer, an interrupt or termination; answer with `Woke`.
    Wait { delay: u64 },
    /// Read the configuration again; answer with `ConfigLoaded`.
    ReloadConfig,
    /// Give the log the new size limit and destination, where there is one,
    /// then reconcile the sockets; answer with `Reconciled`.
    Reconcile { log_size_max: Option<usize>, log_to_stderr: Option<bool> },
    /// Run the background tasks of the engine at time `now`; answer with
    /// `Ticked`.
    RunBackgroundTasks { now: i64 },
    /// Shut the control listener down; answer with `ListenerStopped`.
    StopListener,
    /// Pause for `delay`; answer with `BackoffElapsed`.
    Backoff { delay: u64 },
    /// Leave the loop with this exit code.
    Exit { code: i32 },
}

/// The settings that the running serving cycle was set up with.
#[derive(Clone, Copy, Debug, PartialEq, Eq, Structural)]
pub struct AppliedSettings {
    pub primary_port: u16,
    pub log_size_max: usize,
    pub log_to_stderr: bool,
}

impl AppliedSettings {
    /// The settings of `config` that a serving cycle is set up with.
    pub open spec fn of(config: &LocalConfig) -> AppliedSettings {
        AppliedSettings {
            primary_port: config.settings.primary_port,
            log_size_max: config.settings.log_size_max,
            log_to_stderr: config.settings.log_to_stderr,
        }
    }

    /// The settings of `config` that a serving cycle is set up with.
    pub fn from_config(config: &LocalConfig) -> (a: AppliedSettings)
        ensures
            a == Self::of(config),
    {
        AppliedSettings {
            primary_port: config.settings.primary_port,
            log_size_max: config.settings.log_size_max,
            log_to_stderr: config.settings.log_to_stderr,
        }
    }
}

/// The state of the control loop.
#[derive(Clone, Debug, PartialEq, Eq)]
pub struct Orchestrator {
    /// Where the loop stands.
    pub step: Step,
    /// Whether the service should keep running.
    pub run: bool,
    /// Whether the engine reports that the node is online.
    pub online: bool,
    /// The current configuration.
    pub config: LocalConfig,
    /// What the running serving cycle was set up with.
    pub applied: AppliedSettings,
    /// When the configuration was last looked at.
    pub last_checked_config: i64,
    /// The time at which the last wait ended.
    pub cycle_time: i64,
    /// The delay of the next wait.
    pub loop_delay: u64,
    /// Whether the last wait took so long that the machine probably slept.
    pub resume_suspected: bool,
    /// The exit code of the service.
    pub exit_code: i32,
}

/// Whether a wait from `started` to `now` took more than four times the
/// delay asked for.
pub open spec fn overslept(started: int, now: int, delay: int) -> bool {
    now - started > delay * SUSPEND_FACTOR as int
}

/// Whether it is time to look at the configuration again.
pub open spec fn check_due(now: int, last_checked: int) -> bool {
    now - last_checked >= CONFIG_CHECK_INTERVAL as int
}

impl Orchestrator {
    /// The state of the service.
    pub open spec fn phase(&self) -> Phase {
        self.step.phase_spec()
    }

    /// The action that the loop is waiting for the outcome of.
    pub open spec fn pending(&self) -> Action {
        match self.step {
            Step::Binding => Action::BindListener { port: self.applied.primary_port },
            Step::Waiting => Action::Wait { delay: self.loop_delay },
            Step::Reloading => Action::ReloadConfig,
            Step::Reconciling => Action::Reconcile { log_size_max: None, log_to_stderr: None },
            Step::Ticking => Action::RunBackgroundTasks { now: self.cycle_time },
            Step::Stopping => Action::StopListener,
            Step::BackingOff => Action::Backoff { delay: RESTART_BACKOFF },
            Step::Done => Action::Exit { code: self.exit_code },
        }
    }

    /// Whether `input` is the outcome that the loop is waiting for.
    pub open spec fn awaits(&self, input: &Input) -> bool {
        match (self.step, *input) {
            (Step::Binding, Input::ListenerBound) => true,
            (Step::Binding, Input::ListenerFailed) => true,
            (Step::Waiting, Input::Woke { .. }) => true,
            (Step::Reloading, Input::ConfigLoaded { .. }) => true,
            (Step::Reconciling, Input::Reconciled { .. }) => true,
            (Step::Ticking, Input::Ticked { .. }) => true,
            (Step::Stopping, Input::ListenerStopped) => true,
            (Step::BackingOff, Input::BackoffElapsed) => true,
            _ => false,
        }
    }

    /// The serving cycle ends: the control listener is to be shut down.
    pub open spec fn leave_cycle(self) -> (Orchestrator, Action) {
        (Orchestrator { step: Step::Stopping, ..self }, Action::StopListener)
    }

    /// The end of one round of the serving cycle: the cycle ends if the
    /// service has been told to stop, and else the background tasks run.
    pub open spec fn finish_round(self) -> (Orchestrator, Action) {
        if !self.run {
            self.leave_cycle()
        } else {
            (
                Orchestrator { step: Step::Ticking, ..self },
                Action::RunBackgroundTasks { now: self.cycle_time },
            )
        }
    }

    /// A wait has ended at `now` for another reason than termination.
    pub open spec fn begin_round(self, now: i64, suspected: bool) -> (Orchestrator, Action) {
        let woke = Orchestrator { cycle_time: now, resume_suspected: suspected, ..self };
        if check_due(now as int, self.last_checked_config as int) {
            (
                Orchestrator { step: Step::Reloading, last_checked_config: now, ..woke },
                Action::ReloadConfig,
            )
        } else {
            woke.finish_round()
        }
    }

    /// The configuration has been read again. A new primary port ends the
    /// serving cycle. Any other change is taken over in place: the log is
    /// given its new settings and the sockets are reconciled.
    pub open spec fn take_config(self, config: Option<LocalConfig>) -> (Orchestrator, Action) {
        let current = match config {
            Some(c) => c,
            None => self.config,
        };
        let loaded = Orchestrator { config: current, ..self };
        let next = AppliedSettings::of(&current);
        if next.primary_port != self.applied.primary_port {
            loaded.leave_cycle()
        } else {
            (
                Orchestrator { step: Step::Reconciling, applied: next, ..loaded },
                Action::Reconcile {
                    log_size_max: if next.log_size_max != self.applied.log_size_max {
                        Some(next.log_size_max)
                    } else {
                        None
                    },
                    log_to_stderr: if next.log_to_stderr != self.applied.log_to_stderr {
                        Some(next.log_to_stderr)
                    } else {
                        None
                    },
                },
            )
        }
    }

    /// The loop starts a serving cycle with the current configuration.
    pub open spec fn start_cycle(self) -> (Orchestrator, Action) {
        let applied = AppliedSettings::of(&self.config);
        (
            Orchestrator { step: Step::Binding, applied, ..self },
            Action::BindListener { port: applied.primary_port },
        )
    }

    /// The loop ends.
    pub open spec fn finish(self, code: i32) -> (Orchestrator, Action) {
        (Orchestrator { step: Step::Done, exit_code: code, ..self }, Action::Exit { code })
    }

    /// The state and the action that follow when `input` arrives. An input
    /// that the loop is not waiting for changes nothing, and the loop asks
    /// again for what it is waiting for.
    pub open spec fn next(self, input: Input) -> (Orchestrator, Action) {
        match (self.step, input) {
            (Step::Binding, Input::ListenerBound) => (
                Orchestrator { step: Step::Waiting, last_checked_config: 0, ..self },
                Action::Wait { delay: self.loop_delay },
            ),
            (Step::Binding, Input::ListenerFailed) => self.finish(EXIT_LISTENER_FAILED),
            (Step::Waiting, Input::Woke { cause: Wake::Terminated, .. }) => Orchestrator {
                run: false,
                ..self
            }.leave_cycle(),
            (Step::Waiting, Input::Woke { cause: Wake::TimerElapsed, started, now }) => self.begin_round(
                now,
                overslept(started as int, now as int, self.loop_delay as int),
            ),
            (Step::Waiting, Input::Woke { cause: Wake::Interrupted, now, .. }) => self.begin_round(
                now,
                false,
            ),
            (Step::Reloading, Input::ConfigLoaded { config }) => self.take_config(config),
            (Step::Reconciling, Input::Reconciled { health }) => if health.primary_port_bind_failure
                && !self.config.settings.auto_port_search {
                self.leave_cycle()
            } else {
                self.finish_round()
            },
            (Step::Ticking, Input::Ticked { delay }) => (
                Orchestrator { step: Step::Waiting, loop_delay: delay, ..self },
                Action::Wait { delay },
            ),
            (Step::Stopping, Input::ListenerStopped) => if !self.run {
                self.finish(self.exit_code)
            } else {
                (
                    Orchestrator { step: Step::BackingOff, ..self },
                    Action::Backoff { delay: RESTART_BACKOFF },
                )
            },
            (Step::BackingOff, Input::BackoffElapsed) => if !self.run {
                self.finish(self.exit_code)
            } else {
                self.start_cycle()
            },
            _ => (self, self.pending()),
        }
    }

    /// What an event from the engine does to the state: the node going down
    /// tells the service to stop, and the node going online or offline is
    /// noted. Nothing else changes.
    pub open spec fn after_event(self, event: Event) -> Orchestrator {
        match event {
            Event::Down => Orchestrator { run: false, ..self },
            Event::Online => Orchestrator { online: true, ..self },
            Event::Offline => Orchestrator { online: false, ..self },
            _ => self,
        }
    }

    /// The state in which the loop begins, with the action that it begins
    /// with: binding the control listener at the primary port.
    pub fn new(config: LocalConfig) -> (r: (Orchestrator, Action))
        ensures
            r.0.step == Step::Binding,
            r.0.run,
            !r.0.online,
            r.0.config == config,
            r.0.applied == AppliedSettings::of(&config),
            r.0.last_checked_config == 0,
            r.0.cycle_time == 0,
            r.0.loop_delay == NODE_BACKGROUND_TASKS_MAX_INTERVAL,
            !r.0.resume_suspected,
            r.0.exit_code == 0,
            r.1 == r.0.pending(),
            r.1 == (Action::BindListener { port: config.settings.primary_port }),
    {
        let applied = AppliedSettings::from_config(&config);
        (
            Orchestrator {
                step: Step::Binding,
                run: true,
                online: false,
                config,
                applied,
                last_checked_config: 0,
                cycle_time: 0,
                loop_delay: NODE_BACKGROUND_TASKS_MAX_INTERVAL,
                resume_suspected: false,
                exit_code: 0,
            },
            Action::BindListener { port: applied.primary_port },
        )
    }

    fn do_leave_cycle(&mut self) -> (action: Action)
        ensures
            (*final(self), action) == old(self).leave_cycle(),
    {
        self.step = Step::Stopping;
        Action::StopListener
    }

    fn do_finish_round(&mut self) -> (action: Action)
        ensures
            (*final(self), action) == old(self).finish_round(),
    {
        if !self.run {
            self.do_leave_cycle()
        } else {
            self.step = Step::Ticking;
            Action::RunBackgroundTasks { now: self.cycle_time }
        }
    }

    fn do_begin_round(&mut self, now: i64, suspected: bool) -> (action: Action)
        ensures
            (*final(self), action) == old(self).begin_round(now, suspected),
    {
        let due = (now as i128) - (self.last_checked_config as i128) >= (
        CONFIG_CHECK_INTERVAL as i128);
        self.cycle_time = now;
        self.resume_suspected = suspected;
        if due {
            self.step = Step::Reloading;
            self.last_checked_config = now;
            Action::ReloadConfig
        } else {
            self.do_finish_round()
        }
    }

    fn do_take_config(&mut self, config: Option<LocalConfig>) -> (action: Action)
        ensures
            (*final(self), action) == old(self).take_config(config),
    {
        match config {
            Some(c) => {
                self.config = c;
            },
            None => {},
        }
        let next = AppliedSettings::from_config(&self.config);
        if next.primary_port != self.applied.primary_port {
            self.do_leave_cycle()
        } else {
            let log_size_max = if next.log_size_max != self.applied.log_size_max {
                Some(next.log_size_max)
            } else {
                None
            };
            let log_to_stderr = if next.log_to_stderr != self.applied.log_to_stderr {
                Some(next.log_to_stderr)
            } else {
                None
            };
            self.step = Step::Reconciling;
            self.applied = next;
            Action::Reconcile { log_size_max, log_to_stderr }
        }
    }

    fn do_finish(&mut self, code: i32) -> (action: Action)
        ensures
            (*final(self), action) == old(self).finish(code),
    {
        self.step = Step::Done;
        self.exit_code = code;
        Action::Exit { code }
    }

    /// The action that the loop is waiting for the outcome of.
    pub fn pending_action(&self) -> (action: Action)
        ensures
            action == self.pending(),
    {
        match self.step {
            Step::Binding => Action::BindListener { port: self.applied.primary_port },
            Step::Waiting => Action::Wait { delay: self.loop_delay },
            Step::Reloading => Action::ReloadConfig,
            Step::Reconciling => Action::Reconcile { log_size_max: None, log_to_stderr: None },
            Step::Ticking => Action::RunBackgroundTasks { now: self.cycle_time },
            Step::Stopping => Action::StopListener,
            Step::BackingOff => Action::Backoff { delay: RESTART_BACKOFF },
            Step::Done => Action::Exit { code: self.exit_code },
        }
    }

    /// Takes the outcome of the last action and says what to do next.
    pub fn step(&mut self, input: Input) -> (action: Action)
        ensures
            (*final(self), action) == old(self).next(input),
    {
        match (self.step, input) {
            (Step::Binding, Input::ListenerBound) => {
                self.step = Step::Waiting;
                self.last_checked_config = 0;
                Action::Wait { delay: self.loop_delay }
            },
            (Step::Binding, Input::ListenerFailed) => self.do_finish(EXIT_LISTENER_FAILED),
            (Step::Waiting, Input::Woke { cause, started, now }) => {
                match cause {
                    Wake::Terminated => {
                        self.run = false;
                        self.do_leave_cycle()
                    },
                    Wake::TimerElapsed => {
                        let delay: i128 = self.loop_delay as i128;
                        let factor: i128 = SUSPEND_FACTOR as i128;
                        assert(factor == 4);
                        let limit: i128 = delay * factor;
                        let suspected = (now as i128) - (started as i128) > limit;
                        self.do_begin_round(now, suspected)
                    },
                    Wake::Interrupted => self.do_begin_round(now, false),
                }
            },
            (Step::Reloading, Input::ConfigLoaded { config }) => self.do_take_config(config),
            (Step::Reconciling, Input::Reconciled { health }) => {
                if health.is_fatal(self.config.settings.auto_port_search) {
                    self.do_leave_cycle()
                } else {
                    self.do_finish_round()
                }
            },
            (Step::Ticking, Input::Ticked { delay }) => {
                self.step = Step::Waiting;
                self.loop_delay = delay;
                Action::Wait { delay }
            },
            (Step::Stopping, Input::ListenerStopped) => {
                if !self.run {
                    let code = self.exit_code;
                    self.do_finish(code)
                } else {
                    self.step = Step::BackingOff;
                    Action::Backoff { delay: RESTART_BACKOFF }
                }
            },
            (Step::BackingOff, Input::BackoffElapsed) => {
                if !self.run {
                    let code = self.exit_code;
                    self.do_finish(code)
                } else {
                    let applied = AppliedSettings::from_config(&self.config);
                    self.step = Step::Binding;
                    self.applied = applied;
                    Action::BindListener { port: applied.primary_port }
                }
            },
            _ => self.pending_action(),
        }
    }

    /// Takes note of an event from the engine. Returns whether the event
    /// is a trace message with content, which the caller may log.
    pub fn node_event(&mut self, event: Event, event_data: &[u8]) -> (loggable: bool)
        ensures
            *final(self) == old(self).after_event(event),
            loggable == (event == Event::Trace && event_data@.len() > 0),
    {
        match event {
            Event::Up => false,
            Event::Down => {
                self.run = false;
                false
            },
            Event::Online => {
                self.online = true;
                false
            },
            Event::Offline => {
                self.online = false;
                false
            },
            Event::Trace => event_data.len() > 0,
            Event::UserMessage => false,
        }
    }
}

/// A configuration that keeps the primary port never ends the serving
/// cycle: the loop goes on to reconcile the sockets, and asks for the log's
/// size limit and destination to be changed exactly where they differ from
/// what the cycle was set up with.
pub proof fn lemma_same_port_keeps_serving(s: Orchestrator, config: LocalConfig)
    requires
        s.step == Step::Reloading,
        config.settings.primary_port == s.applied.primary_port,
    ensures
        s.next(Input::ConfigLoaded { config: Some(config) }).0.phase() == Phase::Serving,
        s.next(Input::ConfigLoaded { config: Some(config) }).0.step == Step::Reconciling,
        s.next(Input::ConfigLoaded { config: Some(config) }).0.config == config,
        s.next(Input::ConfigLoaded { config: Some(config) }).0.applied == AppliedSettings::of(
            &config,
        ),
        s.next(Input::ConfigLoaded { config: Some(config) }).1 == (Action::Reconcile {
            log_size_max: if config.settings.log_size_max != s.applied.log_size_max {
                Some(config.settings.log_size_max)
            } else {
                None
            },
            log_to_stderr: if config.settings.log_to_stderr != s.applied.log_to_stderr {
                Some(config.settings.log_to_stderr)
            } else {
                None
            },
        }),
{
}

/// A configuration that could not be read again changes nothing: the
/// serving cycle goes on with the configuration it has.
pub proof fn lemma_failed_reload_keeps_serving(s: Orchestrator)
    requires
        s.step == Step::Reloading,
        s.applied == AppliedSettings::of(&s.config),
    ensures
        s.next(Input::ConfigLoaded { config: None }).0.phase() == Phase::Serving,
        s.next(Input::ConfigLoaded { config: None }).0.config == s.config,
        s.next(Input::ConfigLoaded { config: None }).1 == (Action::Reconcile {
            log_size_max: None,
            log_to_stderr: None,
        }),
{
}

/// A configuration with another primary port ends the serving cycle, once:
/// the control listener is shut down, the loop pauses, binds the listener
/// at the new port and serves again, set up with the new configuration. In
/// the new cycle the same configuration no longer differs from what the
/// cycle was set up with, so reading it again keeps the cycle.
pub proof fn lemma_port_change_restarts_once(s: Orchestrator, config: LocalConfig)
    requires
        s.step == Step::Reloading,
        s.run,
        config.settings.primary_port != s.applied.primary_port,
    ensures
        ({
            let (s1, a1) = s.next(Input::ConfigLoaded { config: Some(config) });
            let (s2, a2) = s1.next(Input::ListenerStopped);
            let (s3, a3) = s2.next(Input::BackoffElapsed);
            let (s4, a4) = s3.next(Input::ListenerBound);
            &&& s1.phase() == Phase::Restarting
            &&& a1 == Action::StopListener
            &&& s1.applied == s.applied
            &&& s2.phase() == Phase::Restarting
            &&& a2 == (Action::Backoff { delay: RESTART_BACKOFF })
            &&& s3.phase() == Phase::Starting
            &&& a3 == (Action::BindListener { port: config.settings.primary_port })
            &&& s4.phase() == Phase::Serving
            &&& s4.config == config
            &&& s4.applied == AppliedSettings::of(&config)
            &&& forall|t: Orchestrator|
                t.step == Step::Reloading && t.config == config && t.applied == s4.applied ==> {
                    &&& (#[trigger] t.next(Input::ConfigLoaded { config: None })).0.phase()
                        == Phase::Serving
                    &&& t.next(Input::ConfigLoaded { config: Some(config) }).0.phase()
                        == Phase::Serving
                }
        }),
{
}

/// Within a serving cycle nothing but a new primary port, a primary port
/// that is bound nowhere while the service may not look for another, a
/// request to terminate or a cleared run flag ends the cycle.
pub proof fn lemma_causes_of_restart(s: Orchestrator, input: Input)
    requires
        s.phase() == Phase::Serving,
        s.next(input).0.phase() != Phase::Serving,
    ensures
        s.next(input).0.step == Step::Stopping,
        s.next(input).1 == Action::StopListener,
        ({
            ||| !s.run
            ||| (s.step == Step::Waiting && (input matches Input::Woke {
                cause: Wake::Terminated,
                ..
            }))
            ||| (s.step == Step::Reloading && (input matches Input::ConfigLoaded {
                config: Some(c),
            } && c.settings.primary_port != s.applied.primary_port))
            ||| (s.step == Step::Reloading && (input matches Input::ConfigLoaded { config: None }
                && s.config.settings.primary_port != s.applied.primary_port))
            ||| (s.step == Step::Reconciling && (input matches Input::Reconciled { health }
                && health.primary_port_bind_failure && !s.config.settings.auto_port_search))
        }),
{
}

/// A failure of the secondary port alone never ends the serving cycle.
pub proof fn lemma_secondary_failure_is_not_fatal(s: Orchestrator, health: PortHealth)
    requires
        s.step == Step::Reconciling,
        s.run,
        !health.primary_port_bind_failure,
    ensures
        s.next(Input::Reconciled { health }).0.phase() == Phase::Serving,
        s.next(Input::Reconciled { health }).1 == (Action::RunBackgroundTasks { now: s.cycle_time }),
{
}

/// A request to terminate always wins: whatever the times of the wait
/// are, the run flag is cleared and the control listener is shut down.
pub proof fn lemma_termination_wins(s: Orchestrator, started: i64, now: i64)
    requires
        s.step == Step::Waiting,
    ensures
        !s.next(Input::Woke { cause: Wake::Terminated, started, now }).0.run,
        s.next(Input::Woke { cause: Wake::Terminated, started, now }).0.step == Step::Stopping,
        s.next(Input::Woke { cause: Wake::Terminated, started, now }).1 == Action::StopListener,
{
}

/// Once the run flag is clear the loop winds down: no step sets the flag
/// again, and every outcome that the loop is waiting for brings it nearer
/// to its end. After at most seven such outcomes the loop is done.
pub proof fn lemma_cleared_flag_winds_down(s: Orchestrator, input: Input)
    requires
        !s.run,
    ensures
        !s.next(input).0.run,
        s.awaits(&input) ==> s.next(input).0.step.distance() < s.step.distance(),
        !s.awaits(&input) ==> s.next(input).0 == s,
        s.step.distance() == 0 <==> s.step == Step::Done,
        0 <= s.step.distance() <= 7,
{
}

/// Nothing sets a cleared run flag again, whatever arrives.
pub proof fn lemma_run_flag_stays_clear(s: Orchestrator, input: Input, event: Event)
    requires
        !s.run,
    ensures
        !s.next(input).0.run,
        !s.after_event(event).run,
{
}

/// The end is final: once the loop is done no input changes its state, and
/// it asks for nothing but to exit with its exit code.
pub proof fn lemma_done_is_final(s: Orchestrator, input: Input)
    requires
        s.step == Step::Done,
    ensures
        s.next(input).0 == s,
        s.next(input).1 == (Action::Exit { code: s.exit_code }),
{
}

/// The exit code changes in one case only: the control listener could not
/// be bound, which ends the loop at once with a non-zero code.
pub proof fn lemma_exit_code(s: Orchestrator, input: Input)
    ensures
        s.step == Step::Binding && input is ListenerFailed ==> s.next(input).0.step == Step::Done
            && s.next(input).0.exit_code == EXIT_LISTENER_FAILED && s.next(input).1 == (
        Action::Exit { code: EXIT_LISTENER_FAILED }),
        !(s.step == Step::Binding && input is ListenerFailed) ==> s.next(input).0.exit_code
            == s.exit_code,
        EXIT_LISTENER_FAILED != 0,
{
}

/// The port of the control listener belongs to the serving cycle: what the
/// cycle was set up with changes its primary port only when a new cycle
/// starts.
pub proof fn lemma_port_is_fixed_within_a_cycle(s: Orchestrator, input: Input)
    ensures
        s.next(input).0.applied.primary_port != s.applied.primary_port ==> s.step
            == Step::BackingOff && s.next(input).0.step == Step::Binding,
{
}

/// The loop never waits longer than the background tasks allow: as long
/// as every delay that the background tasks ask for lies between one
/// millisecond and the maximum interval, so does the delay of every wait.
pub proof fn lemma_wait_is_bounded(s: Orchestrator, input: Input)
    requires
        1 <= s.loop_delay <= NODE_BACKGROUND_TASKS_MAX_INTERVAL,
        input matches Input::Ticked { delay } ==> 1 <= delay <= NODE_BACKGROUND_TASKS_MAX_INTERVAL,
    ensures
        1 <= s.next(input).0.loop_delay <= NODE_BACKGROUND_TASKS_MAX_INTERVAL,
        s.next(input).1 matches Action::Wait { delay } ==> 1 <= delay
            <= NODE_BACKGROUND_TASKS_MAX_INTERVAL,
{
}

/// The configuration is replaced as a whole or not at all: after any step
/// it is the one that was there before, or the one that was just read.
pub proof fn lemma_config_is_replaced_whole(s: Orchestrator, input: Input)
    ensures
        s.next(input).0.config == s.config || (s.step == Step::Reloading && (
        input matches Input::ConfigLoaded { config: Some(c) } && s.next(input).0.config == c)),
{
}

/// The loop itself touches the two flags in one place only: a request to
/// terminate clears the run flag. The online flag is the engine's to set.
pub proof fn lemma_flags_change_by_events_only(s: Orchestrator, input: Input, event: Event)
    ensures
        s.next(input).0.online == s.online,
        s.next(input).0.run != s.run ==> s.run && s.step == Step::Waiting && (
        input matches Input::Woke { cause: Wake::Terminated, .. }),
        s.after_event(event).step == s.step,
        s.after_event(event).config == s.config,
        s.after_event(event).run == (s.run && event != Event::Down),
        s.after_event(event).online == (if event == Event::Online {
            true
        } else if event == Event::Offline {
            false
        } else {
            s.online
        }),
{
}

/// The delay that the loop waits is the one that the background tasks
/// asked for last, and a wait is marked as a probable sleep of the machine
/// exactly if it was ended by the timer after more than four times that
/// delay.
pub proof fn lemma_wait_and_resume(s: Orchestrator, delay: u64, cause: Wake, started: i64, now: i64)
    ensures
        s.step == Step::Ticking ==> s.next(Input::Ticked { delay }).1 == (Action::Wait { delay })
            && s.next(Input::Ticked { delay }).0.loop_delay == delay,
        s.step == Step::Waiting && cause != Wake::Terminated ==> s.next(
            Input::Woke { cause, started, now },
        ).0.resume_suspected == (cause == Wake::TimerElapsed && now - started > 4 * s.loop_delay),
        s.step == Step::Waiting && cause != Wake::Terminated ==> (s.next(
            Input::Woke { cause, started, now },
        ).0.step == Step::Reloading <==> now - s.last_checked_config >= 5000),
{
}

} // verus!
