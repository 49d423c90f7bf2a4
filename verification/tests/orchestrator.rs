use std::collections::HashMap;
use zerotier_service::codes::Event;
use zerotier_service::config::{LocalConfig, LocalConfigSettings};
use zerotier_service::orchestrator::{
    Action, AppliedSettings, Input, Orchestrator, Phase, Step, Wake, CONFIG_CHECK_INTERVAL,
    EXIT_LISTENER_FAILED, RESTART_BACKOFF,
};
use zerotier_service::reconcile::PortHealth;

fn config(primary: u16, log_size_max: usize, log_to_stderr: bool, auto: bool) -> LocalConfig {
    LocalConfig {
        virtual_: HashMap::new(),
        settings: LocalConfigSettings {
            primary_port: primary,
            secondary_port: None,
            auto_port_search: auto,
            log_size_max,
            log_to_stderr,
            interface_blacklist: Vec::new(),
        },
    }
}

fn serving(primary: u16) -> Orchestrator {
    let (mut o, first) = Orchestrator::new(config(primary, 1000, false, false));
    assert_eq!(first, Action::BindListener { port: primary });
    assert_eq!(o.step(Input::ListenerBound), Action::Wait { delay: 250 });
    o
}

fn reloading(primary: u16) -> Orchestrator {
    let mut o = serving(primary);
    let a = o.step(Input::Woke { cause: Wake::TimerElapsed, started: 9_000, now: 10_000 });
    assert_eq!(a, Action::ReloadConfig);
    assert_eq!(o.step, Step::Reloading);
    o
}

const HEALTHY: PortHealth =
    PortHealth { primary_port_bind_failure: false, secondary_port_bind_failure: false };

#[test]
fn loop_begins_by_binding_the_listener() {
    let (o, first) = Orchestrator::new(config(9993, 1000, false, false));
    assert_eq!(first, Action::BindListener { port: 9993 });
    assert_eq!(o.step, Step::Binding);
    assert_eq!(o.step.phase(), Phase::Starting);
    assert!(o.run);
    assert!(!o.online);
    assert_eq!(o.loop_delay, 250);
    assert_eq!(o.exit_code, 0);
    assert_eq!(
        o.applied,
        AppliedSettings { primary_port: 9993, log_size_max: 1000, log_to_stderr: false }
    );
    assert_eq!(o.pending_action(), first);
}

#[test]
fn listener_failure_ends_the_loop_with_a_non_zero_code() {
    let (mut o, _) = Orchestrator::new(config(9993, 1000, false, false));
    assert_eq!(o.step(Input::ListenerFailed), Action::Exit { code: EXIT_LISTENER_FAILED });
    assert_ne!(EXIT_LISTENER_FAILED, 0);
    assert_eq!(o.step.phase(), Phase::ShuttingDown);
    assert_eq!(o.exit_code, 1);
    assert_eq!(o.step(Input::ListenerBound), Action::Exit { code: 1 });
    assert_eq!(o.step(Input::BackoffElapsed), Action::Exit { code: 1 });
    assert_eq!(o.step, Step::Done);
}

#[test]
fn config_is_looked_at_every_check_interval() {
    assert_eq!(CONFIG_CHECK_INTERVAL, 5000);
    let mut o = serving(9993);
    let a = o.step(Input::Woke { cause: Wake::TimerElapsed, started: 4_749, now: 4_999 });
    assert_eq!(a, Action::RunBackgroundTasks { now: 4_999 });
    assert_eq!(o.step(Input::Ticked { delay: 100 }), Action::Wait { delay: 100 });
    let a = o.step(Input::Woke { cause: Wake::TimerElapsed, started: 4_999, now: 5_000 });
    assert_eq!(a, Action::ReloadConfig);
    assert_eq!(o.last_checked_config, 5_000);
    assert_eq!(o.step(Input::ConfigLoaded { config: None }), Action::Reconcile {
        log_size_max: None,
        log_to_stderr: None
    });
    assert_eq!(o.step(Input::Reconciled { health: HEALTHY }), Action::RunBackgroundTasks {
        now: 5_000
    });
    assert_eq!(o.step(Input::Ticked { delay: 250 }), Action::Wait { delay: 250 });
    let a = o.step(Input::Woke { cause: Wake::Interrupted, started: 5_000, now: 9_999 });
    assert_eq!(a, Action::RunBackgroundTasks { now: 9_999 });
    o.step(Input::Ticked { delay: 1 });
    let a = o.step(Input::Woke { cause: Wake::Interrupted, started: 9_999, now: 10_000 });
    assert_eq!(a, Action::ReloadConfig);
}

#[test]
fn change_of_log_size_alone_keeps_serving() {
    let mut o = reloading(9993);
    let a = o.step(Input::ConfigLoaded { config: Some(config(9993, 2000, false, false)) });
    assert_eq!(a, Action::Reconcile { log_size_max: Some(2000), log_to_stderr: None });
    assert_eq!(o.step.phase(), Phase::Serving);
    assert_eq!(o.applied.log_size_max, 2000);
    assert_eq!(o.config, config(9993, 2000, false, false));
    assert_eq!(o.step(Input::Reconciled { health: HEALTHY }), Action::RunBackgroundTasks {
        now: 10_000
    });
    assert_eq!(o.step.phase(), Phase::Serving);
}

#[test]
fn change_of_log_destination_is_applied_in_place() {
    let mut o = reloading(9993);
    let a = o.step(Input::ConfigLoaded { config: Some(config(9993, 1000, true, false)) });
    assert_eq!(a, Action::Reconcile { log_size_max: None, log_to_stderr: Some(true) });
    assert_eq!(o.step.phase(), Phase::Serving);
    assert!(o.applied.log_to_stderr);
}

#[test]
fn change_of_primary_port_restarts_exactly_once() {
    let mut o = reloading(9993);
    let a = o.step(Input::ConfigLoaded { config: Some(config(9994, 1000, false, false)) });
    assert_eq!(a, Action::StopListener);
    assert_eq!(o.step.phase(), Phase::Restarting);
    assert_eq!(o.applied.primary_port, 9993);
    assert_eq!(o.step(Input::ListenerStopped), Action::Backoff { delay: RESTART_BACKOFF });
    assert_eq!(RESTART_BACKOFF, 1000);
    assert_eq!(o.step.phase(), Phase::Restarting);
    assert_eq!(o.step(Input::BackoffElapsed), Action::BindListener { port: 9994 });
    assert_eq!(o.step.phase(), Phase::Starting);
    assert_eq!(o.applied.primary_port, 9994);
    assert_eq!(o.step(Input::ListenerBound), Action::Wait { delay: 250 });
    assert_eq!(o.step.phase(), Phase::Serving);
    let a = o.step(Input::Woke { cause: Wake::TimerElapsed, started: 11_000, now: 11_250 });
    assert_eq!(a, Action::ReloadConfig);
    let a = o.step(Input::ConfigLoaded { config: Some(config(9994, 1000, false, false)) });
    assert_eq!(a, Action::Reconcile { log_size_max: None, log_to_stderr: None });
    assert_eq!(o.step.phase(), Phase::Serving);
}

#[test]
fn failed_reload_keeps_the_configuration() {
    let mut o = reloading(9993);
    let before = o.config.clone();
    let a = o.step(Input::ConfigLoaded { config: None });
    assert_eq!(a, Action::Reconcile { log_size_max: None, log_to_stderr: None });
    assert_eq!(o.config, before);
    assert_eq!(o.step, Step::Reconciling);
}

#[test]
fn primary_port_failure_without_port_search_restarts() {
    let mut o = reloading(9993);
    o.step(Input::ConfigLoaded { config: None });
    let health = PortHealth { primary_port_bind_failure: true, secondary_port_bind_failure: false };
    assert_eq!(o.step(Input::Reconciled { health }), Action::StopListener);
    assert_eq!(o.step.phase(), Phase::Restarting);
    assert_eq!(o.step(Input::ListenerStopped), Action::Backoff { delay: 1000 });
    assert_eq!(o.step(Input::BackoffElapsed), Action::BindListener { port: 9993 });
}

#[test]
fn primary_port_failure_with_port_search_keeps_serving() {
    let mut o = reloading(9993);
    o.step(Input::ConfigLoaded { config: Some(config(9993, 1000, false, true)) });
    let health = PortHealth { primary_port_bind_failure: true, secondary_port_bind_failure: true };
    assert_eq!(o.step(Input::Reconciled { health }), Action::RunBackgroundTasks { now: 10_000 });
    assert_eq!(o.step.phase(), Phase::Serving);
}

#[test]
fn secondary_port_failure_keeps_serving() {
    let mut o = reloading(9993);
    o.step(Input::ConfigLoaded { config: None });
    let health = PortHealth { primary_port_bind_failure: false, secondary_port_bind_failure: true };
    assert_eq!(o.step(Input::Reconciled { health }), Action::RunBackgroundTasks { now: 10_000 });
    assert_eq!(o.step.phase(), Phase::Serving);
}

#[test]
fn termination_clears_the_run_flag_and_shuts_down() {
    let mut o = serving(9993);
    let a = o.step(Input::Woke { cause: Wake::Terminated, started: 0, now: 100_000 });
    assert_eq!(a, Action::StopListener);
    assert!(!o.run);
    assert_eq!(o.step.phase(), Phase::Restarting);
    assert_eq!(o.step(Input::ListenerStopped), Action::Exit { code: 0 });
    assert_eq!(o.step.phase(), Phase::ShuttingDown);
    assert_eq!(o.step(Input::ListenerBound), Action::Exit { code: 0 });
}

#[test]
fn node_going_down_stops_the_service_at_the_next_round() {
    let mut o = serving(9993);
    assert!(!o.node_event(Event::Down, &[]));
    assert!(!o.run);
    assert_eq!(o.step, Step::Waiting);
    let a = o.step(Input::Woke { cause: Wake::TimerElapsed, started: 0, now: 250 });
    assert_eq!(a, Action::StopListener);
    assert_eq!(o.step(Input::ListenerStopped), Action::Exit { code: 0 });
}

#[test]
fn run_flag_cleared_during_backoff_ends_the_loop() {
    let mut o = reloading(9993);
    o.step(Input::ConfigLoaded { config: Some(config(1, 1000, false, false)) });
    assert_eq!(o.step(Input::ListenerStopped), Action::Backoff { delay: 1000 });
    o.node_event(Event::Down, &[]);
    assert_eq!(o.step(Input::BackoffElapsed), Action::Exit { code: 0 });
    assert_eq!(o.step, Step::Done);
}

#[test]
fn engine_events_set_the_flags() {
    let mut o = serving(9993);
    assert!(!o.node_event(Event::Up, &[]));
    assert!(o.run && !o.online);
    assert!(!o.node_event(Event::Online, &[]));
    assert!(o.online);
    assert!(!o.node_event(Event::Offline, &[]));
    assert!(!o.online);
    assert!(!o.node_event(Event::UserMessage, &[1, 2]));
    assert!(!o.node_event(Event::Trace, &[]));
    assert!(o.node_event(Event::Trace, &[1]));
    assert!(o.run && !o.online);
    assert_eq!(o.step, Step::Waiting);
}

#[test]
fn long_wait_is_taken_for_a_sleep_of_the_machine() {
    let mut o = serving(9993);
    o.step(Input::Woke { cause: Wake::TimerElapsed, started: 0, now: 1_000 });
    assert!(!o.resume_suspected);
    o.step(Input::Ticked { delay: 250 });
    o.step(Input::Woke { cause: Wake::TimerElapsed, started: 1_000, now: 2_001 });
    assert!(o.resume_suspected);
    o.step(Input::Ticked { delay: 10 });
    o.step(Input::Woke { cause: Wake::TimerElapsed, started: 2_001, now: 2_041 });
    assert!(!o.resume_suspected);
    o.step(Input::Ticked { delay: 10 });
    o.step(Input::Woke { cause: Wake::Interrupted, started: 2_041, now: 4_000 });
    assert!(!o.resume_suspected);
    o.step(Input::Ticked { delay: 10 });
    o.step(Input::Woke { cause: Wake::TimerElapsed, started: i64::MIN, now: i64::MAX });
    assert!(o.resume_suspected);
}

#[test]
fn unexpected_input_changes_nothing() {
    let mut o = serving(9993);
    let before = o.clone();
    assert_eq!(o.step(Input::Ticked { delay: 7 }), Action::Wait { delay: 250 });
    assert_eq!(o, before);
    assert_eq!(o.step(Input::ListenerFailed), Action::Wait { delay: 250 });
    assert_eq!(o.step(Input::ConfigLoaded { config: Some(config(1, 2, true, true)) }), Action::Wait {
        delay: 250
    });
    assert_eq!(o.step(Input::Reconciled { health: HEALTHY }), Action::Wait { delay: 250 });
    assert_eq!(o.step(Input::ListenerStopped), Action::Wait { delay: 250 });
    assert_eq!(o, before);
}

#[test]
fn background_tasks_set_the_next_wait() {
    let mut o = serving(9993);
    let a = o.step(Input::Woke { cause: Wake::Interrupted, started: 0, now: 17 });
    assert_eq!(a, Action::RunBackgroundTasks { now: 17 });
    assert_eq!(o.step, Step::Ticking);
    assert_eq!(o.step(Input::Ticked { delay: 42 }), Action::Wait { delay: 42 });
    assert_eq!(o.loop_delay, 42);
    assert_eq!(o.step, Step::Waiting);
}
