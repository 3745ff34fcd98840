use signal_bridge::bridge::Bridge;
use signal_bridge::bridge::BridgeError;
use signal_bridge::bridge::Target;
use signal_bridge::signal::Continue;
use signal_bridge::timer::idle_add;
use signal_bridge::timer::run_recurring;
use signal_bridge::timer::timeout_add;
use signal_bridge::timer::timeout_add_seconds;

const MAIN: u64 = 1;
const OTHER: u64 = 2;

#[test]
fn idle_add_registers_a_live_source() {
    let mut bridge = Bridge::new(MAIN);
    let id = idle_add(&mut bridge, MAIN).unwrap();
    assert_eq!(id, 0);
    assert_eq!(bridge.live_closures, 1);
    assert!(matches!(bridge.subs[0].target, Target::Idle));
}

#[test]
fn timeout_add_stores_the_interval_in_milliseconds() {
    let mut bridge = Bridge::new(MAIN);
    timeout_add(&mut bridge, MAIN, 250).unwrap();
    match bridge.subs[0].target {
        Target::Timer { interval_ms } => assert_eq!(interval_ms, 250),
        _ => panic!("expected a timer target"),
    }
}

#[test]
fn timeout_add_seconds_scales_to_milliseconds() {
    let mut bridge = Bridge::new(MAIN);
    timeout_add_seconds(&mut bridge, MAIN, 3).unwrap();
    match bridge.subs[0].target {
        Target::Timer { interval_ms } => assert_eq!(interval_ms, 3000),
        _ => panic!("expected a timer target"),
    }
    let mut big = Bridge::new(MAIN);
    timeout_add_seconds(&mut big, MAIN, u32::MAX).unwrap();
    match big.subs[0].target {
        Target::Timer { interval_ms } => assert_eq!(interval_ms, 4294967295000),
        _ => panic!("expected a timer target"),
    }
}

#[test]
fn scheduling_from_a_foreign_thread_registers_nothing() {
    let mut bridge = Bridge::new(MAIN);
    assert_eq!(idle_add(&mut bridge, OTHER), Err(BridgeError::WrongThreadError));
    assert_eq!(timeout_add(&mut bridge, OTHER, 10), Err(BridgeError::WrongThreadError));
    assert_eq!(
        timeout_add_seconds(&mut bridge, OTHER, 10),
        Err(BridgeError::WrongThreadError)
    );
    assert_eq!(bridge.subs.len(), 0);
    assert_eq!(bridge.live_closures, 0);
}

#[test]
fn a_source_that_stops_after_three_runs_is_fired_exactly_three_times() {
    let mut bridge = Bridge::new(MAIN);
    let id = timeout_add(&mut bridge, MAIN, 16).unwrap();
    let decisions = [true, true, false];
    let mut fired: u64 = 0;
    for d in decisions {
        assert!(bridge.subs[id as usize].live);
        bridge.fire_recurring(MAIN, id, Continue(d));
        fired += 1;
    }
    assert_eq!(fired, 3);
    assert_eq!(bridge.subs[id as usize].dispatches, 3);
    assert!(!bridge.subs[id as usize].live);
    assert_eq!(bridge.live_closures, 0);
}

#[test]
fn a_source_stays_armed_while_it_continues() {
    let mut bridge = Bridge::new(MAIN);
    let id = idle_add(&mut bridge, MAIN).unwrap();
    for _ in 0..5 {
        bridge.fire_recurring(MAIN, id, Continue(true));
    }
    assert_eq!(bridge.subs[id as usize].dispatches, 5);
    assert!(bridge.subs[id as usize].live);
    assert_eq!(bridge.live_closures, 1);
}

#[test]
fn the_event_loop_stops_with_the_handler_decision() {
    let mut bridge = Bridge::new(MAIN);
    let id = timeout_add(&mut bridge, MAIN, 16).unwrap();
    let fired = run_recurring(&mut bridge, MAIN, id, |k: u64| Continue(k < 2), 10);
    assert_eq!(fired, 3);
    assert_eq!(bridge.subs[id as usize].dispatches, 3);
    assert!(!bridge.subs[id as usize].live);
    assert_eq!(bridge.live_closures, 0);
}

#[test]
fn the_event_loop_stops_when_the_fuel_runs_out() {
    let mut bridge = Bridge::new(MAIN);
    let id = idle_add(&mut bridge, MAIN).unwrap();
    let fired = run_recurring(&mut bridge, MAIN, id, |_k: u64| Continue(true), 4);
    assert_eq!(fired, 4);
    assert_eq!(bridge.subs[id as usize].dispatches, 4);
    assert!(bridge.subs[id as usize].live);
}

#[test]
fn the_event_loop_never_fires_a_disarmed_source() {
    let mut bridge = Bridge::new(MAIN);
    let id = idle_add(&mut bridge, MAIN).unwrap();
    bridge.fire_recurring(MAIN, id, Continue(false));
    let fired = run_recurring(&mut bridge, MAIN, id, |_k: u64| Continue(true), 10);
    assert_eq!(fired, 0);
    assert_eq!(bridge.subs[id as usize].dispatches, 1);
}

#[test]
fn stopping_releases_the_closure_allocation() {
    let mut bridge = Bridge::new(MAIN);
    let a = idle_add(&mut bridge, MAIN).unwrap();
    let b = timeout_add(&mut bridge, MAIN, 5).unwrap();
    assert_eq!(bridge.live_closures, 2);
    bridge.fire_recurring(MAIN, a, Continue(false));
    assert_eq!(bridge.live_closures, 1);
    assert!(bridge.subs[b as usize].live);
}
