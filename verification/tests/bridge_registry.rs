use signal_bridge::bridge::Bridge;
use signal_bridge::bridge::BridgeError;
use signal_bridge::bridge::NativeHandle;
use signal_bridge::bridge::Ownership;
use signal_bridge::bridge::SignalDesc;
use signal_bridge::dispatch::DispatchOutcome;
use signal_bridge::dispatch::HandlerReply;
use signal_bridge::dispatch::RawReply;
use signal_bridge::dispatch::ReturnShape;
use signal_bridge::payload::EventPayload;
use signal_bridge::payload::PayloadShape;
use signal_bridge::payload::RawEvent;
use signal_bridge::signal::Inhibit;

const MAIN: u64 = 1;
const OTHER: u64 = 2;

fn button_signals() -> Vec<SignalDesc> {
    vec![
        SignalDesc {
            name: String::from("clicked"),
            shape: PayloadShape::NoArgs,
            ret: ReturnShape::NoValue,
        },
        SignalDesc {
            name: String::from("button-press-event"),
            shape: PayloadShape::State,
            ret: ReturnShape::Propagation,
        },
    ]
}

#[test]
fn connect_returns_fresh_identifiers() {
    let mut bridge = Bridge::new(MAIN);
    let handle = bridge.register_object(7, button_signals());
    let a = bridge.connect(MAIN, &handle, &String::from("clicked"));
    let b = bridge.connect(MAIN, &handle, &String::from("button-press-event"));
    assert_eq!(a, Ok(0));
    assert_eq!(b, Ok(1));
    assert_eq!(bridge.live_closures, 2);
}

#[test]
fn connect_from_foreign_thread_registers_nothing() {
    let mut bridge = Bridge::new(MAIN);
    let handle = bridge.register_object(7, button_signals());
    let r = bridge.connect(OTHER, &handle, &String::from("clicked"));
    assert_eq!(r, Err(BridgeError::WrongThreadError));
    assert_eq!(bridge.live_closures, 0);
    assert_eq!(bridge.subs.len(), 0);
    assert_eq!(bridge.next_sub, 0);
}

#[test]
fn connect_unknown_signal_is_a_binding_error() {
    let mut bridge = Bridge::new(MAIN);
    let handle = bridge.register_object(7, button_signals());
    let r = bridge.connect(MAIN, &handle, &String::from("resize"));
    assert_eq!(r, Err(BridgeError::BindingError));
    assert_eq!(bridge.live_closures, 0);
}

#[test]
fn connect_unknown_object_is_a_binding_error() {
    let mut bridge = Bridge::new(MAIN);
    let handle = bridge.register_object(7, button_signals());
    bridge.object_unref(&handle);
    let r = bridge.connect(MAIN, &handle, &String::from("clicked"));
    assert_eq!(r, Err(BridgeError::BindingError));
    assert_eq!(bridge.live_closures, 0);
}

#[test]
fn connect_then_disconnect_leaves_no_allocation() {
    let mut bridge = Bridge::new(MAIN);
    let handle = bridge.register_object(7, button_signals());
    let id = bridge.connect(MAIN, &handle, &String::from("clicked")).unwrap();
    assert_eq!(bridge.live_closures, 1);
    bridge.disconnect(id);
    assert_eq!(bridge.live_closures, 0);
    assert!(!bridge.subs[0].live);
}

#[test]
fn double_disconnect_is_a_no_op() {
    let mut bridge = Bridge::new(MAIN);
    let handle = bridge.register_object(7, button_signals());
    let id = bridge.connect(MAIN, &handle, &String::from("clicked")).unwrap();
    bridge.disconnect(id);
    assert_eq!(bridge.live_closures, 0);
    bridge.disconnect(id);
    assert_eq!(bridge.live_closures, 0);
    assert_eq!(bridge.subs.len(), 1);
    assert!(!bridge.subs[0].live);
}

#[test]
fn disconnecting_an_unknown_identifier_is_a_no_op() {
    let mut bridge = Bridge::new(MAIN);
    let handle = bridge.register_object(7, button_signals());
    bridge.connect(MAIN, &handle, &String::from("clicked")).unwrap();
    bridge.disconnect(99);
    assert_eq!(bridge.live_closures, 1);
}

#[test]
fn destroying_an_object_releases_its_closures_once() {
    let mut bridge = Bridge::new(MAIN);
    let handle = bridge.register_object(7, button_signals());
    let other = bridge.register_object(8, button_signals());
    let a = bridge.connect(MAIN, &handle, &String::from("clicked")).unwrap();
    let b = bridge.connect(MAIN, &handle, &String::from("button-press-event")).unwrap();
    let c = bridge.connect(MAIN, &other, &String::from("clicked")).unwrap();
    assert_eq!(bridge.live_closures, 3);
    bridge.object_ref(&handle);
    bridge.object_unref(&handle);
    assert_eq!(bridge.live_closures, 3);
    bridge.object_unref(&handle);
    assert_eq!(bridge.live_closures, 1);
    assert!(!bridge.subs[a as usize].live);
    assert!(!bridge.subs[b as usize].live);
    assert!(bridge.subs[c as usize].live);
    bridge.disconnect(a);
    assert_eq!(bridge.live_closures, 1);
}

#[test]
fn capability_queries_follow_the_signal_table() {
    let mut bridge = Bridge::new(MAIN);
    let handle = bridge.register_object(7, button_signals());
    assert!(bridge.supports_signal(&handle, &String::from("clicked")));
    assert!(bridge.supports_signal(&handle, &String::from("button-press-event")));
    assert!(!bridge.supports_signal(&handle, &String::from("resize")));
    bridge.object_unref(&handle);
    assert!(!bridge.supports_signal(&handle, &String::from("clicked")));
}

#[test]
fn handler_liveness_is_observable() {
    let mut bridge = Bridge::new(MAIN);
    let handle = bridge.register_object(7, button_signals());
    let id = bridge.connect(MAIN, &handle, &String::from("clicked")).unwrap();
    assert!(bridge.handler_is_connected(id));
    assert!(!bridge.handler_is_connected(99));
    bridge.disconnect(id);
    assert!(!bridge.handler_is_connected(id));
}

#[test]
fn releasing_a_handle_follows_its_ownership_tag() {
    let mut bridge = Bridge::new(MAIN);
    let handle = bridge.register_object(7, button_signals());
    let id = bridge.connect(MAIN, &handle, &String::from("clicked")).unwrap();
    let borrowed = NativeHandle { id: handle.id, ownership: Ownership::Borrowed };
    bridge.release(&borrowed);
    assert!(bridge.handler_is_connected(id));
    bridge.release(&handle);
    assert!(!bridge.handler_is_connected(id));
    assert_eq!(bridge.live_closures, 0);
}

#[test]
fn dispatch_reaches_the_connected_handler_and_counts() {
    let mut bridge = Bridge::new(MAIN);
    let handle = bridge.register_object(7, button_signals());
    let id = bridge.connect(MAIN, &handle, &String::from("clicked")).unwrap();
    let out = bridge.dispatch(MAIN, id, RawEvent::NoArgs, |p: EventPayload| {
        assert_eq!(p, EventPayload::NoArgs);
        HandlerReply::Done
    });
    assert_eq!(out, DispatchOutcome::Completed(RawReply::NoValue));
    assert_eq!(bridge.subs[id as usize].dispatches, 1);

    let id2 = bridge.connect(MAIN, &handle, &String::from("button-press-event")).unwrap();
    let out2 = bridge.dispatch(
        MAIN,
        id2,
        RawEvent::State { changed_mask: 4, new_window_state: 4 },
        |_p: EventPayload| HandlerReply::Propagation(Inhibit(true)),
    );
    assert_eq!(out2, DispatchOutcome::Completed(RawReply::GBoolean(1)));
    assert_eq!(bridge.subs[id2 as usize].dispatches, 1);
    assert_eq!(bridge.subs[id as usize].dispatches, 1);
}
