use signal_bridge::dispatch::ClosureOutcome;
use signal_bridge::dispatch::DispatchOutcome;
use signal_bridge::dispatch::FatalReason;
use signal_bridge::dispatch::HandlerReply;
use signal_bridge::dispatch::RawReply;
use signal_bridge::dispatch::dispatch_payload;
use signal_bridge::dispatch::marshal_reply;
use signal_bridge::dispatch::settle;
use signal_bridge::enums::DirectionType;
use signal_bridge::enums::MovementStep;
use signal_bridge::payload::EventPayload;
use signal_bridge::payload::EventWindowState;
use signal_bridge::payload::MarshalError;
use signal_bridge::payload::RawEvent;
use signal_bridge::payload::WindowState;
use signal_bridge::payload::marshal;
use signal_bridge::signal::Continue;
use signal_bridge::signal::Inhibit;
use signal_bridge::signal::bool_of_gboolean;
use signal_bridge::signal::gboolean_of;

#[test]
fn gboolean_polarity() {
    assert_eq!(gboolean_of(true), 1);
    assert_eq!(gboolean_of(false), 0);
    assert!(bool_of_gboolean(1));
    assert!(bool_of_gboolean(-7));
    assert!(!bool_of_gboolean(0));
    assert_eq!(Inhibit(true).to_glib(), 1);
    assert_eq!(Inhibit(false).to_glib(), 0);
    assert_eq!(Continue(true).to_glib(), 1);
    assert_eq!(Continue(false).to_glib(), 0);
}

#[test]
fn no_args_marshal() {
    assert_eq!(marshal(RawEvent::NoArgs), Ok(EventPayload::NoArgs));
}

#[test]
fn enum_tag_marshals_to_direction() {
    assert_eq!(
        marshal(RawEvent::EnumTag(2)),
        Ok(EventPayload::Direction(DirectionType::Up))
    );
    assert_eq!(
        marshal(RawEvent::EnumTag(17)),
        Ok(EventPayload::Direction(DirectionType::__Unknown(17)))
    );
}

#[test]
fn truth_marshals_every_nonzero_to_true() {
    assert_eq!(marshal(RawEvent::Truth(0)), Ok(EventPayload::Flag(false)));
    assert_eq!(marshal(RawEvent::Truth(1)), Ok(EventPayload::Flag(true)));
    assert_eq!(marshal(RawEvent::Truth(-1)), Ok(EventPayload::Flag(true)));
}

#[test]
fn counters_marshal_unchanged() {
    assert_eq!(marshal(RawEvent::Int(-5)), Ok(EventPayload::Count(-5)));
}

#[test]
fn unsigned_values_widen() {
    assert_eq!(
        marshal(RawEvent::Uint(u32::MAX)),
        Ok(EventPayload::Accel(4294967295u64))
    );
}

#[test]
fn query_marshals_position_and_keyboard_flag() {
    assert_eq!(
        marshal(RawEvent::Query { x: 10, y: -3, keyboard: 2 }),
        Ok(EventPayload::Query { x: 10, y: -3, keyboard: true })
    );
}

#[test]
fn window_state_marshals_both_masks() {
    let expected = EventWindowState {
        changed_mask: WindowState(0b0101),
        new_window_state: WindowState(0b0001),
    };
    assert_eq!(
        marshal(RawEvent::State { changed_mask: 0b0101, new_window_state: 0b0001 }),
        Ok(EventPayload::State(expected))
    );
    assert_eq!(expected.get_changed_mask(), WindowState(0b0101));
    assert_eq!(expected.get_new_window_state(), WindowState(0b0001));
}

#[test]
fn move_cursor_marshals_step_count_and_extend() {
    assert_eq!(
        marshal(RawEvent::MoveCursor { step: 2, count: -1, extend: 0 }),
        Ok(EventPayload::MoveCursor { step: MovementStep::Words, count: -1, extend: false })
    );
}

#[test]
fn valid_text_marshals_to_its_bytes() {
    assert_eq!(
        marshal(RawEvent::Text(b"insert me".to_vec())),
        Ok(EventPayload::Text(b"insert me".to_vec()))
    );
}

#[test]
fn invalid_text_fails_the_whole_dispatch() {
    assert_eq!(
        marshal(RawEvent::Text(vec![0xc0, 0x80])),
        Err(MarshalError::InvalidText)
    );
    let out = dispatch_payload(RawEvent::Text(vec![0xff]), |_p| unreachable!());
    assert_eq!(out, DispatchOutcome::Terminate(FatalReason::InvalidText));
}

#[test]
fn replies_marshal_to_native_truth_values() {
    assert_eq!(marshal_reply(HandlerReply::Done), RawReply::NoValue);
    assert_eq!(
        marshal_reply(HandlerReply::Propagation(Inhibit(true))),
        RawReply::GBoolean(1)
    );
    assert_eq!(
        marshal_reply(HandlerReply::Rearm(Continue(false))),
        RawReply::GBoolean(0)
    );
    assert_eq!(marshal_reply(HandlerReply::Truth(true)), RawReply::GBoolean(1));
}

#[test]
fn a_returning_handler_completes_the_dispatch() {
    assert_eq!(
        settle(ClosureOutcome::Returned(HandlerReply::Propagation(Inhibit(true)))),
        DispatchOutcome::Completed(RawReply::GBoolean(1))
    );
}

#[test]
fn a_panicking_handler_terminates_the_process() {
    assert_eq!(
        settle(ClosureOutcome::Panicked),
        DispatchOutcome::Terminate(FatalReason::ClosurePanicked)
    );
}

#[test]
fn dispatch_hands_the_handler_the_marshalled_payload() {
    let out = dispatch_payload(RawEvent::EnumTag(3), |p| {
        assert_eq!(p, EventPayload::Direction(DirectionType::Down));
        HandlerReply::Propagation(Inhibit(false))
    });
    assert_eq!(out, DispatchOutcome::Completed(RawReply::GBoolean(0)));
}

#[test]
fn dispatch_round_trips_every_shape() {
    let cases: Vec<(RawEvent, EventPayload)> = vec![
        (RawEvent::NoArgs, EventPayload::NoArgs),
        (RawEvent::EnumTag(4), EventPayload::Direction(DirectionType::Left)),
        (RawEvent::Truth(3), EventPayload::Flag(true)),
        (RawEvent::Int(7), EventPayload::Count(7)),
        (RawEvent::Uint(9), EventPayload::Accel(9)),
        (
            RawEvent::Query { x: 1, y: 2, keyboard: 0 },
            EventPayload::Query { x: 1, y: 2, keyboard: false },
        ),
        (
            RawEvent::State { changed_mask: 8, new_window_state: 12 },
            EventPayload::State(EventWindowState {
                changed_mask: WindowState(8),
                new_window_state: WindowState(12),
            }),
        ),
        (
            RawEvent::MoveCursor { step: 7, count: 3, extend: 1 },
            EventPayload::MoveCursor { step: MovementStep::Pages, count: 3, extend: true },
        ),
        (RawEvent::Text(b"ok".to_vec()), EventPayload::Text(b"ok".to_vec())),
    ];
    for (raw, expected) in cases {
        let seen = expected.clone();
        let out = dispatch_payload(raw, move |p| {
            assert_eq!(p, seen);
            HandlerReply::Done
        });
        assert_eq!(out, DispatchOutcome::Completed(RawReply::NoValue));
    }
}
