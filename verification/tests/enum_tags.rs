use signal_bridge::enums::DirectionType;
use signal_bridge::enums::IconSize;
use signal_bridge::enums::MovementStep;
use signal_bridge::enums::ResponseType;
use signal_bridge::enums::direction_from_i32;
use signal_bridge::enums::direction_to_i32;
use signal_bridge::enums::movement_step_from_i32;
use signal_bridge::enums::movement_step_to_i32;

#[test]
fn unscaled_is_the_invalid_tag() {
    assert_eq!(IconSize::unscaled(), IconSize::__Unknown(-1));
    assert_eq!(i32::from(IconSize::unscaled()), -1);
}

#[test]
fn icon_size_tags_are_exact() {
    assert_eq!(i32::from(IconSize::Invalid), 0);
    assert_eq!(i32::from(IconSize::Menu), 1);
    assert_eq!(i32::from(IconSize::SmallToolbar), 2);
    assert_eq!(i32::from(IconSize::LargeToolbar), 3);
    assert_eq!(i32::from(IconSize::Button), 4);
    assert_eq!(i32::from(IconSize::Dnd), 5);
    assert_eq!(i32::from(IconSize::Dialog), 6);
}

#[test]
fn icon_size_round_trips_through_its_tag() {
    let all = vec![
        IconSize::Invalid,
        IconSize::Menu,
        IconSize::SmallToolbar,
        IconSize::LargeToolbar,
        IconSize::Button,
        IconSize::Dnd,
        IconSize::Dialog,
    ];
    for v in all {
        assert_eq!(IconSize::from(i32::from(v)), v);
    }
}

#[test]
fn unknown_icon_size_tag_is_preserved() {
    assert_eq!(IconSize::from(42), IconSize::__Unknown(42));
    assert_eq!(i32::from(IconSize::__Unknown(42)), 42);
}

#[test]
fn response_type_tags_are_exact() {
    assert_eq!(i32::from(ResponseType::NoneResponse), -1);
    assert_eq!(i32::from(ResponseType::Reject), -2);
    assert_eq!(i32::from(ResponseType::Accept), -3);
    assert_eq!(i32::from(ResponseType::DeleteEvent), -4);
    assert_eq!(i32::from(ResponseType::OkResponse), -5);
    assert_eq!(i32::from(ResponseType::Cancel), -6);
    assert_eq!(i32::from(ResponseType::Close), -7);
    assert_eq!(i32::from(ResponseType::Yes), -8);
    assert_eq!(i32::from(ResponseType::No), -9);
    assert_eq!(i32::from(ResponseType::Apply), -10);
    assert_eq!(i32::from(ResponseType::Help), -11);
}

#[test]
fn response_type_round_trips_through_its_tag() {
    for tag in -11..=-1 {
        assert_eq!(i32::from(ResponseType::from(tag)), tag);
    }
    assert_eq!(ResponseType::from(7), ResponseType::__Unknown(7));
}

#[test]
fn direction_tags_are_exact() {
    assert_eq!(direction_to_i32(DirectionType::TabForward), 0);
    assert_eq!(direction_to_i32(DirectionType::TabBackward), 1);
    assert_eq!(direction_to_i32(DirectionType::Up), 2);
    assert_eq!(direction_to_i32(DirectionType::Down), 3);
    assert_eq!(direction_to_i32(DirectionType::Left), 4);
    assert_eq!(direction_to_i32(DirectionType::Right), 5);
    assert_eq!(direction_from_i32(5), DirectionType::Right);
    assert_eq!(direction_from_i32(99), DirectionType::__Unknown(99));
}

#[test]
fn movement_step_tags_are_exact() {
    assert_eq!(movement_step_to_i32(MovementStep::LogicalPositions), 0);
    assert_eq!(movement_step_to_i32(MovementStep::Pages), 7);
    assert_eq!(movement_step_to_i32(MovementStep::HorizontalPages), 9);
    for tag in 0..=9 {
        assert_eq!(movement_step_to_i32(movement_step_from_i32(tag)), tag);
    }
    assert_eq!(movement_step_from_i32(-3), MovementStep::__Unknown(-3));
}
