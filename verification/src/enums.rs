//! Mapping between native integer enum tags and typed variants.
//!
//! The native toolkit passes enum arguments as plain C integers. Each enum
//! here carries a `__Unknown` variant so that reading a tag is total:
//! a tag outside the known range is preserved rather than mangled, and
//! writing a variant back to its tag and reading it again restores the variant.

use vstd::prelude::*;

verus! {

/// Size class of a stock icon.
#[derive(Clone, Copy, Debug, Eq, PartialEq, Structural)]
pub enum IconSize {
    Invalid,
    Menu,
    SmallToolbar,
    LargeToolbar,
    Button,
    Dnd,
    Dialog,
    __Unknown(i32),
}

/// Predefined reply codes a dialog hands to its response handlers.
#[derive(Clone, Copy, Debug, Eq, PartialEq, Structural)]
pub enum ResponseType {
    NoneResponse,
    Reject,
    Accept,
    DeleteEvent,
    OkResponse,
    Cancel,
    Close,
    Yes,
    No,
    Apply,
    Help,
    __Unknown(i32),
}

/// Direction of a focus or keyboard-navigation move.
#[derive(Clone, Copy, Debug, Eq, PartialEq, Structural)]
pub enum DirectionType {
    TabForward,
    TabBackward,
    Up,
    Down,
    Left,
    Right,
    __Unknown(i32),
}

/// Granularity of a cursor movement.
#[derive(Clone, Copy, Debug, Eq, PartialEq, Structural)]
pub enum MovementStep {
    LogicalPositions,
    VisualPositions,
    Words,
    DisplayLines,
    DisplayLineEnds,
    Paragraphs,
    ParagraphEnds,
    Pages,
    BufferEnds,
    HorizontalPages,
    __Unknown(i32),
}

/// The native tag of an icon size.
pub open spec fn spec_icon_size_to_i32(v: IconSize) -> i32 {
    match v {
        IconSize::Invalid => 0,
        IconSize::Menu => 1,
        IconSize::SmallToolbar => 2,
        IconSize::LargeToolbar => 3,
        IconSize::Button => 4,
        IconSize::Dnd => 5,
        IconSize::Dialog => 6,
        IconSize::__Unknown(x) => x,
    }
}

/// The icon size a native tag stands for; an unassigned tag is kept as is.
pub open spec fn spec_icon_size_from_i32(v: i32) -> IconSize {
    if v == 0 {
        IconSize::Invalid
    } else if v == 1 {
        IconSize::Menu
    } else if v == 2 {
        IconSize::SmallToolbar
    } else if v == 3 {
        IconSize::LargeToolbar
    } else if v == 4 {
        IconSize::Button
    } else if v == 5 {
        IconSize::Dnd
    } else if v == 6 {
        IconSize::Dialog
    } else {
        IconSize::__Unknown(v)
    }
}

/// The native tag of a response code.
pub open spec fn spec_response_type_to_i32(v: ResponseType) -> i32 {
    match v {
        ResponseType::NoneResponse => -1i32,
        ResponseType::Reject => -2i32,
        ResponseType::Accept => -3i32,
        ResponseType::DeleteEvent => -4i32,
        ResponseType::OkResponse => -5i32,
        ResponseType::Cancel => -6i32,
        ResponseType::Close => -7i32,
        ResponseType::Yes => -8i32,
        ResponseType::No => -9i32,
        ResponseType::Apply => -10i32,
        ResponseType::Help => -11i32,
        ResponseType::__Unknown(x) => x,
    }
}

/// The response code a native tag stands for; an unassigned tag is kept as is.
pub open spec fn spec_response_type_from_i32(v: i32) -> ResponseType {
    if v == -1 {
        ResponseType::NoneResponse
    } else if v == -2 {
        ResponseType::Reject
    } else if v == -3 {
        ResponseType::Accept
    } else if v == -4 {
        ResponseType::DeleteEvent
    } else if v == -5 {
        ResponseType::OkResponse
    } else if v == -6 {
        ResponseType::Cancel
    } else if v == -7 {
        ResponseType::Close
    } else if v == -8 {
        ResponseType::Yes
    } else if v == -9 {
        ResponseType::No
    } else if v == -10 {
        ResponseType::Apply
    } else if v == -11 {
        ResponseType::Help
    } else {
        ResponseType::__Unknown(v)
    }
}

/// The native tag of a direction.
pub open spec fn spec_direction_to_i32(v: DirectionType) -> i32 {
    match v {
        DirectionType::TabForward => 0,
        DirectionType::TabBackward => 1,
        DirectionType::Up => 2,
        DirectionType::Down => 3,
        DirectionType::Left => 4,
        DirectionType::Right => 5,
        DirectionType::__Unknown(x) => x,
    }
}

/// The direction a native tag stands for; an unassigned tag is kept as is.
pub open spec fn spec_direction_from_i32(v: i32) -> DirectionType {
    if v == 0 {
        DirectionType::TabForward
    } else if v == 1 {
        DirectionType::TabBackward
    } else if v == 2 {
        DirectionType::Up
    } else if v == 3 {
        DirectionType::Down
    } else if v == 4 {
        DirectionType::Left
    } else if v == 5 {
        DirectionType::Right
    } else {
        DirectionType::__Unknown(v)
    }
}

/// The native tag of a movement step.
pub open spec fn spec_movement_step_to_i32(v: MovementStep) -> i32 {
    match v {
        MovementStep::LogicalPositions => 0,
        MovementStep::VisualPositions => 1,
        MovementStep::Words => 2,
        MovementStep::DisplayLines => 3,
        MovementStep::DisplayLineEnds => 4,
        MovementStep::Paragraphs => 5,
        MovementStep::ParagraphEnds => 6,
        MovementStep::Pages => 7,
        MovementStep::BufferEnds => 8,
        MovementStep::HorizontalPages => 9,
        MovementStep::__Unknown(x) => x,
    }
}

/// The movement step a native tag stands for; an unassigned tag is kept as is.
pub open spec fn spec_movement_step_from_i32(v: i32) -> MovementStep {
    if v == 0 {
        MovementStep::LogicalPositions
    } else if v == 1 {
        MovementStep::VisualPositions
    } else if v == 2 {
        MovementStep::Words
    } else if v == 3 {
        MovementStep::DisplayLines
    } else if v == 4 {
        MovementStep::DisplayLineEnds
    } else if v == 5 {
        MovementStep::Paragraphs
    } else if v == 6 {
        MovementStep::ParagraphEnds
    } else if v == 7 {
        MovementStep::Pages
    } else if v == 8 {
        MovementStep::BufferEnds
    } else if v == 9 {
        MovementStep::HorizontalPages
    } else {
        MovementStep::__Unknown(v)
    }
}

impl IconSize {
    /// The icon size that stands for "no fixed size": the invalid native tag.
    pub fn unscaled() -> (r: IconSize)
        ensures
            r == IconSize::__Unknown(-1i32),
    {
        IconSize::__Unknown(-1)
    }
}

impl From<IconSize> for i32 {
    fn from(val: IconSize) -> (r: i32)
        ensures
            r == spec_icon_size_to_i32(val),
    {
        match val {
            IconSize::Invalid => 0,
            IconSize::Menu => 1,
            IconSize::SmallToolbar => 2,
            IconSize::LargeToolbar => 3,
            IconSize::Button => 4,
            IconSize::Dnd => 5,
            IconSize::Dialog => 6,
            IconSize::__Unknown(x) => x,
        }
    }
}

impl vstd::std_specs::convert::FromSpecImpl<IconSize> for i32 {
    open spec fn obeys_from_spec() -> bool {
        true
    }

    open spec fn from_spec(v: IconSize) -> i32 {
        spec_icon_size_to_i32(v)
    }
}

impl From<i32> for IconSize {
    fn from(val: i32) -> (r: IconSize)
        ensures
            r == spec_icon_size_from_i32(val),
    {
        if val == 0 {
            IconSize::Invalid
        } else if val == 1 {
            IconSize::Menu
        } else if val == 2 {
            IconSize::SmallToolbar
        } else if val == 3 {
            IconSize::LargeToolbar
        } else if val == 4 {
            IconSize::Button
        } else if val == 5 {
            IconSize::Dnd
        } else if val == 6 {
            IconSize::Dialog
        } else {
            IconSize::__Unknown(val)
        }
    }
}

impl vstd::std_specs::convert::FromSpecImpl<i32> for IconSize {
    open spec fn obeys_from_spec() -> bool {
        true
    }

    open spec fn from_spec(v: i32) -> IconSize {
        spec_icon_size_from_i32(v)
    }
}

impl From<ResponseType> for i32 {
    fn from(val: ResponseType) -> (r: i32)
        ensures
            r == spec_response_type_to_i32(val),
    {
        match val {
            ResponseType::NoneResponse => -1,
            ResponseType::Reject => -2,
            ResponseType::Accept => -3,
            ResponseType::DeleteEvent => -4,
            ResponseType::OkResponse => -5,
            ResponseType::Cancel => -6,
            ResponseType::Close => -7,
            ResponseType::Yes => -8,
            ResponseType::No => -9,
            ResponseType::Apply => -10,
            ResponseType::Help => -11,
            ResponseType::__Unknown(x) => x,
        }
    }
}

impl vstd::std_specs::convert::FromSpecImpl<ResponseType> for i32 {
    open spec fn obeys_from_spec() -> bool {
        true
    }

    open spec fn from_spec(v: ResponseType) -> i32 {
        spec_response_type_to_i32(v)
    }
}

impl From<i32> for ResponseType {
    fn from(val: i32) -> (r: ResponseType)
        ensures
            r == spec_response_type_from_i32(val),
    {
        if val == -1 {
            ResponseType::NoneResponse
        } else if val == -2 {
            ResponseType::Reject
        } else if val == -3 {
            ResponseType::Accept
        } else if val == -4 {
            ResponseType::DeleteEvent
        } else if val == -5 {
            ResponseType::OkResponse
        } else if val == -6 {
            ResponseType::Cancel
        } else if val == -7 {
            ResponseType::Close
        } else if val == -8 {
            ResponseType::Yes
        } else if val == -9 {
            ResponseType::No
        } else if val == -10 {
            ResponseType::Apply
        } else if val == -11 {
            ResponseType::Help
        } else {
            ResponseType::__Unknown(val)
        }
    }
}

impl vstd::std_specs::convert::FromSpecImpl<i32> for ResponseType {
    open spec fn obeys_from_spec() -> bool {
        true
    }

    open spec fn from_spec(v: i32) -> ResponseType {
        spec_response_type_from_i32(v)
    }
}

/// Reads a native direction tag.
pub fn direction_from_i32(val: i32) -> (r: DirectionType)
    ensures
        r == spec_direction_from_i32(val),
{
    if val == 0 {
        DirectionType::TabForward
    } else if val == 1 {
        DirectionType::TabBackward
    } else if val == 2 {
        DirectionType::Up
    } else if val == 3 {
        DirectionType::Down
    } else if val == 4 {
        DirectionType::Left
    } else if val == 5 {
        DirectionType::Right
    } else {
        DirectionType::__Unknown(val)
    }
}

/// Writes a direction back as its native tag.
pub fn direction_to_i32(val: DirectionType) -> (r: i32)
    ensures
        r == spec_direction_to_i32(val),
{
    match val {
        DirectionType::TabForward => 0,
        DirectionType::TabBackward => 1,
        DirectionType::Up => 2,
        DirectionType::Down => 3,
        DirectionType::Left => 4,
        DirectionType::Right => 5,
        DirectionType::__Unknown(x) => x,
    }
}

/// Reads a native movement-step tag.
pub fn movement_step_from_i32(val: i32) -> (r: MovementStep)
    ensures
        r == spec_movement_step_from_i32(val),
{
    if val == 0 {
        MovementStep::LogicalPositions
    } else if val == 1 {
        MovementStep::VisualPositions
    } else if val == 2 {
        MovementStep::Words
    } else if val == 3 {
        MovementStep::DisplayLines
    } else if val == 4 {
        MovementStep::DisplayLineEnds
    } else if val == 5 {
        MovementStep::Paragraphs
    } else if val == 6 {
        MovementStep::ParagraphEnds
    } else if val == 7 {
        MovementStep::Pages
    } else if val == 8 {
        MovementStep::BufferEnds
    } else if val == 9 {
        MovementStep::HorizontalPages
    } else {
        MovementStep::__Unknown(val)
    }
}

/// Writes a movement step back as its native tag.
pub fn movement_step_to_i32(val: MovementStep) -> (r: i32)
    ensures
        r == spec_movement_step_to_i32(val),
{
    match val {
        MovementStep::LogicalPositions => 0,
        MovementStep::VisualPositions => 1,
        MovementStep::Words => 2,
        MovementStep::DisplayLines => 3,
        MovementStep::DisplayLineEnds => 4,
        MovementStep::Paragraphs => 5,
        MovementStep::ParagraphEnds => 6,
        MovementStep::Pages => 7,
        MovementStep::BufferEnds => 8,
        MovementStep::HorizontalPages => 9,
        MovementStep::__Unknown(x) => x,
    }
}

/// A named direction variant written to its tag and read back is restored.
pub proof fn lemma_direction_round_trip(v: DirectionType)
    requires
        !(v is __Unknown),
    ensures
        spec_direction_from_i32(spec_direction_to_i32(v)) == v,
{
}

/// A named movement-step variant written to its tag and read back is restored.
pub proof fn lemma_movement_step_round_trip(v: MovementStep)
    requires
        !(v is __Unknown),
    ensures
        spec_movement_step_from_i32(spec_movement_step_to_i32(v)) == v,
{
}

/// A named icon-size variant written to its tag and read back is restored.
pub proof fn lemma_icon_size_round_trip(v: IconSize)
    requires
        !(v is __Unknown),
    ensures
        spec_icon_size_from_i32(spec_icon_size_to_i32(v)) == v,
{
}

/// A named response variant written to its tag and read back is restored.
pub proof fn lemma_response_type_round_trip(v: ResponseType)
    requires
        !(v is __Unknown),
    ensures
        spec_response_type_from_i32(spec_response_type_to_i32(v)) == v,
{
}

} // verus!
