use vstd::prelude::*;

verus! {

/// The eight logical joystick buttons, in the fixed configuration order:
/// D-pad Up, Left, Down, Right, East, South, Start, Select. The n-th entry of
/// the configured pin list drives the n-th button of this order.
#[derive(Clone, Copy, Debug, PartialEq, Eq, Structural)]
pub enum Button {
    DpadUp,
    DpadLeft,
    DpadDown,
    DpadRight,
    East,
    South,
    Start,
    Select,
}

/// How many buttons the joystick advertises, and how many pins a
/// configuration must name.
pub const BUTTON_COUNT: usize = 8;

/// The button at position `i` of the fixed configuration order.
pub open spec fn spec_button_at(i: int) -> Button {
    if i == 0 {
        Button::DpadUp
    } else if i == 1 {
        Button::DpadLeft
    } else if i == 2 {
        Button::DpadDown
    } else if i == 3 {
        Button::DpadRight
    } else if i == 4 {
        Button::East
    } else if i == 5 {
        Button::South
    } else if i == 6 {
        Button::Start
    } else {
        Button::Select
    }
}

impl Button {
    /// The key code under which this button appears in emitted events: the
    /// standard input-subsystem codes BTN_DPAD_UP, BTN_DPAD_LEFT,
    /// BTN_DPAD_DOWN, BTN_DPAD_RIGHT, BTN_EAST, BTN_SOUTH, BTN_START and
    /// BTN_SELECT.
    pub open spec fn spec_code(self) -> u16 {
        match self {
            Button::DpadUp => 0x220,
            Button::DpadLeft => 0x222,
            Button::DpadDown => 0x221,
            Button::DpadRight => 0x223,
            Button::East => 0x131,
            Button::South => 0x130,
            Button::Start => 0x13b,
            Button::Select => 0x13a,
        }
    }

    /// The key code of this button.
    #[verifier::when_used_as_spec(spec_code)]
    pub fn code(self) -> (c: u16)
        ensures
            c == self.spec_code(),
    {
        match self {
            Button::DpadUp => 0x220,
            Button::DpadLeft => 0x222,
            Button::DpadDown => 0x221,
            Button::DpadRight => 0x223,
            Button::East => 0x131,
            Button::South => 0x130,
            Button::Start => 0x13b,
            Button::Select => 0x13a,
        }
    }

    /// The button at position `index` of the fixed configuration order.
    pub fn at(index: usize) -> (b: Button)
        requires
            index < BUTTON_COUNT,
        ensures
            b == spec_button_at(index as int),
    {
        if index == 0 {
            Button::DpadUp
        } else if index == 1 {
            Button::DpadLeft
        } else if index == 2 {
            Button::DpadDown
        } else if index == 3 {
            Button::DpadRight
        } else if index == 4 {
            Button::East
        } else if index == 5 {
            Button::South
        } else if index == 6 {
            Button::Start
        } else {
            Button::Select
        }
    }
}

/// The electrical level a pin reports on an edge notification. With pull-up
/// biasing an idle (open) switch reads `High`; a closed switch to ground
/// reads `Low`, so `Low` means pressed.
#[derive(Clone, Copy, Debug, PartialEq, Eq, Structural)]
pub enum Level {
    Low,
    High,
}

/// One key-state change as handed to the operating system's input stack: a
/// key-type event carrying the key code and a value of 1 (pressed) or 0
/// (released).
#[derive(Clone, Copy, Debug, PartialEq, Eq, Structural)]
pub struct KeyEvent {
    pub code: u16,
    pub value: i32,
}

/// The event the translator emits for an edge on the button at `index`:
/// a transition to logical-low is a press, to logical-high a release
/// (active-low convention), and the event carries exactly that button's code.
pub open spec fn spec_translate(index: int, level: Level) -> KeyEvent {
    KeyEvent {
        code: spec_button_at(index).spec_code(),
        value: if level is Low {
            1
        } else {
            0
        },
    }
}

/// The event translator at the heart of each interrupt callback: map the new
/// electrical level of the pin bound to button `index` to the one key event
/// to emit. No other button's code ever appears in the result.
pub fn translate(index: usize, level: Level) -> (ev: KeyEvent)
    requires
        index < BUTTON_COUNT,
    ensures
        ev == spec_translate(index as int, level),
        ev.code == spec_button_at(index as int).spec_code(),
        ev.value == 1 <==> level is Low,
        ev.value == 0 <==> level is High,
{
    let value: i32 = match level {
        Level::Low => 1,
        Level::High => 0,
    };
    KeyEvent { code: Button::at(index).code(), value }
}

/// Index isolation: a transition to logical-low translates to exactly one
/// press of the callback's own button, a transition to logical-high to
/// exactly one release, and since no two buttons share a key code the event
/// can never touch any other button's key.
pub proof fn lemma_translate_index_isolation(index: int, level: Level)
    requires
        0 <= index < 8,
    ensures
        spec_translate(index, level).code == spec_button_at(index).spec_code(),
        spec_translate(index, level).value == 1 <==> level is Low,
        spec_translate(index, level).value == 0 <==> level is High,
        forall|other: int|
            0 <= other < 8 && other != index ==> spec_translate(index, level).code
                != spec_button_at(other).spec_code(),
{
}

} // verus!
