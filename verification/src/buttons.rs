//! What the Wio Terminal's buttons do in the LED sketches.

use vstd::prelude::*;

verus! {

/// The buttons of the Wio Terminal: the three top buttons and the
/// five-way switch.
#[derive(Clone, Copy, Debug, PartialEq, Eq, Structural)]
pub enum Button {
    TopLeft,
    TopMiddle,
    Left,
    Right,
    Down,
    Up,
    Click,
}

/// LED blink interval in milliseconds before any button is pressed.
pub const INITIAL_INTERVAL_MS: u16 = 200;

/// The blink interval, in milliseconds, that a button selects.
pub open spec fn interval_for(button: Button) -> u16 {
    match button {
        Button::TopLeft => 100,
        Button::TopMiddle => 200,
        Button::Left => 1000,
        Button::Right => 100,
        Button::Down => 200,
        Button::Up => 2000,
        Button::Click => 3000,
    }
}

/// The blink interval, in milliseconds, that `button` selects.
pub fn blink_interval(button: Button) -> (ms: u16)
    ensures
        ms == interval_for(button),
{
    match button {
        Button::TopLeft => 100,
        Button::TopMiddle => 200,
        Button::Left => 1000,
        Button::Right => 100,
        Button::Down => 200,
        Button::Up => 2000,
        Button::Click => 3000,
    }
}

/// The blink interval after one pass of the blink loop: the interval the
/// pressed button selects, or the current one when no press was queued.
pub fn next_interval(current: u16, press: Option<Button>) -> (ms: u16)
    ensures
        ms == match press {
            Some(b) => interval_for(b),
            None => current,
        },
{
    match press {
        Some(button) => blink_interval(button),
        None => current,
    }
}

/// Whether a press of `button` toggles the LED: only the top-left button does.
pub fn toggles_led(button: Button) -> (toggle: bool)
    ensures
        toggle == (button == Button::TopLeft),
{
    match button {
        Button::TopLeft => true,
        _ => false,
    }
}

/// The intervals a button can select.
pub open spec fn selectable_interval(ms: u16) -> bool {
    ms == 100 || ms == 200 || ms == 1000 || ms == 2000 || ms == 3000
}

/// The blink interval is always one of 100, 200, 1000, 2000 and 3000 ms:
/// it starts at one and every step keeps it at one.
pub proof fn lemma_interval_selectable(current: u16, press: Option<Button>)
    requires
        selectable_interval(current),
    ensures
        selectable_interval(INITIAL_INTERVAL_MS),
        selectable_interval(
            match press {
                Some(b) => interval_for(b),
                None => current,
            },
        ),
{
}

} // verus!
