//! The controller's buttons, read from the pad words that the host samples
//! once per frame.

use vstd::prelude::*;

verus! {

/// A button of the controller, or a named group of buttons.
#[derive(Copy, Clone, Debug, PartialEq, Eq, Structural)]
pub enum Button {
    A,
    B,
    X,
    Y,
    R,
    L,
    ZR,
    ZL,
    SR,
    SL,
    Select,
    Start,
    Right,
    Left,
    Up,
    Down,
    All,
    AutoWalkCancel,
    Dir,
    UpR,
    DownR,
    ShortcutRight,
    ShortcutLeft,
    ShortcutUp,
    ShortcutDown,
}

impl Button {
    /// The bits that the button occupies in a pad word.
    pub open spec fn spec_mask(self) -> u32 {
        match self {
            Button::A => 1,
            Button::B => 2,
            Button::X => 1024,
            Button::Y => 2028,
            Button::R => 256,
            Button::L => 512,
            Button::ZR => 4096,
            Button::ZL => 8192,
            Button::SR => 16384,
            Button::SL => 32768,
            Button::Select => 4,
            Button::Start => 8,
            Button::Right => 16,
            Button::Left => 32,
            Button::Up => 64,
            Button::Down => 128,
            Button::All => 65535,
            Button::AutoWalkCancel => 53247,
            Button::Dir => 240,
            Button::UpR => 262144,
            Button::DownR => 524288,
            Button::ShortcutRight => 1048576,
            Button::ShortcutLeft => 2097152,
            Button::ShortcutUp => 4194304,
            Button::ShortcutDown => 8388608,
        }
    }

    /// The bits that the button occupies in a pad word.
    #[verifier::when_used_as_spec(spec_mask)]
    pub fn mask(self) -> (r: u32)
        ensures
            r == self.spec_mask(),
    {
        match self {
            Button::A => 1,
            Button::B => 2,
            Button::X => 1024,
            Button::Y => 2028,
            Button::R => 256,
            Button::L => 512,
            Button::ZR => 4096,
            Button::ZL => 8192,
            Button::SR => 16384,
            Button::SL => 32768,
            Button::Select => 4,
            Button::Start => 8,
            Button::Right => 16,
            Button::Left => 32,
            Button::Up => 64,
            Button::Down => 128,
            Button::All => 65535,
            Button::AutoWalkCancel => 53247,
            Button::Dir => 240,
            Button::UpR => 262144,
            Button::DownR => 524288,
            Button::ShortcutRight => 1048576,
            Button::ShortcutLeft => 2097152,
            Button::ShortcutUp => 4194304,
            Button::ShortcutDown => 8388608,
        }
    }
}

/// The four pad words of one frame: the buttons that went down in it, those
/// that came up, those that are held, and those whose auto-repeat fired.
#[derive(Copy, Clone, Debug, PartialEq, Eq, Structural)]
pub struct PadState {
    pub down: u32,
    pub up: u32,
    pub held: u32,
    pub repeat: u32,
}

/// Whether a pad word has any bit of `button` set.
pub open spec fn pressed(word: u32, button: Button) -> bool {
    word & button.spec_mask() != 0
}

/// Whether `button` went down in this frame.
pub fn get_button_down(pad: &PadState, button: Button) -> (r: bool)
    ensures
        r == pressed(pad.down, button),
{
    pad.down & button.mask() != 0
}

/// Whether `button` came up in this frame.
pub fn get_button_up(pad: &PadState, button: Button) -> (r: bool)
    ensures
        r == pressed(pad.up, button),
{
    pad.up & button.mask() != 0
}

/// Whether `button` is held.
pub fn get_button(pad: &PadState, button: Button) -> (r: bool)
    ensures
        r == pressed(pad.held, button),
{
    pad.held & button.mask() != 0
}

/// Whether the auto-repeat of `button` fired in this frame.
pub fn get_button_repeat(pad: &PadState, button: Button) -> (r: bool)
    ensures
        r == pressed(pad.repeat, button),
{
    pad.repeat & button.mask() != 0
}

} // verus!
