//! Button bitmask decoding and the active-highlight colour animation.

use vstd::prelude::*;

verus! {

/// Buttons of the console controller, as bits of the mask that the input
/// poller hands to `update` each frame.
#[derive(Clone, Copy, PartialEq, Eq, Structural)]
pub enum SceCtrlButtons {
    SceCtrlSelect,
    SceCtrlL3,
    SceCtrlR3,
    SceCtrlStart,
    SceCtrlUp,
    SceCtrlRight,
    SceCtrlDown,
    SceCtrlLeft,
    SceCtrlLtrigger,
    SceCtrlRtrigger,
    SceCtrlL1,
    SceCtrlR1,
    SceCtrlTriangle,
    SceCtrlCircle,
    SceCtrlCross,
    SceCtrlSquare,
    SceCtrlIntercepted,
    SceCtrlHeadphone,
    SceCtrlVolup,
    SceCtrlVoldown,
    SceCtrlPower,
}

impl SceCtrlButtons {
    /// The bit this button occupies in the controller bitmask.
    pub open spec fn mask_spec(self) -> u32 {
        match self {
            SceCtrlButtons::SceCtrlSelect => 0x00000001,
            SceCtrlButtons::SceCtrlL3 => 0x00000002,
            SceCtrlButtons::SceCtrlR3 => 0x00000004,
            SceCtrlButtons::SceCtrlStart => 0x00000008,
            SceCtrlButtons::SceCtrlUp => 0x00000010,
            SceCtrlButtons::SceCtrlRight => 0x00000020,
            SceCtrlButtons::SceCtrlDown => 0x00000040,
            SceCtrlButtons::SceCtrlLeft => 0x00000080,
            SceCtrlButtons::SceCtrlLtrigger => 0x00000100,
            SceCtrlButtons::SceCtrlRtrigger => 0x00000200,
            SceCtrlButtons::SceCtrlL1 => 0x00000400,
            SceCtrlButtons::SceCtrlR1 => 0x00000800,
            SceCtrlButtons::SceCtrlTriangle => 0x00001000,
            SceCtrlButtons::SceCtrlCircle => 0x00002000,
            SceCtrlButtons::SceCtrlCross => 0x00004000,
            SceCtrlButtons::SceCtrlSquare => 0x00008000,
            SceCtrlButtons::SceCtrlIntercepted => 0x00010000,
            SceCtrlButtons::SceCtrlHeadphone => 0x00080000,
            SceCtrlButtons::SceCtrlVolup => 0x00100000,
            SceCtrlButtons::SceCtrlVoldown => 0x00200000,
            SceCtrlButtons::SceCtrlPower => 0x40000000,
        }
    }

    /// The bit this button occupies in the controller bitmask.
    #[verifier::when_used_as_spec(mask_spec)]
    pub fn mask(self) -> (r: u32)
        ensures
            r == self.mask_spec(),
    {
        match self {
            SceCtrlButtons::SceCtrlSelect => 0x00000001,
            SceCtrlButtons::SceCtrlL3 => 0x00000002,
            SceCtrlButtons::SceCtrlR3 => 0x00000004,
            SceCtrlButtons::SceCtrlStart => 0x00000008,
            SceCtrlButtons::SceCtrlUp => 0x00000010,
            SceCtrlButtons::SceCtrlRight => 0x00000020,
            SceCtrlButtons::SceCtrlDown => 0x00000040,
            SceCtrlButtons::SceCtrlLeft => 0x00000080,
            SceCtrlButtons::SceCtrlLtrigger => 0x00000100,
            SceCtrlButtons::SceCtrlRtrigger => 0x00000200,
            SceCtrlButtons::SceCtrlL1 => 0x00000400,
            SceCtrlButtons::SceCtrlR1 => 0x00000800,
            SceCtrlButtons::SceCtrlTriangle => 0x00001000,
            SceCtrlButtons::SceCtrlCircle => 0x00002000,
            SceCtrlButtons::SceCtrlCross => 0x00004000,
            SceCtrlButtons::SceCtrlSquare => 0x00008000,
            SceCtrlButtons::SceCtrlIntercepted => 0x00010000,
            SceCtrlButtons::SceCtrlHeadphone => 0x00080000,
            SceCtrlButtons::SceCtrlVolup => 0x00100000,
            SceCtrlButtons::SceCtrlVoldown => 0x00200000,
            SceCtrlButtons::SceCtrlPower => 0x40000000,
        }
    }
}

/// Whether `button` is held in the bitmask `buttons`.
pub open spec fn is_button_spec(buttons: u32, button: SceCtrlButtons) -> bool {
    buttons & button.mask_spec() != 0
}

/// Whether `button` is held in the bitmask `buttons`.
#[verifier::when_used_as_spec(is_button_spec)]
pub fn is_button(buttons: u32, button: SceCtrlButtons) -> (r: bool)
    ensures
        r == is_button_spec(buttons, button),
{
    buttons & button.mask() > 0
}

/// An RGBA colour packed one byte per channel, red in the lowest byte.
pub open spec fn rgba_spec(r: i32, g: i32, b: i32, a: i32) -> u32 {
    (((r & 0xff) as u32) | (((g & 0xff) as u32) << 8) | (((b & 0xff) as u32) << 16) | (((a
        & 0xff) as u32) << 24)) as u32
}

/// The low byte of a channel value.
fn low_byte(x: i32) -> (r: u32)
    ensures
        r == (x & 0xff) as u32,
        r < 256,
{
    assert(x & 0xff >= 0 && x & 0xff < 256) by (bit_vector);
    (x & 0xff) as u32
}

/// Packs a colour one byte per channel, red in the lowest byte; channel
/// values outside 0..=255 keep only their low byte.
pub fn rgba(r: i32, g: i32, b: i32, a: i32) -> (c: u32)
    ensures
        c == rgba_spec(r, g, b, a),
{
    let rr: u32 = low_byte(r);
    let gg: u32 = low_byte(g);
    let bb: u32 = low_byte(b);
    let aa: u32 = low_byte(a);
    rr | (gg << 8u32) | (bb << 16u32) | (aa << 24u32)
}

/// Milliseconds since the Unix epoch.
///
/// Relies on `std::time::SystemTime::now` and
/// `SystemTime::duration_since(UNIX_EPOCH)`: the result depends on the clock,
/// so nothing is promised of the value.
#[verifier::external_body]
pub fn current_time() -> u128 {
    match std::time::SystemTime::now().duration_since(std::time::UNIX_EPOCH) {
        Ok(d) => d.as_millis(),
        Err(_) => 0,
    }
}

/// The highlight colour for phase `p` of the one-second pulse: red sinks
/// from 168 towards 0 and green from 254 towards 168 while `p` climbs to
/// 400, and both return while `p` runs on to 1000; blue stays at 255.
pub open spec fn active_color_channels_spec(p: int) -> (int, int, int) {
    if p < 400 {
        (168 - 168 * p / 400, 254 - 86 * p / 400, 255)
    } else {
        (168 - 168 * (1000 - p) / 600, 254 - 86 * (1000 - p) / 600, 255)
    }
}

/// The packed highlight colour for phase `p` of the one-second pulse.
pub fn active_color_for(p: i32) -> (c: u32)
    requires
        0 <= p < 1000,
    ensures
        ({
            let (r, g, b) = active_color_channels_spec(p as int);
            c == rgba_spec(r as i32, g as i32, b as i32, 0xff)
        }),
{
    let r: i32;
    let g: i32;
    let b: i32 = 255;
    if p < 400 {
        r = 168 - 168 * p / 400;
        g = 254 - 86 * p / 400;
    } else {
        r = 168 - 168 * (1000 - p) / 600;
        g = 254 - 86 * (1000 - p) / 600;
    }
    rgba(r, g, b, 0xff)
}

/// The pulsing highlight colour for the current moment: some phase of the
/// one-second pulse, packed as RGBA.
pub fn get_active_color() -> (c: u32)
    ensures
        exists|p: int|
            0 <= p < 1000 && c == ({
                let (r, g, b) = #[trigger] active_color_channels_spec(p);
                rgba_spec(r as i32, g as i32, b as i32, 0xff)
            }),
{
    let t = current_time();
    let p: i32 = (t % 1000) as i32;
    assert(0 <= p < 1000);
    active_color_for(p)
}

} // verus!
