//! The modal confirmation dialog's decision core: which buttons settle it,
//! and the open/close animation gating of its nested loop. The rendering and
//! the screenshot backdrop stay in the presentation layer.

use vstd::prelude::*;

use crate::input::{is_button, SceCtrlButtons};

verus! {

/// How long the dialog's slide animation runs, in milliseconds.
pub const DIALOG_ANIME_MS: u64 = 160;

/// What the held buttons settle a dialog to: confirm and cancel together
/// settle nothing, confirm alone accepts, cancel alone declines.
pub open spec fn dialog_choice_spec(buttons: u32) -> Option<bool> {
    if is_button(buttons, SceCtrlButtons::SceCtrlCircle) && is_button(
        buttons,
        SceCtrlButtons::SceCtrlCross,
    ) {
        None
    } else if is_button(buttons, SceCtrlButtons::SceCtrlCircle) {
        Some(true)
    } else if is_button(buttons, SceCtrlButtons::SceCtrlCross) {
        Some(false)
    } else {
        None
    }
}

/// What the held buttons settle a dialog to.
pub fn dialog_choice(buttons: u32) -> (r: Option<bool>)
    ensures
        r == dialog_choice_spec(buttons),
{
    let circle = is_button(buttons, SceCtrlButtons::SceCtrlCircle);
    let cross = is_button(buttons, SceCtrlButtons::SceCtrlCross);
    if circle && cross {
        None
    } else if circle {
        Some(true)
    } else if cross {
        Some(false)
    } else {
        None
    }
}

/// One pass of the dialog's nested loop: sliding in, settling on input,
/// sliding out, and done.
pub struct DialogState {
    pub open: bool,
    pub toggle_at_ms: u64,
    pub result: Option<bool>,
}

impl DialogState {
    /// A dialog that starts sliding in now.
    pub fn new(now_ms: u64) -> (r: DialogState)
        ensures
            r.open,
            r.toggle_at_ms == now_ms,
            r.result is None,
    {
        DialogState { open: true, toggle_at_ms: now_ms, result: None }
    }

    /// One loop pass: input counts only after the slide-in finished; a
    /// settling press starts the slide-out; after the slide-out finished the
    /// answer is returned, a dismissal counting as a decline. Until then the
    /// pass yields nothing and the loop goes on.
    pub fn step(&mut self, buttons: u32, now_ms: u64) -> (r: Option<bool>)
        ensures
            ({
                let settled = old(self).open && now_ms > old(self).toggle_at_ms + DIALOG_ANIME_MS
                    && dialog_choice_spec(buttons) is Some;
                let finished = !old(self).open && now_ms > old(self).toggle_at_ms
                    + DIALOG_ANIME_MS;
                if settled {
                    &&& !final(self).open
                    &&& final(self).toggle_at_ms == now_ms
                    &&& final(self).result == dialog_choice_spec(buttons)
                    &&& r is None
                } else if finished {
                    &&& *final(self) == *old(self)
                    &&& r == Some(
                        match old(self).result {
                            Some(b) => b,
                            None => false,
                        },
                    )
                } else {
                    *final(self) == *old(self) && r is None
                }
            }),
    {
        if self.open && now_ms > self.toggle_at_ms.saturating_add(DIALOG_ANIME_MS) {
            let choice = dialog_choice(buttons);
            if choice.is_some() {
                self.result = choice;
                self.open = false;
                self.toggle_at_ms = now_ms;
                return None;
            }
        }
        if !self.open && now_ms > self.toggle_at_ms.saturating_add(DIALOG_ANIME_MS) {
            return Some(
                match self.result {
                    Some(b) => b,
                    None => false,
                },
            );
        }
        None
    }
}

} // verus!
