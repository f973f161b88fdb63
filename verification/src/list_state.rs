//! Cursor and scroll bookkeeping for any bounded list: a selected index that
//! wraps at both ends and a top row kept so the selection stays inside the
//! visible window.

use vstd::prelude::*;

use crate::input::{is_button, SceCtrlButtons};

verus! {

/// Cursor state of one list: the first visible row, the selected index and
/// how many rows the window shows.
pub struct ListState {
    pub top_row: i32,
    pub selected_idx: i32,
    pub display_row: i32,
}

/// Well-formedness of a cursor against a list of `size` entries: the
/// selection is non-negative, inside the list when the list is not empty, and
/// inside the visible window.
pub open spec fn list_state_wf(s: ListState, size: int) -> bool {
    &&& 1 <= s.display_row
    &&& 0 <= s.selected_idx
    &&& size > 0 ==> s.selected_idx < size
    &&& size <= 0 ==> s.selected_idx == 0
    &&& s.top_row <= s.selected_idx < s.top_row + s.display_row
}

/// The selected index after one scroll step: a held up or down button moves
/// it one place, and the result wraps below zero to the last entry and past
/// the end to the first.
pub open spec fn scroll_selected_spec(selected: int, size: int, buttons: u32) -> int {
    let moved = if is_button(buttons, SceCtrlButtons::SceCtrlUp) {
        selected - 1
    } else if is_button(buttons, SceCtrlButtons::SceCtrlDown) {
        selected + 1
    } else {
        selected
    };
    if moved < 0 {
        if size > 0 {
            size - 1
        } else {
            0
        }
    } else if moved >= size {
        0
    } else {
        moved
    }
}

/// The top row after the selection settled at `selected`: pulled up to the
/// selection when the selection is above the window, pushed down when it is
/// below.
pub open spec fn scroll_top_row_spec(top_row: int, selected: int, display_row: int) -> int {
    if selected < top_row {
        selected
    } else if selected - top_row >= display_row {
        selected - display_row + 1
    } else {
        top_row
    }
}

impl ListState {
    /// A fresh cursor at the first row of a window of `display_row` rows.
    pub fn new(display_row: i32) -> (s: ListState)
        requires
            1 <= display_row,
        ensures
            s.top_row == 0,
            s.selected_idx == 0,
            s.display_row == display_row,
            forall|size: int| list_state_wf(s, size),
    {
        ListState { top_row: 0, selected_idx: 0, display_row }
    }

    /// One scroll step against a list of `size` entries: the selection moves
    /// with the held button and wraps at both ends, then the window is pulled
    /// along so the selection stays visible.
    pub fn do_scroll(&mut self, size: i32, buttons: u32)
        requires
            0 <= size,
            1 <= old(self).display_row,
            0 <= old(self).top_row,
            -1 <= old(self).selected_idx,
            old(self).selected_idx <= i32::MAX - 1,
        ensures
            final(self).display_row == old(self).display_row,
            0 <= final(self).top_row,
            final(self).selected_idx == scroll_selected_spec(
                old(self).selected_idx as int,
                size as int,
                buttons,
            ),
            final(self).top_row == scroll_top_row_spec(
                old(self).top_row as int,
                final(self).selected_idx as int,
                old(self).display_row as int,
            ),
            size > 0 ==> 0 <= final(self).selected_idx < size,
            size > 0 ==> list_state_wf(*final(self), size as int),
    {
        if is_button(buttons, SceCtrlButtons::SceCtrlUp) {
            self.selected_idx -= 1;
        } else if is_button(buttons, SceCtrlButtons::SceCtrlDown) {
            self.selected_idx += 1;
        }
        if self.selected_idx < 0 {
            self.selected_idx = if size > 0 {
                size - 1
            } else {
                0
            };
        } else if self.selected_idx >= size {
            self.selected_idx = 0;
        }
        if self.selected_idx < self.top_row {
            self.top_row = self.selected_idx;
        } else if self.selected_idx - self.top_row >= self.display_row {
            self.top_row = self.selected_idx - self.display_row + 1;
        }
    }

    /// The per-frame step: when an up or down button is held, or the list
    /// shrank past the selection, the selection is first clamped into the
    /// list and then scrolled; otherwise nothing changes.
    pub fn update(&mut self, size: i32, buttons: u32)
        requires
            0 <= size,
            1 <= old(self).display_row,
            0 <= old(self).top_row,
            0 <= old(self).selected_idx,
            old(self).selected_idx <= i32::MAX - 1,
        ensures
            final(self).display_row == old(self).display_row,
            0 <= final(self).top_row,
            ({
                let moved = is_button(buttons, SceCtrlButtons::SceCtrlUp) || is_button(
                    buttons,
                    SceCtrlButtons::SceCtrlDown,
                ) || old(self).selected_idx >= size;
                if moved {
                    let clamped = if old(self).selected_idx >= size {
                        size - 1
                    } else {
                        old(self).selected_idx as int
                    };
                    &&& final(self).selected_idx == scroll_selected_spec(
                        clamped,
                        size as int,
                        buttons,
                    )
                    &&& final(self).top_row == scroll_top_row_spec(
                        old(self).top_row as int,
                        final(self).selected_idx as int,
                        old(self).display_row as int,
                    )
                } else {
                    *final(self) == *old(self)
                }
            }),
            size > 0 && (is_button(buttons, SceCtrlButtons::SceCtrlUp) || is_button(
                buttons,
                SceCtrlButtons::SceCtrlDown,
            ) || old(self).selected_idx >= size) ==> list_state_wf(*final(self), size as int),
    {
        let idx = self.selected_idx;
        if is_button(buttons, SceCtrlButtons::SceCtrlUp) || is_button(
            buttons,
            SceCtrlButtons::SceCtrlDown,
        ) || idx >= size {
            if idx >= size {
                self.selected_idx = size - 1;
            }
            // A clamp below zero only happens for an empty list, and the
            // wraparound then lands the selection back at zero.
            self.do_scroll(size, buttons);
        }
    }
}

/// The cursor state after one whole `update` step, as a value.
pub open spec fn update_spec(s: ListState, size: int, buttons: u32) -> ListState {
    let moved = is_button(buttons, SceCtrlButtons::SceCtrlUp) || is_button(
        buttons,
        SceCtrlButtons::SceCtrlDown,
    ) || s.selected_idx >= size;
    if moved {
        let clamped = if s.selected_idx >= size {
            size - 1
        } else {
            s.selected_idx as int
        };
        let sel = scroll_selected_spec(clamped, size, buttons);
        let top = scroll_top_row_spec(s.top_row as int, sel, s.display_row as int);
        ListState {
            top_row: top as i32,
            selected_idx: sel as i32,
            display_row: s.display_row,
        }
    } else {
        s
    }
}

/// The cursor state after a whole sequence of `update` steps, each a pair of
/// the list size seen that frame and the buttons held.
pub open spec fn run_updates_spec(s: ListState, ops: Seq<(int, u32)>) -> ListState
    decreases ops.len(),
{
    if ops.len() == 0 {
        s
    } else {
        run_updates_spec(update_spec(s, ops[0].0, ops[0].1), ops.drop_first())
    }
}

/// One `update` step keeps the cursor well-formed: for a non-empty list the
/// selection stays inside `[0, size)` and inside the visible window.
pub proof fn lemma_update_preserves_wf(s: ListState, size: int, buttons: u32)
    requires
        list_state_wf(s, size) || (1 <= s.display_row && 0 <= s.selected_idx && s.top_row
            <= s.selected_idx < s.top_row + s.display_row),
        size > 0,
        size <= i32::MAX,
    ensures
        list_state_wf(update_spec(s, size, buttons), size),
{
}

/// Any sequence of `update` steps over non-empty lists keeps the cursor
/// well-formed: after every such run the selected index lies in `[0, size)`
/// of the size last seen, and the window `[top_row, top_row + display_row)`
/// still holds it.
pub proof fn lemma_updates_keep_selection_in_range(s: ListState, ops: Seq<(int, u32)>)
    requires
        list_state_wf(s, if ops.len() == 0 {
            1int
        } else {
            ops[0].0
        }),
        ops.len() > 0,
        forall|i: int| 0 <= i < ops.len() ==> 0 < #[trigger] ops[i].0 <= i32::MAX,
    ensures
        list_state_wf(run_updates_spec(s, ops), ops[ops.len() - 1].0),
    decreases ops.len(),
{
    let s1 = update_spec(s, ops[0].0, ops[0].1);
    lemma_update_preserves_wf(s, ops[0].0, ops[0].1);
    if ops.len() == 1 {
        assert(ops.drop_first().len() == 0);
        assert(run_updates_spec(s1, ops.drop_first()) == s1);
        assert(run_updates_spec(s, ops) == s1);
    } else {
        assert(list_state_wf(s1, ops[0].0));
        assert(1 <= s1.display_row && 0 <= s1.selected_idx && s1.top_row <= s1.selected_idx
            < s1.top_row + s1.display_row);
        let rest = ops.drop_first();
        assert(forall|i: int| 0 <= i < rest.len() ==> #[trigger] rest[i] == ops[i + 1]);
        // The next frame may see another size; re-establish well-formedness
        // for it from the window facts alone.
        lemma_wf_any_size_after_clamp(s1, rest);
        assert(rest[rest.len() - 1] == ops[ops.len() - 1]);
    }
}

/// Helper: a cursor whose window holds its non-negative selection stays
/// well-formed through a run of updates over non-empty lists, whatever size
/// each frame sees.
proof fn lemma_wf_any_size_after_clamp(s: ListState, ops: Seq<(int, u32)>)
    requires
        1 <= s.display_row,
        0 <= s.selected_idx,
        s.top_row <= s.selected_idx < s.top_row + s.display_row,
        ops.len() > 0,
        forall|i: int| 0 <= i < ops.len() ==> 0 < #[trigger] ops[i].0 <= i32::MAX,
    ensures
        list_state_wf(run_updates_spec(s, ops), ops[ops.len() - 1].0),
    decreases ops.len(),
{
    let s1 = update_spec(s, ops[0].0, ops[0].1);
    lemma_update_preserves_wf(s, ops[0].0, ops[0].1);
    if ops.len() == 1 {
        assert(ops.drop_first().len() == 0);
        assert(run_updates_spec(s1, ops.drop_first()) == s1);
        assert(run_updates_spec(s, ops) == s1);
    } else {
        let rest = ops.drop_first();
        assert(forall|i: int| 0 <= i < rest.len() ==> #[trigger] rest[i] == ops[i + 1]);
        lemma_wf_any_size_after_clamp(s1, rest);
        assert(rest[rest.len() - 1] == ops[ops.len() - 1]);
    }
}

} // verus!
