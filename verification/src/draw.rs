//! Primitive draw commands: what the verified components hand the renderer
//! each frame instead of calling into it.

use vstd::prelude::*;

verus! {

/// One drawing primitive, in screen pixels.
pub enum DrawCmd {
    Rect { x: i32, y: i32, w: i32, h: i32, color: u32 },
    Text { x: i32, y: i32, color: u32, text: String },
    Line { x1: i32, y1: i32, x2: i32, y2: i32, color: u32 },
}

/// The texts a command list draws, in order.
pub open spec fn texts_of(cmds: Seq<DrawCmd>) -> Seq<Seq<char>>
    decreases cmds.len(),
{
    if cmds.len() == 0 {
        Seq::empty()
    } else {
        texts_of(cmds.drop_last()) + (match cmds.last() {
            DrawCmd::Text { text, .. } => seq![text@],
            _ => Seq::empty(),
        })
    }
}

/// Appending a rectangle or a line draws no new text.
pub proof fn lemma_texts_of_push_shape(cmds: Seq<DrawCmd>, c: DrawCmd)
    requires
        !(c is Text),
    ensures
        texts_of(cmds.push(c)) == texts_of(cmds),
{
    assert(cmds.push(c).drop_last() =~= cmds);
    assert(texts_of(cmds.push(c)) =~= texts_of(cmds) + Seq::empty());
    assert(texts_of(cmds) + Seq::<Seq<char>>::empty() =~= texts_of(cmds));
}

/// Appending a text command appends exactly its text.
pub proof fn lemma_texts_of_push_text(cmds: Seq<DrawCmd>, c: DrawCmd)
    requires
        c is Text,
    ensures
        texts_of(cmds.push(c)) == texts_of(cmds).push(c->Text_text@),
{
    assert(cmds.push(c).drop_last() =~= cmds);
    assert(texts_of(cmds.push(c)) =~= texts_of(cmds).push(c->Text_text@));
}


/// The first `count` of the names from `top_row` on, stopping at the end of
/// the list: what a windowed row list shows.
pub open spec fn visible_window(names: Seq<Seq<char>>, top_row: int, count: int) -> Seq<Seq<char>>
    decreases count,
{
    if count <= 0 || top_row >= names.len() {
        Seq::empty()
    } else if top_row + count - 1 >= names.len() {
        visible_window(names, top_row, count - 1)
    } else {
        visible_window(names, top_row, count - 1).push(names[top_row + count - 1])
    }
}

/// Rows past the end of the list add nothing to the window.
pub proof fn lemma_visible_window_saturates(names: Seq<Seq<char>>, top_row: int, i: int, count: int)
    requires
        0 <= i <= count,
        top_row >= 0,
        i < count ==> top_row + i >= names.len(),
    ensures
        visible_window(names, top_row, count) == visible_window(names, top_row, i),
    decreases count - i,
{
    if i < count {
        lemma_visible_window_saturates(names, top_row, i + 1, count);
    }
}

/// The screen, in pixels.
pub const SCREEN_WIDTH: i32 = 960;

/// The screen, in pixels.
pub const SCREEN_HEIGHT: i32 = 544;

} // verus!
