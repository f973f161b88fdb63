//! The two transient overlays: the loading indicator for long-running work
//! and the toast for one-line notifications. Each is a single state cell with
//! show/hide mutators; the renderer owns one of each and polls it per frame.

use vstd::prelude::*;

use crate::draw::{
    lemma_texts_of_push_shape, lemma_texts_of_push_text, texts_of, DrawCmd, SCREEN_HEIGHT,
    SCREEN_WIDTH,
};

verus! {

/// How long the overlays' slide animation runs, in milliseconds.
pub const OVERLAY_ANIME_MS: u64 = 300;

/// How long a toast stays up before it hides itself, in milliseconds.
pub const TOAST_HIDE_MS: u64 = 3000;


/// The alpha of spinner square `i` while the pulse stands at `phase`: the
/// current square is dimmed, its two predecessors fade, the rest sit in
/// between.
pub open spec fn spinner_alpha_spec(i: int, phase: int) -> int {
    if i == phase {
        0x40
    } else {
        let pre = if phase >= 1 {
            phase - 1
        } else {
            3
        };
        let pre1 = if pre >= 1 {
            pre - 1
        } else {
            3
        };
        if i == pre {
            0xff
        } else if i == pre1 {
            0xa0
        } else {
            0x60
        }
    }
}

/// The loading overlay: whether work is in progress, and the two lines the
/// current step reports.
pub struct Loading {
    pub open: bool,
    pub title: Option<String>,
    pub desc: Option<String>,
    pub toggle_at_ms: u64,
}

impl Loading {
    /// A hidden loading overlay.
    pub fn new() -> (r: Loading)
        ensures
            !r.open,
            r.title is None,
            r.desc is None,
            r.toggle_at_ms == 0,
    {
        Loading { open: false, title: None, desc: None, toggle_at_ms: 0 }
    }

    /// The current progress title, if one was reported.
    pub fn title(&self) -> (r: Option<String>)
        ensures
            r is Some <==> self.title is Some,
            r is Some ==> r.unwrap()@ == self.title.unwrap()@,
    {
        match &self.title {
            Some(t) => Some(t.clone()),
            None => None,
        }
    }

    /// The current progress description, if one was reported.
    pub fn desc(&self) -> (r: Option<String>)
        ensures
            r is Some <==> self.desc is Some,
            r is Some ==> r.unwrap()@ == self.desc.unwrap()@,
    {
        match &self.desc {
            Some(t) => Some(t.clone()),
            None => None,
        }
    }

    /// The overlay occupies the screen while shown or still sliding.
    pub fn is_active(&self, now_ms: u64) -> (r: bool)
        ensures
            r == (self.open || now_ms <= self.toggle_at_ms + OVERLAY_ANIME_MS),
    {
        self.open || now_ms <= self.toggle_at_ms.saturating_add(OVERLAY_ANIME_MS)
    }

    /// Whether work is still in progress.
    pub fn is_pending(&self) -> (r: bool)
        ensures
            r == self.open,
    {
        self.open
    }

    /// When the overlay last toggled.
    pub fn toggle_at(&self) -> (r: u64)
        ensures
            r == self.toggle_at_ms,
    {
        self.toggle_at_ms
    }

    /// Shows the overlay with both lines cleared; a second show while work
    /// is already in progress changes nothing.
    pub fn show(&mut self, now_ms: u64)
        ensures
            old(self).open ==> *final(self) == *old(self),
            !old(self).open ==> *final(self) == (Loading {
                open: true,
                title: None,
                desc: None,
                toggle_at_ms: now_ms,
            }),
    {
        if self.is_pending() {
            return ;
        }
        self.toggle_at_ms = now_ms;
        self.open = true;
        self.title = None;
        self.desc = None;
    }

    /// Hides the overlay; hiding a hidden one changes nothing.
    pub fn dismiss(&mut self, now_ms: u64)
        ensures
            !old(self).open ==> *final(self) == *old(self),
            old(self).open ==> *final(self) == (Loading {
                open: false,
                title: old(self).title,
                desc: old(self).desc,
                toggle_at_ms: now_ms,
            }),
    {
        if !self.is_pending() {
            return ;
        }
        self.toggle_at_ms = now_ms;
        self.open = false;
    }

    /// Reports the current step's title.
    pub fn notify_title(&mut self, title: String)
        ensures
            *final(self) == (Loading {
                title: Some(title),
                open: old(self).open,
                desc: old(self).desc,
                toggle_at_ms: old(self).toggle_at_ms,
            }),
    {
        self.title = Some(title);
    }

    /// Reports the current step's description.
    pub fn notify_desc(&mut self, desc: String)
        ensures
            *final(self) == (Loading {
                desc: Some(desc),
                open: old(self).open,
                title: old(self).title,
                toggle_at_ms: old(self).toggle_at_ms,
            }),
    {
        self.desc = Some(desc);
    }

    /// The spinner: four squares of one fixed size at slide position `top`,
    /// the square of the current phase dimmed.
    pub fn draw_rect(&self, phase: i32, top: i32) -> (r: Vec<DrawCmd>)
        requires
            0 <= phase < 4,
            -1000 <= top <= SCREEN_HEIGHT,
        ensures
            r@.len() == 4,
            forall|k: int|
                0 <= k < 4 ==> r@[k] == (DrawCmd::Rect {
                    x: (14 + if 0 < k < 3 {
                        30int
                    } else {
                        0int
                    }) as i32,
                    y: (top + (k / 2) * 30) as i32,
                    w: 30,
                    h: 30,
                    color: crate::input::rgba_spec(0x99, 0x99, 0x99, spinner_alpha_spec(k, phase as int) as i32),
                }),
    {
        let mut out: Vec<DrawCmd> = Vec::new();
        let mut i: i32 = 0;
        while i < 4
            invariant
                0 <= i <= 4,
                0 <= phase < 4,
                out@.len() == i,
                -1000 <= top <= SCREEN_HEIGHT,
                forall|k: int|
                    0 <= k < i ==> out@[k] == (DrawCmd::Rect {
                        x: (14 + if 0 < k < 3 {
                            30int
                        } else {
                            0int
                        }) as i32,
                        y: (top + (k / 2) * 30) as i32,
                        w: 30,
                        h: 30,
                        color: crate::input::rgba_spec(
                            0x99,
                            0x99,
                            0x99,
                            spinner_alpha_spec(k, phase as int) as i32,
                        ),
                    }),
            decreases 4 - i,
        {
            let alpha: i32 = if i == phase {
                0x40
            } else {
                let pre: i32 = if phase >= 1 {
                    phase - 1
                } else {
                    3
                };
                let pre1: i32 = if pre >= 1 {
                    pre - 1
                } else {
                    3
                };
                if i == pre {
                    0xff
                } else if i == pre1 {
                    0xa0
                } else {
                    0x60
                }
            };
            let sx: i32 = 14 + (if i > 0 && i < 3 {
                30
            } else {
                0
            });
            let sy: i32 = top + (i / 2) * 30;
            out.push(
                DrawCmd::Rect {
                    x: sx,
                    y: sy,
                    w: 30,
                    h: 30,
                    color: crate::input::rgba(0x99, 0x99, 0x99, alpha),
                },
            );
            i += 1;
        }
        out
    }

    /// The whole overlay at slide position `top`: nothing while inactive;
    /// the spinner alone while sliding out or with nothing to report; with a
    /// description, a dialog box whose texts are the title (when reported)
    /// and the description, centred with the given text width.
    pub fn draw(&self, now_ms: u64, phase: i32, top: i32, desc_width: i32) -> (r: Vec<DrawCmd>)
        requires
            0 <= phase < 4,
            -1000 <= top <= SCREEN_HEIGHT,
            0 <= desc_width <= SCREEN_WIDTH,
        ensures
            !(self.open || now_ms <= self.toggle_at_ms + OVERLAY_ANIME_MS) ==> r@.len() == 0,
            self.open && self.desc is Some ==> texts_of(r@) =~= (match self.title {
                Some(t) => seq![t@, self.desc.unwrap()@],
                None => seq![self.desc.unwrap()@],
            }),
            !(self.open && self.desc is Some) ==> texts_of(r@) =~= Seq::<Seq<char>>::empty(),
    {
        let mut out: Vec<DrawCmd> = Vec::new();
        if !self.is_active(now_ms) {
            assert(texts_of(out@) =~= Seq::<Seq<char>>::empty());
            return out;
        }
        let mut out = self.draw_rect(phase, top);
        proof {
            lemma_texts_of_all_shapes(out@);
        }
        if !self.is_pending() {
            return out;
        }
        let desc = match &self.desc {
            Some(d) => d,
            None => {
                return out;
            },
        };
        let bg = DrawCmd::Rect {
            x: (SCREEN_WIDTH - 600) / 2,
            y: (SCREEN_HEIGHT - 120) / 2,
            w: 600,
            h: 120,
            color: crate::input::rgba(0x44, 0x44, 0x44, 0xff),
        };
        proof {
            lemma_texts_of_push_shape(out@, bg);
        }
        out.push(bg);
        match &self.title {
            Some(t) => {
                let txt = DrawCmd::Text {
                    x: (SCREEN_WIDTH - 600) / 2 + 14,
                    y: (SCREEN_HEIGHT - 120) / 2 + 34,
                    color: crate::input::rgba(0xff, 0xff, 0xff, 0xff),
                    text: t.clone(),
                };
                proof {
                    lemma_texts_of_push_text(out@, txt);
                }
                out.push(txt);
            },
            None => {},
        }
        let dtxt = DrawCmd::Text {
            x: (SCREEN_WIDTH - desc_width) / 2,
            y: (SCREEN_HEIGHT + 20) / 2,
            color: crate::input::rgba(0xff, 0xff, 0xff, 0xff),
            text: desc.clone(),
        };
        proof {
            lemma_texts_of_push_text(out@, dtxt);
        }
        out.push(dtxt);
        out
    }
}

/// A command list of shapes alone draws no text.
proof fn lemma_texts_of_all_shapes(cmds: Seq<DrawCmd>)
    requires
        forall|k: int| 0 <= k < cmds.len() ==> !(#[trigger] cmds[k] is Text),
    ensures
        texts_of(cmds) == Seq::<Seq<char>>::empty(),
    decreases cmds.len(),
{
    if cmds.len() > 0 {
        lemma_texts_of_all_shapes(cmds.drop_last());
        assert(texts_of(cmds) =~= Seq::<Seq<char>>::empty());
    }
}

/// The toast: one transient line of text.
pub struct Toast {
    pub text: Option<String>,
    pub open: bool,
    pub toggle_at_ms: u64,
}

impl Toast {
    /// A hidden toast.
    pub fn new() -> (r: Toast)
        ensures
            !r.open,
            r.text is None,
            r.toggle_at_ms == 0,
    {
        Toast { text: None, open: false, toggle_at_ms: 0 }
    }

    /// The toast occupies the screen while shown or still sliding.
    pub fn is_active(&self, now_ms: u64) -> (r: bool)
        ensures
            r == (self.open || now_ms <= self.toggle_at_ms + OVERLAY_ANIME_MS),
    {
        self.open || now_ms <= self.toggle_at_ms.saturating_add(OVERLAY_ANIME_MS)
    }

    /// Whether the toast is still up.
    pub fn is_pending(&self) -> (r: bool)
        ensures
            r == self.open,
    {
        self.open
    }

    /// When the toast last toggled.
    pub fn toggle_at(&self) -> (r: u64)
        ensures
            r == self.toggle_at_ms,
    {
        self.toggle_at_ms
    }

    /// Shows the given line, replacing whatever was up.
    pub fn show(&mut self, text: String, now_ms: u64)
        ensures
            *final(self) == (Toast { text: Some(text), open: true, toggle_at_ms: now_ms }),
    {
        self.text = Some(text);
        self.toggle_at_ms = now_ms;
        self.open = true;
    }

    /// Hides the toast; hiding a hidden one changes nothing.
    pub fn dismiss(&mut self, now_ms: u64)
        ensures
            !old(self).open ==> *final(self) == *old(self),
            old(self).open ==> *final(self) == (Toast {
                text: old(self).text,
                open: false,
                toggle_at_ms: now_ms,
            }),
    {
        if !self.is_pending() {
            return ;
        }
        self.toggle_at_ms = now_ms;
        self.open = false;
    }

    /// The current line, if any.
    pub fn text(&self) -> (r: Option<String>)
        ensures
            r is Some <==> self.text is Some,
            r is Some ==> r.unwrap()@ == self.text.unwrap()@,
    {
        match &self.text {
            Some(t) => Some(t.clone()),
            None => None,
        }
    }

    /// The toast at slide position `top`: nothing while inactive; otherwise
    /// its backdrop and line, the backdrop sized by the given text width. A
    /// toast up longer than its dwell time hides itself first.
    pub fn draw(&mut self, now_ms: u64, top: i32, text_width: i32) -> (r: Vec<DrawCmd>)
        requires
            0 <= top <= SCREEN_HEIGHT + 100,
            0 <= text_width <= 10000,
        ensures
            ({
                let hidden = old(self).open && now_ms > old(self).toggle_at_ms + TOAST_HIDE_MS;
                &&& final(self).text == old(self).text
                &&& hidden ==> *final(self) == (Toast {
                    text: old(self).text,
                    open: false,
                    toggle_at_ms: now_ms,
                })
                &&& !hidden ==> *final(self) == *old(self)
            }),
            !(old(self).open || now_ms <= old(self).toggle_at_ms + OVERLAY_ANIME_MS) ==> r@.len()
                == 0,
            (old(self).open || now_ms <= old(self).toggle_at_ms + OVERLAY_ANIME_MS) ==> ({
                match old(self).text {
                    Some(t) => texts_of(r@) =~= seq![t@],
                    None => r@.len() == 0,
                }
            }),
    {
        let mut out: Vec<DrawCmd> = Vec::new();
        if !self.is_active(now_ms) {
            assert(texts_of(out@) =~= Seq::<Seq<char>>::empty());
            return out;
        }
        if self.is_pending() && now_ms > self.toggle_at_ms.saturating_add(TOAST_HIDE_MS) {
            self.dismiss(now_ms);
        }
        let text = match &self.text {
            Some(t) => t,
            None => {
                return out;
            },
        };
        let bg = DrawCmd::Rect {
            x: 14,
            y: top - 26,
            w: text_width + 28,
            h: 36,
            color: crate::input::rgba(0x66, 0x66, 0x66, 0xff),
        };
        proof {
            lemma_texts_of_push_shape(out@, bg);
        }
        out.push(bg);
        let txt = DrawCmd::Text {
            x: 28,
            y: top,
            color: crate::input::rgba(0xff, 0xff, 0xff, 0xff),
            text: text.clone(),
        };
        proof {
            lemma_texts_of_push_text(out@, txt);
        }
        out.push(txt);
        assert(texts_of(out@) =~= seq![text@]);
        out
    }
}

} // verus!
