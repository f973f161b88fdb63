//! The context-sensitive action menu and the sliding drawer it lives in: the
//! action set is rebuilt at every open from the selected item and the two
//! panels' backends.

use vstd::prelude::*;

use crate::draw::{
    lemma_texts_of_push_shape, lemma_texts_of_push_text, texts_of, DrawCmd, SCREEN_HEIGHT,
    SCREEN_WIDTH,
};
use crate::input::{is_button, SceCtrlButtons};
use crate::list_state::{update_spec, ListState};
use crate::panel::Item;
use crate::strutil::{ends_with_spec, str_ends_with, str_eq};

verus! {

/// How long the drawer's slide animation runs, in milliseconds.
pub const DRAWER_ANIME_MS: u64 = 300;

/// The sliding drawer a menu is presented in: open state and when it last
/// toggled, for the slide animation.
pub struct UIDrawer {
    pub open: bool,
    pub toggle_at_ms: u64,
}

impl UIDrawer {
    /// A closed drawer whose last toggle lies in the past.
    pub fn new() -> (r: UIDrawer)
        ensures
            !r.open,
            r.toggle_at_ms == 0,
    {
        UIDrawer { open: false, toggle_at_ms: 0 }
    }

    /// Opens the drawer and starts the slide.
    pub fn open(&mut self, now_ms: u64)
        ensures
            final(self).open,
            final(self).toggle_at_ms == now_ms,
    {
        self.open = true;
        self.toggle_at_ms = now_ms;
    }

    /// Closes the drawer and starts the slide.
    pub fn close(&mut self, now_ms: u64)
        ensures
            !final(self).open,
            final(self).toggle_at_ms == now_ms,
    {
        self.open = false;
        self.toggle_at_ms = now_ms;
    }

    /// The drawer still occupies the screen while open or sliding.
    pub fn is_active(&self, now_ms: u64) -> (r: bool)
        ensures
            r == (self.open || now_ms <= self.toggle_at_ms + DRAWER_ANIME_MS),
    {
        self.open || now_ms <= self.toggle_at_ms.saturating_add(DRAWER_ANIME_MS)
    }

    /// Input belongs to the drawer exactly while it is open.
    pub fn is_forces(&self) -> (r: bool)
        ensures
            r == self.open,
    {
        self.open
    }

    /// The drawer's backdrop at slide position `x`, and its bottom bar text:
    /// nothing while inactive.
    pub fn draw(&self, x: i32, now_ms: u64, bottom_text: &str) -> (r: Vec<DrawCmd>)
        requires
            0 <= x <= SCREEN_WIDTH,
        ensures
            !(self.open || now_ms <= self.toggle_at_ms + DRAWER_ANIME_MS) ==> r@.len() == 0,
            (self.open || now_ms <= self.toggle_at_ms + DRAWER_ANIME_MS) ==> r@.len() == 3
                && texts_of(r@) =~= seq![bottom_text@],
    {
        let mut out: Vec<DrawCmd> = Vec::new();
        if !self.is_active(now_ms) {
            assert(texts_of(out@) =~= Seq::<Seq<char>>::empty());
            return out;
        }
        proof {
            assert(texts_of(out@) =~= Seq::<Seq<char>>::empty());
        }
        let bg = DrawCmd::Rect {
            x,
            y: 0,
            w: SCREEN_WIDTH / 2,
            h: SCREEN_HEIGHT,
            color: crate::input::rgba(0x18, 0x18, 0x18, 0xff),
        };
        proof {
            lemma_texts_of_push_shape(out@, bg);
        }
        out.push(bg);
        let line = DrawCmd::Line {
            x1: x + 12,
            y1: SCREEN_HEIGHT - 58,
            x2: SCREEN_WIDTH - 12,
            y2: SCREEN_HEIGHT - 58,
            color: crate::input::rgba(0x99, 0x99, 0x99, 0xff),
        };
        proof {
            lemma_texts_of_push_shape(out@, line);
        }
        out.push(line);
        let txt = DrawCmd::Text {
            x: x + SCREEN_WIDTH / 2 - 140,
            y: SCREEN_HEIGHT - 29,
            color: crate::input::rgba(0xff, 0xff, 0xff, 0xff),
            text: bottom_text.to_owned(),
        };
        proof {
            lemma_texts_of_push_text(out@, txt);
        }
        out.push(txt);
        assert(texts_of(out@) =~= seq![bottom_text@]);
        out
    }
}

/// Everything the menu can offer on an entry.
#[derive(Clone, Copy, PartialEq, Eq, Structural, Debug)]
pub enum MenuAction {
    NewDir,
    Copy,
    Move,
    Rename,
    Delete,
    Zip,
    Unzip,
    Upload,
    ZipUpload,
    Download,
    ChangeAccountId,
}

/// The label of each menu action.
pub open spec fn menu_action_label(a: MenuAction) -> Seq<char> {
    match a {
        MenuAction::NewDir => "新建文件夹"@,
        MenuAction::Copy => "复制"@,
        MenuAction::Move => "移动"@,
        MenuAction::Rename => "重命名"@,
        MenuAction::Delete => "删除"@,
        MenuAction::Zip => "压缩"@,
        MenuAction::Unzip => "解压"@,
        MenuAction::Upload => "上传"@,
        MenuAction::Download => "下载"@,
        MenuAction::ZipUpload => "压缩并上传"@,
        MenuAction::ChangeAccountId => "修改 param.sfo 账号为当前账号"@,
    }
}

impl MenuAction {
    /// The user-facing label of this action.
    pub fn as_str(&self) -> (r: &'static str)
        ensures
            r@ == menu_action_label(*self),
    {
        match self {
            MenuAction::NewDir => "新建文件夹",
            MenuAction::Copy => "复制",
            MenuAction::Move => "移动",
            MenuAction::Rename => "重命名",
            MenuAction::Delete => "删除",
            MenuAction::Zip => "压缩",
            MenuAction::Unzip => "解压",
            MenuAction::Upload => "上传",
            MenuAction::Download => "下载",
            MenuAction::ZipUpload => "压缩并上传",
            MenuAction::ChangeAccountId => "修改 param.sfo 账号为当前账号",
        }
    }
}

/// A path names the cloud drive when it is absolute; every local path starts
/// with a device root instead.
pub open spec fn path_is_local(p: Seq<char>) -> bool {
    !(p.len() > 0 && p[0] == '/')
}

/// The action set offered for a selection, rebuilt at every menu open.
///
/// With no entry selected only a new folder is offered. On an entry of a
/// cloud source only the download is offered, and only on a file: a selected
/// directory gets no action. On a local entry rename and delete always
/// follow; then, local to local: copy and move when the destination is
/// initialized, unzip for an archive file and zip for anything else, and the
/// ownership patch for a save descriptor whose parent has the ciphertext
/// container beside it; local to cloud: unzip or zip as before, direct
/// upload for files, zip-then-upload for everything, and the ownership patch
/// for a save descriptor.
pub open spec fn menu_actions_spec(
    item: Option<Item>,
    from_path: Seq<char>,
    to_path: Seq<char>,
    has_pfs_sibling: bool,
) -> Seq<MenuAction> {
    let base = seq![MenuAction::NewDir];
    if item is None {
        base
    } else if !path_is_local(from_path) {
        let it = item.unwrap();
        if !it.is_dir {
            seq![MenuAction::Download]
        } else {
            Seq::empty()
        }
    } else {
        let it = item.unwrap();
        let base2 = base + seq![MenuAction::Rename, MenuAction::Delete];
        if path_is_local(to_path) {
            let base3 = if to_path.len() > 0 {
                base2 + seq![MenuAction::Copy, MenuAction::Move]
            } else {
                base2
            };
            let base4 = if !it.is_dir && ends_with_spec(it.name@, ".zip"@) {
                base3 + seq![MenuAction::Unzip]
            } else {
                base3 + seq![MenuAction::Zip]
            };
            if !it.is_dir && it.name@ == "param.sfo"@ && has_pfs_sibling {
                base4 + seq![MenuAction::ChangeAccountId]
            } else {
                base4
            }
        } else {
            let base3 = if !it.is_dir && ends_with_spec(it.name@, ".zip"@) {
                base2 + seq![MenuAction::Unzip, MenuAction::Upload]
            } else {
                let z = base2 + seq![MenuAction::Zip];
                let z2 = if !it.is_dir {
                    z + seq![MenuAction::Upload]
                } else {
                    z
                };
                z2 + seq![MenuAction::ZipUpload]
            };
            if !it.is_dir && it.name@ == "param.sfo"@ {
                base3 + seq![MenuAction::ChangeAccountId]
            } else {
                base3
            }
        }
    }
}

/// The context-sensitive action menu.
pub struct Menu {
    pub list_state: ListState,
    pub actions: Vec<MenuAction>,
    pub drawer: UIDrawer,
}

impl Menu {
    /// A closed menu with no actions.
    pub fn new() -> (r: Menu)
        ensures
            r.actions@.len() == 0,
            !r.drawer.open,
            r.list_state.top_row == 0 && r.list_state.selected_idx == 0
                && r.list_state.display_row == 15,
    {
        Menu { list_state: ListState::new(15), actions: Vec::new(), drawer: UIDrawer::new() }
    }

    /// The menu occupies the screen while its drawer does.
    pub fn is_active(&self, now_ms: u64) -> (r: bool)
        ensures
            r == (self.drawer.open || now_ms <= self.drawer.toggle_at_ms + DRAWER_ANIME_MS),
    {
        self.drawer.is_active(now_ms)
    }

    /// Input belongs to the menu exactly while its drawer is open.
    pub fn is_forces(&self) -> (r: bool)
        ensures
            r == self.drawer.open,
    {
        self.drawer.is_forces()
    }

    /// The action under the cursor, if any.
    pub fn get_selected_action(&self) -> (r: Option<&MenuAction>)
        ensures
            ({
                let sel = self.list_state.selected_idx;
                if 0 <= sel < self.actions@.len() {
                    r == Some(&self.actions@[sel as int])
                } else {
                    r is None
                }
            }),
    {
        let sel = self.list_state.selected_idx;
        if 0 <= sel && (sel as usize) < self.actions.len() {
            Some(&self.actions[sel as usize])
        } else {
            None
        }
    }

    /// Opens the drawer and rebuilds the action set from the selection, the
    /// two panels' paths, and whether the ciphertext container sits beside
    /// the selected entry's parent.
    pub fn open(
        &mut self,
        item: Option<&Item>,
        from_path: &str,
        to_path: &str,
        has_pfs_sibling: bool,
        now_ms: u64,
    )
        ensures
            final(self).drawer.open,
            final(self).drawer.toggle_at_ms == now_ms,
            final(self).list_state == old(self).list_state,
            final(self).actions@ == menu_actions_spec(
                match item {
                    Some(it) => Some(*it),
                    None => None,
                },
                from_path@,
                to_path@,
                has_pfs_sibling,
            ),
    {
        self.drawer.open(now_ms);
        self.actions.clear();
        let from_local = !str_starts_with_slash(from_path);
        let it = match item {
            Some(it) => it,
            None => {
                self.actions.push(MenuAction::NewDir);
                assert(self.actions@ =~= seq![MenuAction::NewDir]);
                return ;
            },
        };
        if !from_local {
            if !it.is_dir {
                self.actions.push(MenuAction::Download);
                assert(self.actions@ =~= seq![MenuAction::Download]);
            } else {
                assert(self.actions@ =~= Seq::<MenuAction>::empty());
            }
            return ;
        }
        self.actions.push(MenuAction::NewDir);
        self.actions.push(MenuAction::Rename);
        self.actions.push(MenuAction::Delete);
        let ghost base2 = seq![MenuAction::NewDir] + seq![MenuAction::Rename, MenuAction::Delete];
        assert(self.actions@ =~= base2);
        let to_local = !str_starts_with_slash(to_path);
        let ends_zip = str_ends_with(it.name.as_str(), ".zip");
        let is_sfo = str_eq(it.name.as_str(), "param.sfo");
        if to_local {
            if to_path.unicode_len() > 0 {
                self.actions.push(MenuAction::Copy);
                self.actions.push(MenuAction::Move);
            }
            if !it.is_dir && ends_zip {
                self.actions.push(MenuAction::Unzip);
            } else {
                self.actions.push(MenuAction::Zip);
            }
            if !it.is_dir && is_sfo && has_pfs_sibling {
                self.actions.push(MenuAction::ChangeAccountId);
            }
        } else {
            if !it.is_dir && ends_zip {
                self.actions.push(MenuAction::Unzip);
                self.actions.push(MenuAction::Upload);
            } else {
                self.actions.push(MenuAction::Zip);
                if !it.is_dir {
                    self.actions.push(MenuAction::Upload);
                }
                self.actions.push(MenuAction::ZipUpload);
            }
            if !it.is_dir && is_sfo {
                self.actions.push(MenuAction::ChangeAccountId);
            }
        }
        assert(self.actions@ =~= menu_actions_spec(
            Some(*it),
            from_path@,
            to_path@,
            has_pfs_sibling,
        ));
    }

    /// Closes the drawer.
    pub fn close(&mut self, now_ms: u64)
        ensures
            !final(self).drawer.open,
            final(self).drawer.toggle_at_ms == now_ms,
            final(self).actions == old(self).actions,
            final(self).list_state == old(self).list_state,
    {
        self.drawer.close(now_ms);
    }

    /// The per-frame step while the menu is open: the back button closes it,
    /// and the cursor scrolls over the action set.
    pub fn update(&mut self, buttons: u32, now_ms: u64)
        requires
            old(self).actions@.len() <= i32::MAX,
            1 <= old(self).list_state.display_row,
            0 <= old(self).list_state.top_row,
            0 <= old(self).list_state.selected_idx <= i32::MAX - 1,
        ensures
            final(self).actions == old(self).actions,
            is_button(buttons, SceCtrlButtons::SceCtrlCross) ==> !final(self).drawer.open && final(self).drawer.toggle_at_ms == now_ms,
            !is_button(buttons, SceCtrlButtons::SceCtrlCross) ==> final(self).drawer == old(
                self,
            ).drawer,
            final(self).list_state == update_spec(
                old(self).list_state,
                old(self).actions@.len() as int,
                buttons,
            ),
    {
        if is_button(buttons, SceCtrlButtons::SceCtrlCross) {
            self.close(now_ms);
        }
        let n = self.actions.len();
        self.list_state.update(n as i32, buttons);
    }

    /// The menu at slide position `x`: the drawer's backdrop and bar, then
    /// the visible slice of action labels, the selected row highlighted.
    /// Nothing while inactive.
    pub fn draw(&self, x: i32, now_ms: u64, bottom_text: &str) -> (r: Vec<DrawCmd>)
        requires
            0 <= x <= SCREEN_WIDTH,
            0 <= self.list_state.top_row,
            1 <= self.list_state.display_row <= 10000,
            self.list_state.top_row + self.list_state.display_row <= i32::MAX,
            self.actions@.len() <= i32::MAX,
        ensures
            !(self.drawer.open || now_ms <= self.drawer.toggle_at_ms + DRAWER_ANIME_MS)
                ==> r@.len() == 0,
            (self.drawer.open || now_ms <= self.drawer.toggle_at_ms + DRAWER_ANIME_MS)
                ==> texts_of(r@) =~= seq![bottom_text@] + visible_labels(
                self.actions@,
                self.list_state.top_row as int,
                self.list_state.display_row as int,
            ),
    {
        if !self.drawer.is_active(now_ms) {
            let out: Vec<DrawCmd> = Vec::new();
            assert(texts_of(out@) =~= Seq::<Seq<char>>::empty());
            return out;
        }
        let mut out = self.drawer.draw(x, now_ms, bottom_text);
        let top_row = self.list_state.top_row;
        let selected = self.list_state.selected_idx;
        let display = self.list_state.display_row;
        let size = self.actions.len();
        let mut idx: i32 = 0;
        while idx < display && top_row + idx < size as i32
            invariant
                0 <= idx <= display,
                0 <= top_row,
                1 <= display <= 10000,
                0 <= x <= SCREEN_WIDTH,
                selected == self.list_state.selected_idx,
                top_row == self.list_state.top_row,
                display == self.list_state.display_row,
                top_row + display <= i32::MAX,
                size == self.actions@.len() <= i32::MAX,
                texts_of(out@) =~= seq![bottom_text@] + visible_labels(
                    self.actions@,
                    top_row as int,
                    idx as int,
                ),
            decreases display - idx,
        {
            let i: i32 = top_row + idx;
            let lx: i32 = x + 12;
            let y: i32 = 36;
            if i == selected {
                let hl = DrawCmd::Rect {
                    x: lx,
                    y: y + 30 * idx - 22,
                    w: SCREEN_WIDTH / 2 - 24,
                    h: 30,
                    color: crate::input::rgba(0x18, 0x18, 0x18, 0xff),
                };
                proof {
                    lemma_texts_of_push_shape(out@, hl);
                }
                out.push(hl);
            }
            let label = self.actions[i as usize].as_str();
            let txt = DrawCmd::Text {
                x: lx + 8,
                y: y + 30 * idx,
                color: crate::input::rgba(0xff, 0xff, 0xff, 0xff),
                text: label.to_owned(),
            };
            proof {
                lemma_texts_of_push_text(out@, txt);
                assert(visible_labels(self.actions@, top_row as int, idx + 1)
                    =~= visible_labels(self.actions@, top_row as int, idx as int).push(
                    menu_action_label(self.actions@[top_row + idx]),
                ));
            }
            out.push(txt);
            idx += 1;
        }
        proof {
            lemma_visible_labels_saturates(
                self.actions@,
                top_row as int,
                idx as int,
                display as int,
            );
        }
        out
    }
}

/// The labels of the first `count` visible rows from `top_row`, stopping at
/// the end of the action set.
pub open spec fn visible_labels(actions: Seq<MenuAction>, top_row: int, count: int) -> Seq<
    Seq<char>,
>
    decreases count,
{
    if count <= 0 || top_row >= actions.len() {
        Seq::empty()
    } else if top_row + count - 1 >= actions.len() {
        visible_labels(actions, top_row, count - 1)
    } else {
        visible_labels(actions, top_row, count - 1).push(
            menu_action_label(actions[top_row + count - 1]),
        )
    }
}

/// Rows past the end of the action set add no labels.
proof fn lemma_visible_labels_saturates(actions: Seq<MenuAction>, top_row: int, i: int, count: int)
    requires
        0 <= i <= count,
        top_row >= 0,
        i < count ==> top_row + i >= actions.len(),
    ensures
        visible_labels(actions, top_row, count) == visible_labels(actions, top_row, i),
    decreases count - i,
{
    if i < count {
        lemma_visible_labels_saturates(actions, top_row, i + 1, count);
    }
}

/// Whether a path names the cloud drive (an absolute path).
pub fn str_starts_with_slash(p: &str) -> (r: bool)
    ensures
        r == !path_is_local(p@),
{
    p.unicode_len() > 0 && p.get_char(0) == '/'
}

/// On a file selected local-to-local, an archive is offered extraction and
/// never compression, and anything else compression and never extraction.
pub proof fn lemma_zip_offer_matches_name(
    it: Item,
    from_path: Seq<char>,
    to_path: Seq<char>,
    has_pfs_sibling: bool,
)
    requires
        !it.is_dir,
        path_is_local(from_path),
        path_is_local(to_path),
    ensures
        ({
            let acts = menu_actions_spec(Some(it), from_path, to_path, has_pfs_sibling);
            &&& ends_with_spec(it.name@, ".zip"@) ==> acts.contains(MenuAction::Unzip)
                && !acts.contains(MenuAction::Zip)
            &&& !ends_with_spec(it.name@, ".zip"@) ==> acts.contains(MenuAction::Zip)
                && !acts.contains(MenuAction::Unzip)
        }),
{
    let acts = menu_actions_spec(Some(it), from_path, to_path, has_pfs_sibling);
    let base2 = seq![MenuAction::NewDir] + seq![MenuAction::Rename, MenuAction::Delete];
    let base3 = if to_path.len() > 0 {
        base2 + seq![MenuAction::Copy, MenuAction::Move]
    } else {
        base2
    };
    if ends_with_spec(it.name@, ".zip"@) {
        let base4 = base3 + seq![MenuAction::Unzip];
        assert(base4[base4.len() - 1] == MenuAction::Unzip);
        assert(base4.contains(MenuAction::Unzip));
        assert(forall|k: int| 0 <= k < base4.len() ==> base4[k] != MenuAction::Zip);
        if !(it.name@ == "param.sfo"@ && has_pfs_sibling) {
            assert(acts == base4);
        } else {
            assert(acts == base4 + seq![MenuAction::ChangeAccountId]);
            assert(acts[base4.len() - 1] == MenuAction::Unzip);
            assert(forall|k: int| 0 <= k < acts.len() ==> acts[k] != MenuAction::Zip);
        }
    } else {
        let base4 = base3 + seq![MenuAction::Zip];
        assert(base4[base4.len() - 1] == MenuAction::Zip);
        assert(base4.contains(MenuAction::Zip));
        assert(forall|k: int| 0 <= k < base4.len() ==> base4[k] != MenuAction::Unzip);
        if !(it.name@ == "param.sfo"@ && has_pfs_sibling) {
            assert(acts == base4);
        } else {
            assert(acts == base4 + seq![MenuAction::ChangeAccountId]);
            assert(acts[base4.len() - 1] == MenuAction::Zip);
            assert(forall|k: int| 0 <= k < acts.len() ==> acts[k] != MenuAction::Unzip);
        }
    }
}


/// From a cloud source the menu offers only the download, and only on a
/// file: a selected directory gets no action at all.
pub proof fn lemma_cloud_source_offers_download_only(
    it: Item,
    from_path: Seq<char>,
    to_path: Seq<char>,
    has_pfs_sibling: bool,
)
    requires
        !path_is_local(from_path),
    ensures
        ({
            let acts = menu_actions_spec(Some(it), from_path, to_path, has_pfs_sibling);
            &&& !it.is_dir ==> acts =~= seq![MenuAction::Download]
            &&& it.is_dir ==> acts.len() == 0
        }),
{
}

} // verus!
