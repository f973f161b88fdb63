//! One side of the dual-pane browser: directory entries, the navigation
//! stack, the single-occupancy pending slot that hands asynchronous listing
//! results back to the panel, and the two backends that produce them.

use vstd::prelude::*;
use vstd::multiset::Multiset;
use vstd::relations::sorted_by;
use vstd::seq_lib::group_to_multiset_ensures;
use vstd::seq_lib::to_multiset_insert;

use crate::draw::{texts_of, visible_window, DrawCmd};
use crate::input::{is_button, SceCtrlButtons};
use crate::list_state::ListState;
use crate::pathutil::{join_path, join_path_spec};
use crate::strutil::{
    lemma_seq_char_le_total, lemma_seq_char_le_trans, seq_char_le, str_le, to_upper, upper_of,
};

verus! {

/// One directory entry on either backend; `fs_id` is present only for cloud
/// entries and is what a cloud download needs.
pub struct Item {
    pub name: String,
    pub is_dir: bool,
    pub fs_id: Option<u64>,
}

impl Item {
    /// An entry with the given fields.
    pub fn new(is_dir: bool, name: String, fs_id: Option<u64>) -> (r: Item)
        ensures
            r.name == name,
            r.is_dir == is_dir,
            r.fs_id == fs_id,
    {
        Item { name, is_dir, fs_id }
    }
}

/// One level of a navigation path: its name, its listing and its own cursor.
pub struct Dir {
    pub name: String,
    pub items: Vec<Item>,
    pub state: ListState,
}

impl Dir {
    /// A directory level over the given listing, with a fresh cursor.
    pub fn new(name: String, items: Vec<Item>) -> (r: Dir)
        ensures
            r.name == name,
            r.items == items,
            r.state.top_row == 0,
            r.state.selected_idx == 0,
            r.state.display_row == 12,
    {
        Dir { name, items, state: ListState::new(12) }
    }

    /// Appends one entry to the listing.
    pub fn add_item(&mut self, is_dir: bool, name: String, fs_id: Option<u64>)
        ensures
            final(self).name == old(self).name,
            final(self).state == old(self).state,
            final(self).items@ == old(self).items@.push(
                Item { name, is_dir, fs_id },
            ),
    {
        self.items.push(Item::new(is_dir, name, fs_id));
    }

    /// The entry under the cursor, if the cursor is inside the listing.
    pub fn current_item(&self) -> (r: Option<&Item>)
        ensures
            ({
                let sel = self.state.selected_idx;
                if 0 <= sel < self.items@.len() {
                    r == Some(&self.items@[sel as int])
                } else {
                    r is None
                }
            }),
    {
        let sel = self.state.selected_idx;
        if 0 <= sel && (sel as usize) < self.items.len() {
            Some(&self.items[sel as usize])
        } else {
            None
        }
    }
}

/// What a pending listing result is to do with the stack: enter a new level
/// or replace the current one.
pub enum DirPendingAction {
    Enter,
    Refresh,
}

/// A completed background listing waiting to be folded into the stack.
pub struct DirPending {
    pub action: DirPendingAction,
    pub dir: Dir,
}

/// The single-occupancy handoff cell of one panel: while a request is in
/// flight no second one is raised, and the result is written once and
/// consumed once by the panel's next poll.
pub struct PendingSlot {
    pub in_flight: bool,
    pub result: Option<DirPending>,
}

/// A slot is occupied while a request is outstanding or its result has not
/// been consumed yet.
pub open spec fn slot_busy(s: PendingSlot) -> bool {
    s.in_flight || s.result is Some
}

/// Raising a request on a slot: an idle slot becomes in-flight and the
/// request is accepted; a busy slot is left alone and the request dropped.
pub open spec fn slot_dispatch_spec(s: PendingSlot) -> (PendingSlot, bool) {
    if slot_busy(s) {
        (s, false)
    } else {
        (PendingSlot { in_flight: true, result: s.result }, true)
    }
}

impl PendingSlot {
    /// An idle slot.
    pub fn new() -> (r: PendingSlot)
        ensures
            !r.in_flight,
            r.result is None,
            !slot_busy(r),
    {
        PendingSlot { in_flight: false, result: None }
    }

    /// Whether a background task still owes this slot a result.
    pub fn is_pending(&self) -> (r: bool)
        ensures
            r == self.in_flight,
    {
        self.in_flight
    }

    /// Raises a request: accepted only on an idle slot, dropped otherwise.
    pub fn dispatch(&mut self) -> (accepted: bool)
        ensures
            (*final(self), accepted) == slot_dispatch_spec(*old(self)),
    {
        if self.in_flight || self.result.is_some() {
            false
        } else {
            self.in_flight = true;
            true
        }
    }

    /// Delivers the result of the outstanding request; the write-back that
    /// the background task performs exactly once.
    pub fn complete(&mut self, cmd: DirPending)
        requires
            old(self).in_flight,
        ensures
            !final(self).in_flight,
            final(self).result == Some(cmd),
    {
        self.result = Some(cmd);
        self.in_flight = false;
    }

    /// Consumes a delivered result, leaving the slot idle.
    pub fn take(&mut self) -> (r: Option<DirPending>)
        ensures
            final(self).in_flight == old(self).in_flight,
            final(self).result is None,
            r == old(self).result,
    {
        self.result.take()
    }
}

/// The order the local backend lists entries in: directories before files,
/// and within each group case-insensitively by name.
pub open spec fn item_le(a: Item, b: Item) -> bool {
    (a.is_dir && !b.is_dir) || (a.is_dir == b.is_dir && seq_char_le(
        upper_of(a.name@),
        upper_of(b.name@),
    ))
}

/// Of any two entries, one precedes the other in listing order.
pub proof fn lemma_item_le_total(a: Item, b: Item)
    ensures
        item_le(a, b) || item_le(b, a),
{
    lemma_seq_char_le_total(upper_of(a.name@), upper_of(b.name@));
}

/// Listing order chains.
pub proof fn lemma_item_le_trans(a: Item, b: Item, c: Item)
    requires
        item_le(a, b),
        item_le(b, c),
    ensures
        item_le(a, c),
{
    if a.is_dir == b.is_dir && b.is_dir == c.is_dir {
        lemma_seq_char_le_trans(upper_of(a.name@), upper_of(b.name@), upper_of(c.name@));
    }
}

/// Whether `a` precedes `b` in listing order.
fn item_le_exec(a: &Item, b: &Item) -> (r: bool)
    ensures
        r == item_le(*a, *b),
{
    if a.is_dir && !b.is_dir {
        true
    } else if a.is_dir != b.is_dir {
        false
    } else {
        let ua = to_upper(a.name.as_str());
        let ub = to_upper(b.name.as_str());
        str_le(ua.as_str(), ub.as_str())
    }
}

/// Sorts a listing into the local backend's order: directories first, then
/// case-insensitive name order; the entries themselves are kept (the result
/// is a permutation).
pub fn sort_items(v: Vec<Item>) -> (r: Vec<Item>)
    ensures
        r@.to_multiset() == v@.to_multiset(),
        sorted_by(r@, |a: Item, b: Item| item_le(a, b)),
{
    let ghost leq = |a: Item, b: Item| item_le(a, b);
    let mut src = v;
    let mut out: Vec<Item> = Vec::new();
    proof {
        out@.to_multiset_ensures();
        broadcast use vstd::multiset::lemma_multiset_empty_len;
        assert(out@.to_multiset() =~= Multiset::empty());
        assert(out@.to_multiset().add(src@.to_multiset()) =~= src@.to_multiset());
    }
    loop
        invariant
            sorted_by(out@, leq),
            out@.to_multiset().add(src@.to_multiset()) == v@.to_multiset(),
            leq == (|a: Item, b: Item| item_le(a, b)),
        ensures
            src@.len() == 0,
            sorted_by(out@, leq),
            out@.to_multiset().add(src@.to_multiset()) == v@.to_multiset(),
        decreases src@.len(),
    {
        let ghost src0 = src@;
        let x = match src.pop() {
            Some(x) => x,
            None => {
                break ;
            },
        };
        proof {
            src@.to_multiset_ensures();
            assert(src0 =~= src@.push(x));
            assert(src0.to_multiset() =~= src@.to_multiset().insert(x));
        }
        let mut j: usize = 0;
        while j < out.len() && item_le_exec(&out[j], &x)
            invariant
                0 <= j <= out@.len(),
                forall|k: int| 0 <= k < j ==> leq(#[trigger] out@[k], x),
                leq == (|a: Item, b: Item| item_le(a, b)),
            decreases out@.len() - j,
        {
            j += 1;
        }
        proof {
            let ins = out@.insert(j as int, x);
            if (j as int) < out@.len() {
                assert(!item_le(out@[j as int], x));
                lemma_item_le_total(out@[j as int], x);
                assert(item_le(x, out@[j as int]));
            }
            assert forall|p: int, q: int| 0 <= p < q < ins.len() implies leq(
                #[trigger] ins[p],
                #[trigger] ins[q],
            ) by {
                if q < j {
                    assert(ins[p] == out@[p] && ins[q] == out@[q]);
                    assert(leq(out@[p], out@[q]));
                } else if q == j {
                    assert(ins[p] == out@[p] && ins[q] == x);
                    assert(leq(out@[p], x));
                } else if p < j {
                    assert(ins[p] == out@[p] && ins[q] == out@[q - 1]);
                    if q - 1 == j {
                        assert(j < out@.len());
                        assert(leq(out@[p], x));
                        lemma_item_le_trans(out@[p], x, out@[j as int]);
                        assert(ins[q] == out@[j as int]);
                    } else {
                        assert(leq(out@[p], out@[q - 1]));
                    }
                } else if p == j {
                    assert(ins[p] == x && ins[q] == out@[q - 1]);
                    assert(j < out@.len());
                    assert(item_le(x, out@[j as int]));
                    if q - 1 > j {
                        assert(leq(out@[j as int], out@[q - 1]));
                        lemma_item_le_trans(x, out@[j as int], out@[q - 1]);
                    }
                } else {
                    assert(ins[p] == out@[p - 1] && ins[q] == out@[q - 1]);
                    assert(leq(out@[p - 1], out@[q - 1]));
                }
            }
            to_multiset_insert(out@, j as int, x);
            assert(ins.to_multiset() =~= out@.to_multiset().insert(x));
            assert(ins.to_multiset().add(src@.to_multiset()) =~= out@.to_multiset().add(
                src@.to_multiset().insert(x),
            ));
        }
        out.insert(j, x);
    }
    proof {
        src@.to_multiset_ensures();
        assert(src@.to_multiset().len() == 0);
        broadcast use vstd::multiset::lemma_multiset_empty_len;
        assert(src@.to_multiset() =~= Multiset::empty());
        assert(out@.to_multiset().add(Multiset::empty()) =~= out@.to_multiset());
    }
    out
}


/// The index of the last separator in the sequence, and a negative value
/// when there is none.
pub open spec fn last_slash_index(s: Seq<char>) -> int
    decreases s.len(),
{
    if s.len() == 0 {
        -1
    } else if s[s.len() - 1] == '/' {
        s.len() - 1
    } else {
        last_slash_index(s.drop_last())
    }
}

/// A scan from the right that stops at the first separator found it.
proof fn lemma_last_slash_index(s: Seq<char>, j: int)
    requires
        -1 <= j < s.len(),
        j >= 0 ==> s[j] == '/',
        forall|k: int| j < k < s.len() ==> s[k] != '/',
    ensures
        last_slash_index(s) == j,
    decreases s.len(),
{
    if s.len() == 0 {
    } else if s[s.len() - 1] == '/' {
        assert(j == s.len() - 1);
    } else {
        let t = s.drop_last();
        assert(forall|k: int| 0 <= k < t.len() ==> #[trigger] t[k] == s[k]);
        lemma_last_slash_index(t, j);
    }
}

/// The last path component: what follows the final separator, a trailing
/// separator ignored.
pub open spec fn file_name_spec(s: Seq<char>) -> Seq<char> {
    let t = if s.len() > 0 && s[s.len() - 1] == '/' {
        s.drop_last()
    } else {
        s
    };
    t.subrange(last_slash_index(t) + 1, t.len() as int)
}

/// The last path component of `s`, a trailing separator ignored; the whole
/// string when it has no separator.
pub fn file_name_of(s: &str) -> (r: String)
    ensures
        r@ == file_name_spec(s@),
{
    let n = s.unicode_len();
    let end: usize = if n > 0 && s.get_char(n - 1) == '/' {
        n - 1
    } else {
        n
    };
    proof {
        if end < n {
            assert(s@.subrange(0, end as int) =~= s@.drop_last());
        } else {
            assert(s@.subrange(0, end as int) =~= s@);
        }
    }
    let ghost t = s@.subrange(0, end as int);
    let mut i: usize = end;
    while i > 0 && s.get_char(i - 1) != '/'
        invariant
            0 <= i <= end <= n,
            n == s@.len(),
            t == s@.subrange(0, end as int),
            forall|k: int| i <= k < end ==> t[k] != '/',
        decreases i,
    {
        i -= 1;
    }
    proof {
        lemma_last_slash_index(t, i - 1);
    }
    let sub = s.substring_char(i, end);
    assert(sub@ =~= t.subrange(i as int, t.len() as int));
    sub.to_owned()
}

/// The absolute path a request lists and the name its resulting directory
/// level carries: entering appends the entry name to the path; refreshing
/// re-lists the path itself, named by its last component (a device root or
/// the filesystem root names itself).
pub fn get_path_and_name(path: &str, item_name: &str, action: &DirPendingAction) -> (r: (
    String,
    String,
))
    ensures
        ({
            match action {
                DirPendingAction::Enter => r.0@ == join_path_spec(path@, item_name@) && r.1@
                    == item_name@,
                DirPendingAction::Refresh => r.0@ == path@ && if path@ =~= seq!['/'] || (path@.len()
                    > 0 && path@[path@.len() - 1] == ':') {
                    r.1@ == path@
                } else {
                    r.1@ == file_name_spec(path@)
                },
            }
        }),
{
    match action {
        DirPendingAction::Enter => (join_path(path, item_name), item_name.to_owned()),
        DirPendingAction::Refresh => {
            let n = path.unicode_len();
            let is_root = n == 1 && path.get_char(0) == '/';
            let is_device = n > 0 && path.get_char(n - 1) == ':';
            proof {
                if n == 1 && path@[0] == '/' {
                    assert(path@ =~= seq!['/']);
                }
                if path@ =~= seq!['/'] {
                    assert(path@.len() == 1 && path@[0] == '/');
                }
            }
            if is_root || is_device {
                (path.to_owned(), path.to_owned())
            } else {
                (path.to_owned(), file_name_of(path))
            }
        },
    }
}

/// A local directory entry as the reader hands it over: its name and whether
/// it is a directory.
pub struct RawEntry {
    pub name: String,
    pub is_dir: bool,
}

/// A cloud directory entry as the remote listing hands it over.
pub struct RemoteItem {
    pub is_dir: bool,
    pub name: String,
    pub fs_id: u64,
}

/// The items of a local listing before sorting.
pub open spec fn local_items_spec(entries: Seq<RawEntry>) -> Seq<Item> {
    entries.map_values(
        |e: RawEntry| (Item { name: e.name, is_dir: e.is_dir, fs_id: None }),
    )
}

/// Builds the pending result of a local listing request: the directory is
/// named per the request, and its items are the entries read from disk,
/// sorted directories-first and then case-insensitively by name.
pub fn do_local_action(
    path: &str,
    item_name: &str,
    action: DirPendingAction,
    entries: Vec<RawEntry>,
) -> (r: DirPending)
    ensures
        r.action == action,
        ({
            match action {
                DirPendingAction::Enter => r.dir.name@ == item_name@,
                DirPendingAction::Refresh => if path@ =~= seq!['/'] || (path@.len() > 0
                    && path@[path@.len() - 1] == ':') {
                    r.dir.name@ == path@
                } else {
                    r.dir.name@ == file_name_spec(path@)
                },
            }
        }),
        r.dir.items@.to_multiset() == local_items_spec(entries@).to_multiset(),
        sorted_by(r.dir.items@, |a: Item, b: Item| item_le(a, b)),
        r.dir.state.top_row == 0 && r.dir.state.selected_idx == 0 && r.dir.state.display_row
            == 12,
{
    let (_abs, name) = get_path_and_name(path, item_name, &action);
    let mut items: Vec<Item> = Vec::new();
    let mut src = entries;
    let ghost entries0 = src@;
    let total = src.len();
    let mut i: usize = 0;
    while src.len() > 0
        invariant
            items@ =~= local_items_spec(entries0.subrange(0, i as int)),
            src@ =~= entries0.subrange(i as int, entries0.len() as int),
            0 <= i <= entries0.len(),
            i + src@.len() == entries0.len(),
            total == entries0.len(),
        decreases src@.len(),
    {
        let e = src.remove(0);
        assert(e == entries0[i as int]);
        items.push(Item::new(e.is_dir, e.name, None));
        proof {
            assert(src@ =~= entries0.subrange(i + 1, entries0.len() as int));
            assert(items@ =~= local_items_spec(entries0.subrange(0, i + 1)));
        }
        i += 1;
    }
    assert(entries0.subrange(0, entries0.len() as int) =~= entries0);
    let sorted = sort_items(items);
    DirPending { action, dir: Dir::new(name, sorted) }
}

/// The items of a cloud listing, in server order.
pub open spec fn cloud_items_spec(listing: Seq<RemoteItem>) -> Seq<Item> {
    listing.map_values(
        |e: RemoteItem| (Item { name: e.name, is_dir: e.is_dir, fs_id: Some(e.fs_id) }),
    )
}

/// Builds the pending result of a cloud listing request: the directory is
/// named per the request and its items mirror the remote listing, server
/// order preserved.
pub fn do_cloud_action(
    path: &str,
    item_name: &str,
    action: DirPendingAction,
    listing: Vec<RemoteItem>,
) -> (r: DirPending)
    ensures
        r.action == action,
        ({
            match action {
                DirPendingAction::Enter => r.dir.name@ == item_name@,
                DirPendingAction::Refresh => if path@ =~= seq!['/'] || (path@.len() > 0
                    && path@[path@.len() - 1] == ':') {
                    r.dir.name@ == path@
                } else {
                    r.dir.name@ == file_name_spec(path@)
                },
            }
        }),
        r.dir.items@ =~= cloud_items_spec(listing@),
        r.dir.state.top_row == 0 && r.dir.state.selected_idx == 0 && r.dir.state.display_row
            == 12,
{
    let (_abs, name) = get_path_and_name(path, item_name, &action);
    let mut dir = Dir::new(name, Vec::new());
    let mut src = listing;
    let ghost listing0 = src@;
    let total = src.len();
    let mut i: usize = 0;
    while src.len() > 0
        invariant
            dir.items@ =~= cloud_items_spec(listing0.subrange(0, i as int)),
            src@ =~= listing0.subrange(i as int, listing0.len() as int),
            0 <= i <= listing0.len(),
            i + src@.len() == listing0.len(),
            total == listing0.len(),
            dir.state.top_row == 0 && dir.state.selected_idx == 0 && dir.state.display_row == 12,
            ({
                match action {
                    DirPendingAction::Enter => dir.name@ == item_name@,
                    DirPendingAction::Refresh => if path@ =~= seq!['/'] || (path@.len() > 0
                        && path@[path@.len() - 1] == ':') {
                        dir.name@ == path@
                    } else {
                        dir.name@ == file_name_spec(path@)
                    },
                }
            }),
        decreases src@.len(),
    {
        let e = src.remove(0);
        assert(e == listing0[i as int]);
        dir.add_item(e.is_dir, e.name, Some(e.fs_id));
        proof {
            assert(src@ =~= listing0.subrange(i + 1, listing0.len() as int));
            assert(dir.items@ =~= cloud_items_spec(listing0.subrange(0, i + 1)));
        }
        i += 1;
    }
    assert(listing0.subrange(0, listing0.len() as int) =~= listing0);
    DirPending { action, dir }
}


/// A listing request handed to the background worker: which backend, what to
/// list, and how the result is to be folded into the stack.
pub struct DispatchCmd {
    pub is_cloud: bool,
    pub path: String,
    pub item_name: String,
    pub action: DirPendingAction,
}

/// What a panel's initialization step may read of the world: the time, the
/// session state, and which devices are mounted.
pub struct InitEnv {
    pub now_ms: u64,
    pub logged_in: bool,
    pub devices_present: Vec<String>,
}

/// The root listing the local backend installs: one directory entry per
/// mounted device, in the given order.
pub open spec fn local_root_items_spec(devices: Seq<String>) -> Seq<Item> {
    devices.map_values(|d: String| (Item { name: d, is_dir: true, fs_id: None }))
}

/// The navigation capability of one backend: installing a root listing,
/// raising listing requests, and popping the stack.
pub trait Action {
    /// Whether requests of this backend go to the cloud.
    spec fn backend_is_cloud(&self) -> bool;

    /// Populates an empty stack, or raises the request that will: a stack
    /// that already has an entry is left alone.
    fn init(&mut self, dirs: &mut Vec<Dir>, slot: &mut PendingSlot, env: &InitEnv) -> (r: Option<
        DispatchCmd,
    >)
        ensures
            old(dirs)@.len() > 0 ==> final(dirs)@ == old(dirs)@ && r is None && *final(slot)
                == *old(slot),
            r is Some ==> !slot_busy(*old(slot)) && *final(slot) == (PendingSlot {
                in_flight: true,
                result: old(slot).result,
            }) && r.unwrap().is_cloud == old(self).backend_is_cloud(),
            r is None ==> *final(slot) == *old(slot),
    ;

    /// Raises a listing request on the slot: accepted only while none is
    /// outstanding, and otherwise dropped whole.
    fn do_action(
        &self,
        path: &str,
        item_name: &str,
        action: DirPendingAction,
        slot: &mut PendingSlot,
    ) -> (r: Option<DispatchCmd>)
        ensures
            slot_busy(*old(slot)) ==> r is None && *final(slot) == *old(slot),
            !slot_busy(*old(slot)) ==> final(slot).in_flight && final(slot).result == old(
                slot,
            ).result && (r matches Some(cmd) && cmd.path@ == path@ && cmd.item_name@ == item_name@
                && cmd.action == action && cmd.is_cloud == self.backend_is_cloud()),
    ;

    /// Pops the stack, unless only the root remains.
    fn pop_dir(&self, dirs: &mut Vec<Dir>)
        ensures
            old(dirs)@.len() <= 1 ==> final(dirs)@ == old(dirs)@,
            old(dirs)@.len() > 1 ==> final(dirs)@ == old(dirs)@.drop_last(),
    ;
}

/// The local-filesystem backend.
pub struct LocalAction {}

impl LocalAction {
    /// A local backend.
    pub fn new() -> (r: LocalAction) {
        LocalAction {  }
    }
}

impl Action for LocalAction {
    open spec fn backend_is_cloud(&self) -> bool {
        false
    }

    /// Installs the synthetic root listing every mounted device, and raises
    /// no request.
    fn init(&mut self, dirs: &mut Vec<Dir>, slot: &mut PendingSlot, env: &InitEnv) -> (r: Option<
        DispatchCmd,
    >)
        ensures
            old(dirs)@.len() == 0 ==> final(dirs)@.len() == 1 && final(dirs)@[0].name@
                == Seq::<char>::empty() && final(dirs)@[0].items@ =~= local_root_items_spec(
                env.devices_present@,
            ),
            r is None,
    {
        if dirs.len() > 0 {
            return None;
        }
        let mut items: Vec<Item> = Vec::new();
        let mut i: usize = 0;
        let n = env.devices_present.len();
        while i < n
            invariant
                0 <= i <= n,
                n == env.devices_present@.len(),
                items@ =~= local_root_items_spec(env.devices_present@.subrange(0, i as int)),
            decreases n - i,
        {
            let name = env.devices_present[i].clone();
            items.push(Item { name, is_dir: true, fs_id: None });
            proof {
                assert(items@ =~= local_root_items_spec(
                    env.devices_present@.subrange(0, i + 1),
                ));
            }
            i += 1;
        }
        assert(env.devices_present@.subrange(0, n as int) =~= env.devices_present@);
        let root = Dir::new(String::new(), items);
        dirs.push(root);
        None
    }

    fn do_action(
        &self,
        path: &str,
        item_name: &str,
        action: DirPendingAction,
        slot: &mut PendingSlot,
    ) -> (r: Option<DispatchCmd>) {
        if !slot.dispatch() {
            return None;
        }
        Some(
            DispatchCmd {
                is_cloud: false,
                path: path.to_owned(),
                item_name: item_name.to_owned(),
                action,
            },
        )
    }

    fn pop_dir(&self, dirs: &mut Vec<Dir>) {
        if dirs.len() <= 1 {
            return ;
        }
        let ghost d0 = dirs@;
        dirs.pop();
        assert(dirs@ =~= d0.drop_last());
    }
}

/// How long the cloud backend waits before it retries listing its root.
pub const CLOUD_INIT_RETRY_MS: u64 = 10000;

/// The cloud backend: it lists nothing until a session is authenticated, and
/// retries its root listing no more often than every ten seconds.
pub struct CloudAction {
    pub last_init_at: u64,
}

impl CloudAction {
    /// A cloud backend whose first root listing may fire at once.
    pub fn new() -> (r: CloudAction)
        ensures
            r.last_init_at == 0,
    {
        CloudAction { last_init_at: 0 }
    }
}

impl Action for CloudAction {
    open spec fn backend_is_cloud(&self) -> bool {
        true
    }

    /// Raises the root listing request once authenticated: only while no
    /// request is outstanding, and not within the retry window of the last
    /// one.
    fn init(&mut self, dirs: &mut Vec<Dir>, slot: &mut PendingSlot, env: &InitEnv) -> (r: Option<
        DispatchCmd,
    >)
        ensures
            final(dirs)@ == old(dirs)@,
            old(dirs)@.len() == 0 && env.logged_in && !slot_busy(*old(slot)) && env.now_ms >= old(
                self,
            ).last_init_at + CLOUD_INIT_RETRY_MS ==> (r matches Some(cmd) && cmd.is_cloud
                && cmd.action is Enter && cmd.path@ == Seq::<char>::empty() && cmd.item_name@
                == seq!['/']),
            !(old(dirs)@.len() == 0 && env.logged_in && !slot_busy(*old(slot)) && env.now_ms >= old(
                self,
            ).last_init_at + CLOUD_INIT_RETRY_MS) ==> r is None,
    {
        if dirs.len() > 0 {
            return None;
        }
        if !env.logged_in {
            return None;
        }
        let due = env.now_ms >= CLOUD_INIT_RETRY_MS && env.now_ms - CLOUD_INIT_RETRY_MS
            >= self.last_init_at;
        if !due {
            return None;
        }
        proof {
            reveal_strlit("/");
            assert("/"@ =~= seq!['/']);
            reveal_strlit("");
            assert(""@ =~= Seq::<char>::empty());
        }
        self.do_action("", "/", DirPendingAction::Enter, slot)
    }

    fn do_action(
        &self,
        path: &str,
        item_name: &str,
        action: DirPendingAction,
        slot: &mut PendingSlot,
    ) -> (r: Option<DispatchCmd>) {
        if !slot.dispatch() {
            return None;
        }
        Some(
            DispatchCmd {
                is_cloud: true,
                path: path.to_owned(),
                item_name: item_name.to_owned(),
                action,
            },
        )
    }

    fn pop_dir(&self, dirs: &mut Vec<Dir>) {
        if dirs.len() <= 1 {
            return ;
        }
        let ghost d0 = dirs@;
        dirs.pop();
        assert(dirs@ =~= d0.drop_last());
    }
}


/// The backend bound to a panel: a closed set of two.
pub enum BackendAction {
    Local(LocalAction),
    Cloud(CloudAction),
}

impl Action for BackendAction {
    open spec fn backend_is_cloud(&self) -> bool {
        self is Cloud
    }

    fn init(&mut self, dirs: &mut Vec<Dir>, slot: &mut PendingSlot, env: &InitEnv) -> (r: Option<
        DispatchCmd,
    >)
        ensures
            ({
                match *old(self) {
                    BackendAction::Local(_) => old(dirs)@.len() == 0 ==> final(dirs)@.len() == 1
                        && final(dirs)@[0].name@ == Seq::<char>::empty()
                        && final(dirs)@[0].items@ =~= local_root_items_spec(env.devices_present@)
                        && r is None,
                    BackendAction::Cloud(c) => final(dirs)@ == old(dirs)@ && (old(dirs)@.len() == 0
                        && env.logged_in && !slot_busy(*old(slot)) && env.now_ms >= c.last_init_at
                        + CLOUD_INIT_RETRY_MS ==> (r matches Some(cmd) && cmd.is_cloud
                        && cmd.action is Enter && cmd.path@ == Seq::<char>::empty()
                        && cmd.item_name@ == seq!['/'])) && (!(old(dirs)@.len() == 0
                        && env.logged_in && !slot_busy(*old(slot)) && env.now_ms >= c.last_init_at
                        + CLOUD_INIT_RETRY_MS) ==> r is None),
                }
            }),
    {
        match self {
            BackendAction::Local(a) => a.init(dirs, slot, env),
            BackendAction::Cloud(a) => a.init(dirs, slot, env),
        }
    }

    fn do_action(
        &self,
        path: &str,
        item_name: &str,
        action: DirPendingAction,
        slot: &mut PendingSlot,
    ) -> (r: Option<DispatchCmd>) {
        match self {
            BackendAction::Local(a) => a.do_action(path, item_name, action, slot),
            BackendAction::Cloud(a) => a.do_action(path, item_name, action, slot),
        }
    }

    fn pop_dir(&self, dirs: &mut Vec<Dir>) {
        match self {
            BackendAction::Local(a) => a.pop_dir(dirs),
            BackendAction::Cloud(a) => a.pop_dir(dirs),
        }
    }
}

/// The path segment one stack level contributes: device roots and the
/// filesystem root name themselves, every other level gets a trailing
/// separator.
pub open spec fn path_seg_spec(d: Dir) -> Seq<char> {
    if d.name@.len() == 0 || d.name@ == seq!['/'] {
        d.name@
    } else {
        d.name@ + seq!['/']
    }
}

/// The full path of a stack: the join of every level's segment.
pub open spec fn panel_path_spec(dirs: Seq<Dir>) -> Seq<char>
    decreases dirs.len(),
{
    if dirs.len() == 0 {
        Seq::empty()
    } else {
        panel_path_spec(dirs.drop_last()) + path_seg_spec(dirs.last())
    }
}

/// Folding one delivered listing into a stack: an `Enter` result is pushed
/// as a new level; a `Refresh` result replaces the top level but keeps its
/// cursor, so the selection survives the refresh.
pub open spec fn apply_pending_spec(dirs: Seq<Dir>, cmd: DirPending) -> Seq<Dir> {
    match cmd.action {
        DirPendingAction::Enter => dirs.push(cmd.dir),
        DirPendingAction::Refresh => if dirs.len() == 0 {
            dirs.push(cmd.dir)
        } else {
            dirs.drop_last().push(
                Dir { name: cmd.dir.name, items: cmd.dir.items, state: dirs.last().state },
            )
        },
    }
}

/// The entry under the cursor of the top stack level, if any.
pub open spec fn panel_current_item_spec(dirs: Seq<Dir>) -> Option<Item> {
    if dirs.len() == 0 {
        None
    } else {
        let d = dirs.last();
        if 0 <= d.state.selected_idx < d.items@.len() {
            Some(d.items@[d.state.selected_idx as int])
        } else {
            None
        }
    }
}

/// A stack level whose cursor the per-frame step can run on.
pub open spec fn dir_wf(d: Dir) -> bool {
    &&& 1 <= d.state.display_row
    &&& 0 <= d.state.top_row
    &&& 0 <= d.state.selected_idx <= i32::MAX - 1
    &&& d.items@.len() <= i32::MAX
}

/// One side of the dual-pane browser: its navigation stack, its backend and
/// its pending slot.
pub struct Panel {
    pub left: i32,
    pub dirs: Vec<Dir>,
    pub action: BackendAction,
    pub slot: PendingSlot,
}

impl Panel {
    /// A panel over the local filesystem, drawn `left` pixels in.
    pub fn new_local(left: i32) -> (r: Panel)
        ensures
            r.left == left,
            r.dirs@.len() == 0,
            r.action is Local,
            !slot_busy(r.slot),
    {
        Panel {
            left,
            dirs: Vec::new(),
            action: BackendAction::Local(LocalAction::new()),
            slot: PendingSlot::new(),
        }
    }

    /// A panel over the cloud drive, drawn `left` pixels in.
    pub fn new_cloud(left: i32) -> (r: Panel)
        ensures
            r.left == left,
            r.dirs@.len() == 0,
            r.action is Cloud,
            !slot_busy(r.slot),
    {
        Panel {
            left,
            dirs: Vec::new(),
            action: BackendAction::Cloud(CloudAction::new()),
            slot: PendingSlot::new(),
        }
    }

    /// Whether a listing request of this panel is still outstanding.
    pub fn is_pending(&self) -> (r: bool)
        ensures
            r == self.slot.in_flight,
    {
        self.slot.is_pending()
    }

    /// While a request is outstanding the panel claims all input.
    pub fn is_forces(&self) -> (r: bool)
        ensures
            r == self.slot.in_flight,
    {
        self.is_pending()
    }

    /// The top stack level, if the stack is initialized.
    pub fn current_dir(&self) -> (r: Option<&Dir>)
        ensures
            self.dirs@.len() == 0 ==> r is None,
            self.dirs@.len() > 0 ==> r == Some(&self.dirs@[self.dirs@.len() - 1]),
    {
        if self.dirs.len() == 0 {
            None
        } else {
            Some(&self.dirs[self.dirs.len() - 1])
        }
    }

    /// The entry under the cursor of the top stack level, if any.
    pub fn current_item(&self) -> (r: Option<&Item>)
        ensures
            ({
                match panel_current_item_spec(self.dirs@) {
                    Some(it) => r matches Some(x) && *x == it,
                    None => r is None,
                }
            }),
    {
        match self.current_dir() {
            Some(dir) => dir.current_item(),
            None => None,
        }
    }

    /// The full path of the panel's stack, one segment per level, each but
    /// the roots closed by a separator.
    pub fn current_dir_path(&self) -> (r: String)
        ensures
            r@ == panel_path_spec(self.dirs@),
    {
        let mut acc = String::new();
        let mut i: usize = 0;
        let n = self.dirs.len();
        while i < n
            invariant
                0 <= i <= n,
                n == self.dirs@.len(),
                acc@ == panel_path_spec(self.dirs@.subrange(0, i as int)),
            decreases n - i,
        {
            let d = &self.dirs[i];
            let m = d.name.as_str().unicode_len();
            let flat = m == 0 || (m == 1 && d.name.as_str().get_char(0) == '/');
            proof {
                if m == 1 && d.name@[0] == '/' {
                    assert(d.name@ =~= seq!['/']);
                }
            }
            acc.append(d.name.as_str());
            if !flat {
                acc.push('/');
            }
            proof {
                let pre = self.dirs@.subrange(0, i as int);
                let cur = self.dirs@.subrange(0, i + 1);
                assert(cur.drop_last() =~= pre);
                assert(cur.last() == self.dirs@[i as int]);
            }
            i += 1;
        }
        assert(self.dirs@.subrange(0, n as int) =~= self.dirs@);
        acc
    }

    /// Raises a refresh of the current directory; dropped while another
    /// request is outstanding.
    pub fn refresh_current_dir(&mut self) -> (r: Option<DispatchCmd>)
        ensures
            final(self).dirs == old(self).dirs,
            final(self).action == old(self).action,
            slot_busy(old(self).slot) ==> r is None && final(self).slot == old(self).slot,
            !slot_busy(old(self).slot) ==> final(self).slot.in_flight && (r matches Some(cmd)
                && cmd.path@ == panel_path_spec(old(self).dirs@) && cmd.item_name@
                == Seq::<char>::empty() && cmd.action is Refresh && cmd.is_cloud == old(
                self,
            ).action.backend_is_cloud()),
    {
        let path = self.current_dir_path();
        proof {
            reveal_strlit("");
            assert(""@ =~= Seq::<char>::empty());
        }
        self.action.do_action(path.as_str(), "", DirPendingAction::Refresh, &mut self.slot)
    }

    /// The background task's other exit: the listing failed, so the request
    /// is abandoned without a result and the current directory stays as it
    /// is.
    pub fn abandon_request(&mut self)
        requires
            old(self).slot.in_flight,
        ensures
            final(self).dirs == old(self).dirs,
            final(self).left == old(self).left,
            final(self).action == old(self).action,
            !final(self).slot.in_flight,
            final(self).slot.result == old(self).slot.result,
    {
        self.slot.in_flight = false;
    }

    /// The background task's write-back: delivers the outstanding request's
    /// result into the slot, and stamps the cloud backend's retry clock.
    pub fn deliver(&mut self, cmd: DirPending, now_ms: u64)
        requires
            old(self).slot.in_flight,
        ensures
            final(self).dirs == old(self).dirs,
            final(self).left == old(self).left,
            !final(self).slot.in_flight,
            final(self).slot.result == Some(cmd),
            ({
                match old(self).action {
                    BackendAction::Local(_) => final(self).action == old(self).action,
                    BackendAction::Cloud(_) => final(self).action == BackendAction::Cloud(
                        CloudAction { last_init_at: now_ms },
                    ),
                }
            }),
    {
        self.slot.complete(cmd);
        match &mut self.action {
            BackendAction::Local(_) => {},
            BackendAction::Cloud(c) => {
                c.last_init_at = now_ms;
            },
        }
    }

    /// The per-frame poll: consumes a delivered listing into the stack (an
    /// `Enter` pushes a level, a `Refresh` replaces the top one keeping its
    /// cursor), then lets the backend populate or request an empty stack.
    pub fn init(&mut self, env: &InitEnv) -> (r: Option<DispatchCmd>)
        ensures
            old(self).slot.in_flight ==> *final(self) == *old(self) && r is None,
            !old(self).slot.in_flight ==> ({
                let dirs1 = match old(self).slot.result {
                    Some(cmd) => apply_pending_spec(old(self).dirs@, cmd),
                    None => old(self).dirs@,
                };
                &&& final(self).slot.result is None
                &&& dirs1.len() > 0 ==> final(self).dirs@ == dirs1 && r is None
                    && !final(self).slot.in_flight
                &&& dirs1.len() == 0 ==> match old(self).action {
                    BackendAction::Local(_) => final(self).dirs@.len() == 1 && final(self).dirs@[0].name@ == Seq::<char>::empty() && final(self).dirs@[0].items@
                        =~= local_root_items_spec(env.devices_present@) && r is None,
                    BackendAction::Cloud(c) => final(self).dirs@ == dirs1 && (env.logged_in
                        && env.now_ms >= c.last_init_at + CLOUD_INIT_RETRY_MS ==> (
                    r matches Some(cmd) && cmd.is_cloud && cmd.action is Enter && cmd.path@
                        == Seq::<char>::empty() && cmd.item_name@ == seq!['/']) && final(self).slot.in_flight) && (!(env.logged_in && env.now_ms >= c.last_init_at
                        + CLOUD_INIT_RETRY_MS) ==> r is None),
                }
            }),
    {
        if self.slot.is_pending() {
            return None;
        }
        if let Some(mut cmd) = self.slot.take() {
            match cmd.action {
                DirPendingAction::Refresh => {
                    let old_dir = self.dirs.pop();
                    match old_dir {
                        Some(d) => {
                            cmd.dir.state = d.state;
                        },
                        None => {},
                    }
                    let ghost mid = self.dirs@;
                    self.dirs.push(cmd.dir);
                    proof {
                        assert(self.dirs@ =~= mid.push(cmd.dir));
                    }
                },
                DirPendingAction::Enter => {
                    self.dirs.push(cmd.dir);
                },
            }
        }
        self.action.init(&mut self.dirs, &mut self.slot, env)
    }

    /// The per-frame input step: entering the selected directory raises a
    /// listing request (dropped while one is outstanding), the back button
    /// pops the stack above its root, and otherwise the cursor scrolls; all
    /// input is ignored while a request is outstanding.
    pub fn update(&mut self, buttons: u32) -> (r: Option<DispatchCmd>)
        requires
            old(self).dirs@.len() > 0 ==> dir_wf(old(self).dirs@.last()),
        ensures
            old(self).slot.in_flight ==> *final(self) == *old(self) && r is None,
            !old(self).slot.in_flight ==> ({
                let enter_case = is_button(buttons, SceCtrlButtons::SceCtrlCircle) && (
                panel_current_item_spec(old(self).dirs@) matches Some(it) && it.is_dir);
                let cross_case = !is_button(buttons, SceCtrlButtons::SceCtrlCircle) && is_button(
                    buttons,
                    SceCtrlButtons::SceCtrlCross,
                );
                if enter_case {
                    ({
                        let it = panel_current_item_spec(old(self).dirs@).unwrap();
                        &&& final(self).dirs == old(self).dirs
                        &&& final(self).action == old(self).action
                        &&& slot_busy(old(self).slot) ==> r is None && final(self).slot == old(
                            self,
                        ).slot
                        &&& !slot_busy(old(self).slot) ==> final(self).slot.in_flight && (
                        r matches Some(cmd) && cmd.path@ == panel_path_spec(old(self).dirs@)
                            && cmd.item_name@ == it.name@ && cmd.action is Enter && cmd.is_cloud
                            == old(self).action.backend_is_cloud())
                    })
                } else if cross_case {
                    &&& r is None
                    &&& final(self).slot == old(self).slot
                    &&& final(self).action == old(self).action
                    &&& old(self).dirs@.len() <= 1 ==> final(self).dirs@ == old(self).dirs@
                    &&& old(self).dirs@.len() > 1 ==> final(self).dirs@ == old(
                        self,
                    ).dirs@.drop_last()
                } else if !is_button(buttons, SceCtrlButtons::SceCtrlCircle) && old(
                    self,
                ).dirs@.len() > 0 {
                    ({
                        let d = old(self).dirs@.last();
                        let d1 = Dir {
                            name: d.name,
                            items: d.items,
                            state: crate::list_state::update_spec(
                                d.state,
                                d.items@.len() as int,
                                buttons,
                            ),
                        };
                        &&& r is None
                        &&& final(self).slot == old(self).slot
                        &&& final(self).action == old(self).action
                        &&& final(self).dirs@ == old(self).dirs@.drop_last().push(d1)
                    })
                } else {
                    *final(self) == *old(self) && r is None
                }
            }),
    {
        if self.slot.is_pending() {
            return None;
        }
        if is_button(buttons, SceCtrlButtons::SceCtrlCircle) {
            let path = self.current_dir_path();
            let mut name: Option<String> = None;
            match self.current_item() {
                Some(item) => {
                    if item.is_dir {
                        name = Some(item.name.clone());
                    }
                },
                None => {},
            }
            match name {
                Some(n) => {
                    return self.action.do_action(
                        path.as_str(),
                        n.as_str(),
                        DirPendingAction::Enter,
                        &mut self.slot,
                    );
                },
                None => {
                    return None;
                },
            }
        } else if is_button(buttons, SceCtrlButtons::SceCtrlCross) {
            self.action.pop_dir(&mut self.dirs);
            return None;
        } else {
            let n = self.dirs.len();
            if n > 0 {
                let ghost d0 = self.dirs@;
                let size = self.dirs[n - 1].items.len();
                let dref = &mut self.dirs[n - 1];
                dref.state.update(size as i32, buttons);
                proof {
                    assert(self.dirs@ =~= d0.drop_last().push(self.dirs@[n - 1]));
                }
            }
            return None;
        }
    }
}


/// The names a listing shows, in order.
pub open spec fn item_names(items: Seq<Item>) -> Seq<Seq<char>> {
    items.map_values(|it: Item| it.name@)
}

impl Panel {
    /// The panel's rows: the visible slice of the current listing's names,
    /// the selected row highlighted while the panel has focus. Nothing
    /// without an initialized stack; the empty-listing placeholder and the
    /// scrolling of long names stay in the presentation layer.
    pub fn draw(&self, is_active: bool) -> (r: Vec<DrawCmd>)
        requires
            self.dirs@.len() > 0 ==> dir_wf(self.dirs@.last()) && self.dirs@.last().state.top_row
                + self.dirs@.last().state.display_row <= i32::MAX && self.dirs@.last(
            ).state.display_row <= 10000,
            -10000 <= self.left <= 10000,
        ensures
            self.dirs@.len() == 0 ==> r@.len() == 0,
            self.dirs@.len() > 0 ==> texts_of(r@) =~= visible_window(
                item_names(self.dirs@.last().items@),
                self.dirs@.last().state.top_row as int,
                self.dirs@.last().state.display_row as int,
            ),
    {
        let mut out: Vec<DrawCmd> = Vec::new();
        let dir = match self.current_dir() {
            Some(d) => d,
            None => {
                assert(texts_of(out@) =~= Seq::<Seq<char>>::empty());
                return out;
            },
        };
        let top_row = dir.state.top_row;
        let selected = dir.state.selected_idx;
        let display = dir.state.display_row;
        let size = dir.items.len();
        let ghost names = item_names(dir.items@);
        proof {
            assert(texts_of(out@) =~= Seq::<Seq<char>>::empty());
        }
        let mut idx: i32 = 0;
        while idx < display && top_row + idx < size as i32
            invariant
                0 <= idx <= display,
                0 <= top_row,
                1 <= display <= 10000,
                top_row + display <= i32::MAX,
                -10000 <= self.left <= 10000,
                size == dir.items@.len() <= i32::MAX,
                dir == &self.dirs@.last(),
                names == item_names(dir.items@),
                texts_of(out@) =~= visible_window(names, top_row as int, idx as int),
            decreases display - idx,
        {
            let i: i32 = top_row + idx;
            let x: i32 = self.left;
            let y: i32 = 129;
            if is_active && i == selected {
                let hl = DrawCmd::Rect {
                    x,
                    y: y + 30 * idx - 21,
                    w: crate::draw::SCREEN_WIDTH / 2 - 24,
                    h: 30,
                    color: crate::input::rgba(0x2c, 0x2d, 0x31, 0xff),
                };
                proof {
                    crate::draw::lemma_texts_of_push_shape(out@, hl);
                }
                out.push(hl);
            }
            let item = &dir.items[i as usize];
            let color = if item.is_dir {
                crate::input::rgba(0x00, 0xb4, 0xd8, 0xff)
            } else {
                crate::input::rgba(0xee, 0xee, 0xee, 0xff)
            };
            let txt = DrawCmd::Text { x: x + 8, y: y + 30 * idx, color, text: item.name.clone() };
            proof {
                crate::draw::lemma_texts_of_push_text(out@, txt);
                assert(visible_window(names, top_row as int, idx + 1) =~= visible_window(
                    names,
                    top_row as int,
                    idx as int,
                ).push(names[top_row + idx]));
            }
            out.push(txt);
            idx += 1;
        }
        proof {
            crate::draw::lemma_visible_window_saturates(
                names,
                top_row as int,
                idx as int,
                display as int,
            );
        }
        out
    }
}

/// The devices a local root may list, in the order they are probed.
pub fn psv_devices() -> (r: Vec<String>)
    ensures
        r@.len() == 11,
        r@[0]@ == "ux0:"@ && r@[1]@ == "uma0:"@ && r@[2]@ == "grw0:"@ && r@[3]@ == "os0:"@
            && r@[4]@ == "pd0:"@ && r@[5]@ == "sa0:"@ && r@[6]@ == "tm0:"@ && r@[7]@ == "ud0:"@
            && r@[8]@ == "ur0:"@ && r@[9]@ == "vd0:"@ && r@[10]@ == "vs0:"@,
{
    let mut v: Vec<String> = Vec::new();
    v.push("ux0:".to_owned());
    v.push("uma0:".to_owned());
    v.push("grw0:".to_owned());
    v.push("os0:".to_owned());
    v.push("pd0:".to_owned());
    v.push("sa0:".to_owned());
    v.push("tm0:".to_owned());
    v.push("ud0:".to_owned());
    v.push("ur0:".to_owned());
    v.push("vd0:".to_owned());
    v.push("vs0:".to_owned());
    v
}


/// Folding a refresh result into an initialized stack keeps its depth and
/// the user's cursor: the top level is replaced by the fresh listing under
/// its old cursor state, so a refresh after any action is always safe and
/// only re-derives the listing.
pub proof fn lemma_refresh_keeps_depth_and_cursor(dirs: Seq<Dir>, cmd: DirPending)
    requires
        cmd.action is Refresh,
        dirs.len() > 0,
    ensures
        ({
            let after = apply_pending_spec(dirs, cmd);
            &&& after.len() == dirs.len()
            &&& after.last().state == dirs.last().state
            &&& after.last().name == cmd.dir.name
            &&& after.last().items == cmd.dir.items
            &&& forall|k: int| 0 <= k < dirs.len() - 1 ==> #[trigger] after[k] == dirs[k]
        }),
{
}

/// Raising two `Enter` requests on one panel before the first completes
/// accepts exactly the first: the second finds the slot occupied and is
/// dropped whole, and folding the one result into the stack pushes exactly
/// one new level.
pub proof fn lemma_second_enter_is_dropped(s0: PendingSlot, dirs: Seq<Dir>, d: Dir)
    requires
        !slot_busy(s0),
    ensures
        ({
            let (s1, accepted1) = slot_dispatch_spec(s0);
            let (s2, accepted2) = slot_dispatch_spec(s1);
            let after = apply_pending_spec(
                dirs,
                DirPending { action: DirPendingAction::Enter, dir: d },
            );
            &&& accepted1
            &&& !accepted2
            &&& s2 == s1
            &&& after.len() == dirs.len() + 1
            &&& after.last() == d
        }),
{
}

} // verus!



