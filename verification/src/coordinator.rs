//! The two-panel coordinator: a fixed local panel on the left, a toggleable
//! local-or-cloud panel on the right, focus routing, the single-in-flight
//! action gate, and the decisions each menu action rests on — name checks,
//! destination-exists checks and the raw-prefix self-containment check.

use vstd::prelude::*;

use crate::errors::OpError;
use crate::input::{is_button, SceCtrlButtons};
use crate::menu::{Menu, MenuAction};
use crate::panel::Panel;
use crate::pathutil::{join_path, join_path_spec, normalize_path, sanitize_spec, trim_spec};
use crate::strutil::{starts_with_spec, str_starts_with};

verus! {

/// The screen halves panels sit at.
pub const PANEL_LEFT_X: i32 = 12;

/// The screen halves panels sit at.
pub const PANEL_RIGHT_X: i32 = 492;

/// Both sides of the browser: the fixed local-left panel, a local and a
/// cloud candidate for the right side, which of the two the right side
/// shows, where the focus is, the action menu, and the one-action-at-a-time
/// gate.
pub struct Coordinator {
    pub panels: Vec<Panel>,
    pub active_panel: usize,
    pub right_panel: usize,
    pub menu: Menu,
    pub pending: bool,
}

/// The panels a coordinator must hold: the local-left one, the local-right
/// candidate and the cloud-right candidate.
pub open spec fn coordinator_wf(c: Coordinator) -> bool {
    &&& c.panels@.len() == 3
    &&& c.active_panel == 0 || c.active_panel == c.right_panel
    &&& c.right_panel == 1 || c.right_panel == 2
}

/// The panel the next operation reads from: the focused one.
pub open spec fn from_panel_index(c: Coordinator) -> int {
    c.active_panel as int
}

/// The panel the next operation writes to: the focused panel's counterpart.
pub open spec fn to_panel_index(c: Coordinator) -> int {
    if c.active_panel == 0 {
        c.right_panel as int
    } else {
        0
    }
}

impl Coordinator {
    /// A coordinator over fresh panels: focus on the local-left panel, the
    /// cloud panel on the right, no action in flight.
    pub fn new() -> (r: Coordinator)
        ensures
            coordinator_wf(r),
            r.active_panel == 0,
            r.right_panel == 2,
            !r.pending,
            r.panels@[0].action is Local,
            r.panels@[1].action is Local,
            r.panels@[2].action is Cloud,
    {
        let mut panels: Vec<Panel> = Vec::new();
        panels.push(Panel::new_local(PANEL_LEFT_X));
        panels.push(Panel::new_local(PANEL_RIGHT_X));
        panels.push(Panel::new_cloud(PANEL_RIGHT_X));
        Coordinator {
            panels,
            active_panel: 0,
            right_panel: 2,
            menu: Menu::new(),
            pending: false,
        }
    }

    /// Whether an action is in flight: all panel input is ignored until it
    /// completes.
    pub fn is_pending(&self) -> (r: bool)
        ensures
            r == self.pending,
    {
        self.pending
    }

    /// Claims the single-flight gate for one action: refused while another
    /// action is still in flight, so concurrent duplicates are dropped.
    pub fn begin_action(&mut self) -> (accepted: bool)
        ensures
            old(self).pending ==> !accepted && *final(self) == *old(self),
            !old(self).pending ==> accepted && *final(self) == (Coordinator {
                pending: true,
                ..*old(self)
            }),
    {
        if self.pending {
            false
        } else {
            self.pending = true;
            true
        }
    }

    /// Releases the single-flight gate when the action's background work
    /// completed.
    pub fn finish_action(&mut self)
        ensures
            *final(self) == (Coordinator { pending: false, ..*old(self) }),
    {
        self.pending = false;
    }

    /// The focus and right-side routing step: left focuses the local panel,
    /// right focuses the right panel, and the toggle button swaps which
    /// candidate the right side shows (moving focus with it when it was
    /// there). Ignored while an action is in flight.
    pub fn route_focus(&mut self, buttons: u32)
        requires
            coordinator_wf(*old(self)),
        ensures
            coordinator_wf(*final(self)),
            final(self).panels == old(self).panels,
            final(self).menu == old(self).menu,
            final(self).pending == old(self).pending,
            old(self).pending ==> *final(self) == *old(self),
            !old(self).pending ==> ({
                if is_button(buttons, SceCtrlButtons::SceCtrlLeft) {
                    final(self).active_panel == 0 && final(self).right_panel == old(
                        self,
                    ).right_panel
                } else if is_button(buttons, SceCtrlButtons::SceCtrlRight) {
                    final(self).active_panel == old(self).right_panel && final(self).right_panel
                        == old(self).right_panel
                } else if is_button(buttons, SceCtrlButtons::SceCtrlSquare) {
                    ({
                        let flipped: int = if old(self).right_panel == 2 {
                            1
                        } else {
                            2
                        };
                        &&& final(self).right_panel == flipped
                        &&& old(self).active_panel != 0 ==> final(self).active_panel == flipped
                        &&& old(self).active_panel == 0 ==> final(self).active_panel == 0
                    })
                } else {
                    *final(self) == *old(self)
                }
            }),
    {
        if self.pending {
            return ;
        }
        if is_button(buttons, SceCtrlButtons::SceCtrlLeft) {
            self.active_panel = 0;
        } else if is_button(buttons, SceCtrlButtons::SceCtrlRight) {
            self.active_panel = self.right_panel;
        } else if is_button(buttons, SceCtrlButtons::SceCtrlSquare) {
            self.right_panel = if self.right_panel == 2 {
                1
            } else {
                2
            };
            if self.active_panel != 0 {
                self.active_panel = self.right_panel;
            }
        }
    }
}


/// Whether the action menu may open on the focused panel: only once its
/// stack is initialized and shows a path; on an empty path the user is told
/// to pick a folder or file instead.
pub fn can_open_menu(current_path: &str) -> (r: bool)
    ensures
        r == (current_path@.len() > 0),
{
    current_path.unicode_len() > 0
}

/// The paths one action works on, all derived from the two panels' paths and
/// the selected name: the source directory, the destination directory, the
/// item's source path, its destination path, and the name itself.
pub struct ActionParams {
    pub from_path: String,
    pub to_path: String,
    pub from: String,
    pub to: String,
    pub name: String,
}

/// Joins the selected name onto both panels' paths, yielding everything an
/// action needs.
pub fn get_action_params(from_path: &str, name: &str, to_path: &str) -> (r: ActionParams)
    ensures
        r.from_path@ == from_path@,
        r.to_path@ == to_path@,
        r.from@ == join_path_spec(from_path@, name@),
        r.to@ == join_path_spec(to_path@, name@),
        r.name@ == name@,
{
    ActionParams {
        from_path: from_path.to_owned(),
        to_path: to_path.to_owned(),
        from: join_path(from_path, name),
        to: join_path(to_path, name),
        name: name.to_owned(),
    }
}

/// A copy or move the panels may run: source path and destination path.
pub struct TransferJob {
    pub from: String,
    pub to: String,
}

/// Decides a local copy: refused with `DestinationExists` when the
/// destination path already holds an entry of that name, and with
/// `InvalidInput` when the destination path would lie inside the source path
/// (by raw string prefix, as the source tree is never copied into itself);
/// otherwise the copy from `from_path/name` to `to_path/name` may run.
pub fn copy_local(from_path: &str, name: &str, to_path: &str, dest_exists: bool) -> (r: Result<
    TransferJob,
    OpError,
>)
    ensures
        dest_exists ==> (r matches Err(e) && e == OpError::DestinationExists),
        !dest_exists && starts_with_spec(
            join_path_spec(to_path@, name@),
            join_path_spec(from_path@, name@),
        ) ==> (r matches Err(e) && e == OpError::InvalidInput),
        !dest_exists && !starts_with_spec(
            join_path_spec(to_path@, name@),
            join_path_spec(from_path@, name@),
        ) ==> (r matches Ok(job) && job.from@ == join_path_spec(from_path@, name@) && job.to@
            == join_path_spec(to_path@, name@)),
    {
    if dest_exists {
        return Err(OpError::DestinationExists);
    }
    let params = get_action_params(from_path, name, to_path);
    if str_starts_with(params.to.as_str(), params.from.as_str()) {
        return Err(OpError::InvalidInput);
    }
    Ok(TransferJob { from: params.from, to: params.to })
}

/// Decides a local move: the same refusals as a copy, and the same job.
pub fn move_local(from_path: &str, name: &str, to_path: &str, dest_exists: bool) -> (r: Result<
    TransferJob,
    OpError,
>)
    ensures
        dest_exists ==> (r matches Err(e) && e == OpError::DestinationExists),
        !dest_exists && starts_with_spec(
            join_path_spec(to_path@, name@),
            join_path_spec(from_path@, name@),
        ) ==> (r matches Err(e) && e == OpError::InvalidInput),
        !dest_exists && !starts_with_spec(
            join_path_spec(to_path@, name@),
            join_path_spec(from_path@, name@),
        ) ==> (r matches Ok(job) && job.from@ == join_path_spec(from_path@, name@) && job.to@
            == join_path_spec(to_path@, name@)),
{
    copy_local(from_path, name, to_path, dest_exists)
}

/// Decides a local rename of the typed name: the name is sanitized and
/// trimmed first, an empty result cancels, a result equal to the old name
/// cancels, and otherwise the rename from `from_path/name` to the sanitized
/// target may run.
pub fn rename_local(from_path: &str, name: &str, input: &str) -> (r: Result<TransferJob, OpError>)
    ensures
        ({
            let norm = trim_spec(sanitize_spec(input@));
            if norm.len() == 0 {
                r matches Err(e) && e == OpError::InvalidInput
            } else if join_path_spec(from_path@, norm) == join_path_spec(from_path@, name@) {
                r matches Err(e) && e == OpError::InvalidInput
            } else {
                r matches Ok(job) && job.from@ == join_path_spec(from_path@, name@) && job.to@
                    == join_path_spec(from_path@, norm)
            }
        }),
{
    let norm = normalize_path(input);
    if norm.as_str().unicode_len() == 0 {
        return Err(OpError::InvalidInput);
    }
    let old_name = join_path(from_path, name);
    let new_name = join_path(from_path, norm.as_str());
    if crate::strutil::str_eq(old_name.as_str(), new_name.as_str()) {
        return Err(OpError::InvalidInput);
    }
    Ok(TransferJob { from: old_name, to: new_name })
}

/// Decides a new-folder creation from the typed name: the name is sanitized
/// and trimmed first, an empty result cancels, and otherwise the directory
/// of the sanitized name may be created under the source path.
pub fn create_local_dir(from_path: &str, input: &str) -> (r: Result<String, OpError>)
    ensures
        ({
            let norm = trim_spec(sanitize_spec(input@));
            if norm.len() == 0 {
                r matches Err(e) && e == OpError::InvalidInput
            } else {
                r matches Ok(p) && p@ == join_path_spec(from_path@, norm)
            }
        }),
{
    let norm = normalize_path(input);
    if norm.as_str().unicode_len() == 0 {
        return Err(OpError::InvalidInput);
    }
    Ok(join_path(from_path, norm.as_str()))
}

/// Decides where a compression writes: the item's name with the archive
/// suffix beside it; when that already exists, the typed name instead,
/// sanitized and trimmed (an empty result cancels); a typed target that also
/// exists is refused.
pub fn zip_local_target(
    from_path: &str,
    name: &str,
    primary_exists: bool,
    typed: &str,
    typed_exists: bool,
) -> (r: Result<String, OpError>)
    ensures
        !primary_exists ==> (r matches Ok(p) && p@ == join_path_spec(
            from_path@,
            name@ + ".zip"@,
        )),
        ({
            let norm = trim_spec(sanitize_spec(typed@));
            &&& primary_exists && norm.len() == 0 ==> (r matches Err(e) && e
                == OpError::InvalidInput)
            &&& primary_exists && norm.len() > 0 && typed_exists ==> (r matches Err(e) && e
                == OpError::DestinationExists)
            &&& primary_exists && norm.len() > 0 && !typed_exists ==> (r matches Ok(p) && p@
                == join_path_spec(from_path@, norm + ".zip"@))
        }),
{
    if !primary_exists {
        let mut with_ext = name.to_owned();
        with_ext.append(".zip");
        return Ok(join_path(from_path, with_ext.as_str()));
    }
    let norm = normalize_path(typed);
    if norm.as_str().unicode_len() == 0 {
        return Err(OpError::InvalidInput);
    }
    if typed_exists {
        return Err(OpError::DestinationExists);
    }
    let mut with_ext = norm;
    with_ext.append(".zip");
    Ok(join_path(from_path, with_ext.as_str()))
}

/// Decides where an extraction unpacks: the archive's name without its
/// suffix beside it; when that already exists, the typed name instead,
/// sanitized and trimmed (an empty result cancels); a typed target that also
/// exists is refused.
pub fn unzip_local_target(
    from_path: &str,
    name: &str,
    primary_exists: bool,
    typed: &str,
    typed_exists: bool,
) -> (r: Result<String, OpError>)
    requires
        name@.len() >= 4,
    ensures
        !primary_exists ==> (r matches Ok(p) && p@ == join_path_spec(
            from_path@,
            name@.subrange(0, name@.len() - 4),
        )),
        ({
            let norm = trim_spec(sanitize_spec(typed@));
            &&& primary_exists && norm.len() == 0 ==> (r matches Err(e) && e
                == OpError::InvalidInput)
            &&& primary_exists && norm.len() > 0 && typed_exists ==> (r matches Err(e) && e
                == OpError::DestinationExists)
            &&& primary_exists && norm.len() > 0 && !typed_exists ==> (r matches Ok(p) && p@
                == join_path_spec(from_path@, norm))
        }),
{
    if !primary_exists {
        let n = name.unicode_len();
        let stem = name.substring_char(0, n - 4);
        return Ok(join_path(from_path, stem));
    }
    let norm = normalize_path(typed);
    if norm.as_str().unicode_len() == 0 {
        return Err(OpError::InvalidInput);
    }
    if typed_exists {
        return Err(OpError::DestinationExists);
    }
    Ok(join_path(from_path, norm.as_str()))
}

/// Decides a cloud download: refused with `DestinationExists` when the local
/// destination already holds the name; otherwise the download of the remote
/// entry to `to_path/name` may run.
pub fn download_from_cloud(name: &str, fs_id: u64, to_path: &str, dest_exists: bool) -> (r: Result<
    (u64, String),
    OpError,
>)
    ensures
        dest_exists ==> (r matches Err(e) && e == OpError::DestinationExists),
        !dest_exists ==> (r matches Ok(d) && d.0 == fs_id && d.1@ == join_path_spec(
            to_path@,
            name@,
        )),
{
    if dest_exists {
        return Err(OpError::DestinationExists);
    }
    Ok((fs_id, join_path(to_path, name)))
}

/// What running one menu action needs of the world before its background
/// work may start.
pub enum ActionDecision {
    /// The action runs against the local filesystem.
    RunLocal,
    /// The action runs against the cloud and the session is usable.
    RunCloud,
    /// The action needs the cloud but the session is not usable: show the
    /// activation QR dialog instead.
    ShowActivation,
}

/// Whether a menu action touches the cloud when raised from the given side:
/// the transfers always do, and a new folder does on the cloud panel, where
/// the no-selection menu still offers it; everything else the menu only
/// offers on local sources.
pub open spec fn action_needs_cloud(a: MenuAction, from_local: bool) -> bool {
    match a {
        MenuAction::Upload => true,
        MenuAction::ZipUpload => true,
        MenuAction::Download => true,
        MenuAction::NewDir => !from_local,
        _ => false,
    }
}

/// Routes one selected menu action: local work runs directly; cloud work
/// runs only while the cloud session is usable, and otherwise the
/// activation dialog is shown instead.
pub fn decide_menu_action(a: &MenuAction, from_local: bool, cloud_usable: bool) -> (r:
    ActionDecision)
    ensures
        !action_needs_cloud(*a, from_local) ==> r is RunLocal,
        action_needs_cloud(*a, from_local) && cloud_usable ==> r is RunCloud,
        action_needs_cloud(*a, from_local) && !cloud_usable ==> r is ShowActivation,
{
    let needs_cloud = match a {
        MenuAction::Upload => true,
        MenuAction::ZipUpload => true,
        MenuAction::Download => true,
        MenuAction::NewDir => !from_local,
        _ => false,
    };
    if !needs_cloud {
        ActionDecision::RunLocal
    } else if cloud_usable {
        ActionDecision::RunCloud
    } else {
        ActionDecision::ShowActivation
    }
}


/// What a zip-then-upload stages: the source to compress, the temporary
/// local archive it is written to (a timestamped name beside the source, so
/// nothing is clobbered), and the name the upload carries — the item's name
/// with the archive suffix. After the upload attempt the temporary archive
/// is deleted again, whether the upload succeeded or not.
pub struct ZipUploadPlan {
    pub input_path: String,
    pub tmp_archive: String,
    pub upload_name: String,
}

/// Plans a zip-then-upload of one entry.
pub fn zip_upload_plan(from_path: &str, name: &str, timestamp: &str) -> (r: ZipUploadPlan)
    ensures
        r.input_path@ == join_path_spec(from_path@, name@),
        r.tmp_archive@ == join_path_spec(from_path@, timestamp@ + ".zip"@),
        r.upload_name@ == name@ + ".zip"@,
{
    let mut tmp_name = timestamp.to_owned();
    tmp_name.append(".zip");
    let mut upload_name = name.to_owned();
    upload_name.append(".zip");
    ZipUploadPlan {
        input_path: join_path(from_path, name),
        tmp_archive: join_path(from_path, tmp_name.as_str()),
        upload_name,
    }
}


/// Which panels a completed action refreshes: the panel it mutated — the
/// source, the destination, or both; when both panels show the same path,
/// the source-side refresh reaches the destination too.
pub open spec fn refresh_targets_spec(a: MenuAction, same_paths: bool) -> (bool, bool) {
    match a {
        MenuAction::NewDir => (true, same_paths),
        MenuAction::Rename => (true, same_paths),
        MenuAction::Delete => (true, same_paths),
        MenuAction::Copy => (false, true),
        MenuAction::Move => (true, true),
        MenuAction::Zip => (true, same_paths),
        MenuAction::Unzip => (true, same_paths),
        MenuAction::Upload => (false, true),
        MenuAction::ZipUpload => (false, true),
        MenuAction::Download => (false, true),
        MenuAction::ChangeAccountId => (false, false),
    }
}

/// Which panels a completed action refreshes.
pub fn refresh_targets(a: &MenuAction, same_paths: bool) -> (r: (bool, bool))
    ensures
        r == refresh_targets_spec(*a, same_paths),
{
    match a {
        MenuAction::NewDir => (true, same_paths),
        MenuAction::Rename => (true, same_paths),
        MenuAction::Delete => (true, same_paths),
        MenuAction::Copy => (false, true),
        MenuAction::Move => (true, true),
        MenuAction::Zip => (true, same_paths),
        MenuAction::Unzip => (true, same_paths),
        MenuAction::Upload => (false, true),
        MenuAction::ZipUpload => (false, true),
        MenuAction::Download => (false, true),
        MenuAction::ChangeAccountId => (false, false),
    }
}

} // verus!
