//! Decisions of the per-title backup and restore lists: where a title's save
//! lives, what a new backup is called, which cloud entry a delete names, and
//! when an upload is allowed.

use vstd::prelude::*;

use crate::archive::{contains_name, names_view};
use crate::draw::{texts_of, visible_window, DrawCmd};
use crate::codec::{percent_encode_non_alphanumeric, percent_encoded_of};
use crate::pathutil::{
    first_prefix_index, get_game_local_backup_dir, join_path, join_path_spec, sanitize_spec,
    trim_spec,
};
use crate::input::{is_button, SceCtrlButtons};
use crate::strutil::str_eq;

verus! {

/// Where a game-card title's save lives.
pub fn game_card_save_dir() -> (r: &'static str)
    ensures
        r@ == "grw0:savedata"@,
    {
    "grw0:savedata"
}

/// Where an installed title's save lives.
pub fn game_save_dir() -> (r: &'static str)
    ensures
        r@ == "ux0:user/00/savedata"@,
{
    "ux0:user/00/savedata"
}

/// The two candidate save directories of a title, game card first.
pub fn title_save_dir_candidates(real_id: &str) -> (r: (String, String))
    ensures
        r.0@ == join_path_spec("grw0:savedata"@, real_id@),
        r.1@ == join_path_spec("ux0:user/00/savedata"@, real_id@),
{
    (join_path(game_card_save_dir(), real_id), join_path(game_save_dir(), real_id))
}

/// The save directory a bulk backup reads for one title: the game-card one
/// when it exists, else the installed one, else nothing — the title is
/// skipped.
pub fn pick_title_save_dir(real_id: &str, card_exists: bool, main_exists: bool) -> (r: Option<
    String,
>)
    ensures
        card_exists ==> (r matches Some(p) && p@ == join_path_spec("grw0:savedata"@, real_id@)),
        !card_exists && main_exists ==> (r matches Some(p) && p@ == join_path_spec(
            "ux0:user/00/savedata"@,
            real_id@,
        )),
        !card_exists && !main_exists ==> r is None,
{
    let (card, main) = title_save_dir_candidates(real_id);
    if card_exists {
        Some(card)
    } else if main_exists {
        Some(main)
    } else {
        None
    }
}

/// One title's step of a bulk backup: where to read the save and where to
/// write the timestamped archive under the title's local backup directory;
/// nothing when the title has no save.
pub fn plan_title_backup(
    title_id: &str,
    name: &str,
    real_id: &str,
    card_exists: bool,
    main_exists: bool,
    existing_dirs: &Vec<String>,
    timestamp: &str,
) -> (r: Option<(String, String)>)
    ensures
        !card_exists && !main_exists ==> r is None,
        card_exists || main_exists ==> (r matches Some(plan) && ({
            let local_dir = if first_prefix_index(existing_dirs@, title_id@) >= 0 {
                join_path_spec(
                    "ux0:data/save-cloud/saves"@,
                    existing_dirs@[first_prefix_index(existing_dirs@, title_id@)]@,
                )
            } else {
                trim_spec(
                    join_path_spec("ux0:data/save-cloud/saves"@, title_id@) + seq![' ']
                        + trim_spec(sanitize_spec(name@)),
                )
            };
            &&& (card_exists ==> plan.0@ == join_path_spec("grw0:savedata"@, real_id@))
            &&& (!card_exists ==> plan.0@ == join_path_spec("ux0:user/00/savedata"@, real_id@))
            &&& plan.1@ == join_path_spec(local_dir, timestamp@ + ".zip"@)
        })),
{
    let save_dir = match pick_title_save_dir(real_id, card_exists, main_exists) {
        Some(d) => d,
        None => {
            return None;
        },
    };
    let local_dir = get_game_local_backup_dir(title_id, name, existing_dirs);
    let mut file = timestamp.to_owned();
    file.append(".zip");
    let backup_path = join_path(local_dir.as_str(), file.as_str());
    Some((save_dir, backup_path))
}

/// What a new backup is called: an overwrite keeps the chosen backup's name;
/// otherwise the typed name gains the archive suffix, and an empty typed
/// name cancels.
pub fn backup_file_name(overwrite: Option<&str>, typed: &str) -> (r: Option<String>)
    ensures
        overwrite matches Some(n) ==> (r matches Some(out) && out@ == n@),
        overwrite is None && typed@.len() > 0 ==> (r matches Some(out) && out@ == typed@ + ".zip"@),
        overwrite is None && typed@.len() == 0 ==> r is None,
{
    match overwrite {
        Some(n) => Some(n.to_owned()),
        None => {
            if typed.unicode_len() > 0 {
                let mut out = typed.to_owned();
                out.append(".zip");
                Some(out)
            } else {
                None
            }
        },
    }
}

/// What a cloud download is saved as locally: the backup's own name, or a
/// fresh timestamped archive when the download restores a save.
pub fn download_backup_name(restore: bool, backup_name: &str, timestamp: &str) -> (r: String)
    ensures
        !restore ==> r@ == backup_name@,
        restore ==> r@ == timestamp@ + ".zip"@,
{
    if !restore {
        backup_name.to_owned()
    } else {
        let mut out = timestamp.to_owned();
        out.append(".zip");
        out
    }
}

/// Whether a backup may be uploaded: only while the cloud list holds no
/// entry of the same name.
pub fn upload_allowed(cloud_list: &Vec<String>, backup_name: &str) -> (r: bool)
    ensures
        r == !contains_name(names_view(cloud_list@), backup_name@),
{
    let mut k: usize = 0;
    while k < cloud_list.len()
        invariant
            0 <= k <= cloud_list@.len(),
            forall|j: int| 0 <= j < k ==> #[trigger] names_view(cloud_list@)[j] != backup_name@,
        decreases cloud_list@.len() - k,
    {
        if str_eq(cloud_list[k].as_str(), backup_name) {
            assert(names_view(cloud_list@)[k as int] == cloud_list@[k as int]@);
            return false;
        }
        assert(names_view(cloud_list@)[k as int] == cloud_list@[k as int]@);
        k += 1;
    }
    true
}

/// The remote path a cloud-backup delete names: the backup under its cloud
/// directory, percent-encoded for the transport.
pub fn cloud_delete_target(cloud_dir: &str, backup_name: &str) -> (r: String)
    ensures
        r@ == percent_encoded_of(cloud_dir@ + seq!['/'] + backup_name@),
{
    let mut full = cloud_dir.to_owned();
    full.push('/');
    full.append(backup_name);
    assert(full@ =~= cloud_dir@ + seq!['/'] + backup_name@);
    percent_encode_non_alphanumeric(full.as_str())
}

/// The remote directory a title's cloud backups live under: the cloud root
/// joined with the title id, a space and the sanitized title name, trimmed.
pub fn title_cloud_dir(title_id: &str, name: &str) -> (r: String)
    ensures
        r@ == trim_spec(
            join_path_spec("/apps/Backup/psvita/save-cloud/saves"@, title_id@) + seq![' ']
                + trim_spec(sanitize_spec(name@)),
        ),
{
    let mut head = join_path("/apps/Backup/psvita/save-cloud/saves", title_id);
    head.push(' ');
    let norm = crate::pathutil::normalize_path(name);
    head.append(norm.as_str());
    assert(head@ =~= join_path_spec("/apps/Backup/psvita/save-cloud/saves"@, title_id@)
        + seq![' '] + trim_spec(sanitize_spec(name@)));
    crate::pathutil::str_trim(head.as_str())
}


/// What one frame's buttons ask of a backup list: create or overwrite a
/// backup, restore, delete or transfer the chosen one, or just scroll.
pub enum SaveListCmd {
    NewBackup,
    Overwrite(i32),
    Restore(i32),
    Delete(i32),
    Transfer(i32),
    Scroll,
}

/// Maps one frame's buttons over a backup list whose first row is the
/// new-backup entry: confirm on that row creates a backup and on any other
/// overwrites it; otherwise the restore, delete and transfer buttons act on
/// the chosen backup, and anything else scrolls. The transfer is the upload
/// on the local list and the download on the cloud one.
pub fn save_list_command(selected_idx: i32, buttons: u32) -> (r: SaveListCmd)
    requires
        0 <= selected_idx,
    ensures
        ({
            let idx = selected_idx - 1;
            if is_button(buttons, SceCtrlButtons::SceCtrlCircle) {
                if selected_idx == 0 {
                    r is NewBackup
                } else {
                    r matches SaveListCmd::Overwrite(i) && i == idx
                }
            } else if idx >= 0 && is_button(buttons, SceCtrlButtons::SceCtrlSquare) {
                r matches SaveListCmd::Restore(i) && i == idx
            } else if idx >= 0 && is_button(buttons, SceCtrlButtons::SceCtrlTriangle) {
                r matches SaveListCmd::Delete(i) && i == idx
            } else if idx >= 0 && is_button(buttons, SceCtrlButtons::SceCtrlSelect) {
                r matches SaveListCmd::Transfer(i) && i == idx
            } else {
                r is Scroll
            }
        }),
{
    if is_button(buttons, SceCtrlButtons::SceCtrlCircle) {
        if selected_idx == 0 {
            SaveListCmd::NewBackup
        } else {
            SaveListCmd::Overwrite(selected_idx - 1)
        }
    } else if selected_idx >= 1 && is_button(buttons, SceCtrlButtons::SceCtrlSquare) {
        SaveListCmd::Restore(selected_idx - 1)
    } else if selected_idx >= 1 && is_button(buttons, SceCtrlButtons::SceCtrlTriangle) {
        SaveListCmd::Delete(selected_idx - 1)
    } else if selected_idx >= 1 && is_button(buttons, SceCtrlButtons::SceCtrlSelect) {
        SaveListCmd::Transfer(selected_idx - 1)
    } else {
        SaveListCmd::Scroll
    }
}


/// The backup list's rows: the new-backup entry first and the backups after
/// it, the visible slice only, the selected row highlighted. The scrolling
/// of long names stays in the presentation layer.
pub fn draw_save_list(
    state: &crate::list_state::ListState,
    names: &Vec<String>,
    header: &str,
    left: i32,
    top: i32,
) -> (r: Vec<DrawCmd>)
    requires
        1 <= state.display_row <= 10000,
        0 <= state.top_row,
        state.top_row + state.display_row <= i32::MAX,
        names@.len() < i32::MAX,
        -10000 <= left <= 10000,
        -10000 <= top <= 10000,
    ensures
        texts_of(r@) =~= visible_window(
            seq![header@] + names_view(names@),
            state.top_row as int,
            state.display_row as int,
        ),
{
    let mut out: Vec<DrawCmd> = Vec::new();
    let top_row = state.top_row;
    let selected = state.selected_idx;
    let display = state.display_row;
    let size = names.len();
    let ghost rows = seq![header@] + names_view(names@);
    proof {
        assert(texts_of(out@) =~= Seq::<Seq<char>>::empty());
    }
    let mut idx: i32 = 0;
    while idx < display && top_row + idx < size as i32 + 1
        invariant
            0 <= idx <= display,
            0 <= top_row,
            1 <= display <= 10000,
            top_row + display <= i32::MAX,
            -10000 <= left <= 10000,
            -10000 <= top <= 10000,
            size == names@.len() < i32::MAX,
            rows == seq![header@] + names_view(names@),
            rows.len() == size + 1,
            texts_of(out@) =~= visible_window(rows, top_row as int, idx as int),
        decreases display - idx,
    {
        let i: i32 = top_row + idx;
        let x: i32 = left + 12;
        let y: i32 = top + 68;
        if i == selected {
            let hl = DrawCmd::Rect {
                x,
                y: y + 30 * idx - 21,
                w: crate::draw::SCREEN_WIDTH / 2 - 24,
                h: 30,
                color: crate::input::rgba(0x18, 0x18, 0x18, 0xff),
            };
            proof {
                crate::draw::lemma_texts_of_push_shape(out@, hl);
            }
            out.push(hl);
        }
        let text = if i == 0 {
            header.to_owned()
        } else {
            names[(i - 1) as usize].clone()
        };
        let txt = DrawCmd::Text {
            x: x + 8,
            y: y + 30 * idx,
            color: crate::input::rgba(0xff, 0xff, 0xff, 0xff),
            text,
        };
        proof {
            crate::draw::lemma_texts_of_push_text(out@, txt);
            assert(rows[i as int] == (if i == 0 {
                header@
            } else {
                names@[i - 1]@
            }));
            assert(visible_window(rows, top_row as int, idx + 1) =~= visible_window(
                rows,
                top_row as int,
                idx as int,
            ).push(rows[top_row + idx]));
        }
        out.push(txt);
        idx += 1;
    }
    proof {
        crate::draw::lemma_visible_window_saturates(
            rows,
            top_row as int,
            idx as int,
            display as int,
        );
    }
    out
}

} // verus!
