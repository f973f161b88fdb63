use save_cloud::input::{is_button, rgba, SceCtrlButtons};
use save_cloud::list_state::ListState;
use save_cloud::menu::{Menu, MenuAction};
use save_cloud::panel::{
    do_cloud_action, do_local_action, get_path_and_name, Dir, DirPending, DirPendingAction, Item,
    Panel, PendingSlot, RawEntry, RemoteItem,
};

const UP: u32 = 0x00000010;
const DOWN: u32 = 0x00000040;
const CIRCLE: u32 = 0x00002000;
const CROSS: u32 = 0x00004000;

#[test]
fn test_is_button() {
    assert!(is_button(CIRCLE, SceCtrlButtons::SceCtrlCircle));
    assert!(!is_button(CIRCLE, SceCtrlButtons::SceCtrlCross));
    assert!(is_button(UP | DOWN, SceCtrlButtons::SceCtrlUp));
}

#[test]
fn test_rgba_packs_channels() {
    assert_eq!(rgba(0x11, 0x22, 0x33, 0x44), 0x44332211);
    assert_eq!(rgba(0x100 + 5, 0, 0, 0), 5);
}

#[test]
fn test_list_state_wraps_both_ways() {
    let mut s = ListState::new(3);
    // moving before index 0 wraps to size - 1
    s.update(5, UP);
    assert_eq!(s.selected_idx, 4);
    assert!(s.top_row <= s.selected_idx && s.selected_idx < s.top_row + s.display_row);
    // moving past size - 1 wraps to 0
    s.update(5, DOWN);
    assert_eq!(s.selected_idx, 0);
    assert_eq!(s.top_row, 0);
}

#[test]
fn test_list_state_stays_in_range_over_moves() {
    let mut s = ListState::new(4);
    let sizes = [7, 7, 3, 3, 3, 9, 1, 1, 9, 9];
    let moves = [DOWN, DOWN, DOWN, UP, DOWN, DOWN, DOWN, UP, UP, DOWN];
    for i in 0..sizes.len() {
        s.update(sizes[i], moves[i]);
        assert!(0 <= s.selected_idx && s.selected_idx < sizes[i]);
        assert!(s.top_row <= s.selected_idx && s.selected_idx < s.top_row + s.display_row);
    }
}

#[test]
fn test_list_state_clamps_when_list_shrinks() {
    let mut s = ListState::new(3);
    for _ in 0..6 {
        s.update(7, DOWN);
    }
    assert_eq!(s.selected_idx, 6);
    // the list shrank under the cursor: next frame clamps and scrolls
    s.update(2, 0);
    assert!(0 <= s.selected_idx && s.selected_idx < 2);
}

#[test]
fn test_menu_zip_file_offers_unzip_not_zip() {
    let mut m = Menu::new();
    let item = Item::new(false, "x.zip".to_string(), None);
    m.open(Some(&item), "ux0:data/", "uma0:", false, 0);
    assert!(m.actions.contains(&MenuAction::Unzip));
    assert!(!m.actions.contains(&MenuAction::Zip));
}

#[test]
fn test_menu_plain_file_offers_zip_not_unzip() {
    let mut m = Menu::new();
    let item = Item::new(false, "x.txt".to_string(), None);
    m.open(Some(&item), "ux0:data/", "uma0:", false, 0);
    assert!(m.actions.contains(&MenuAction::Zip));
    assert!(!m.actions.contains(&MenuAction::Unzip));
}

#[test]
fn test_menu_no_item_offers_only_new_dir() {
    let mut m = Menu::new();
    m.open(None, "ux0:data/", "", false, 0);
    assert_eq!(m.actions.len(), 1);
    assert!(m.actions.contains(&MenuAction::NewDir));
}

#[test]
fn test_menu_cloud_source_offers_download_for_files_only() {
    let mut m = Menu::new();
    let file = Item::new(false, "save.zip".to_string(), Some(7));
    m.open(Some(&file), "/apps/Backup/", "ux0:data/", false, 0);
    assert_eq!(m.actions, vec![MenuAction::Download]);
    let dir = Item::new(true, "saves".to_string(), Some(8));
    m.open(Some(&dir), "/apps/Backup/", "ux0:data/", false, 0);
    assert!(m.actions.is_empty());
    // the no-selection rule still offers a new folder on the cloud panel
    m.open(None, "/apps/Backup/", "ux0:data/", false, 0);
    assert_eq!(m.actions, vec![MenuAction::NewDir]);
}

#[test]
fn test_menu_local_to_cloud_offers_upload_paths() {
    let mut m = Menu::new();
    let file = Item::new(false, "param.sfo".to_string(), None);
    m.open(Some(&file), "ux0:data/", "/apps/Backup/", false, 0);
    assert!(m.actions.contains(&MenuAction::Zip));
    assert!(m.actions.contains(&MenuAction::Upload));
    assert!(m.actions.contains(&MenuAction::ZipUpload));
    assert!(m.actions.contains(&MenuAction::ChangeAccountId));
}

#[test]
fn test_menu_param_sfo_needs_pfs_sibling_locally() {
    let mut m = Menu::new();
    let file = Item::new(false, "param.sfo".to_string(), None);
    m.open(Some(&file), "ux0:data/save/", "ux0:", false, 0);
    assert!(!m.actions.contains(&MenuAction::ChangeAccountId));
    m.open(Some(&file), "ux0:data/save/", "ux0:", true, 0);
    assert!(m.actions.contains(&MenuAction::ChangeAccountId));
}

#[test]
fn test_pending_slot_second_dispatch_dropped() {
    let mut slot = PendingSlot::new();
    assert!(slot.dispatch());
    assert!(!slot.dispatch());
    slot.complete(DirPending {
        action: DirPendingAction::Enter,
        dir: Dir::new("data".to_string(), Vec::new()),
    });
    assert!(!slot.is_pending());
    let taken = slot.take();
    assert!(taken.is_some());
    assert!(slot.take().is_none());
}

#[test]
fn test_panel_second_enter_yields_one_push() {
    let mut p = Panel::new_local(12);
    let items = vec![Item::new(true, "data".to_string(), None)];
    p.dirs.push(Dir::new("ux0:".to_string(), items));
    let first = p.update(CIRCLE);
    assert!(first.is_some());
    let cmd = first.unwrap();
    assert_eq!(cmd.path, "ux0:/");
    assert_eq!(cmd.item_name, "data");
    // the first request is still outstanding: the second is dropped
    let second = p.update(CIRCLE);
    assert!(second.is_none());
    assert_eq!(p.dirs.len(), 1);
    // completion and the next poll push exactly one level
    let listing = do_local_action(
        "ux0:/",
        "data",
        DirPendingAction::Enter,
        vec![RawEntry { name: "save01".to_string(), is_dir: true }],
    );
    p.deliver(listing, 1000);
    let env = save_cloud::panel::InitEnv {
        now_ms: 1000,
        logged_in: false,
        devices_present: Vec::new(),
    };
    let r = p.init(&env);
    assert!(r.is_none());
    assert_eq!(p.dirs.len(), 2);
    assert_eq!(p.dirs[1].name, "data");
}

#[test]
fn test_panel_pop_keeps_root() {
    let mut p = Panel::new_local(12);
    p.dirs.push(Dir::new("".to_string(), Vec::new()));
    p.dirs.push(Dir::new("data".to_string(), Vec::new()));
    p.update(CROSS);
    assert_eq!(p.dirs.len(), 1);
    p.update(CROSS);
    assert_eq!(p.dirs.len(), 1);
}

#[test]
fn test_panel_refresh_keeps_cursor() {
    let mut p = Panel::new_local(12);
    let items = vec![
        Item::new(false, "a".to_string(), None),
        Item::new(false, "b".to_string(), None),
        Item::new(false, "c".to_string(), None),
    ];
    p.dirs.push(Dir::new("data".to_string(), items));
    p.update(DOWN);
    p.update(DOWN);
    assert_eq!(p.dirs[0].state.selected_idx, 2);
    assert!(p.refresh_current_dir().is_some());
    let fresh = do_local_action(
        "data/",
        "",
        DirPendingAction::Refresh,
        vec![
            RawEntry { name: "a".to_string(), is_dir: false },
            RawEntry { name: "b".to_string(), is_dir: false },
            RawEntry { name: "c".to_string(), is_dir: false },
        ],
    );
    p.deliver(fresh, 0);
    let env = save_cloud::panel::InitEnv {
        now_ms: 0,
        logged_in: false,
        devices_present: Vec::new(),
    };
    p.init(&env);
    assert_eq!(p.dirs.len(), 1);
    // the cursor survived the refresh of the same listing
    assert_eq!(p.dirs[0].state.selected_idx, 2);
}

#[test]
fn test_do_local_action_sorts_dirs_first_case_insensitive() {
    let entries = vec![
        RawEntry { name: "beta.txt".to_string(), is_dir: false },
        RawEntry { name: "Alpha.txt".to_string(), is_dir: false },
        RawEntry { name: "zeta".to_string(), is_dir: true },
        RawEntry { name: "Echo".to_string(), is_dir: true },
    ];
    let r = do_local_action("ux0:/", "data", DirPendingAction::Enter, entries);
    let names: Vec<&str> = r.dir.items.iter().map(|i| i.name.as_str()).collect();
    assert_eq!(names, vec!["Echo", "zeta", "Alpha.txt", "beta.txt"]);
    assert!(r.dir.items[0].is_dir && r.dir.items[1].is_dir);
    assert_eq!(r.dir.name, "data");
}

#[test]
fn test_do_local_action_sort_is_case_insensitive() {
    // case-sensitive code-point order would put BBB.txt first
    let entries = vec![
        RawEntry { name: "BBB.txt".to_string(), is_dir: false },
        RawEntry { name: "aaa.txt".to_string(), is_dir: false },
    ];
    let r = do_local_action("ux0:/", "d", DirPendingAction::Enter, entries);
    let names: Vec<&str> = r.dir.items.iter().map(|i| i.name.as_str()).collect();
    assert_eq!(names, vec!["aaa.txt", "BBB.txt"]);
}

#[test]
fn test_do_cloud_action_preserves_server_order() {
    let listing = vec![
        RemoteItem { is_dir: false, name: "zz.zip".to_string(), fs_id: 2 },
        RemoteItem { is_dir: true, name: "aa".to_string(), fs_id: 1 },
    ];
    let r = do_cloud_action("", "/", DirPendingAction::Enter, listing);
    assert_eq!(r.dir.items.len(), 2);
    assert_eq!(r.dir.items[0].name, "zz.zip");
    assert_eq!(r.dir.items[0].fs_id, Some(2));
    assert_eq!(r.dir.items[1].name, "aa");
    assert!(r.dir.items[1].is_dir);
}

#[test]
fn test_get_path_and_name_cases() {
    let (p, n) = get_path_and_name("ux0:data/", "save", &DirPendingAction::Enter);
    assert_eq!(p, "ux0:data/save");
    assert_eq!(n, "save");
    let (p, n) = get_path_and_name("/", "", &DirPendingAction::Refresh);
    assert_eq!(p, "/");
    assert_eq!(n, "/");
    let (p, n) = get_path_and_name("ux0:", "", &DirPendingAction::Refresh);
    assert_eq!(p, "ux0:");
    assert_eq!(n, "ux0:");
    let (p, n) = get_path_and_name("ux0:data/save/", "", &DirPendingAction::Refresh);
    assert_eq!(p, "ux0:data/save/");
    assert_eq!(n, "save");
}

#[test]
fn test_panel_current_dir_path() {
    let mut p = Panel::new_local(12);
    p.dirs.push(Dir::new("".to_string(), Vec::new()));
    p.dirs.push(Dir::new("ux0:".to_string(), Vec::new()));
    p.dirs.push(Dir::new("data".to_string(), Vec::new()));
    assert_eq!(p.current_dir_path(), "ux0:/data/");
}
