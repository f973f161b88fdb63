use save_cloud::dialog::{dialog_choice, DialogState};
use save_cloud::gamemenu::{
    delete_confirm_step, game_menu_actions, gate_game_menu_action, ConfirmOutcome, GameMenuAction,
    GameMenuGate,
};
use save_cloud::savelist::{save_list_command, SaveListCmd};

use save_cloud::coordinator::{refresh_targets, zip_upload_plan};
use save_cloud::menu::MenuAction;
use save_cloud::draw::DrawCmd;
use save_cloud::input::{active_color_for, rgba};
use save_cloud::list_state::ListState;
use save_cloud::menu::Menu;
use save_cloud::panel::{Dir, Item, Panel};
use save_cloud::savelist::draw_save_list;

const CIRCLE: u32 = 0x00002000;
const CROSS: u32 = 0x00004000;
const TRIANGLE: u32 = 0x00001000;
const SQUARE: u32 = 0x00008000;
const SELECT: u32 = 0x00000001;

#[test]
fn test_dialog_choice_buttons() {
    assert_eq!(dialog_choice(CIRCLE), Some(true));
    assert_eq!(dialog_choice(CROSS), Some(false));
    assert_eq!(dialog_choice(CIRCLE | CROSS), None);
    assert_eq!(dialog_choice(0), None);
}

#[test]
fn test_dialog_settles_then_finishes() {
    let mut d = DialogState::new(1000);
    // input inside the slide-in window is ignored
    assert!(d.step(CIRCLE, 1100).is_none());
    assert!(d.open);
    // after the slide, confirm settles it and starts the slide-out
    assert!(d.step(CIRCLE, 1200).is_none());
    assert!(!d.open);
    // after the slide-out the answer comes back
    assert!(d.step(0, 1300).is_none());
    assert_eq!(d.step(0, 1400), Some(true));
}

#[test]
fn test_dialog_decline() {
    let mut d = DialogState::new(0);
    assert!(d.step(CROSS, 200).is_none());
    assert_eq!(d.step(0, 400), Some(false));
}

#[test]
fn test_game_menu_order_and_labels() {
    let actions = game_menu_actions();
    assert_eq!(actions.len(), 7);
    assert_eq!(actions[0], GameMenuAction::LaunchApp);
    assert_eq!(actions[6], GameMenuAction::DeleteAllGameSaves);
    assert_eq!(GameMenuAction::LaunchApp.as_str(), "启动游戏");
}

#[test]
fn test_game_menu_cloud_backup_gates() {
    assert!(matches!(
        gate_game_menu_action(&GameMenuAction::BackupAllGameSave, false, false),
        GameMenuGate::Proceed
    ));
    assert!(matches!(
        gate_game_menu_action(&GameMenuAction::BackupAllGameSaveToCloud, false, true),
        GameMenuGate::NeedLogin
    ));
    assert!(matches!(
        gate_game_menu_action(&GameMenuAction::BackupAllGameSaveToCloud, true, false),
        GameMenuGate::ShowActivation
    ));
    assert!(matches!(
        gate_game_menu_action(&GameMenuAction::BackupAllGameSaveToCloud, true, true),
        GameMenuGate::Proceed
    ));
}

#[test]
fn test_triple_confirmation_countdown() {
    assert!(matches!(delete_confirm_step(3, true), ConfirmOutcome::Again(2)));
    assert!(matches!(delete_confirm_step(2, true), ConfirmOutcome::Again(1)));
    assert!(matches!(delete_confirm_step(1, true), ConfirmOutcome::Again(0)));
    assert!(matches!(delete_confirm_step(0, true), ConfirmOutcome::Run));
    assert!(matches!(delete_confirm_step(2, false), ConfirmOutcome::Abort));
}

#[test]
fn test_save_list_commands() {
    assert!(matches!(save_list_command(0, CIRCLE), SaveListCmd::NewBackup));
    assert!(matches!(save_list_command(3, CIRCLE), SaveListCmd::Overwrite(2)));
    assert!(matches!(save_list_command(1, SQUARE), SaveListCmd::Restore(0)));
    assert!(matches!(save_list_command(2, TRIANGLE), SaveListCmd::Delete(1)));
    assert!(matches!(save_list_command(2, SELECT), SaveListCmd::Transfer(1)));
    // the new-backup row offers no restore, delete or transfer
    assert!(matches!(save_list_command(0, SQUARE), SaveListCmd::Scroll));
    assert!(matches!(save_list_command(4, 0), SaveListCmd::Scroll));
}

#[test]
fn test_menu_draw_lists_visible_labels() {
    let mut m = Menu::new();
    let item = Item::new(false, "x.txt".to_string(), None);
    m.open(Some(&item), "ux0:data/", "", false, 0);
    let cmds = m.draw(480, 0, "(X) close    (O) pick");
    let texts: Vec<&str> = cmds
        .iter()
        .filter_map(|c| match c {
            DrawCmd::Text { text, .. } => Some(text.as_str()),
            _ => None,
        })
        .collect();
    assert_eq!(texts[0], "(X) close    (O) pick");
    assert_eq!(texts[1], "新建文件夹");
    assert_eq!(texts[2], "重命名");
    assert_eq!(texts[3], "删除");
    assert_eq!(texts[4], "压缩");
    assert_eq!(texts.len(), 5);
}

#[test]
fn test_panel_draw_shows_window_of_names() {
    let mut p = Panel::new_local(12);
    let mut items = Vec::new();
    for i in 0..20 {
        items.push(Item::new(false, format!("f{:02}", i), None));
    }
    p.dirs.push(Dir::new("data".to_string(), items));
    // scroll far enough that the window moved
    for _ in 0..14 {
        p.update(0x00000040);
    }
    let cmds = p.draw(true);
    let texts: Vec<&str> = cmds
        .iter()
        .filter_map(|c| match c {
            DrawCmd::Text { text, .. } => Some(text.as_str()),
            _ => None,
        })
        .collect();
    assert_eq!(texts.len(), 12);
    assert_eq!(texts[0], "f03");
    assert_eq!(texts[11], "f14");
}

#[test]
fn test_save_list_draw_has_header_row() {
    let st = ListState::new(10);
    let names = vec!["a.zip".to_string(), "b.zip".to_string()];
    let cmds = draw_save_list(&st, &names, "新建备份", 0, 0);
    let texts: Vec<&str> = cmds
        .iter()
        .filter_map(|c| match c {
            DrawCmd::Text { text, .. } => Some(text.as_str()),
            _ => None,
        })
        .collect();
    assert_eq!(texts, vec!["新建备份", "a.zip", "b.zip"]);
}

#[test]
fn test_active_color_endpoints() {
    assert_eq!(active_color_for(0), rgba(168, 254, 255, 0xff));
    assert_eq!(active_color_for(400), rgba(0, 168, 255, 0xff));
    assert_eq!(active_color_for(999), rgba(168 - 168 * 1 / 600, 254 - 86 * 1 / 600, 255, 0xff));
}

#[test]
fn test_zip_upload_plan_stages_temporary() {
    let plan = zip_upload_plan("ux0:data/", "save01", "2025-01-01");
    assert_eq!(plan.input_path, "ux0:data/save01");
    assert_eq!(plan.tmp_archive, "ux0:data/2025-01-01.zip");
    assert_eq!(plan.upload_name, "save01.zip");
}

#[test]
fn test_refresh_targets_after_actions() {
    // a move mutates both sides, a copy only the destination
    assert_eq!(refresh_targets(&MenuAction::Move, false), (true, true));
    assert_eq!(refresh_targets(&MenuAction::Copy, false), (false, true));
    // a delete refreshes the destination too when both panels show one path
    assert_eq!(refresh_targets(&MenuAction::Delete, true), (true, true));
    assert_eq!(refresh_targets(&MenuAction::Delete, false), (true, false));
    assert_eq!(refresh_targets(&MenuAction::Upload, false), (false, true));
}
