use save_cloud::codec::{base64_decode, base64_encode, get_str_md5};
use save_cloud::coordinator::{
    can_open_menu, copy_local, create_local_dir, decide_menu_action, download_from_cloud,
    get_action_params, move_local, rename_local, unzip_local_target, zip_local_target,
    ActionDecision, Coordinator,
};
use save_cloud::errors::OpError;
use save_cloud::menu::MenuAction;
use save_cloud::overlay::{Loading, Toast};
use save_cloud::pathutil::{
    get_game_local_backup_dir, get_local_game_saves, join_path, normalize_path, str_to_c_str,
    str_trim,
};
use save_cloud::savelist::{
    backup_file_name, cloud_delete_target, download_backup_name, plan_title_backup, title_cloud_dir,
    upload_allowed,
};
use save_cloud::session::{AuthAction, AuthState, CloudSession, QR_CODE_SIZE};

#[test]
fn test_normalize_path() {
    let path = "你好\\你好/你好:你好*你好?你好\"你好\'你好<你好>你好|你好";
    let path = normalize_path(path);
    assert_eq!(
        "你好_你好_你好_你好_你好_你好_你好_你好_你好_你好_你好",
        path
    );
}

#[test]
fn test_md5() {
    let mut context = md5::Context::new();
    context.consume("123");
    context.consume("456");
    let data = "123456";
    let res = md5::compute(data);
    assert_eq!("e10adc3949ba59abbe56e057f20f883e", format!("{:x}", res));
    assert_eq!(
        "e10adc3949ba59abbe56e057f20f883e",
        format!("{:x}", context.compute())
    );
}

#[test]
fn test_base64() -> Result<(), save_cloud::errors::OpError> {
    let data = String::from("你好");
    let data = data.as_bytes();
    let key = base64_encode(data);
    let res = String::from_utf8_lossy(&base64_decode(&key)?).to_string();
    assert_eq!(res, "你好");

    Ok(())
}

#[test]
fn test_get_str_md5_hex() {
    assert_eq!(get_str_md5("123456".as_bytes()), "e10adc3949ba59abbe56e057f20f883e");
}

#[test]
fn test_base64_decode_rejects_garbage() {
    assert!(matches!(base64_decode("@@@@"), Err(OpError::InvalidInput)));
}

#[test]
fn test_normalize_path_trims() {
    assert_eq!(normalize_path("  a b  "), "a b");
    assert_eq!(normalize_path("   "), "");
    assert_eq!(str_trim("\t x \n"), "x");
}

#[test]
fn test_join_path_separators() {
    assert_eq!(join_path("", "ux0:"), "ux0:");
    assert_eq!(join_path("ux0:data/", "save"), "ux0:data/save");
    assert_eq!(join_path("ux0:data", "save"), "ux0:data/save");
}

#[test]
fn test_str_to_c_str_appends_nul() {
    assert_eq!(str_to_c_str("ab"), vec![b'a', b'b', 0]);
}

#[test]
fn test_get_local_game_saves_filters_and_sorts_desc() {
    let entries = vec![
        ("2023.zip".to_string(), true),
        ("notes.txt".to_string(), true),
        ("2025.zip".to_string(), true),
        ("somedir".to_string(), false),
        ("2024.zip".to_string(), true),
    ];
    let r = get_local_game_saves(entries);
    assert_eq!(r, vec!["2025.zip", "2024.zip", "2023.zip"]);
}

#[test]
fn test_get_game_local_backup_dir_prefers_existing() {
    let existing = vec!["OTHER01 xx".to_string(), "GAME01 old name".to_string()];
    let r = get_game_local_backup_dir("GAME01", "New Name", &existing);
    assert_eq!(r, "ux0:data/save-cloud/saves/GAME01 old name");
    let r = get_game_local_backup_dir("GAME02", "A:B", &existing);
    assert_eq!(r, "ux0:data/save-cloud/saves/GAME02 A_B");
}

#[test]
fn test_copy_rejected_when_destination_exists() {
    // local panel at ux0:user/00/savedata/, item GAME01, same-panel
    // destination: the copy target ux0:user/00/savedata/copy/GAME01 already
    // exists, so the copy is rejected and nothing runs
    let r = copy_local("ux0:user/00/savedata/", "GAME01", "ux0:user/00/savedata/copy/", true);
    assert!(matches!(r, Err(OpError::DestinationExists)));
}

#[test]
fn test_copy_rejects_self_containment_by_raw_prefix() {
    let r = copy_local("ux0:data/", "save", "ux0:data/save/", false);
    assert!(matches!(r, Err(OpError::InvalidInput)));
    let ok = copy_local("ux0:data/", "save", "uma0:", false).expect("copy allowed");
    assert_eq!(ok.from, "ux0:data/save");
    assert_eq!(ok.to, "uma0:/save");
    let mv = move_local("ux0:data/", "save", "uma0:", false).expect("move allowed");
    assert_eq!(mv.to, "uma0:/save");
}

#[test]
fn test_rename_rejects_empty_and_same() {
    assert!(matches!(rename_local("ux0:data/", "a", ""), Err(OpError::InvalidInput)));
    assert!(matches!(rename_local("ux0:data/", "a", "a"), Err(OpError::InvalidInput)));
    let job = rename_local("ux0:data/", "a", "b").expect("rename allowed");
    assert_eq!(job.from, "ux0:data/a");
    assert_eq!(job.to, "ux0:data/b");
}

#[test]
fn test_typed_names_are_sanitized_first() {
    // whitespace-only and separator-only names cancel, as the keyboard input
    // is sanitized before the emptiness test
    assert!(matches!(rename_local("ux0:data/", "a", "   "), Err(OpError::InvalidInput)));
    // a separator is an invalid character, not whitespace: it sanitizes to
    // an underscore rather than cancelling
    assert_eq!(create_local_dir("ux0:data/", " / ").unwrap(), "ux0:data/_");
    // invalid characters are replaced and surrounding whitespace dropped
    let job = rename_local("ux0:data/", "a", " b:c ").expect("rename allowed");
    assert_eq!(job.to, "ux0:data/b_c");
    assert_eq!(create_local_dir("ux0:data/", " new dir ").unwrap(), "ux0:data/new dir");
    assert_eq!(
        zip_local_target("ux0:d/", "save", true, " s:2 ", false).unwrap(),
        "ux0:d/s_2.zip"
    );
    assert!(matches!(
        unzip_local_target("ux0:d/", "save.zip", true, "  ", false),
        Err(OpError::InvalidInput)
    ));
}

#[test]
fn test_menu_opens_only_on_a_path() {
    assert!(!can_open_menu(""));
    assert!(can_open_menu("ux0:/"));
}

#[test]
fn test_create_dir_rejects_empty_name() {
    assert!(matches!(create_local_dir("ux0:data/", ""), Err(OpError::InvalidInput)));
    assert_eq!(create_local_dir("ux0:data/", "new").unwrap(), "ux0:data/new");
}

#[test]
fn test_zip_target_choices() {
    assert_eq!(zip_local_target("ux0:d/", "save", false, "", false).unwrap(), "ux0:d/save.zip");
    assert!(matches!(
        zip_local_target("ux0:d/", "save", true, "", false),
        Err(OpError::InvalidInput)
    ));
    assert!(matches!(
        zip_local_target("ux0:d/", "save", true, "save2", true),
        Err(OpError::DestinationExists)
    ));
    assert_eq!(
        zip_local_target("ux0:d/", "save", true, "save2", false).unwrap(),
        "ux0:d/save2.zip"
    );
}

#[test]
fn test_unzip_target_strips_extension() {
    assert_eq!(unzip_local_target("ux0:d/", "save.zip", false, "", false).unwrap(), "ux0:d/save");
    assert!(matches!(
        unzip_local_target("ux0:d/", "save.zip", true, "out", true),
        Err(OpError::DestinationExists)
    ));
}

#[test]
fn test_download_rejects_existing_destination() {
    assert!(matches!(
        download_from_cloud("b.zip", 7, "ux0:d/", true),
        Err(OpError::DestinationExists)
    ));
    let (fs_id, to) = download_from_cloud("b.zip", 7, "ux0:d/", false).unwrap();
    assert_eq!(fs_id, 7);
    assert_eq!(to, "ux0:d/b.zip");
}

#[test]
fn test_action_params_joins_both_sides() {
    let p = get_action_params("ux0:a/", "x", "uma0:b");
    assert_eq!(p.from, "ux0:a/x");
    assert_eq!(p.to, "uma0:b/x");
    assert_eq!(p.name, "x");
}

#[test]
fn test_coordinator_single_flight_and_routing() {
    let mut c = Coordinator::new();
    assert!(c.begin_action());
    assert!(!c.begin_action());
    // input is ignored while an action is in flight
    c.route_focus(0x00000020);
    assert_eq!(c.active_panel, 0);
    c.finish_action();
    c.route_focus(0x00000020); // right
    assert_eq!(c.active_panel, 2);
    c.route_focus(0x00008000); // square: toggle right panel
    assert_eq!(c.right_panel, 1);
    assert_eq!(c.active_panel, 1);
    c.route_focus(0x00000080); // left
    assert_eq!(c.active_panel, 0);
}

#[test]
fn test_menu_action_routing_gates_cloud() {
    assert!(matches!(
        decide_menu_action(&MenuAction::Copy, true, false),
        ActionDecision::RunLocal
    ));
    assert!(matches!(
        decide_menu_action(&MenuAction::Upload, true, false),
        ActionDecision::ShowActivation
    ));
    assert!(matches!(
        decide_menu_action(&MenuAction::Upload, true, true),
        ActionDecision::RunCloud
    ));
    assert!(matches!(
        decide_menu_action(&MenuAction::NewDir, false, true),
        ActionDecision::RunCloud
    ));
    assert!(matches!(
        decide_menu_action(&MenuAction::NewDir, false, false),
        ActionDecision::ShowActivation
    ));
    assert!(matches!(
        decide_menu_action(&MenuAction::Delete, true, false),
        ActionDecision::RunLocal
    ));
}

#[test]
fn test_session_single_device_code_request() {
    let mut s = CloudSession::new();
    let first = s.open_cloud_panel();
    assert!(matches!(first, AuthAction::RequestDeviceCode));
    // a second panel-open before the first poll completes asks nothing
    let second = s.open_cloud_panel();
    assert!(matches!(second, AuthAction::Idle));
}

#[test]
fn test_session_renders_qr_payload_and_polls() {
    let mut s = CloudSession::new();
    s.open_cloud_panel();
    let url = "https://example.invalid/device?code=ABCD-EFGH";
    let act = s.on_device_code(Some(("dev-code-1".to_string(), url.to_string())));
    match act {
        AuthAction::PollTokenAfter { device_code, delay_ms } => {
            assert_eq!(device_code, "dev-code-1");
            assert_eq!(delay_ms, 0);
        }
        _ => panic!("expected an immediate token poll"),
    }
    let expected =
        qrcode_generator::to_png_to_vec(url, qrcode_generator::QrCodeEcc::Low, QR_CODE_SIZE)
            .unwrap();
    assert_eq!(s.qr_png.as_ref().expect("qr payload rendered"), &expected);
    // pending answers poll again on the fixed cadence
    let next = s.on_token_poll(None, true);
    assert!(matches!(next, AuthAction::PollTokenAfter { delay_ms: 6000, .. }));
    // a grant fetches the profile, and success authenticates
    let fetch = s.on_token_poll(Some("token-1".to_string()), true);
    assert!(matches!(fetch, AuthAction::FetchProfile { .. }));
    let done = s.on_profile(Some("pancake".to_string()));
    assert!(matches!(done, Ok(AuthAction::RefreshListing)));
    assert!(s.is_login());
    assert!(s.qr_png.is_none());
}

#[test]
fn test_session_consumer_gone_stops_silently() {
    let mut s = CloudSession::new();
    s.open_cloud_panel();
    s.on_device_code(Some(("dc".to_string(), "u".to_string())));
    let act = s.on_token_poll(None, false);
    assert!(matches!(act, AuthAction::Stop));
    assert!(matches!(s.state, AuthState::Unauthenticated));
}

#[test]
fn test_session_profile_failure_resets() {
    let mut s = CloudSession::new();
    s.open_cloud_panel();
    s.on_device_code(Some(("dc".to_string(), "u".to_string())));
    let r = s.on_profile(None);
    assert!(matches!(r, Err(OpError::AuthFailed)));
    assert!(matches!(s.state, AuthState::Unauthenticated));
    // a fresh device code is required on the next attempt
    assert!(matches!(s.open_cloud_panel(), AuthAction::RequestDeviceCode));
}

#[test]
fn test_loading_show_and_dismiss() {
    let mut l = Loading::new();
    assert!(!l.is_pending());
    l.show(1000);
    assert!(l.is_pending());
    l.notify_title("t".to_string());
    l.notify_desc("d".to_string());
    // a second show while work is in progress changes nothing
    l.show(2000);
    assert_eq!(l.title().unwrap(), "t");
    l.dismiss(3000);
    assert!(!l.is_pending());
    assert!(l.is_active(3200));
    assert!(!l.is_active(3400));
}

#[test]
fn test_toast_auto_hides_after_dwell() {
    let mut t = Toast::new();
    t.show("hello".to_string(), 1000);
    assert!(t.is_pending());
    let cmds = t.draw(2000, 100, 50);
    assert!(t.is_pending());
    assert_eq!(cmds.len(), 2);
    t.draw(4100, 100, 50);
    assert!(!t.is_pending());
}

#[test]
fn test_backup_file_name_choice() {
    assert_eq!(backup_file_name(Some("old.zip"), "").unwrap(), "old.zip");
    assert_eq!(backup_file_name(None, "2025-01-01").unwrap(), "2025-01-01.zip");
    assert!(backup_file_name(None, "").is_none());
}

#[test]
fn test_download_backup_name_choice() {
    assert_eq!(download_backup_name(false, "b.zip", "ts"), "b.zip");
    assert_eq!(download_backup_name(true, "b.zip", "ts"), "ts.zip");
}

#[test]
fn test_upload_allowed_only_without_duplicate() {
    let cloud = vec!["a.zip".to_string(), "b.zip".to_string()];
    assert!(!upload_allowed(&cloud, "a.zip"));
    assert!(upload_allowed(&cloud, "c.zip"));
}

#[test]
fn test_plan_title_backup_picks_save_dir() {
    let existing: Vec<String> = Vec::new();
    let r = plan_title_backup("GAME01", "Name", "GAME01", true, false, &existing, "ts").unwrap();
    assert_eq!(r.0, "grw0:savedata/GAME01");
    assert_eq!(r.1, "ux0:data/save-cloud/saves/GAME01 Name/ts.zip");
    let r = plan_title_backup("GAME01", "Name", "GAME01", false, true, &existing, "ts").unwrap();
    assert_eq!(r.0, "ux0:user/00/savedata/GAME01");
    assert!(plan_title_backup("GAME01", "Name", "GAME01", false, false, &existing, "ts").is_none());
}

#[test]
fn test_cloud_targets() {
    assert_eq!(cloud_delete_target("/apps/d", "a b.zip"), "%2Fapps%2Fd%2Fa%20b%2Ezip");
    assert_eq!(
        title_cloud_dir("GAME01", "Na:me"),
        "/apps/Backup/psvita/save-cloud/saves/GAME01 Na_me"
    );
}

#[test]
fn test_error_texts() {
    assert_eq!(OpError::ListingFailed.text(), "listing failed");
    assert_eq!(OpError::TransferFailed.text(), "transfer failed");
    assert_eq!(OpError::AuthFailed.text(), "authorization failed");
}
