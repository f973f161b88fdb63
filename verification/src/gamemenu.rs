//! The per-title menu's decision core: the fixed action list, the login and
//! activation gates on cloud work, and the triple-confirmation countdown the
//! destructive actions run through.

use vstd::prelude::*;

verus! {

/// Everything the per-title menu offers.
#[derive(Clone, Copy, PartialEq, Eq, Structural, Debug)]
pub enum GameMenuAction {
    LaunchApp,
    BackupAllGameSave,
    BackupAllGameSaveToCloud,
    ChangeAccountId,
    DeleteGameSave,
    DeleteSelectedGameSave,
    DeleteAllGameSaves,
}

/// The label of each per-title menu action.
pub open spec fn game_menu_label(a: GameMenuAction) -> Seq<char> {
    match a {
        GameMenuAction::LaunchApp => "启动游戏"@,
        GameMenuAction::BackupAllGameSave => "备份所有游戏存档"@,
        GameMenuAction::BackupAllGameSaveToCloud => "备份所有游戏存档到云端"@,
        GameMenuAction::ChangeAccountId => "修改存档账号为当前账号"@,
        GameMenuAction::DeleteGameSave => "删除该游戏存档"@,
        GameMenuAction::DeleteSelectedGameSave => "删除该游戏本地存档备份"@,
        GameMenuAction::DeleteAllGameSaves => "删除所有游戏本地存档备份"@,
    }
}

impl GameMenuAction {
    /// The user-facing label of this action.
    pub fn as_str(&self) -> (r: &'static str)
        ensures
            r@ == game_menu_label(*self),
    {
        match self {
            GameMenuAction::LaunchApp => "启动游戏",
            GameMenuAction::BackupAllGameSave => "备份所有游戏存档",
            GameMenuAction::BackupAllGameSaveToCloud => "备份所有游戏存档到云端",
            GameMenuAction::ChangeAccountId => "修改存档账号为当前账号",
            GameMenuAction::DeleteGameSave => "删除该游戏存档",
            GameMenuAction::DeleteSelectedGameSave => "删除该游戏本地存档备份",
            GameMenuAction::DeleteAllGameSaves => "删除所有游戏本地存档备份",
        }
    }
}

/// The menu's fixed order: launching first, backups next, the destructive
/// deletions last.
pub fn game_menu_actions() -> (r: Vec<GameMenuAction>)
    ensures
        r@ =~= seq![
            GameMenuAction::LaunchApp,
            GameMenuAction::BackupAllGameSave,
            GameMenuAction::BackupAllGameSaveToCloud,
            GameMenuAction::ChangeAccountId,
            GameMenuAction::DeleteGameSave,
            GameMenuAction::DeleteSelectedGameSave,
            GameMenuAction::DeleteAllGameSaves,
        ],
{
    let mut v: Vec<GameMenuAction> = Vec::new();
    v.push(GameMenuAction::LaunchApp);
    v.push(GameMenuAction::BackupAllGameSave);
    v.push(GameMenuAction::BackupAllGameSaveToCloud);
    v.push(GameMenuAction::ChangeAccountId);
    v.push(GameMenuAction::DeleteGameSave);
    v.push(GameMenuAction::DeleteSelectedGameSave);
    v.push(GameMenuAction::DeleteAllGameSaves);
    v
}

/// Whether the action may start.
pub enum GameMenuGate {
    Proceed,
    NeedLogin,
    ShowActivation,
}

/// Gates one per-title action: only the cloud backup needs a session, and it
/// runs only logged in with a usable activation; everything else proceeds.
pub fn gate_game_menu_action(a: &GameMenuAction, logged_in: bool, activation_valid: bool) -> (r:
    GameMenuGate)
    ensures
        !(a is BackupAllGameSaveToCloud) ==> r is Proceed,
        a is BackupAllGameSaveToCloud && !logged_in ==> r is NeedLogin,
        a is BackupAllGameSaveToCloud && logged_in && !activation_valid ==> r is ShowActivation,
        a is BackupAllGameSaveToCloud && logged_in && activation_valid ==> r is Proceed,
{
    match a {
        GameMenuAction::BackupAllGameSaveToCloud => {
            if !logged_in {
                GameMenuGate::NeedLogin
            } else if !activation_valid {
                GameMenuGate::ShowActivation
            } else {
                GameMenuGate::Proceed
            }
        },
        _ => GameMenuGate::Proceed,
    }
}

/// Where a destructive action's confirmation countdown stands next.
pub enum ConfirmOutcome {
    Run,
    Again(u8),
    Abort,
}

/// One round of the triple-confirmation countdown: declining aborts;
/// accepting counts down, and accepting at zero runs the action.
pub fn delete_confirm_step(count: u8, accepted: bool) -> (r: ConfirmOutcome)
    ensures
        !accepted ==> r is Abort,
        accepted && count == 0 ==> r is Run,
        accepted && count > 0 ==> (r matches ConfirmOutcome::Again(c) && c == count - 1),
{
    if !accepted {
        ConfirmOutcome::Abort
    } else if count == 0 {
        ConfirmOutcome::Run
    } else {
        ConfirmOutcome::Again(count - 1)
    }
}

} // verus!
