use xr3wm::commands::{
    split_command, run_manage_hooks, Action, Cmd, CmdLogHook, CmdManage, DispatchError, LogHook,
    LogInfo, ManageError, ManageHook, ManagePlacement, MoveOp, StatusSnapshot,
};
use xr3wm::layout::LayoutMsg;

#[test]
fn split_program_and_arguments() {
    let parts = split_command("echo hi");
    assert_eq!(parts, vec!["echo".to_string(), "hi".to_string()]);
}

#[test]
fn split_bare_program() {
    assert_eq!(split_command("xterm"), vec!["xterm".to_string()]);
}

#[test]
fn split_keeps_empty_segments() {
    // doubled and leading spaces produce empty segments; the spawn step
    // sees them as empty arguments
    assert_eq!(
        split_command("a  b"),
        vec!["a".to_string(), String::new(), "b".to_string()]
    );
    assert_eq!(split_command(""), vec![String::new()]);
    assert_eq!(
        split_command(" x"),
        vec![String::new(), "x".to_string()]
    );
    assert_eq!(
        split_command("x "),
        vec!["x".to_string(), String::new()]
    );
}

#[test]
fn exec_spawns_split_command_line() {
    let cmd = Cmd::Exec(String::from("echo hi there"));
    match cmd.call(1, 1) {
        Ok(Action::Spawn(prog, args)) => {
            assert_eq!(prog, "echo");
            assert_eq!(args, vec!["hi".to_string(), "there".to_string()]);
        },
        _ => panic!("Exec must decide to spawn"),
    }
}

#[test]
fn switch_workspace_converts_to_zero_based() {
    match Cmd::SwitchWorkspace(1).call(3, 1) {
        Ok(Action::SwitchTo(0)) => {},
        _ => panic!("workspace 1 must activate index 0"),
    }
    match Cmd::SwitchWorkspace(3).call(3, 1) {
        Ok(Action::SwitchTo(2)) => {},
        _ => panic!("workspace 3 must activate index 2"),
    }
}

#[test]
fn switch_workspace_out_of_range_is_refused() {
    match Cmd::SwitchWorkspace(4).call(3, 1) {
        Err(DispatchError::WorkspaceOutOfRange(4)) => {},
        _ => panic!("index past the set must be a defined error"),
    }
    match Cmd::SwitchWorkspace(0).call(3, 1) {
        Err(DispatchError::WorkspaceOutOfRange(0)) => {},
        _ => panic!("index zero must be a defined error"),
    }
}

#[test]
fn screen_and_move_commands_convert_indices() {
    assert!(matches!(Cmd::SwitchScreen(2).call(3, 2), Ok(Action::SwitchToScreen(1))));
    assert!(matches!(
        Cmd::SwitchScreen(3).call(3, 2),
        Err(DispatchError::ScreenOutOfRange(3))
    ));
    assert!(matches!(Cmd::MoveToWorkspace(2).call(3, 2), Ok(Action::MoveWindowTo(1))));
    assert!(matches!(
        Cmd::MoveToWorkspace(9).call(3, 2),
        Err(DispatchError::WorkspaceOutOfRange(9))
    ));
    assert!(matches!(Cmd::MoveToScreen(1).call(3, 2), Ok(Action::MoveWindowToScreen(0))));
    assert!(matches!(
        Cmd::MoveToScreen(0).call(3, 2),
        Err(DispatchError::ScreenOutOfRange(0))
    ));
}

#[test]
fn focus_and_swap_commands_pick_move_tags() {
    assert!(matches!(Cmd::FocusUp.call(1, 1), Ok(Action::MoveFocus(MoveOp::Up))));
    assert!(matches!(Cmd::FocusDown.call(1, 1), Ok(Action::MoveFocus(MoveOp::Down))));
    assert!(matches!(Cmd::FocusMaster.call(1, 1), Ok(Action::MoveFocus(MoveOp::Swap))));
    assert!(matches!(Cmd::SwapUp.call(1, 1), Ok(Action::MoveWindow(MoveOp::Up))));
    assert!(matches!(Cmd::SwapDown.call(1, 1), Ok(Action::MoveWindow(MoveOp::Down))));
    assert!(matches!(Cmd::SwapMaster.call(1, 1), Ok(Action::MoveWindow(MoveOp::Swap))));
    assert!(matches!(Cmd::KillClient.call(1, 1), Ok(Action::KillFocusedWindow)));
}

#[test]
fn layout_message_is_forwarded() {
    assert!(matches!(
        Cmd::SendLayoutMsg(LayoutMsg::IncreaseRatio).call(1, 1),
        Ok(Action::SendLayoutMsg(LayoutMsg::IncreaseRatio))
    ));
}

#[test]
fn first_matching_hook_wins() {
    let hooks = vec![
        ManageHook { class_name: String::from("Gimp"), cmd: CmdManage::Float },
        ManageHook { class_name: String::from("Firefox"), cmd: CmdManage::Move(2) },
        ManageHook { class_name: String::from("Firefox"), cmd: CmdManage::Move(5) },
    ];
    let decision = run_manage_hooks(&hooks, &String::from("Firefox"), CmdManage::Move(1));
    assert_eq!(decision, CmdManage::Move(2));
}

#[test]
fn unmatched_class_gets_default() {
    let hooks = vec![ManageHook { class_name: String::from("Gimp"), cmd: CmdManage::Float }];
    let decision = run_manage_hooks(&hooks, &String::from("URxvt"), CmdManage::Move(1));
    assert_eq!(decision, CmdManage::Move(1));
}

#[test]
fn manage_move_places_and_focuses() {
    match CmdManage::Move(2).call(3, 444) {
        Ok(ManagePlacement { workspace: 1, window: 444 }) => {},
        _ => panic!("Move(2) must place on workspace index 1"),
    }
}

#[test]
fn manage_move_out_of_range_is_refused() {
    assert_eq!(CmdManage::Move(4).call(3, 1).unwrap_err(), ManageError::WorkspaceOutOfRange(4));
    assert_eq!(CmdManage::Move(0).call(3, 1).unwrap_err(), ManageError::WorkspaceOutOfRange(0));
}

#[test]
fn undefined_placements_report_unsupported() {
    assert_eq!(CmdManage::Float.call(3, 1).unwrap_err(), ManageError::Unsupported);
    assert_eq!(CmdManage::Fullscreen.call(3, 1).unwrap_err(), ManageError::Unsupported);
    assert_eq!(CmdManage::Ignore.call(3, 1).unwrap_err(), ManageError::Unsupported);
}

fn snapshot() -> StatusSnapshot {
    StatusSnapshot {
        tags: vec![String::from("web"), String::from("term"), String::from("mail")],
        focused_index: 1,
        focused_title: String::from("mutt"),
        layout_name: String::from("Tall"),
    }
}

#[test]
fn log_hook_samples_every_selector_in_order() {
    let hook = LogHook { logs: vec![CmdLogHook::Workspaces, CmdLogHook::Title, CmdLogHook::Layout] };
    let samples = hook.call(&snapshot());
    assert_eq!(samples.len(), 3);
    match &samples[0] {
        LogInfo::Workspaces(tags, focused, urgent) => {
            assert_eq!(tags, &vec![
                String::from("web"),
                String::from("term"),
                String::from("mail"),
            ]);
            assert_eq!(*focused, 1);
            assert!(urgent.is_empty());
        },
        _ => panic!("first sample must list the workspaces"),
    }
    match &samples[1] {
        LogInfo::Title(t) => assert_eq!(t, "mutt"),
        _ => panic!("second sample must be the focused title"),
    }
    match &samples[2] {
        LogInfo::Layout(n) => assert_eq!(n, "Tall"),
        _ => panic!("third sample must be the layout name"),
    }
}
