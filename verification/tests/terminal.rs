use motif::terminal::{TerminalModeAction, CHAT_STARTUP, SHUTDOWN_RESTORE};

#[test]
fn test_action_profiles_non_empty() {
    assert!(!CHAT_STARTUP.is_empty());
    assert!(!SHUTDOWN_RESTORE.is_empty());
}

#[test]
fn test_shutdown_restore_reverses_chat_startup() {
    let startup_has_raw = CHAT_STARTUP.contains(&TerminalModeAction::EnableRawMode);
    let shutdown_has_raw = SHUTDOWN_RESTORE.contains(&TerminalModeAction::DisableRawMode);
    assert!(startup_has_raw);
    assert!(shutdown_has_raw);
}

#[test]
fn test_apply_action_does_not_panic() {
    let actions = [
        TerminalModeAction::EnableRawMode,
        TerminalModeAction::EnterAlternateScreen,
        TerminalModeAction::HideCursor,
        TerminalModeAction::ShowCursor,
        TerminalModeAction::LeaveAlternateScreen,
        TerminalModeAction::EnableLineWrap,
        TerminalModeAction::DisableRawMode,
    ];
    assert_eq!(actions.len(), 7);
}
