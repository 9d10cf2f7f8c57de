//! Declarative terminal operations and the profiles that enter and leave
//! the chat UI.
use vstd::prelude::*;

verus! {

/// Declarative terminal operations.
#[derive(Debug, Clone, Copy, PartialEq, Eq, Structural)]
pub enum TerminalModeAction {
    EnableRawMode,
    DisableRawMode,
    EnterAlternateScreen,
    LeaveAlternateScreen,
    ShowCursor,
    HideCursor,
    EnableLineWrap,
    DisableLineWrap,
}

/// Actions to enter TUI mode.
pub const CHAT_STARTUP: [TerminalModeAction; 3] = [
    TerminalModeAction::EnableRawMode,
    TerminalModeAction::EnterAlternateScreen,
    TerminalModeAction::HideCursor,
];

/// Actions to restore terminal on exit.
pub const SHUTDOWN_RESTORE: [TerminalModeAction; 4] = [
    TerminalModeAction::ShowCursor,
    TerminalModeAction::LeaveAlternateScreen,
    TerminalModeAction::EnableLineWrap,
    TerminalModeAction::DisableRawMode,
];

/// The action that undoes `a`.
pub open spec fn inverse(a: TerminalModeAction) -> TerminalModeAction {
    match a {
        TerminalModeAction::EnableRawMode => TerminalModeAction::DisableRawMode,
        TerminalModeAction::DisableRawMode => TerminalModeAction::EnableRawMode,
        TerminalModeAction::EnterAlternateScreen => TerminalModeAction::LeaveAlternateScreen,
        TerminalModeAction::LeaveAlternateScreen => TerminalModeAction::EnterAlternateScreen,
        TerminalModeAction::ShowCursor => TerminalModeAction::HideCursor,
        TerminalModeAction::HideCursor => TerminalModeAction::ShowCursor,
        TerminalModeAction::EnableLineWrap => TerminalModeAction::DisableLineWrap,
        TerminalModeAction::DisableLineWrap => TerminalModeAction::EnableLineWrap,
    }
}

/// What the terminal modes are: raw input, the alternate screen, a hidden
/// cursor, line wrap.
pub struct TermState {
    pub raw: bool,
    pub alternate: bool,
    pub cursor_hidden: bool,
    pub wrap: bool,
}

/// A terminal as a shell leaves it: cooked input, the main screen, the
/// cursor shown, lines wrapped.
pub open spec fn normal_term() -> TermState {
    TermState { raw: false, alternate: false, cursor_hidden: false, wrap: true }
}

/// The modes after `a`.
pub open spec fn apply_action(s: TermState, a: TerminalModeAction) -> TermState {
    match a {
        TerminalModeAction::EnableRawMode => TermState { raw: true, ..s },
        TerminalModeAction::DisableRawMode => TermState { raw: false, ..s },
        TerminalModeAction::EnterAlternateScreen => TermState { alternate: true, ..s },
        TerminalModeAction::LeaveAlternateScreen => TermState { alternate: false, ..s },
        TerminalModeAction::ShowCursor => TermState { cursor_hidden: false, ..s },
        TerminalModeAction::HideCursor => TermState { cursor_hidden: true, ..s },
        TerminalModeAction::EnableLineWrap => TermState { wrap: true, ..s },
        TerminalModeAction::DisableLineWrap => TermState { wrap: false, ..s },
    }
}

/// The modes after `actions`, in order.
pub open spec fn apply_actions(s: TermState, actions: Seq<TerminalModeAction>) -> TermState
    decreases actions.len(),
{
    if actions.len() == 0 {
        s
    } else {
        apply_action(apply_actions(s, actions.drop_last()), actions.last())
    }
}

/// Startup puts the terminal in raw mode on the alternate screen with the
/// cursor hidden; shutdown, from any state, leaves raw mode off, the main
/// screen active, the cursor shown and lines wrapped, so that startup then
/// shutdown gives back a normal terminal.
pub proof fn law_shutdown_restores(s: TermState)
    ensures
        apply_actions(normal_term(), CHAT_STARTUP@) == (TermState {
            raw: true,
            alternate: true,
            cursor_hidden: true,
            wrap: true,
        }),
        apply_actions(s, SHUTDOWN_RESTORE@) == normal_term(),
        apply_actions(apply_actions(normal_term(), CHAT_STARTUP@), SHUTDOWN_RESTORE@) == normal_term(),
{
    let st = CHAT_STARTUP@;
    assert(st.drop_last().drop_last().drop_last() =~= Seq::<TerminalModeAction>::empty());
    assert(apply_actions(normal_term(), st) == apply_action(
        apply_action(apply_action(normal_term(), st[0]), st[1]),
        st[2],
    )) by {
        reveal_with_fuel(apply_actions, 4);
        assert(st.drop_last().drop_last() =~= seq![st[0]]);
        assert(st.drop_last() =~= seq![st[0], st[1]]);
    }
    let sh = SHUTDOWN_RESTORE@;
    assert forall|t: TermState| #[trigger] apply_actions(t, sh) == normal_term() by {
        reveal_with_fuel(apply_actions, 5);
        assert(sh.drop_last().drop_last().drop_last().drop_last() =~= Seq::<TerminalModeAction>::empty());
        assert(sh.drop_last().drop_last().drop_last() =~= seq![sh[0]]);
        assert(sh.drop_last().drop_last() =~= seq![sh[0], sh[1]]);
        assert(sh.drop_last() =~= seq![sh[0], sh[1], sh[2]]);
    }
    assert(apply_actions(s, sh) == normal_term());
    assert(apply_actions(apply_actions(normal_term(), st), sh) == normal_term());
}

/// Shutdown undoes every action of startup.
pub proof fn law_shutdown_undoes_startup()
    ensures
        forall|i: int| 0 <= i < CHAT_STARTUP@.len() ==> #[trigger] SHUTDOWN_RESTORE@.contains(
            inverse(CHAT_STARTUP@[i]),
        ),
{
    assert(SHUTDOWN_RESTORE@[3] == inverse(CHAT_STARTUP@[0]));
    assert(SHUTDOWN_RESTORE@[1] == inverse(CHAT_STARTUP@[1]));
    assert(SHUTDOWN_RESTORE@[0] == inverse(CHAT_STARTUP@[2]));
}

} // verus!
