use vstd::prelude::*;

verus! {

/// Show commands of a window placement and of `ShowWindow`.
pub const SW_NORMAL: u32 = 1;
pub const SW_SHOWMINIMIZED: u32 = 2;
pub const SW_SHOWMAXIMIZED: u32 = 3;
pub const SW_RESTORE: u32 = 9;

/// How a window is shown before it is activated.
#[derive(Clone, Copy, Debug, PartialEq, Eq, Structural)]
pub enum ShowState {
    Maximized,
    Minimized,
    Normal,
}

pub open spec fn spec_show_state(show_cmd: u32) -> ShowState {
    if show_cmd == SW_SHOWMAXIMIZED {
        ShowState::Maximized
    } else if show_cmd == SW_SHOWMINIMIZED {
        ShowState::Minimized
    } else {
        ShowState::Normal
    }
}

/// The command that brings a window in `state` back before focusing it: a
/// maximized window stays maximized, a minimized one is restored, anything
/// else is shown normally.
pub open spec fn spec_restore_command(state: ShowState) -> u32 {
    match state {
        ShowState::Maximized => SW_SHOWMAXIMIZED,
        ShowState::Minimized => SW_RESTORE,
        ShowState::Normal => SW_NORMAL,
    }
}

/// Classifies the show command of a window's placement.
pub fn show_state(show_cmd: u32) -> (r: ShowState)
    ensures
        r == spec_show_state(show_cmd),
{
    if show_cmd == SW_SHOWMAXIMIZED {
        ShowState::Maximized
    } else if show_cmd == SW_SHOWMINIMIZED {
        ShowState::Minimized
    } else {
        ShowState::Normal
    }
}

/// The show command to apply to a window whose placement shows it with
/// `show_cmd`, before asking for the focus. It never minimizes.
pub fn restore_command(show_cmd: u32) -> (r: u32)
    ensures
        r == spec_restore_command(spec_show_state(show_cmd)),
        r != SW_SHOWMINIMIZED,
{
    match show_state(show_cmd) {
        ShowState::Maximized => SW_SHOWMAXIMIZED,
        ShowState::Minimized => SW_RESTORE,
        ShowState::Normal => SW_NORMAL,
    }
}

} // verus!
