use vstd::prelude::*;

verus! {

/// Modifier flags of a hotkey.
pub const MOD_ALT: u32 = 0x0001;
pub const MOD_CONTROL: u32 = 0x0002;
pub const MOD_SHIFT: u32 = 0x0004;

/// Virtual-key codes: the digit row starts at `VK_0`.
pub const VK_0: u32 = 0x30;
pub const VK_Q: u32 = 0x51;

/// Window messages that the main window handles.
pub const WM_DESTROY: u32 = 0x0002;
pub const WM_COMMAND: u32 = 0x0111;
pub const WM_HOTKEY: u32 = 0x0312;
pub const WM_USER: u32 = 0x0400;

/// The chords of the four hotkey classes. Quitting and clearing share one
/// chord: quitting is matched first, on its own key, so clearing slot `Q`
/// cannot be reached.
pub const MOD_APPCOMMAND: u32 = MOD_CONTROL | MOD_ALT;
pub const MOD_GRAB_WINDOW: u32 = MOD_ALT | MOD_SHIFT;
pub const MOD_SWITCH_WINDOW: u32 = MOD_ALT;
pub const MOD_CLEAR_WINDOWS: u32 = MOD_CONTROL | MOD_ALT;

/// The command id of the main window's "exit" command.
pub const CMD_EXIT: u32 = 1;

/// What a hotkey press asks for; the slots are the pressed virtual-key codes.
#[derive(Clone, Copy, Debug, PartialEq, Eq, Structural)]
pub enum HotkeyAction {
    Quit,
    Grab(u32),
    Switch(u32),
    Clear(u32),
}

/// The hotkey table, matched by modifier set first and in this order.
pub open spec fn hotkey_action(modifiers: u32, vk: u32) -> Option<HotkeyAction> {
    if modifiers == MOD_APPCOMMAND && vk == VK_Q {
        Some(HotkeyAction::Quit)
    } else if modifiers == MOD_GRAB_WINDOW {
        Some(HotkeyAction::Grab(vk))
    } else if modifiers == MOD_SWITCH_WINDOW {
        Some(HotkeyAction::Switch(vk))
    } else if modifiers == MOD_CLEAR_WINDOWS {
        Some(HotkeyAction::Clear(vk))
    } else {
        None
    }
}

/// Classifies a hotkey press; `None` for a chord that is not ours.
pub fn on_hotkey(modifiers: u32, vk: u32) -> (r: Option<HotkeyAction>)
    ensures
        r == hotkey_action(modifiers, vk),
{
    if modifiers == MOD_APPCOMMAND && vk == VK_Q {
        Some(HotkeyAction::Quit)
    } else if modifiers == MOD_GRAB_WINDOW {
        Some(HotkeyAction::Grab(vk))
    } else if modifiers == MOD_SWITCH_WINDOW {
        Some(HotkeyAction::Switch(vk))
    } else if modifiers == MOD_CLEAR_WINDOWS {
        Some(HotkeyAction::Clear(vk))
    } else {
        None
    }
}

/// How the main window answers a message.
#[derive(Clone, Copy, Debug, PartialEq, Eq, Structural)]
pub enum MessageRoute {
    /// A hotkey of ours was pressed.
    Hotkey(HotkeyAction),
    /// Destroy the main window.
    DestroyWindow,
    /// End the message loop.
    PostQuit,
    /// Handled, with nothing to do.
    Handled,
    /// Leave it to the default window procedure.
    PassThrough,
}

pub open spec fn low_word(x: u32) -> u32 {
    (x % 0x10000) as u32
}

pub open spec fn high_word(x: u32) -> u32 {
    (x / 0x10000) as u32
}

pub open spec fn command_route(command: u32) -> MessageRoute {
    if command == CMD_EXIT {
        MessageRoute::DestroyWindow
    } else {
        MessageRoute::PassThrough
    }
}

/// The route of message `msg`, given the low 32 bits of its two parameters.
pub open spec fn message_route(msg: u32, wparam: u32, lparam: u32) -> MessageRoute {
    if msg == WM_HOTKEY {
        match hotkey_action(low_word(lparam), high_word(lparam)) {
            Some(a) => MessageRoute::Hotkey(a),
            None => MessageRoute::PassThrough,
        }
    } else if msg == WM_COMMAND {
        command_route(low_word(wparam))
    } else if msg == WM_DESTROY {
        MessageRoute::PostQuit
    } else if msg >= WM_USER {
        MessageRoute::Handled
    } else {
        MessageRoute::PassThrough
    }
}

/// Routes a menu or tray command of the main window.
pub fn on_command(command: u32) -> (r: MessageRoute)
    ensures
        r == command_route(command),
{
    if command == CMD_EXIT {
        MessageRoute::DestroyWindow
    } else {
        MessageRoute::PassThrough
    }
}

/// Routes a message of the main window: a hotkey carries its modifiers in
/// the low word of `lparam` and its key in the high word; a command carries
/// its id in the low word of `wparam`.
pub fn route_message(msg: u32, wparam: u32, lparam: u32) -> (r: MessageRoute)
    ensures
        r == message_route(msg, wparam, lparam),
{
    if msg == WM_HOTKEY {
        let modifiers = lparam % 0x10000;
        let vk = lparam / 0x10000;
        match on_hotkey(modifiers, vk) {
            Some(a) => MessageRoute::Hotkey(a),
            None => MessageRoute::PassThrough,
        }
    } else if msg == WM_COMMAND {
        on_command(wparam % 0x10000)
    } else if msg == WM_DESTROY {
        MessageRoute::PostQuit
    } else if msg >= WM_USER {
        MessageRoute::Handled
    } else {
        MessageRoute::PassThrough
    }
}

/// One hotkey to register: its id, modifier set and virtual key.
#[derive(Clone, Copy, Debug, PartialEq, Eq, Structural)]
pub struct HotkeyBinding {
    pub id: i32,
    pub modifiers: u32,
    pub vk: u32,
}

/// Hotkey ids of the four classes.
pub const ID_QUIT: i32 = 0;
pub const ID_GRAB: i32 = 1;
pub const ID_SWITCH: i32 = 2;
pub const ID_CLEAR: i32 = 3;

/// The number of digit keys that carry slots.
pub const SLOT_KEYS: u32 = 10;

/// The `j`-th registration: quitting first, then for each digit key in
/// turn its grab, switch and clear hotkeys.
pub open spec fn binding_at(j: int) -> HotkeyBinding {
    if j == 0 {
        HotkeyBinding { id: ID_QUIT, modifiers: MOD_APPCOMMAND, vk: VK_Q }
    } else {
        let vk = (VK_0 + (j - 1) / 3) as u32;
        let kind = (j - 1) % 3;
        if kind == 0 {
            HotkeyBinding { id: ID_GRAB, modifiers: MOD_GRAB_WINDOW, vk }
        } else if kind == 1 {
            HotkeyBinding { id: ID_SWITCH, modifiers: MOD_SWITCH_WINDOW, vk }
        } else {
            HotkeyBinding { id: ID_CLEAR, modifiers: MOD_CLEAR_WINDOWS, vk }
        }
    }
}

/// Every hotkey to register at startup, in registration order.
pub fn hotkey_bindings() -> (r: Vec<HotkeyBinding>)
    ensures
        r@.len() == 1 + 3 * SLOT_KEYS,
        forall|j: int| 0 <= j < r@.len() ==> #[trigger] r@[j] == binding_at(j),
{
    let mut r: Vec<HotkeyBinding> = Vec::new();
    r.push(HotkeyBinding { id: ID_QUIT, modifiers: MOD_APPCOMMAND, vk: VK_Q });
    let mut i: u32 = 0;
    while i < SLOT_KEYS
        invariant
            0 <= i <= SLOT_KEYS,
            r@.len() == 1 + 3 * i,
            forall|j: int| 0 <= j < r@.len() ==> #[trigger] r@[j] == binding_at(j),
        decreases SLOT_KEYS - i,
    {
        let vk_n = VK_0 + i;
        r.push(HotkeyBinding { id: ID_GRAB, modifiers: MOD_GRAB_WINDOW, vk: vk_n });
        r.push(HotkeyBinding { id: ID_SWITCH, modifiers: MOD_SWITCH_WINDOW, vk: vk_n });
        r.push(HotkeyBinding { id: ID_CLEAR, modifiers: MOD_CLEAR_WINDOWS, vk: vk_n });
        assert(binding_at(1 + 3 * i) == r@[1 + 3 * i]);
        assert(binding_at(2 + 3 * i) == r@[2 + 3 * i]);
        assert(binding_at(3 + 3 * i) == r@[3 + 3 * i]);
        i = i + 1;
    }
    r
}

} // verus!
