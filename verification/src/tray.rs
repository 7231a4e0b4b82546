//! The tray icon: its resource data, and what its window does with each message.

use vstd::prelude::*;

use crate::clipboard::le_u32;

verus! {

/// Where the first image of an ICO file starts: the offset stored in bytes
/// 18..22 (the first directory entry), or `None` when the file is too short to
/// hold it or the offset points past the end.
pub open spec fn ico_image_offset_spec(ico: Seq<u8>) -> Option<usize> {
    if ico.len() < 22 {
        None
    } else if le_u32(ico, 18) >= ico.len() {
        None
    } else {
        Some(le_u32(ico, 18) as usize)
    }
}

/// The offset of the first image in an ICO file, checked against its length.
pub fn ico_image_offset(ico: &[u8]) -> (r: Option<usize>)
    ensures
        r == ico_image_offset_spec(ico@),
{
    if ico.len() < 22 {
        return None;
    }
    let offset = ico[18] as usize + (ico[19] as usize) * 256 + (ico[20] as usize) * 65536
        + (ico[21] as usize) * 16777216;
    if offset >= ico.len() {
        None
    } else {
        Some(offset)
    }
}

/// The message the tray icon sends to its window: `WM_APP + 1`, the first
/// message number free for applications plus one.
pub const WM_TRAYICON: u32 = 0x8001;

/// `WM_COMMAND`: a menu item was chosen.
pub const WM_COMMAND: u32 = 0x0111;

/// `WM_DESTROY`: the window is being destroyed.
pub const WM_DESTROY: u32 = 0x0002;

/// `WM_RBUTTONUP`: the right mouse button was released (over the icon).
pub const WM_RBUTTONUP: u32 = 0x0205;

/// The command id of the "Quit" menu item.
pub const IDM_QUIT: u16 = 1001;

/// What the tray window does with a message.
#[derive(Debug, Clone, Copy, PartialEq, Eq, Structural)]
pub enum TrayAction {
    /// Show the context menu, then answer 0.
    ShowMenu,
    /// Tell the relay to quit and destroy the window, then answer 0.
    Quit,
    /// Post the quit message that ends the message loop, then answer 0.
    EndLoop,
    /// Nothing to do; answer 0.
    Ignore,
    /// Not a message of the tray: hand it to the default window procedure.
    Default,
}

/// What the tray window does with message `msg`, given the low word of its
/// `wparam` and of its `lparam`.
pub open spec fn tray_action_spec(msg: u32, wparam_low: u16, lparam_low: u32) -> TrayAction {
    if msg == WM_TRAYICON {
        if lparam_low == WM_RBUTTONUP {
            TrayAction::ShowMenu
        } else {
            TrayAction::Ignore
        }
    } else if msg == WM_COMMAND {
        if wparam_low == IDM_QUIT {
            TrayAction::Quit
        } else {
            TrayAction::Ignore
        }
    } else if msg == WM_DESTROY {
        TrayAction::EndLoop
    } else {
        TrayAction::Default
    }
}

/// Decides what the tray window does with a message: a right click on the
/// icon opens the menu, the "Quit" item quits, destroying the window ends the
/// message loop, and anything else goes to the default procedure.
pub fn tray_action(msg: u32, wparam_low: u16, lparam_low: u32) -> (r: TrayAction)
    ensures
        r == tray_action_spec(msg, wparam_low, lparam_low),
{
    if msg == WM_TRAYICON {
        if lparam_low == WM_RBUTTONUP {
            TrayAction::ShowMenu
        } else {
            TrayAction::Ignore
        }
    } else if msg == WM_COMMAND {
        if wparam_low == IDM_QUIT {
            TrayAction::Quit
        } else {
            TrayAction::Ignore
        }
    } else if msg == WM_DESTROY {
        TrayAction::EndLoop
    } else {
        TrayAction::Default
    }
}

/// Only a right-button release on the tray icon (message `0x8001`, event
/// `0x0205`) opens the menu; every other event on the icon (a move, a left
/// click, a double click) is ignored. Only the command `1001` ("Quit") quits;
/// other commands are ignored. `WM_DESTROY` (`0x0002`) ends the loop, and any
/// other message goes to the default procedure.
pub proof fn law_tray_reacts_only_to_its_own_events(msg: u32, wparam_low: u16, lparam_low: u32)
    ensures
        msg == 0x8001 ==> (tray_action_spec(msg, wparam_low, lparam_low) == TrayAction::ShowMenu
            <==> lparam_low == 0x0205),
        msg == 0x8001 && lparam_low != 0x0205 ==> tray_action_spec(msg, wparam_low, lparam_low)
            == TrayAction::Ignore,
        msg == 0x0111 ==> (tray_action_spec(msg, wparam_low, lparam_low) == TrayAction::Quit
            <==> wparam_low == 1001),
        msg == 0x0111 && wparam_low != 1001 ==> tray_action_spec(msg, wparam_low, lparam_low)
            == TrayAction::Ignore,
        msg == 0x0002 ==> tray_action_spec(msg, wparam_low, lparam_low) == TrayAction::EndLoop,
        msg != 0x8001 && msg != 0x0111 && msg != 0x0002 ==> tray_action_spec(
            msg,
            wparam_low,
            lparam_low,
        ) == TrayAction::Default,
{
}

} // verus!
