//! What the tray icon, its menu and the global key combination ask for.

use vstd::prelude::*;

use crate::text;

verus! {

/// Something that is asked for from outside the window.
#[derive(Clone, Copy, PartialEq, Eq, Structural, Debug)]
pub enum TrayAction {
    ToggleVisibility,
    TogglePin,
    OpenSettings,
    Exit,
}

/// An entry of the menu: its identity, its label and what it asks for.
pub struct MenuEntry {
    pub id: &'static str,
    pub label: &'static str,
    pub action: TrayAction,
}

/// How many entries the menu has.
pub const MENU_ENTRIES: usize = 4;

/// The identity of an entry.
pub open spec fn entry_id(index: int) -> Seq<char> {
    if index == 0 {
        "visibility"@
    } else if index == 1 {
        "pin"@
    } else if index == 2 {
        "settings"@
    } else {
        "quit"@
    }
}

/// The label of an entry.
pub open spec fn entry_label(index: int) -> Seq<char> {
    if index == 0 {
        "显示 / 隐藏"@
    } else if index == 1 {
        "切换置顶"@
    } else if index == 2 {
        "设置"@
    } else {
        "退出"@
    }
}

/// What an entry asks for.
pub open spec fn entry_action(index: int) -> TrayAction {
    if index == 0 {
        TrayAction::ToggleVisibility
    } else if index == 1 {
        TrayAction::TogglePin
    } else if index == 2 {
        TrayAction::OpenSettings
    } else {
        TrayAction::Exit
    }
}

/// The entries of the menu, from top to bottom.
pub fn menu_entry(index: usize) -> (entry: MenuEntry)
    requires
        index < MENU_ENTRIES,
    ensures
        entry.id@ == entry_id(index as int),
        entry.label@ == entry_label(index as int),
        entry.action == entry_action(index as int),
{
    match index {
        0 => MenuEntry {
            id: "visibility",
            label: "显示 / 隐藏",
            action: TrayAction::ToggleVisibility,
        },
        1 => MenuEntry { id: "pin", label: "切换置顶", action: TrayAction::TogglePin },
        2 => MenuEntry { id: "settings", label: "设置", action: TrayAction::OpenSettings },
        _ => MenuEntry { id: "quit", label: "退出", action: TrayAction::Exit },
    }
}

/// Puts an action behind those that wait.
pub fn push_tray_action(queue: &mut Vec<TrayAction>, action: TrayAction)
    ensures
        final(queue)@ == old(queue)@.push(action),
{
    queue.push(action);
}

/// Takes all actions that wait, in the order in which they came.
pub fn take_tray_actions(queue: &mut Vec<TrayAction>) -> (actions: Vec<TrayAction>)
    ensures
        actions@ == old(queue)@,
        final(queue)@ == Seq::<TrayAction>::empty(),
{
    let mut actions: Vec<TrayAction> = Vec::new();
    std::mem::swap(queue, &mut actions);
    actions
}

/// What the entry of the menu with this identity asks for, `None` where there is none.
pub fn menu_action(id: &str) -> (action: Option<TrayAction>)
    ensures
        match action {
            Some(a) => exists|k: int|
                0 <= k < MENU_ENTRIES && id@ == #[trigger] entry_id(k) && a == entry_action(k),
            None => forall|k: int| 0 <= k < MENU_ENTRIES ==> id@ != #[trigger] entry_id(k),
        },
{
    let mut index: usize = 0;
    while index < MENU_ENTRIES
        invariant
            index <= MENU_ENTRIES,
            forall|k: int| 0 <= k < index ==> id@ != #[trigger] entry_id(k),
        decreases MENU_ENTRIES - index,
    {
        let entry = menu_entry(index);
        if text::same_text(entry.id, id) {
            proof {
                assert(id@ == entry_id(index as int));
            }
            return Some(entry.action);
        }
        index += 1;
    }
    None
}

/// Different entries have different identities, so each asks for what it stands for.
pub proof fn menu_entries_are_unique(a: int, b: int)
    requires
        0 <= a < MENU_ENTRIES,
        0 <= b < MENU_ENTRIES,
        entry_id(a) == entry_id(b),
    ensures
        a == b,
{
    reveal_strlit("visibility");
    reveal_strlit("pin");
    reveal_strlit("settings");
    reveal_strlit("quit");
    assert("visibility"@.len() == 10);
    assert("pin"@.len() == 3);
    assert("settings"@.len() == 8);
    assert("quit"@.len() == 4);
}

/// What a click on the icon asks for.
pub open spec fn click_asks(left: bool, let_go: bool) -> Option<TrayAction> {
    if left && let_go {
        Some(TrayAction::ToggleVisibility)
    } else {
        None
    }
}

/// What the global key combination asks for.
pub open spec fn hotkey_asks(pressed: bool) -> Option<TrayAction> {
    if pressed {
        Some(TrayAction::TogglePin)
    } else {
        None
    }
}

/// What a click on the icon asks for: the left button, when it is let go, shows
/// or hides the window.
pub fn click_action(left: bool, let_go: bool) -> (action: Option<TrayAction>)
    ensures
        action == if left && let_go {
            Some(TrayAction::ToggleVisibility)
        } else {
            None
        },
        action == click_asks(left, let_go),
{
    if left && let_go {
        Some(TrayAction::ToggleVisibility)
    } else {
        None
    }
}

/// What the global key combination asks for when it is pressed.
pub fn hotkey_action(pressed: bool) -> (action: Option<TrayAction>)
    ensures
        action == if pressed {
            Some(TrayAction::TogglePin)
        } else {
            None
        },
        action == hotkey_asks(pressed),
{
    if pressed {
        Some(TrayAction::TogglePin)
    } else {
        None
    }
}

/// The menu shows or hides the window, turns the pin round, opens the settings
/// and ends the program; each entry says so.
pub proof fn entries_say_what_they_do(index: int)
    requires
        0 <= index < 4,
    ensures
        entry_action(index) == TrayAction::ToggleVisibility <==> entry_label(index)
            == "显示 / 隐藏"@,
        entry_action(index) == TrayAction::TogglePin <==> entry_label(index) == "切换置顶"@,
        entry_action(index) == TrayAction::OpenSettings <==> entry_label(index) == "设置"@,
        entry_action(index) == TrayAction::Exit <==> entry_label(index) == "退出"@,
        entry_action(index) == TrayAction::Exit <==> index == 3,
{
    reveal_strlit("显示 / 隐藏");
    reveal_strlit("切换置顶");
    reveal_strlit("设置");
    reveal_strlit("退出");
    assert("显示 / 隐藏"@.len() == 7 && "切换置顶"@.len() == 4);
    assert("设置"@.len() == 2 && "退出"@.len() == 2);
    assert("设置"@[0] != "退出"@[0]);
}

/// A left click on the icon shows or hides the window once, when the button is
/// let go; the key combination turns the pin round once, when it is pressed.
pub proof fn clicks_and_keys_count_once(left: bool, let_go: bool, pressed: bool)
    ensures
        click_asks(true, true) == Some(TrayAction::ToggleVisibility),
        !left || !let_go ==> click_asks(left, let_go) is None,
        hotkey_asks(true) == Some(TrayAction::TogglePin),
        !pressed ==> hotkey_asks(pressed) is None,
{
}

} // verus!
