//! How the program finds its own window.

use vstd::prelude::*;

use crate::text;

verus! {

/// The title of the window.
pub const WINDOW_TITLE: &'static str = "桌面日历待办";

/// The bit of a window's extended style that lets it be see-through.
pub const LAYERED: i64 = 0x0008_0000;

/// What the desktop tells of a window.
pub struct WindowInfo {
    pub handle: i64,
    pub process: u32,
    pub visible: bool,
    pub title: String,
}

/// Whether a window is the one of the program with this process: visible, and
/// with the title of the program.
pub open spec fn is_main(info: WindowInfo, process: u32) -> bool {
    info.process == process && info.visible && info.title@ == WINDOW_TITLE@
}

/// Whether a window is the one of the program with this process.
pub fn is_main_window(info: &WindowInfo, process: u32) -> (yes: bool)
    ensures
        yes == is_main(*info, process),
{
    info.process == process && info.visible && text::same_text(info.title.as_str(), WINDOW_TITLE)
}

/// The window of the program: the first that is it.
pub fn find_main_window(windows: &Vec<WindowInfo>, process: u32) -> (handle: Option<i64>)
    ensures
        match handle {
            Some(h) => exists|i: int|
                {
                    &&& 0 <= i < windows@.len()
                    &&& is_main(#[trigger] windows@[i], process)
                    &&& windows@[i].handle == h
                    &&& forall|k: int| 0 <= k < i ==> !is_main(#[trigger] windows@[k], process)
                },
            None => forall|k: int|
                0 <= k < windows@.len() ==> !is_main(#[trigger] windows@[k], process),
        },
{
    let mut i: usize = 0;
    while i < windows.len()
        invariant
            i <= windows@.len(),
            forall|k: int| 0 <= k < i ==> !is_main(#[trigger] windows@[k], process),
        decreases windows@.len() - i,
    {
        if is_main_window(&windows[i], process) {
            return Some(windows[i].handle);
        }
        i += 1;
    }
    None
}

/// The first window that names the process as its owner; each window comes with
/// the processes it names.
pub fn owned_window(windows: &Vec<(u32, Vec<u32>)>, process: u32) -> (window: Option<u32>)
    ensures
        match window {
            Some(w) => exists|i: int|
                {
                    &&& 0 <= i < windows@.len()
                    &&& owned_by(#[trigger] windows@[i], process)
                    &&& windows@[i].0 == w
                    &&& forall|k: int| 0 <= k < i ==> !owned_by(#[trigger] windows@[k], process)
                },
            None => forall|k: int|
                0 <= k < windows@.len() ==> !owned_by(#[trigger] windows@[k], process),
        },
{
    let mut i: usize = 0;
    while i < windows.len()
        invariant
            i <= windows@.len(),
            forall|k: int| 0 <= k < i ==> !owned_by(#[trigger] windows@[k], process),
        decreases windows@.len() - i,
    {
        let owners = &windows[i].1;
        if owners.len() > 0 && owners[0] == process {
            return Some(windows[i].0);
        }
        i += 1;
    }
    None
}

/// Whether the first process that a window names is this one.
pub open spec fn owned_by(window: (u32, Vec<u32>), process: u32) -> bool {
    window.1@.len() > 0 && window.1@[0] == process
}

/// The extended style of a window that is see-through or not.
pub fn layered_style(style: i64, see_through: bool) -> (result: i64)
    ensures
        result == if see_through {
            style | LAYERED
        } else {
            style & !LAYERED
        },
{
    if see_through {
        style | LAYERED
    } else {
        style & !LAYERED
    }
}

/// Making a window see-through sets the bit for it and making it opaque clears
/// it; no other bit changes.
pub proof fn only_the_layered_bit_changes(style: i64)
    ensures
        (style | LAYERED) & LAYERED == LAYERED,
        (style & !LAYERED) & LAYERED == 0,
        (style | LAYERED) & !LAYERED == style & !LAYERED,
{
    assert((style | 0x0008_0000) & 0x0008_0000 == 0x0008_0000) by (bit_vector);
    assert((style & !0x0008_0000i64) & 0x0008_0000 == 0) by (bit_vector);
    assert((style | 0x0008_0000) & !0x0008_0000i64 == style & !0x0008_0000i64) by (bit_vector);
}

/// The window of the program is one of its own process that is visible and has
/// its title; a window belongs to the process that it names first.
pub proof fn the_window_is_known_by_its_title(info: WindowInfo, window: (u32, Vec<u32>), process: u32)
    ensures
        is_main(info, process) <==> info.title@ == "桌面日历待办"@ && info.visible && info.process
            == process,
        window.1@.len() == 0 ==> !owned_by(window, process),
        window.1@.len() > 0 ==> (owned_by(window, process) <==> window.1@[0] == process),
{
}

} // verus!
