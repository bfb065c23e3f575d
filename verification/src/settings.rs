//! The page of the settings: what it offers and what it says.

use vstd::prelude::*;

use crate::app::{App, AppView};
use crate::config;
use crate::config::HotkeySpec;
use crate::text;
use crate::theme;

verus! {

/// How many scales there are to choose from.
pub const SCALE_COUNT: usize = 4;

/// How many opacities there are to choose from.
pub const OPACITY_COUNT: usize = 6;

/// A choice: its name, and how many hundredths it stands for.
#[derive(Clone, Copy)]
pub struct Percentage {
    pub name: &'static str,
    pub hundredths: u32,
}

/// The name of a scale.
pub open spec fn scale_name(index: int) -> Seq<char> {
    if index == 0 {
        "小"@
    } else if index == 1 {
        "标准"@
    } else if index == 2 {
        "大"@
    } else {
        "特大"@
    }
}

/// The hundredths of a scale.
pub open spec fn scale_hundredths(index: int) -> int {
    85 + index * 15
}

/// The scales to choose from, the smallest first.
pub fn font_scale(index: usize) -> (choice: Percentage)
    requires
        index < SCALE_COUNT,
    ensures
        choice.name@ == scale_name(index as int),
        choice.hundredths == scale_hundredths(index as int),
{
    match index {
        0 => Percentage { name: "小", hundredths: 85 },
        1 => Percentage { name: "标准", hundredths: 100 },
        2 => Percentage { name: "大", hundredths: 115 },
        _ => Percentage { name: "特大", hundredths: 130 },
    }
}

/// The hundredths of an opacity.
pub open spec fn opacity_hundredths(index: int) -> int {
    100 - index * 10
}

/// The opacities to choose from, the highest first; each is named by its hundredths.
pub fn opacity_step(index: usize) -> (choice: Percentage)
    requires
        index < OPACITY_COUNT,
    ensures
        choice.name@ == text::decimal(opacity_hundredths(index as int) as nat).push('%'),
        choice.hundredths == opacity_hundredths(index as int),
{
    proof {
        reveal_strlit("100%");
        reveal_strlit("90%");
        reveal_strlit("80%");
        reveal_strlit("70%");
        reveal_strlit("60%");
        reveal_strlit("50%");
        reveal_with_fuel(text::decimal, 4);
    }
    match index {
        0 => Percentage { name: "100%", hundredths: 100 },
        1 => Percentage { name: "90%", hundredths: 90 },
        2 => Percentage { name: "80%", hundredths: 80 },
        3 => Percentage { name: "70%", hundredths: 70 },
        4 => Percentage { name: "60%", hundredths: 60 },
        _ => Percentage { name: "50%", hundredths: 50 },
    }
}

/// A theme as it is offered: its sign and its name.
pub open spec fn theme_text(index: int) -> Seq<char> {
    theme::icon_of(index) + seq![' '] + theme::name_of(index)
}

/// The theme with this index as it is offered.
pub fn theme_label(index: usize) -> (label: String)
    requires
        index < theme::THEME_COUNT,
    ensures
        label@ == theme_text(index as int),
{
    let mut label = text::copy_text(theme::theme_icon(index));
    label.push(' ');
    text::push_text(&mut label, theme::theme_name(index));
    proof {
        assert(label@ =~= theme_text(index as int));
    }
    label
}

/// What is said of the key combination in use.
pub fn hotkey_label(spec: &HotkeySpec) -> (label: String)
    ensures
        label@ == "当前组合："@ + config::hotkey_text(spec@),
{
    let mut label = text::copy_text("当前组合：");
    text::push_text(&mut label, spec.display().as_str());
    label
}

/// What is said of the folder in use.
pub fn storage_label(current: Option<&str>) -> (label: String)
    ensures
        label@ == "当前："@ + match current {
            Some(dir) => dir@,
            None => "未设置"@,
        },
{
    let mut label = text::copy_text("当前：");
    match current {
        Some(dir) => text::push_text(&mut label, dir),
        None => text::push_text(&mut label, "未设置"),
    }
    label
}

/// Something that was asked for in the section for the folder.
#[derive(Clone, Copy, PartialEq, Eq, Structural, Debug)]
pub enum StorageRequest {
    /// Move the data to the folder that was typed.
    Apply,
    /// Move the data back to the default folder.
    Reset,
    /// Show the folder.
    Open,
}

/// `request`, where it was made.
pub open spec fn request_if(made: bool, request: StorageRequest) -> Seq<StorageRequest> {
    if made {
        seq![request]
    } else {
        Seq::empty()
    }
}

/// What was clicked in the section for the folder. The typed folder is also
/// taken when Enter takes the keyboard from its input.
#[derive(Clone, Copy, PartialEq, Eq, Structural, Debug)]
pub struct StorageInput {
    pub apply_clicked: bool,
    pub reset_clicked: bool,
    pub open_clicked: bool,
    pub lost_focus: bool,
    pub enter: bool,
}

/// What was asked for in the section for the folder, in the order in which it is done.
pub open spec fn storage_requests(input: StorageInput) -> Seq<StorageRequest> {
    request_if(input.apply_clicked || (input.lost_focus && input.enter), StorageRequest::Apply)
        + request_if(input.reset_clicked, StorageRequest::Reset) + request_if(
        input.open_clicked,
        StorageRequest::Open,
    )
}

/// What was asked for in the section for the folder.
pub fn draw_storage_section(input: StorageInput) -> (requests: Vec<StorageRequest>)
    ensures
        requests@ == storage_requests(input),
{
    let mut requests: Vec<StorageRequest> = Vec::new();
    if input.apply_clicked || (input.lost_focus && input.enter) {
        requests.push(StorageRequest::Apply);
    }
    if input.reset_clicked {
        requests.push(StorageRequest::Reset);
    }
    if input.open_clicked {
        requests.push(StorageRequest::Open);
    }
    proof {
        assert(requests@ =~= storage_requests(input));
    }
    requests
}

impl App {
    /// What a request hands to `apply_data_dir`: what was typed, or nothing for
    /// the default folder, in which case the input is emptied too.
    pub fn requested_folder(&mut self, request: StorageRequest) -> (input: Option<String>)
        requires
            old(self).wf(),
        ensures
            final(self).wf(),
            match request {
                StorageRequest::Apply => final(self)@ == old(self)@ && input is Some && input->0@
                    == old(self)@.pending_data_dir,
                StorageRequest::Reset => final(self)@ == (AppView {
                    pending_data_dir: Seq::empty(),
                    ..old(self)@
                }) && input is Some && input->0@ == Seq::<char>::empty(),
                StorageRequest::Open => final(self)@ == old(self)@ && input is None,
            },
    {
        match request {
            StorageRequest::Apply => Some(text::copy_text(self.pending_data_dir.as_str())),
            StorageRequest::Reset => {
                self.pending_data_dir = String::new();
                Some(String::new())
            },
            StorageRequest::Open => None,
        }
    }
}

// ---------------------------------------------------------------------------
// What holds of the settings

/// The scales grow by fifteen hundredths around the natural size, and the
/// opacities fall by ten from full to one half.
pub proof fn choices_go_in_even_steps(index: int)
    ensures
        scale_hundredths(1) == 100,
        scale_hundredths(index + 1) == scale_hundredths(index) + 15,
        opacity_hundredths(0) == 100,
        opacity_hundredths(index + 1) == opacity_hundredths(index) - 10,
{
}

/// The sizes have the names small, normal, large and very large.
pub proof fn scales_have_their_names(index: int)
    requires
        0 <= index < 4,
    ensures
        scale_name(index) == seq!["小"@, "标准"@, "大"@, "特大"@][index],
{
}

/// A theme is offered with its sign before its name.
pub proof fn themes_are_offered_by_name(index: int)
    ensures
        theme_text(index) == theme::icon_of(index).push(' ') + theme::name_of(index),
{
    assert(theme_text(index) =~= theme::icon_of(index).push(' ') + theme::name_of(index));
}

/// What is clicked is asked for, once, and Enter in the input asks for the
/// folder that was typed; what comes first is done first.
pub proof fn clicks_are_asked_for_once(input: StorageInput)
    ensures
        ({
            let list = storage_requests(input);
            let apply = input.apply_clicked || (input.lost_focus && input.enter);
            &&& list.contains(StorageRequest::Apply) <==> apply
            &&& list.contains(StorageRequest::Reset) <==> input.reset_clicked
            &&& list.contains(StorageRequest::Open) <==> input.open_clicked
            &&& list.no_duplicates()
            &&& list.len() > 0 && apply ==> list[0] == StorageRequest::Apply
            &&& list.len() > 0 && input.open_clicked ==> list.last() == StorageRequest::Open
        }),
{
    let list = storage_requests(input);
    let apply = input.apply_clicked || (input.lost_focus && input.enter);
    if apply {
        assert(list[0] == StorageRequest::Apply);
    }
    if input.reset_clicked {
        assert(list[if apply { 1int } else { 0 }] == StorageRequest::Reset);
    }
    if input.open_clicked {
        assert(list[list.len() - 1] == StorageRequest::Open);
    }
}

} // verus!
