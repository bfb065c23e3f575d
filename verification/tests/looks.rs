use desk_todo::font::{cjk_font_candidates, extend_family, symbol_font_candidates};
use desk_todo::launch::Desktop;
use desk_todo::settings::{
    draw_storage_section, font_scale, hotkey_label, opacity_step, storage_label, theme_label, StorageInput,
    StorageRequest,
};
use desk_todo::config::HotkeySpec;
use desk_todo::theme::{
    existing_theme, is_dark, lighten, next_theme, paint_color, role_color, theme_icon, theme_name, Color,
    Paint, Role,
};
use desk_todo::time_picker::{
    draw_time_picker, picker_label, snap_state, spinner_row, time_spinner_column, Picker, PickerInput,
    Spinner, SpinnerInput,
};
use desk_todo::titlebar::{bar_button_look, bar_button_tip, BarButton};
use desk_todo::widgets::{button_look, checkbox_look, choice_kind, floating_look, ButtonKind};

fn rgb(r: u8, g: u8, b: u8) -> Color {
    Color { r, g, b }
}

#[test]
fn themes_have_their_colours() {
    assert_eq!(role_color(0, Role::Bg), rgb(20, 20, 20));
    assert_eq!(role_color(0, Role::Accent), rgb(64, 158, 255));
    assert_eq!(role_color(0, Role::DangerFill), rgb(58, 36, 38));
    assert_eq!(role_color(1, Role::Titlebar), rgb(255, 255, 255));
    assert_eq!(role_color(1, Role::TextDim), rgb(192, 196, 204));
    assert_eq!(role_color(1, Role::HoverFill), rgb(236, 245, 255));
    assert_eq!(role_color(2, Role::CellSelected), rgb(42, 174, 118));
    assert_eq!(role_color(2, Role::Weekend), rgb(241, 147, 140));
    assert_eq!(role_color(2, Role::Border), rgb(58, 74, 65));
    assert_eq!([theme_name(0), theme_name(1), theme_name(2)], ["深色", "浅色", "墨绿"]);
    assert_eq!([theme_icon(0), theme_icon(1), theme_icon(2)], ["🌙", "☀", "🍃"]);
    assert_eq!([is_dark(0), is_dark(1), is_dark(2)], [true, false, true]);
}

#[test]
fn themes_go_round() {
    assert_eq!([next_theme(0), next_theme(1), next_theme(2)], [1, 2, 0]);
    assert_eq!([existing_theme(2), existing_theme(3), existing_theme(99)], [2, 2, 2]);
}

#[test]
fn colours_are_lightened() {
    assert_eq!(lighten(rgb(0, 100, 255)), rgb(30, 118, 255));
    for part in 0..=255u8 {
        let lighter = lighten(rgb(part, part, part));
        assert_eq!(lighter.r as u32, part as u32 + (255 - part as u32) * 12 / 100);
        assert!(lighter.r >= part);
    }
    assert_eq!(paint_color(0, Paint::White), rgb(255, 255, 255));
    assert_eq!(paint_color(0, Paint::Lighter(Role::Accent)), lighten(rgb(64, 158, 255)));
    assert_eq!(paint_color(0, Paint::Theme(Role::Accent)), rgb(64, 158, 255));
}

#[test]
fn buttons_look_as_their_kind_asks() {
    let look = button_look(ButtonKind::Primary, true);
    assert_eq!(look.fill, Some(Paint::Lighter(Role::Accent)));
    assert_eq!((look.label, look.outline), (Paint::White, None));
    let look = button_look(ButtonKind::Default, false);
    assert_eq!(look.fill, Some(Paint::Theme(Role::Card)));
    assert_eq!((look.label, look.outline), (Paint::Theme(Role::TextPrimary), Some(Role::Border)));
    let look = button_look(ButtonKind::Plain, false);
    assert_eq!((look.label, look.outline), (Paint::Theme(Role::Accent), Some(Role::Accent)));
    assert_eq!(button_look(ButtonKind::Text, false).fill, None);
    assert_eq!(button_look(ButtonKind::Danger, true).fill, Some(Paint::Theme(Role::DangerFill)));
    assert_eq!(button_look(ButtonKind::Icon, true).label, Paint::Theme(Role::Accent));
    assert_eq!(choice_kind(true), ButtonKind::Primary);
    assert_eq!(choice_kind(false), ButtonKind::Default);
}

#[test]
fn boxes_and_the_floating_button_look_right() {
    let look = checkbox_look(true, true);
    assert_eq!((look.fill, look.outline, look.tick), (Role::Accent, None, true));
    assert_eq!(checkbox_look(false, true).outline, Some(Role::Accent));
    assert_eq!(checkbox_look(false, false).outline, Some(Role::Border));
    assert_eq!(floating_look(true, false).shadow, 80);
    assert_eq!(floating_look(false, true).shadow, 36);
    assert_eq!(floating_look(true, true).fill, Paint::Lighter(Role::Card));
    assert_eq!(floating_look(true, true).outline, Role::Danger);
    assert_eq!(floating_look(true, false).label, Role::TextSecondary);
}

#[test]
fn the_bar_shows_its_buttons() {
    assert_eq!(bar_button_look(BarButton::Close, true, false).fill, Some(Role::DangerFill));
    assert_eq!(bar_button_look(BarButton::Close, false, false).sign, Role::Danger);
    assert_eq!(bar_button_look(BarButton::Pin, false, true).sign, Role::Accent);
    assert_eq!(bar_button_look(BarButton::Pin, true, false).sign, Role::TextPrimary);
    assert_eq!(bar_button_look(BarButton::Theme, false, false).sign, Role::TextMuted);
    assert_eq!(bar_button_look(BarButton::Settings, false, false).fill, None);
    assert_eq!(bar_button_look(BarButton::Maximize, true, false).fill, Some(Role::HoverFill));
    assert_eq!(bar_button_look(BarButton::Minimize, true, false).sign, Role::TextPrimary);
    assert_eq!(bar_button_look(BarButton::Minimize, true, false).fill, Some(Role::HoverFill));
    assert_eq!(bar_button_tip(BarButton::Minimize, false, false, 0), "最小化到托盘");
    assert_eq!(bar_button_tip(BarButton::Close, false, false, 0), "关闭到托盘");
    assert_eq!(bar_button_tip(BarButton::Maximize, false, true, 0), "还原窗口");
    assert_eq!(bar_button_tip(BarButton::Maximize, false, false, 0), "最大化");
    assert_eq!(bar_button_tip(BarButton::Pin, true, false, 0), "取消置顶（快捷键 Ctrl+Alt+T）");
    assert_eq!(bar_button_tip(BarButton::Pin, false, false, 0), "窗口置顶（快捷键 Ctrl+Alt+T）");
    assert_eq!(bar_button_tip(BarButton::Theme, false, false, 2), "主题：墨绿（点击切换）");
    assert_eq!(bar_button_tip(BarButton::Settings, false, false, 2), "打开设置");
}

#[test]
fn the_settings_offer_their_choices() {
    let scales: Vec<(&str, f32)> =
        (0..4).map(font_scale).map(|c| (c.name, c.hundredths as f32 / 100.0)).collect();
    assert_eq!(scales, [("小", 0.85), ("标准", 1.0), ("大", 1.15), ("特大", 1.3)]);
    let opacities: Vec<(&str, f32)> =
        (0..6).map(opacity_step).map(|c| (c.name, c.hundredths as f32 / 100.0)).collect();
    assert_eq!(
        opacities,
        [("100%", 1.0), ("90%", 0.9), ("80%", 0.8), ("70%", 0.7), ("60%", 0.6), ("50%", 0.5)]
    );
    assert_eq!(theme_label(0), "🌙 深色");
    assert_eq!(hotkey_label(&HotkeySpec::default()), "当前组合：Ctrl + Alt + T");
    assert_eq!(storage_label(Some("/tmp/x")), "当前：/tmp/x");
    assert_eq!(storage_label(None), "当前：未设置");
    let none = StorageInput {
        apply_clicked: false,
        reset_clicked: false,
        open_clicked: false,
        lost_focus: false,
        enter: true,
    };
    assert!(draw_storage_section(none).is_empty());
    let all = StorageInput { lost_focus: true, reset_clicked: true, open_clicked: true, ..none };
    assert_eq!(
        draw_storage_section(all),
        [StorageRequest::Apply, StorageRequest::Reset, StorageRequest::Open]
    );
}

fn still() -> SpinnerInput {
    SpinnerInput { turned_to: None, clicked: None }
}

#[test]
fn columns_turn_and_are_set() {
    let at = Spinner { value: 9, row: 0 };
    assert_eq!(time_spinner_column(at, 24, true, still()), Spinner { value: 9, row: 9 });
    assert_eq!(time_spinner_column(at, 24, false, still()), at);
    let turned = |to| time_spinner_column(at, 24, false, SpinnerInput { turned_to: Some(to), clicked: None });
    assert_eq!(turned(5).row, 5);
    assert_eq!(turned(-3).row, 0);
    assert_eq!(turned(90).row, 23);
    let clicked = |c| time_spinner_column(at, 24, false, SpinnerInput { turned_to: None, clicked: Some(c) });
    assert_eq!(clicked(7), Spinner { value: 7, row: 7 });
    assert_eq!(clicked(24), at);
    assert_eq!(clicked(-1), at);
}

#[test]
fn resting_places_are_those_of_the_scrolled_column() {
    for max in [24, 60] {
        let row_height = 30.0f32;
        let viewport = row_height * 5.0;
        let max_offset = ((max as f32 + 2.0 - 0.5) * row_height - viewport * 0.5).max(0.0);
        for value in 0..max {
            let offset = ((value as f32 + 2.0 + 0.5) * row_height - viewport * 0.5).clamp(0.0, max_offset);
            let snapped = time_spinner_column(Spinner { value, row: 0 }, max, true, still());
            assert_eq!(snapped.row as f32 * row_height, offset);
        }
    }
}

#[test]
fn rows_of_a_column_show_their_number() {
    let row = spinner_row(7, 7, 24, false);
    assert_eq!((row.label.as_deref(), row.color, row.marked), (Some("07"), Role::Accent, true));
    let row = spinner_row(8, 7, 24, true);
    assert_eq!((row.label.as_deref(), row.color), (Some("08"), Role::TextPrimary));
    let row = spinner_row(24, 7, 24, true);
    assert_eq!((row.label, row.color, row.marked), (None, Role::TextSecondary, false));
    assert_eq!(spinner_row(-1, 7, 24, false).label, None);
    assert_eq!(picker_label(9, 5, 30), "⏰ 09:05:30");
}

#[test]
fn the_picker_snaps_when_opened_and_after_now() {
    let state = snap_state(false, true, false);
    assert!(state.snap && !state.snap_next);
    let state = snap_state(false, false, true);
    assert!(!state.snap && state.snap_next);
    let state = snap_state(true, false, true);
    assert!(state.snap && !state.snap_next);
    let column = Spinner { value: 5, row: 0 };
    let picker = Picker { hour: column, minute: column, second: column, pending: false };
    let input = PickerInput {
        opened: true,
        shown: true,
        set_to_now: false,
        hour: still(),
        minute: SpinnerInput { turned_to: None, clicked: Some(40) },
        second: still(),
    };
    let after = draw_time_picker(picker, input);
    assert_eq!(after.hour, Spinner { value: 5, row: 5 });
    assert_eq!(after.minute, Spinner { value: 40, row: 40 });
    let hidden = draw_time_picker(picker, PickerInput { shown: false, set_to_now: true, opened: false, ..input });
    assert_eq!(hidden, Picker { pending: true, ..picker });
}

#[test]
fn fonts_are_looked_for_and_placed() {
    assert_eq!(cjk_font_candidates(Desktop::Windows)[0], "C:\\Windows\\Fonts\\msyh.ttc");
    assert_eq!(cjk_font_candidates(Desktop::Macos).len(), 3);
    assert_eq!(cjk_font_candidates(Desktop::Linux).len(), 4);
    assert_eq!(symbol_font_candidates(Desktop::Macos), ["/System/Library/Fonts/Apple Symbols.ttf"]);
    assert_eq!(symbol_font_candidates(Desktop::Other).len(), 2);
    let base = || vec!["Hack".to_string(), "Emoji".to_string()];
    let mut fonts = base();
    extend_family(&mut fonts, true, true, true);
    assert_eq!(fonts, ["cjk", "symbols", "Hack", "Emoji"]);
    let mut fonts = base();
    extend_family(&mut fonts, false, true, true);
    assert_eq!(fonts, ["Hack", "symbols", "Emoji", "cjk"]);
    let mut fonts = base();
    extend_family(&mut fonts, false, false, true);
    assert_eq!(fonts, ["symbols", "Hack", "Emoji"]);
    let mut fonts = base();
    extend_family(&mut fonts, true, false, false);
    assert_eq!(fonts, ["Hack", "Emoji"]);
}

#[test]
fn the_pointer_shows_on_every_button() {
    let kinds = [
        ButtonKind::Primary,
        ButtonKind::Default,
        ButtonKind::Plain,
        ButtonKind::Text,
        ButtonKind::Danger,
        ButtonKind::Icon,
    ];
    for kind in kinds {
        let under = button_look(kind, true);
        assert!(under.fill.is_some());
        assert_ne!(under.fill, button_look(kind, false).fill);
    }
}

#[test]
fn pickers_keep_to_times_of_day() {
    let column = Spinner { value: 0, row: 0 };
    let mut picker = Picker { hour: column, minute: column, second: column, pending: false };
    for step in -70..70i32 {
        let moved = SpinnerInput { turned_to: Some(step as i64 * 3), clicked: Some(step) };
        let input = PickerInput {
            opened: step % 5 == 0,
            shown: step % 3 != 0,
            set_to_now: step % 7 == 0,
            hour: moved,
            minute: moved,
            second: moved,
        };
        picker = draw_time_picker(picker, input);
        assert!((0..24).contains(&picker.hour.value) && (0..24).contains(&picker.hour.row));
        assert!((0..60).contains(&picker.minute.value) && (0..60).contains(&picker.minute.row));
        assert!((0..60).contains(&picker.second.value) && (0..60).contains(&picker.second.row));
    }
    assert_eq!(picker.second.value, 59);
}
