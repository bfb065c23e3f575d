use desk_todo::app::{asked_folder, App, Effect};
use desk_todo::config::{default_hotkey_key, Config, HotkeySpec};
use desk_todo::date::{date_key, Date, Moment};
use desk_todo::editor::EditorInput;
use desk_todo::hotkey::{
    choose_hotkey, code_from_name, key_from_name, name_of_key, refusal, spec_to_hotkey, startup_hotkey,
    Choice, KeyPress, Registration,
};
use desk_todo::logger::LogLevel;
use desk_todo::models::{Day, TodoItem, TodoStore};
use desk_todo::settings::StorageRequest;
use desk_todo::storage::{
    app_data_dir, chosen_data_dir, config_file, current_data_dir, custom_data_dir, data_file,
    default_data_dir, default_data_file, invalidate_data_dir_cache, load_config, load_todos,
    read_custom_data_dir, save_todos, todo_files, DataDir, DataFile, DirCache, Found,
};
use desk_todo::titlebar::TitlebarInput;
use desk_todo::todo_list::{Drag, RowInput, Span};
use desk_todo::tray::{
    click_action, hotkey_action, menu_action, menu_entry, push_tray_action, take_tray_actions, TrayAction,
};
use desk_todo::window::{find_main_window, layered_style, owned_window, WindowInfo, LAYERED, WINDOW_TITLE};
use global_hotkey::hotkey::{Code, HotKey, Modifiers};

fn today() -> Date {
    Date { year: 2024, month: 5, day: 15 }
}

fn now() -> Moment {
    Moment { date: today(), hour: 8, minute: 30, second: 5, milli: 0 }
}

fn item(text: &str, done: bool, remind_at: Option<&str>) -> TodoItem {
    TodoItem { text: text.to_string(), done, remind_at: remind_at.map(str::to_string) }
}

fn app() -> App {
    App::new(Config::default(), TodoStore::new(), today(), Some("/data".to_string()))
}

fn listed(app: &App) -> Vec<String> {
    match app.todos.get(&date_key(app.selected)) {
        Some(items) => items.iter().map(|i| i.text.clone()).collect(),
        None => Vec::new(),
    }
}

#[test]
fn the_program_starts_as_configured() {
    let app = app();
    assert_eq!((app.view_year, app.view_month, app.selected), (2024, 5, today()));
    assert_eq!((app.remind_hour, app.remind_minute, app.remind_second), (9, 0, 0));
    assert_eq!((app.font_scale, app.opacity), (1.0f32.to_bits(), 1.0f32.to_bits()));
    assert_eq!(app.pending_data_dir, "/data");
    assert_eq!(app.log_level, LogLevel::Info);
    assert!(!app.pinned && !app.hidden && !app.show_settings && app.applied_opacity.is_none());
    let config = Config {
        theme: 7,
        font_scale: 1.15f32.to_bits(),
        opacity: 0.1f32.to_bits(),
        hotkey: HotkeySpec { ctrl: false, alt: true, shift: true, meta: false, key: "F5".to_string() },
        data_dir: Some("/x".to_string()),
        log_level: "DEBUG".to_string(),
    };
    let app = App::new(config, TodoStore::new(), today(), None);
    assert_eq!(app.theme_index, 2);
    assert_eq!(app.opacity, 0.3f32.to_bits());
    assert_eq!(app.log_level, LogLevel::Debug);
    assert_eq!(app.pending_data_dir, "");
    assert_eq!(app.data_dir_override.as_deref(), Some("/x"));
}

#[test]
fn settings_survive_a_restart() {
    let mut first = app();
    first.set_theme(2);
    first.set_opacity(0.7f32.to_bits());
    first.set_font_scale(0.85f32.to_bits());
    first.set_log_level(LogLevel::Error);
    first.apply_data_dir("/there", true);
    let spec = HotkeySpec { ctrl: true, alt: false, shift: true, meta: false, key: "K".to_string() };
    first.apply_hotkey(spec, Registration::Done);
    let second = App::new(first.persist_config(), TodoStore::new(), today(), None);
    assert_eq!(second.theme_index, 2);
    assert_eq!(second.opacity, 0.7f32.to_bits());
    assert_eq!(second.font_scale, 0.85f32.to_bits());
    assert_eq!(second.log_level, LogLevel::Error);
    assert_eq!(second.data_dir_override.as_deref(), Some("/there"));
    assert_eq!(second.hotkey_spec.display(), "Ctrl + Shift + K");
}

#[test]
fn settings_are_applied_and_kept() {
    let mut app = app();
    assert_eq!(app.set_theme(9), [Effect::ApplyTheme, Effect::SaveConfig]);
    assert_eq!(app.theme_index, 2);
    assert_eq!(app.cycle_theme(), [Effect::ApplyTheme, Effect::SaveConfig]);
    assert_eq!(app.theme_index, 0);
    assert_eq!(app.set_log_level(LogLevel::Off), [Effect::ApplyLogLevel, Effect::SaveConfig]);
    assert_eq!(app.set_font_scale(1.3f32.to_bits()), [Effect::ApplyScale, Effect::SaveConfig]);
    assert_eq!(app.set_opacity(7.0f32.to_bits()), [Effect::SaveConfig]);
    assert_eq!(app.opacity, 1.0f32.to_bits());
}

#[test]
fn opacity_is_applied_once() {
    let mut app = app();
    assert!(app.needs_opacity());
    app.sync_window_opacity(false);
    assert!(app.needs_opacity());
    app.sync_window_opacity(true);
    assert!(!app.needs_opacity());
    app.set_opacity(0.5f32.to_bits());
    assert!(app.needs_opacity());
}

#[test]
fn items_are_added_to_the_selected_day() {
    let mut app = app();
    app.input = "  buy \n milk ".to_string();
    assert_eq!(app.add_todo(), [Effect::SaveTodos]);
    assert_eq!(app.input, "");
    app.input = "call".to_string();
    app.remind_enabled = true;
    app.remind_hour = 7;
    app.remind_second = 5;
    app.add_todo();
    app.input = " \t ".to_string();
    assert!(app.add_todo().is_empty());
    assert_eq!(app.input, " \t ");
    let items = app.todos.get("2024-05-15").unwrap();
    assert_eq!(items.len(), 2);
    assert_eq!((items[0].text.as_str(), items[0].done), ("buy milk", false));
    assert_eq!(items[0].remind_at, None);
    assert_eq!(items[1].remind_at.as_deref(), Some("07:00:05"));
    assert!(app.todos.get("2024-05-16").is_none());
}

#[test]
fn stores_keep_their_days_in_order() {
    let mut store = TodoStore::new();
    for key in ["2024-05-02", "2023-01-01", "2024-05-01", "2024-05-02"] {
        store.add(key.to_string(), item(key, false, None));
    }
    assert_eq!(store.day_count(), 3);
    let keys: Vec<&str> = (0..3).map(|i| store.day_at(i).0).collect();
    assert_eq!(keys, ["2023-01-01", "2024-05-01", "2024-05-02"]);
    assert_eq!(store.get("2024-05-02").unwrap().len(), 2);
    store.get_mut("2023-01-01").unwrap().clear();
    assert!(store.get("2023-01-01").unwrap().is_empty());
    store.set("2024-05-02".to_string(), vec![item("x", true, None)]);
    assert_eq!(store.get("2024-05-02").unwrap()[0].text, "x");
    assert!(store.get("2024-05-03").is_none() && store.get_mut("").is_none());
}

#[test]
fn the_window_hides_and_comes_back() {
    let mut app = app();
    assert_eq!(app.toggle_visibility(), [Effect::CancelClose, Effect::Visible(false)]);
    assert!(app.hidden);
    assert_eq!(app.toggle_visibility(), [Effect::Visible(true), Effect::Focus]);
    assert!(!app.hidden);
    assert_eq!(app.set_pinned(true), [Effect::OnTop(true)]);
    assert!(app.pinned);
}

#[test]
fn tray_actions_are_answered_in_order() {
    let mut queue: Vec<TrayAction> = Vec::new();
    for action in [TrayAction::ToggleVisibility, TrayAction::OpenSettings, TrayAction::TogglePin] {
        push_tray_action(&mut queue, action);
    }
    let mut app = app();
    let actions = take_tray_actions(&mut queue);
    assert!(queue.is_empty());
    assert_eq!(
        app.handle_tray_actions(&actions),
        [
            Effect::CancelClose,
            Effect::Visible(false),
            Effect::Visible(true),
            Effect::Focus,
            Effect::OnTop(true)
        ]
    );
    assert!(app.show_settings && !app.hidden && app.pinned);
    let actions = vec![TrayAction::TogglePin, TrayAction::Exit, TrayAction::ToggleVisibility];
    assert_eq!(
        app.handle_tray_actions(&actions),
        [Effect::OnTop(false), Effect::SaveTodos, Effect::Exit]
    );
    assert!(!app.hidden);
    let entries: Vec<(&str, TrayAction)> =
        (0..4).map(menu_entry).map(|e| (e.label, e.action)).collect();
    assert_eq!(
        entries,
        [
            ("显示 / 隐藏", TrayAction::ToggleVisibility),
            ("切换置顶", TrayAction::TogglePin),
            ("设置", TrayAction::OpenSettings),
            ("退出", TrayAction::Exit)
        ]
    );
    for entry in (0..4).map(menu_entry) {
        assert_eq!(menu_action(entry.id), Some(entry.action));
    }
    assert_eq!(menu_action("settings"), Some(TrayAction::OpenSettings));
    assert_eq!(menu_action("quit"), Some(TrayAction::Exit));
    assert_eq!(menu_action("other"), None);
    assert_eq!(click_action(true, true), Some(TrayAction::ToggleVisibility));
    assert_eq!(click_action(true, false), None);
    assert_eq!(click_action(false, true), None);
    assert_eq!(hotkey_action(true), Some(TrayAction::TogglePin));
    assert_eq!(hotkey_action(false), None);
}

#[test]
fn reminders_bring_the_window_back() {
    let mut app = app();
    app.todos.add(date_key(today()), item("会议", false, Some("08:30")));
    app.hide_to_tray();
    let tick = app.logic(&Vec::new(), now(), false);
    assert_eq!(tick.says.as_deref(), Some("会议（08:30）"));
    assert_eq!(
        tick.effects,
        [Effect::Visible(true), Effect::Focus, Effect::Attention, Effect::ApplyOpacity]
    );
    assert_eq!(tick.delay, 30);
    assert!(!app.hidden);
    app.sync_window_opacity(true);
    let tick = app.logic(&Vec::new(), now(), true);
    assert_eq!(tick.says, None);
    assert_eq!(tick.effects, [Effect::CancelClose, Effect::Visible(false)]);
    assert!(app.hidden);
    let tick = app.logic(&vec![TrayAction::Exit], now(), true);
    assert_eq!(tick.effects, [Effect::SaveTodos, Effect::Exit]);
    app.todos.add(date_key(today()), item("later", false, Some("08:30:20")));
    assert_eq!(app.next_repaint_delay(now()), 15);
}

fn bar() -> TitlebarInput {
    TitlebarInput {
        close: false,
        maximize: false,
        minimize: false,
        pin: false,
        theme: false,
        settings: false,
        back: false,
        previous: false,
        next: false,
        today: false,
        dragged: false,
        double_clicked: false,
        maximized: false,
    }
}

#[test]
fn the_bar_answers_clicks() {
    let mut app = app();
    assert!(app.draw_titlebar(bar(), today()).is_empty());
    app.draw_titlebar(TitlebarInput { previous: true, ..bar() }, today());
    assert_eq!(app.title(), "2024年4月");
    app.draw_titlebar(TitlebarInput { next: true, ..bar() }, today());
    assert_eq!(app.title(), "2024年5月");
    let other = Date { year: 2020, month: 2, day: 29 };
    app.draw_titlebar(TitlebarInput { today: true, ..bar() }, other);
    assert_eq!((app.selected, app.title().as_str()), (other, "2020年2月"));
    let effects = app.draw_titlebar(
        TitlebarInput {
            close: true,
            maximize: true,
            pin: true,
            theme: true,
            settings: true,
            next: true,
            dragged: true,
            double_clicked: true,
            maximized: true,
            ..bar()
        },
        today(),
    );
    assert_eq!(
        effects,
        [
            Effect::CancelClose,
            Effect::Visible(false),
            Effect::Maximize(false),
            Effect::OnTop(true),
            Effect::ApplyTheme,
            Effect::SaveConfig,
            Effect::StartDrag,
            Effect::Maximize(false)
        ]
    );
    assert_eq!((app.title().as_str(), app.theme_index, app.view_month), ("设置", 1, 2));
    app.draw_titlebar(TitlebarInput { back: true, ..bar() }, today());
    assert!(!app.show_settings);
}

#[test]
fn leaving_hides_to_the_tray() {
    let mut app = app();
    let effects = app.draw_titlebar(TitlebarInput { minimize: true, ..bar() }, today());
    assert_eq!(effects, [Effect::CancelClose, Effect::Visible(false)]);
    assert!(app.hidden);
    app.show_from_tray();
    assert!(!app.hidden);
    let effects = app.draw_titlebar(TitlebarInput { close: true, ..bar() }, today());
    assert_eq!(effects, [Effect::CancelClose, Effect::Visible(false)]);
    assert!(app.hidden);
    app.show_from_tray();
    let both = TitlebarInput { maximize: true, minimize: true, pin: true, ..bar() };
    assert_eq!(
        app.draw_titlebar(both, today()),
        [
            Effect::Maximize(true),
            Effect::CancelClose,
            Effect::Visible(false),
            Effect::OnTop(true)
        ]
    );
}

#[test]
fn days_of_other_months_are_shown_when_selected() {
    let mut app = app();
    let cells = app.draw_calendar().unwrap();
    assert_eq!(cells.len(), 42);
    assert_eq!(cells[0].date, Date { year: 2024, month: 4, day: 29 });
    assert_eq!(cells[0].number, "29");
    app.select_date(cells[41].date);
    assert_eq!((app.view_year, app.view_month), (2024, 6));
    assert_eq!(app.selected, Date { year: 2024, month: 6, day: 9 });
    app.select_date(Date { year: 2024, month: 6, day: 30 });
    assert_eq!((app.view_year, app.view_month), (2024, 6));
    for text in ["a", "b", "c", "d", "e"] {
        app.input = text.to_string();
        app.add_todo();
    }
    let cell = app.cell(app.selected);
    assert_eq!(cell.lines, ["• a", "• b", "• c"]);
    assert_eq!(cell.badge.as_deref(), Some("+2"));
    app.view_year = 300_000;
    assert!(app.draw_calendar().is_none());
}

fn typing() -> EditorInput {
    EditorInput {
        picked: None,
        now: None,
        remind_clicked: false,
        focused: false,
        gained_focus: false,
        enter: false,
        shift: false,
        escape: false,
        add_clicked: false,
        fold_clicked: false,
    }
}

#[test]
fn the_editor_unfolds_and_submits() {
    let mut app = app();
    assert_eq!(app.editor_title(), "5月15日 周三");
    app.draw_editor(&EditorInput { gained_focus: true, ..typing() });
    assert!(app.editor_expanded && app.focus_expanded_input);
    assert_eq!(app.draw_editor(&typing()), [Effect::FocusInput]);
    assert!(!app.focus_expanded_input);
    app.input = "a".to_string();
    let pressed = EditorInput { focused: true, enter: true, shift: true, ..typing() };
    assert!(app.draw_editor(&pressed).is_empty());
    assert!(app.editor_expanded);
    let pressed = EditorInput { focused: true, enter: true, ..typing() };
    assert_eq!(app.draw_editor(&pressed), [Effect::SaveTodos]);
    assert!(!app.editor_expanded);
    assert_eq!(listed(&app), ["a"]);
    app.editor_expanded = true;
    app.draw_editor(&EditorInput { focused: true, escape: true, ..typing() });
    assert!(!app.editor_expanded);
    app.editor_expanded = true;
    app.draw_editor(&EditorInput { fold_clicked: true, ..typing() });
    assert!(!app.editor_expanded);
    app.input = "b".to_string();
    app.draw_editor(&EditorInput { add_clicked: true, ..typing() });
    assert_eq!(listed(&app), ["a", "b"]);
}

#[test]
fn the_reminder_is_set_in_the_editor() {
    let mut app = app();
    app.draw_editor(&EditorInput { picked: Some((1, 2, 3)), remind_clicked: true, ..typing() });
    assert!(app.remind_enabled);
    assert_eq!((app.remind_hour, app.remind_minute, app.remind_second), (9, 0, 0));
    app.draw_editor(&EditorInput { picked: Some((1, 2, 3)), ..typing() });
    assert_eq!((app.remind_hour, app.remind_minute, app.remind_second), (1, 2, 3));
    app.draw_editor(&EditorInput { picked: Some((1, 2, 3)), now: Some(now()), ..typing() });
    assert_eq!((app.remind_hour, app.remind_minute, app.remind_second), (8, 30, 5));
    app.draw_editor(&EditorInput { remind_clicked: true, ..typing() });
    assert!(!app.remind_enabled);
}

#[test]
fn the_list_is_changed_and_cleared() {
    let mut app = app();
    for text in ["a", "b", "c"] {
        app.input = text.to_string();
        app.add_todo();
    }
    assert!(app.has_items());
    let idle = RowInput { dragged: false, released: false, toggled: false, deleted: false };
    let span = |y: f32| Span { center: (y + 10.0).to_bits(), bottom: (y + 20.0).to_bits() };
    let spans = vec![span(0.0), span(20.0), span(40.0)];
    let rows = vec![idle, RowInput { toggled: true, ..idle }, idle];
    let reply = app.draw_todo_list(&rows, &spans, None, false);
    assert_eq!(reply.effects, [Effect::SaveTodos]);
    let rows = vec![RowInput { dragged: true, ..idle }, idle, idle];
    let reply = app.draw_todo_list(&rows, &spans, Some(100.0f32.to_bits()), false);
    assert!(reply.effects.is_empty());
    assert_eq!(reply.mark, Some(3));
    let rows = vec![RowInput { released: true, ..idle }, idle, idle];
    let reply = app.draw_todo_list(&rows, &spans, None, true);
    assert_eq!(reply.effects, [Effect::SaveTodos, Effect::SaveTodos]);
    assert_eq!(app.drag, Drag { index: None, target: None });
    assert_eq!(listed(&app), ["c", "a"]);
    let reply = app.draw_todo_list(&vec![idle, idle], &vec![span(0.0), span(20.0)], None, true);
    assert!(reply.effects.is_empty());
    app.select_date(Date { year: 2024, month: 5, day: 16 });
    assert!(!app.has_items());
    assert!(app.draw_todo_list(&Vec::new(), &Vec::new(), None, true).effects.is_empty());
}

fn press(key: &str, ctrl: bool, alt: bool, shift: bool) -> KeyPress {
    KeyPress { key: key.to_string(), ctrl, alt, shift }
}

#[test]
fn a_combination_is_recorded() {
    let mut app = app();
    app.start_recording();
    assert!(app.recording_hotkey);
    assert!(app.record_key(&press("A", false, false, true)).is_none());
    assert_eq!(app.hotkey_status.as_deref(), Some("快捷键需包含 Ctrl 或 Alt 修饰键"));
    assert!(app.record_key(&press("Enter", true, false, false)).is_none());
    assert_eq!(
        app.hotkey_status.as_deref(),
        Some("暂不支持该按键，请使用字母 / 数字 / F1-F12")
    );
    let spec = app.record_key(&press("F9", true, false, true)).unwrap();
    assert!(!app.recording_hotkey);
    assert_eq!(spec.display(), "Ctrl + Shift + F9");
    assert_eq!(app.apply_hotkey(spec, Registration::Done), [Effect::SaveConfig]);
    assert_eq!(app.hotkey_status.as_deref(), Some("快捷键已更新为 Ctrl + Shift + F9"));
    app.start_recording();
    assert_eq!(app.hotkey_status, None);
    app.record_key(&press("Escape", true, true, false));
    assert!(!app.recording_hotkey);
    let refused = Registration::Refused("busy".to_string());
    assert_eq!(refusal(&refused).as_deref(), Some("快捷键可能被其他程序占用（busy）"));
    assert_eq!(refusal(&Registration::Invalid).as_deref(), Some("无效的快捷键组合"));
    assert_eq!(refusal(&Registration::Done), None);
    assert_eq!(app.apply_hotkey(HotkeySpec::default(), refused), [Effect::RestoreHotkey]);
    assert_eq!(app.hotkey_spec.display(), "Ctrl + Shift + F9");
    assert!(matches!(choose_hotkey(&press("7", false, true, false)), Choice::Take(_)));
}

#[test]
fn keys_are_recorded_up_to_each_choice() {
    let mut app = app();
    app.start_recording();
    let keys = vec![
        press("Enter", true, false, false),
        press("K", true, false, false),
        press("L", false, false, false),
        press("M", false, true, true),
    ];
    let first = app.draw_hotkey_section(&keys, 0);
    assert_eq!(first.chosen.unwrap().display(), "Ctrl + K");
    assert_eq!(first.next, 2);
    assert!(!app.recording_hotkey);
    let second = app.draw_hotkey_section(&keys, first.next);
    assert_eq!(second.chosen.unwrap().display(), "Alt + Shift + M");
    assert_eq!(app.hotkey_status.as_deref(), Some("快捷键需包含 Ctrl 或 Alt 修饰键"));
    let last = app.draw_hotkey_section(&keys, second.next);
    assert!(last.chosen.is_none() && last.next == 4);
}

#[test]
fn combinations_are_made_as_the_hotkey_crate_makes_them() {
    let codes = [Code::KeyA, Code::KeyT, Code::KeyZ, Code::Digit0, Code::Digit9, Code::F1, Code::F12];
    let names = ["A", "T", "Z", "0", "9", "F1", "F12"];
    for (code, name) in codes.into_iter().zip(names) {
        for bits in 0..16u32 {
            let (ctrl, alt, shift, meta) = (bits & 1 > 0, bits & 2 > 0, bits & 4 > 0, bits & 8 > 0);
            let mut mods = Modifiers::empty();
            if ctrl {
                mods |= Modifiers::CONTROL;
            }
            if alt {
                mods |= Modifiers::ALT;
            }
            if shift {
                mods |= Modifiers::SHIFT;
            }
            if meta {
                mods |= Modifiers::META;
            }
            let spec = HotkeySpec { ctrl, alt, shift, meta, key: name.to_string() };
            let made = spec_to_hotkey(&spec).unwrap();
            let expected = HotKey::new(Some(mods), code);
            assert_eq!(made, expected);
            assert_eq!((made.mods, made.key, made.id), (mods, code, expected.id()));
        }
    }
    let odd = HotkeySpec { key: "Enter".to_string(), ..HotkeySpec::default() };
    assert!(spec_to_hotkey(&odd).is_none());
    let fallback = HotKey::new(Some(Modifiers::CONTROL | Modifiers::ALT), Code::KeyT);
    assert_eq!(startup_hotkey(&odd), fallback);
    assert_eq!(startup_hotkey(&HotkeySpec::default()).id, fallback.id());
}

#[test]
fn every_key_of_the_table_has_its_number() {
    for index in 0..48 {
        let name = name_of_key(index);
        assert_eq!(key_from_name(&name), Some(index));
        let code: Code = code_from_name(&name).unwrap().parse().unwrap();
        let spec = HotkeySpec { ctrl: false, alt: false, shift: false, meta: false, key: name };
        assert_eq!(spec_to_hotkey(&spec).unwrap().id, code as u32);
        let number = if index < 26 {
            19 + index
        } else if index < 36 {
            5 + index - 26
        } else {
            160 + index - 36
        };
        assert_eq!(code as usize, number);
    }
    assert_eq!(name_of_key(0), "A");
    assert_eq!(name_of_key(26), "0");
    assert_eq!(name_of_key(47), "F12");
    assert_eq!(key_from_name("a"), None);
    assert_eq!(key_from_name("F13"), None);
    assert_eq!(default_hotkey_key(), "T");
}

#[test]
fn combinations_are_shown() {
    let spec = HotkeySpec { ctrl: true, alt: true, shift: true, meta: true, key: "T".to_string() };
    assert_eq!(spec.display(), "Ctrl + Alt + Shift + Win + T");
    let spec = HotkeySpec { ctrl: false, alt: false, shift: false, meta: false, key: "F1".to_string() };
    assert_eq!(spec.display(), "F1");
}

#[test]
fn the_data_moves_to_another_folder() {
    let mut app = app();
    let moved = [
        Effect::SaveConfig,
        Effect::ForgetDataDir,
        Effect::SaveTodos,
        Effect::ReopenLog,
        Effect::ShowDataDir,
    ];
    assert_eq!(asked_folder("  /x "), Some("/x".to_string()));
    assert_eq!(asked_folder(" \n "), None);
    assert_eq!(app.apply_data_dir(" /x ", true), moved);
    assert_eq!(app.data_dir_override.as_deref(), Some("/x"));
    assert_eq!(app.storage_status.as_deref(), Some("存储位置已更新，待办数据已迁移"));
    assert!(app.apply_data_dir("/y", false).is_empty());
    assert_eq!(app.data_dir_override.as_deref(), Some("/x"));
    assert_eq!(app.storage_status.as_deref(), Some("无法创建该目录，请检查路径是否正确"));
    app.pending_data_dir = "/typed".to_string();
    assert_eq!(app.requested_folder(StorageRequest::Apply).as_deref(), Some("/typed"));
    assert_eq!(app.requested_folder(StorageRequest::Open), None);
    assert_eq!(app.requested_folder(StorageRequest::Reset).as_deref(), Some(""));
    assert_eq!(app.pending_data_dir, "");
    assert_eq!(app.apply_data_dir("", false), moved);
    assert_eq!(app.data_dir_override, None);
    assert_eq!(
        app.storage_status.as_deref(),
        Some("已恢复默认存储位置，数据已写回默认目录")
    );
    app.show_data_dir(Some("/now".to_string()));
    assert_eq!(app.pending_data_dir, "/now");
    app.show_data_dir(None);
    assert_eq!(app.pending_data_dir, "");
}

fn is_default(dir: &Option<DataDir<u8>>, base: u8) -> bool {
    matches!(dir, Some(DataDir::Default { base: b, folder }) if *b == base && *folder == "deskTodo")
}

fn is_custom(dir: &Option<DataDir<u8>>, path: &str) -> bool {
    matches!(dir, Some(DataDir::Custom(p)) if p == path)
}

fn parts(file: Option<DataFile<u8>>) -> (Option<DataDir<u8>>, &'static str) {
    match file {
        Some(file) => (Some(file.dir), file.name),
        None => (None, ""),
    }
}

#[test]
fn files_are_in_their_folders() {
    assert!(is_default(&default_data_dir(Some(1)), 1));
    assert!(default_data_dir::<u8>(None).is_none());
    let (dir, name) = parts(config_file(Some(1)));
    assert!(is_default(&dir, 1) && name == "config.json");
    let (dir, name) = parts(data_file(Some("/x".to_string()), Some(1)));
    assert!(is_custom(&dir, "/x") && name == "todos.json");
    let (dir, name) = parts(data_file(None, Some(1)));
    assert!(is_default(&dir, 1) && name == "todos.json");
    let (dir, name) = parts(default_data_file(Some(1)));
    assert!(is_default(&dir, 1) && name == "todos.json");
    assert!(is_custom(&app_data_dir(Some("/x".to_string()), None), "/x"));
    assert!(is_default(&current_data_dir(None, Some(2)), 2));
    assert!(current_data_dir::<u8>(None, None).is_none());
    assert!(config_file::<u8>(None).is_none());
}

#[test]
fn the_chosen_folder_is_read_from_the_configuration() {
    assert_eq!(
        read_custom_data_dir(Some("{\"theme\":1,\"data_dir\":\"/x\\u0041\"}")).as_deref(),
        Some("/xA")
    );
    for raw in ["", "{", "[]", "{}", "{\"data_dir\":null}", "{\"data_dir\":3}", "{\"data_dir\":\"\"}"] {
        assert_eq!(read_custom_data_dir(Some(raw)), None);
    }
    assert_eq!(read_custom_data_dir(None), None);
    assert_eq!(chosen_data_dir(Some(String::new())), None);
    assert_eq!(chosen_data_dir(Some("a".to_string())).as_deref(), Some("a"));
    assert_eq!(chosen_data_dir(None), None);
}

#[test]
fn the_chosen_folder_is_read_once() {
    let mut cache = DirCache::new();
    assert!(!cache.is_known());
    let first = "{\"data_dir\":\"/a\"}";
    let second = "{\"data_dir\":\"/b\"}";
    assert_eq!(custom_data_dir(&mut cache, Some(first)).as_deref(), Some("/a"));
    assert!(cache.is_known());
    assert_eq!(custom_data_dir(&mut cache, Some(second)).as_deref(), Some("/a"));
    invalidate_data_dir_cache(&mut cache);
    assert_eq!(custom_data_dir(&mut cache, Some(second)).as_deref(), Some("/b"));
    invalidate_data_dir_cache(&mut cache);
    assert_eq!(custom_data_dir(&mut cache, None), None);
    assert_eq!(custom_data_dir(&mut cache, Some(second)), None);
}

#[test]
fn the_first_file_that_can_be_read_is_taken() {
    let days = |text: &str| {
        vec![Day { key: "2024-01-01".to_string(), items: vec![item(text, false, None)] }]
    };
    let text = |store: &TodoStore| store.get("2024-01-01").map(|items| items[0].text.clone());
    let loaded = load_todos(vec![Found::Damaged, Found::Read(days("b"))]);
    assert_eq!(text(&loaded.todos).as_deref(), Some("b"));
    assert_eq!(loaded.damaged, [0]);
    let loaded = load_todos(vec![Found::Read(days("a")), Found::Damaged]);
    assert_eq!(text(&loaded.todos).as_deref(), Some("a"));
    assert!(loaded.damaged.is_empty());
    let loaded = load_todos(vec![Found::Missing, Found::Damaged]);
    assert_eq!(loaded.todos.day_count(), 0);
    assert_eq!(loaded.damaged, [1]);
    assert_eq!(load_todos(Vec::new()).todos.day_count(), 0);
    let loaded = load_config(Found::Damaged);
    assert!(loaded.damaged);
    assert_eq!((loaded.config.theme, loaded.config.log_level.as_str()), (0, "info"));
    let loaded = load_config(Found::Read(Config { theme: 2, ..Config::default() }));
    assert!(!loaded.damaged && loaded.config.theme == 2);
    assert!(!load_config(Found::Missing).damaged);
}

#[test]
fn saved_items_are_loaded_again() {
    let mut store = TodoStore::new();
    store.add("2024-05-16".to_string(), item("later", true, None));
    store.add("2024-05-15".to_string(), item("first", false, Some("08:30:05")));
    store.add("2024-05-15".to_string(), item("second", true, None));
    let flat = |days: &Vec<Day>| -> Vec<(String, String, bool, Option<String>)> {
        let mut rows = Vec::new();
        for day in days {
            for i in &day.items {
                rows.push((day.key.clone(), i.text.clone(), i.done, i.remind_at.clone()));
            }
        }
        rows
    };
    let saved = save_todos(&store, Some("/x".to_string()), Some(1));
    let (dir, name) = parts(saved.file);
    assert!(is_custom(&dir, "/x") && name == "todos.json");
    let before = flat(&saved.days);
    assert_eq!(
        before,
        [
            ("2024-05-15".to_string(), "first".to_string(), false, Some("08:30:05".to_string())),
            ("2024-05-15".to_string(), "second".to_string(), true, None),
            ("2024-05-16".to_string(), "later".to_string(), true, None)
        ]
    );
    let loaded = load_todos(vec![Found::Read(saved.days), Found::Missing]);
    assert_eq!(flat(&loaded.todos.to_days()), before);
    assert!(save_todos::<u8>(&store, None, None).file.is_none());
}

#[test]
fn items_are_looked_for_in_two_places() {
    let files = todo_files(Some("/x".to_string()), Some(1));
    assert_eq!(files.len(), 2);
    assert!(matches!(&files[0].dir, DataDir::Custom(path) if path == "/x"));
    assert!(matches!(&files[1].dir, DataDir::Default { base: 1, folder: "deskTodo" }));
    assert!(files.iter().all(|file| file.name == "todos.json"));
    assert_eq!(todo_files(None, Some(1)).len(), 2);
    assert_eq!(todo_files::<u8>(Some("/x".to_string()), None).len(), 1);
    assert_eq!(todo_files::<u8>(None, None).len(), 0);
}

#[test]
fn of_two_lists_for_a_day_the_later_one_counts() {
    let day = |key: &str, text: &str| Day {
        key: key.to_string(),
        items: vec![item(text, false, None)],
    };
    let store = TodoStore::from_days(vec![day("b", "1"), day("a", "2"), day("b", "3")]);
    assert_eq!(store.day_count(), 2);
    assert_eq!(store.day_at(0).0, "a");
    assert_eq!(store.get("b").unwrap()[0].text, "3");
}

#[test]
fn the_own_window_is_found() {
    let window = |handle, process, visible, title: &str| WindowInfo {
        handle,
        process,
        visible,
        title: title.to_string(),
    };
    let windows = vec![
        window(1, 5, true, WINDOW_TITLE),
        window(2, 7, false, WINDOW_TITLE),
        window(3, 7, true, "other"),
        window(4, 7, true, "桌面日历待办"),
        window(5, 7, true, WINDOW_TITLE),
    ];
    assert_eq!(find_main_window(&windows, 7), Some(4));
    assert_eq!(find_main_window(&windows, 8), None);
    let windows = vec![(1, vec![]), (2, vec![9, 7]), (3, vec![7]), (4, vec![7])];
    assert_eq!(owned_window(&windows, 7), Some(3));
    assert_eq!(owned_window(&windows, 1), None);
    assert_eq!(layered_style(0x10, true), 0x10 | 0x0008_0000);
    assert_eq!(layered_style(0x10 | LAYERED, false), 0x10);
}

#[test]
fn only_the_layered_bit_changes() {
    for style in [0i64, 0x10, -1, 0x0008_0000, i64::MIN, 0x7fff_ffff] {
        assert_eq!(layered_style(style, true) & LAYERED, LAYERED);
        assert_eq!(layered_style(style, false) & LAYERED, 0);
        assert_eq!(layered_style(style, true) & !LAYERED, style & !LAYERED);
        assert_eq!(layered_style(style, false) & !LAYERED, style & !LAYERED);
    }
}

#[test]
fn identities_tell_combinations_apart() {
    let mut ids: Vec<u32> = Vec::new();
    for index in 0..48 {
        for bits in 0..16u32 {
            let spec = HotkeySpec {
                ctrl: bits & 1 > 0,
                alt: bits & 2 > 0,
                shift: bits & 4 > 0,
                meta: bits & 8 > 0,
                key: name_of_key(index),
            };
            ids.push(spec_to_hotkey(&spec).unwrap().id);
        }
    }
    let count = ids.len();
    ids.sort();
    ids.dedup();
    assert_eq!(ids.len(), count);
}

#[test]
fn a_reminder_that_was_added_goes_off() {
    let mut app = app();
    app.remind_enabled = true;
    app.remind_hour = 8;
    app.remind_minute = 30;
    app.remind_second = 5;
    app.input = "站会".to_string();
    app.add_todo();
    let mut early = now();
    early.second = 4;
    assert_eq!(app.check_reminders(early).says, None);
    let outcome = app.check_reminders(now());
    assert_eq!((outcome.says.as_deref(), outcome.count), (Some("站会（08:30:05）"), 1));
    assert_eq!(outcome.effects, [Effect::Visible(true), Effect::Focus, Effect::Attention]);
    assert_eq!(app.check_reminders(now()).says, None);
}
