//! The state of the program, and how it answers what happens to it.
//!
//! Every method changes the state and returns what has to be done outside of
//! it, in that order.

use vstd::prelude::*;

use crate::config::{Config, ConfigView, HotkeySpec, HotkeyView};
use crate::config;
use crate::date;
use crate::date::{Date, Moment};
use crate::hotkey;
use crate::hotkey::{Choice, ChoiceView, KeyPress, Registration};
use crate::logger;
use crate::logger::LogLevel;
use crate::models;
use crate::models::{TodoStore, TodoView};
use crate::reminder;
use crate::reminder::Triggered;
use crate::scalar;
use crate::text;
use crate::theme;
use crate::todo_list;
use crate::todo_list::Drag;
use crate::tray::TrayAction;

verus! {

/// Something that has to be done outside of the state.
#[derive(Clone, Copy, PartialEq, Eq, Structural, Debug)]
pub enum Effect {
    /// Keep the window above all others, or no longer.
    OnTop(bool),
    /// Do not close the window after all.
    CancelClose,
    /// Show or hide the window.
    Visible(bool),
    /// Give the window the keyboard.
    Focus,
    /// Call for the user's attention.
    Attention,
    /// Fill the screen, or no longer.
    Maximize(bool),
    /// Let the window follow the pointer.
    StartDrag,
    /// Take the colours of the theme.
    ApplyTheme,
    /// Take the scale.
    ApplyScale,
    /// Make the window as opaque as is set.
    ApplyOpacity,
    /// Let the log take what its level says.
    ApplyLogLevel,
    /// Give the input the keyboard.
    FocusInput,
    /// Write the configuration.
    SaveConfig,
    /// Write the to-do items.
    SaveTodos,
    /// Read the chosen folder anew.
    ForgetDataDir,
    /// Move the log to the current folder.
    ReopenLog,
    /// Show which folder is the current one.
    ShowDataDir,
    /// Register the former key combination again.
    RestoreHotkey,
    /// End the program.
    Exit,
}

/// The state of the program.
pub struct App {
    pub todos: TodoStore,
    pub input: String,
    pub view_year: i32,
    pub view_month: u32,
    pub selected: Date,
    pub pinned: bool,
    pub hidden: bool,
    pub theme_index: usize,
    pub remind_enabled: bool,
    pub remind_hour: i32,
    pub remind_minute: i32,
    pub remind_second: i32,
    pub show_settings: bool,
    pub font_scale: u32,
    pub opacity: u32,
    pub applied_opacity: Option<u32>,
    pub hotkey_spec: HotkeySpec,
    pub recording_hotkey: bool,
    pub hotkey_status: Option<String>,
    pub pending_data_dir: String,
    pub storage_status: Option<String>,
    pub log_level: LogLevel,
    pub data_dir_override: Option<String>,
    pub triggered_reminders: Triggered,
    pub drag: Drag,
    pub editor_expanded: bool,
    pub focus_expanded_input: bool,
}

/// What the state holds.
#[verifier::ext_equal]
pub struct AppView {
    pub todos: Map<Seq<char>, Seq<TodoView>>,
    pub input: Seq<char>,
    pub view_year: i32,
    pub view_month: u32,
    pub selected: Date,
    pub pinned: bool,
    pub hidden: bool,
    pub theme_index: usize,
    pub remind_enabled: bool,
    pub remind_hour: i32,
    pub remind_minute: i32,
    pub remind_second: i32,
    pub show_settings: bool,
    pub font_scale: u32,
    pub opacity: u32,
    pub applied_opacity: Option<u32>,
    pub hotkey_spec: HotkeyView,
    pub recording_hotkey: bool,
    pub hotkey_status: Option<Seq<char>>,
    pub pending_data_dir: Seq<char>,
    pub storage_status: Option<Seq<char>>,
    pub log_level: LogLevel,
    pub data_dir_override: Option<Seq<char>>,
    pub triggered_reminders: Set<Seq<char>>,
    pub drag: Drag,
    pub editor_expanded: bool,
    pub focus_expanded_input: bool,
}

impl View for App {
    type V = AppView;

    open spec fn view(&self) -> AppView {
        AppView {
            todos: self.todos@,
            input: self.input@,
            view_year: self.view_year,
            view_month: self.view_month,
            selected: self.selected,
            pinned: self.pinned,
            hidden: self.hidden,
            theme_index: self.theme_index,
            remind_enabled: self.remind_enabled,
            remind_hour: self.remind_hour,
            remind_minute: self.remind_minute,
            remind_second: self.remind_second,
            show_settings: self.show_settings,
            font_scale: self.font_scale,
            opacity: self.opacity,
            applied_opacity: self.applied_opacity,
            hotkey_spec: self.hotkey_spec@,
            recording_hotkey: self.recording_hotkey,
            hotkey_status: models::text_view(self.hotkey_status),
            pending_data_dir: self.pending_data_dir@,
            storage_status: models::text_view(self.storage_status),
            log_level: self.log_level,
            data_dir_override: models::text_view(self.data_dir_override),
            triggered_reminders: self.triggered_reminders@,
            drag: self.drag,
            editor_expanded: self.editor_expanded,
            focus_expanded_input: self.focus_expanded_input,
        }
    }
}

/// The bits of the least opacity, three tenths.
pub const MIN_OPACITY: u32 = 0x3e99_999a;

/// The opacity that a window is given when this one is asked for.
pub open spec fn allowed_opacity(opacity: u32) -> u32 {
    scalar::clamped(opacity, MIN_OPACITY, scalar::ONE)
}

impl AppView {
    /// The month, the selected day, the theme and the opacity are such as there are.
    pub open spec fn valid(self) -> bool {
        &&& 1 <= self.view_month <= 12
        &&& self.selected.valid()
        &&& self.theme_index < theme::THEME_COUNT
        &&& allowed_opacity(self.opacity) == self.opacity
    }

    /// The key of the selected day.
    pub open spec fn key(self) -> Seq<char> {
        date::key_text(self.selected)
    }

    /// The list of the selected day.
    pub open spec fn list(self) -> Seq<TodoView> {
        models::list_at(self.todos, self.key())
    }
}

impl App {
    /// What holds of the state at all times.
    pub open spec fn wf(self) -> bool {
        &&& self.todos.wf()
        &&& self.triggered_reminders.wf()
        &&& self@.valid()
    }
}

/// A state and what has to be done outside of it.
#[verifier::ext_equal]
pub struct Step {
    pub app: AppView,
    pub effects: Seq<Effect>,
}

/// A state with nothing to be done.
pub open spec fn quiet(app: AppView) -> Step {
    Step { app, effects: Seq::empty() }
}

/// One step after another.
pub open spec fn followed_by(first: Step, second: Step) -> Step {
    Step { app: second.app, effects: first.effects + second.effects }
}

/// Puts `more` behind `effects`.
pub(crate) fn add_effects(effects: &mut Vec<Effect>, more: Vec<Effect>)
    ensures
        final(effects)@ == old(effects)@ + more@,
{
    let mut more = more;
    effects.append(&mut more);
}

// ---------------------------------------------------------------------------
// Start

/// The state at the start.
pub open spec fn started(
    config: ConfigView,
    todos: Map<Seq<char>, Seq<TodoView>>,
    today: Date,
    data_dir: Option<Seq<char>>,
) -> AppView {
    AppView {
        todos,
        input: Seq::empty(),
        view_year: today.year,
        view_month: today.month,
        selected: today,
        pinned: false,
        hidden: false,
        theme_index: theme::theme_within(config.theme as int) as usize,
        remind_enabled: false,
        remind_hour: 9,
        remind_minute: 0,
        remind_second: 0,
        show_settings: false,
        font_scale: config.font_scale,
        opacity: allowed_opacity(config.opacity),
        applied_opacity: None,
        hotkey_spec: config.hotkey,
        recording_hotkey: false,
        hotkey_status: None,
        pending_data_dir: match data_dir {
            Some(dir) => dir,
            None => Seq::empty(),
        },
        storage_status: None,
        log_level: logger::level_named(config.log_level),
        data_dir_override: config.data_dir,
        triggered_reminders: Set::empty(),
        drag: todo_list::no_drag(),
        editor_expanded: false,
        focus_expanded_input: false,
    }
}

/// What is kept of the settings.
pub open spec fn config_of(app: AppView) -> ConfigView {
    ConfigView {
        theme: app.theme_index as nat,
        font_scale: app.font_scale,
        opacity: app.opacity,
        hotkey: app.hotkey_spec,
        data_dir: app.data_dir_override,
        log_level: logger::level_text(app.log_level),
    }
}

impl App {
    /// The state at the start, from what was kept; `data_dir` is the current
    /// folder as it is shown.
    pub fn new(config: Config, todos: TodoStore, today: Date, data_dir: Option<String>) -> (app: App)
        requires
            todos.wf(),
            today.valid(),
        ensures
            app.wf(),
            app@ == started(config@, todos@, today, models::text_view(data_dir)),
    {
        proof {
            scalar::clamping_twice_is_clamping_once(config.opacity, MIN_OPACITY, scalar::ONE);
        }
        let pending_data_dir = match data_dir {
            Some(dir) => dir,
            None => String::new(),
        };
        let log_level = LogLevel::parse(config.log_level.as_str());
        App {
            todos,
            input: String::new(),
            view_year: today.year,
            view_month: today.month,
            selected: today,
            pinned: false,
            hidden: false,
            theme_index: theme::existing_theme(config.theme),
            remind_enabled: false,
            remind_hour: 9,
            remind_minute: 0,
            remind_second: 0,
            show_settings: false,
            font_scale: config.font_scale,
            opacity: scalar::clamp(config.opacity, MIN_OPACITY, scalar::ONE),
            applied_opacity: None,
            hotkey_spec: config.hotkey,
            recording_hotkey: false,
            hotkey_status: None,
            pending_data_dir,
            storage_status: None,
            log_level,
            data_dir_override: config.data_dir,
            triggered_reminders: Triggered::new(),
            drag: Drag { index: None, target: None },
            editor_expanded: false,
            focus_expanded_input: false,
        }
    }

    /// What is kept of the settings.
    pub fn persist_config(&self) -> (config: Config)
        ensures
            config@ == config_of(self@),
    {
        Config {
            theme: self.theme_index,
            font_scale: self.font_scale,
            opacity: self.opacity,
            hotkey: self.hotkey_spec.copy(),
            data_dir: models::copy_optional(&self.data_dir_override),
            log_level: text::copy_text(self.log_level.as_str()),
        }
    }
}

/// The settings that were kept are those of the next start.
pub proof fn settings_survive_a_restart(
    app: AppView,
    todos: Map<Seq<char>, Seq<TodoView>>,
    today: Date,
    data_dir: Option<Seq<char>>,
)
    requires
        app.valid(),
    ensures
        ({
            let next = started(config_of(app), todos, today, data_dir);
            &&& config_of(next) == config_of(app)
            &&& next.theme_index == app.theme_index
            &&& next.log_level == app.log_level
            &&& next.hotkey_spec == app.hotkey_spec
        }),
{
    logger::level_names_read_back(app.log_level);
}

// ---------------------------------------------------------------------------
// Settings

/// The theme with this index is taken.
pub open spec fn theme_step(app: AppView, index: int) -> Step {
    Step {
        app: AppView { theme_index: theme::theme_within(index) as usize, ..app },
        effects: seq![Effect::ApplyTheme, Effect::SaveConfig],
    }
}

/// Another level is logged from now on.
pub open spec fn log_level_step(app: AppView, level: LogLevel) -> Step {
    Step {
        app: AppView { log_level: level, ..app },
        effects: seq![Effect::ApplyLogLevel, Effect::SaveConfig],
    }
}

/// Another scale is taken.
pub open spec fn font_scale_step(app: AppView, scale: u32) -> Step {
    Step {
        app: AppView { font_scale: scale, ..app },
        effects: seq![Effect::ApplyScale, Effect::SaveConfig],
    }
}

/// Another opacity is taken.
pub open spec fn opacity_step(app: AppView, opacity: u32) -> Step {
    Step {
        app: AppView { opacity: allowed_opacity(opacity), ..app },
        effects: seq![Effect::SaveConfig],
    }
}

impl App {
    /// Logs another level from now on.
    pub fn set_log_level(&mut self, level: LogLevel) -> (effects: Vec<Effect>)
        requires
            old(self).wf(),
        ensures
            final(self).wf(),
            final(self)@ == log_level_step(old(self)@, level).app,
            effects@ == log_level_step(old(self)@, level).effects,
    {
        self.log_level = level;
        let mut effects: Vec<Effect> = Vec::new();
        effects.push(Effect::ApplyLogLevel);
        effects.push(Effect::SaveConfig);
        effects
    }

    /// Takes the theme with this index, the last one where there is no such theme.
    pub fn set_theme(&mut self, index: usize) -> (effects: Vec<Effect>)
        requires
            old(self).wf(),
        ensures
            final(self).wf(),
            final(self)@ == theme_step(old(self)@, index as int).app,
            effects@ == theme_step(old(self)@, index as int).effects,
    {
        self.theme_index = theme::existing_theme(index);
        let mut effects: Vec<Effect> = Vec::new();
        effects.push(Effect::ApplyTheme);
        effects.push(Effect::SaveConfig);
        effects
    }

    /// Takes the theme that follows.
    pub fn cycle_theme(&mut self) -> (effects: Vec<Effect>)
        requires
            old(self).wf(),
        ensures
            final(self).wf(),
            final(self)@ == theme_step(
                old(self)@,
                theme::theme_after(old(self)@.theme_index as int),
            ).app,
            effects@ == theme_step(
                old(self)@,
                theme::theme_after(old(self)@.theme_index as int),
            ).effects,
    {
        let next: usize = theme::next_theme(self.theme_index);
        self.set_theme(next)
    }

    /// Takes another scale.
    pub fn set_font_scale(&mut self, scale: u32) -> (effects: Vec<Effect>)
        requires
            old(self).wf(),
        ensures
            final(self).wf(),
            final(self)@ == font_scale_step(old(self)@, scale).app,
            effects@ == font_scale_step(old(self)@, scale).effects,
    {
        self.font_scale = scale;
        let mut effects: Vec<Effect> = Vec::new();
        effects.push(Effect::ApplyScale);
        effects.push(Effect::SaveConfig);
        effects
    }

    /// Takes another opacity, the nearest one that is allowed.
    pub fn set_opacity(&mut self, opacity: u32) -> (effects: Vec<Effect>)
        requires
            old(self).wf(),
        ensures
            final(self).wf(),
            final(self)@ == opacity_step(old(self)@, opacity).app,
            effects@ == opacity_step(old(self)@, opacity).effects,
    {
        proof {
            scalar::clamping_twice_is_clamping_once(opacity, MIN_OPACITY, scalar::ONE);
        }
        self.opacity = scalar::clamp(opacity, MIN_OPACITY, scalar::ONE);
        let mut effects: Vec<Effect> = Vec::new();
        effects.push(Effect::SaveConfig);
        effects
    }
}

/// Whether the window has yet to be made as opaque as is set.
pub open spec fn opacity_pending(app: AppView) -> bool {
    match app.applied_opacity {
        Some(applied) => !scalar::equal(applied, app.opacity),
        None => true,
    }
}

impl App {
    /// Whether the window has yet to be made as opaque as is set.
    pub fn needs_opacity(&self) -> (yes: bool)
        ensures
            yes == opacity_pending(self@),
    {
        match self.applied_opacity {
            Some(applied) => !scalar::is_equal(applied, self.opacity),
            None => true,
        }
    }

    /// Notes whether the window was made as opaque as is set.
    pub fn sync_window_opacity(&mut self, done: bool)
        requires
            old(self).wf(),
        ensures
            final(self).wf(),
            final(self)@ == if done {
                AppView { applied_opacity: Some(old(self)@.opacity), ..old(self)@ }
            } else {
                old(self)@
            },
    {
        if done {
            self.applied_opacity = Some(self.opacity);
        }
    }
}

// ---------------------------------------------------------------------------
// The key combination

/// A new combination is about to be chosen.
pub open spec fn recording_started(app: AppView) -> AppView {
    if app.recording_hotkey {
        app
    } else {
        AppView { recording_hotkey: true, hotkey_status: None, ..app }
    }
}

/// A key was pressed while a new combination is being chosen.
pub open spec fn key_recorded(app: AppView, choice: ChoiceView) -> AppView {
    match choice {
        ChoiceView::Cancel => AppView { recording_hotkey: false, hotkey_status: None, ..app },
        ChoiceView::NeedsModifier => AppView {
            hotkey_status: Some("快捷键需包含 Ctrl 或 Alt 修饰键"@),
            ..app
        },
        ChoiceView::Unsupported => AppView {
            hotkey_status: Some("暂不支持该按键，请使用字母 / 数字 / F1-F12"@),
            ..app
        },
        ChoiceView::Take(spec) => AppView { recording_hotkey: false, ..app },
    }
}

/// What a pressed key means while a new combination is being chosen.
pub open spec fn choice_at(press: KeyPress) -> ChoiceView {
    hotkey::choice_of(press.key@, press.ctrl, press.alt, press.shift)
}

/// Several keys were pressed, one after the other.
pub open spec fn keys_recorded(app: AppView, keys: Seq<KeyPress>) -> AppView
    decreases keys.len(),
{
    if keys.len() == 0 {
        app
    } else {
        key_recorded(keys_recorded(app, keys.drop_last()), choice_at(keys.last()))
    }
}

/// How many keys there are up to the first that completes a combination, with it.
pub open spec fn keys_taken(keys: Seq<KeyPress>) -> int
    decreases keys.len(),
{
    if keys.len() == 0 {
        0
    } else if choice_at(keys[0]) is Take {
        1
    } else {
        1 + keys_taken(keys.skip(1))
    }
}

/// How far the pressed keys were taken, and the combination that the last of
/// them completed.
pub struct Recorded {
    pub chosen: Option<HotkeySpec>,
    pub next: usize,
}

/// Registering a new combination came out in some way.
pub open spec fn hotkey_step(app: AppView, spec: HotkeyView, outcome: Registration) -> Step {
    match hotkey::refusal_text(outcome) {
        None => Step {
            app: AppView {
                hotkey_spec: spec,
                hotkey_status: Some("快捷键已更新为 "@ + config::hotkey_text(spec)),
                ..app
            },
            effects: seq![Effect::SaveConfig],
        },
        Some(says) => Step {
            app: AppView { hotkey_status: Some(says), ..app },
            effects: seq![Effect::RestoreHotkey],
        },
    }
}

impl App {
    /// Begins to choose a new combination.
    pub fn start_recording(&mut self)
        requires
            old(self).wf(),
        ensures
            final(self).wf(),
            final(self)@ == recording_started(old(self)@),
    {
        if !self.recording_hotkey {
            self.recording_hotkey = true;
            self.hotkey_status = None;
        }
    }

    /// Takes a key that was pressed while a new combination is being chosen.
    /// Returns the combination to register, if it was chosen.
    pub fn record_key(&mut self, press: &KeyPress) -> (chosen: Option<HotkeySpec>)
        requires
            old(self).wf(),
        ensures
            final(self).wf(),
            final(self)@ == key_recorded(
                old(self)@,
                hotkey::choice_of(press.key@, press.ctrl, press.alt, press.shift),
            ),
            match chosen {
                Some(spec) => hotkey::choice_of(press.key@, press.ctrl, press.alt, press.shift)
                    == ChoiceView::Take(spec@),
                None => !(hotkey::choice_of(press.key@, press.ctrl, press.alt, press.shift) is Take),
            },
    {
        match hotkey::choose_hotkey(press) {
            Choice::Cancel => {
                self.recording_hotkey = false;
                self.hotkey_status = None;
                None
            },
            Choice::NeedsModifier => {
                self.hotkey_status = Some(text::copy_text("快捷键需包含 Ctrl 或 Alt 修饰键"));
                None
            },
            Choice::Unsupported => {
                self.hotkey_status = Some(
                    text::copy_text("暂不支持该按键，请使用字母 / 数字 / F1-F12"),
                );
                None
            },
            Choice::Take(spec) => {
                self.recording_hotkey = false;
                Some(spec)
            },
        }
    }

    /// Takes the keys that were pressed while a new combination is being chosen,
    /// from the one at `from` on and up to the first that completes a combination.
    /// Once that is registered, the keys behind it are next.
    pub fn draw_hotkey_section(&mut self, keys: &Vec<KeyPress>, from: usize) -> (recorded: Recorded)
        requires
            old(self).wf(),
            from <= keys@.len(),
        ensures
            final(self).wf(),
            recorded.next == from + keys_taken(keys@.skip(from as int)),
            final(self)@ == keys_recorded(
                old(self)@,
                keys@.subrange(from as int, recorded.next as int),
            ),
            match recorded.chosen {
                Some(spec) => from < recorded.next && choice_at(keys@[recorded.next - 1])
                    == ChoiceView::Take(spec@),
                None => recorded.next == keys@.len() && (from < recorded.next ==> !(choice_at(
                    keys@[recorded.next - 1],
                ) is Take)),
            },
    {
        let ghost start = self@;
        let ghost rest = keys@.skip(from as int);
        let mut next: usize = from;
        proof {
            assert(keys@.subrange(from as int, from as int) =~= Seq::<KeyPress>::empty());
            assert(rest.skip(0) =~= rest);
        }
        while next < keys.len()
            invariant
                from <= next <= keys@.len(),
                self.wf(),
                start == old(self)@,
                rest == keys@.skip(from as int),
                keys_taken(rest) == next - from + keys_taken(rest.skip(next - from)),
                self@ == keys_recorded(start, keys@.subrange(from as int, next as int)),
                from < next ==> !(choice_at(keys@[next - 1]) is Take),
            decreases keys@.len() - next,
        {
            let ghost part = keys@.subrange(from as int, next as int);
            let chosen = self.record_key(&keys[next]);
            proof {
                let longer = keys@.subrange(from as int, next + 1);
                assert(longer.drop_last() =~= part);
                assert(longer.last() == keys@[next as int]);
                let tail = rest.skip(next - from);
                assert(tail[0] == keys@[next as int]);
                assert(tail.skip(1) =~= rest.skip(next + 1 - from));
            }
            next += 1;
            if chosen.is_some() {
                return Recorded { chosen, next };
            }
        }
        proof {
            assert(rest.skip(next - from) =~= Seq::<KeyPress>::empty());
        }
        Recorded { chosen: None, next }
    }

    /// Takes the combination that was registered, or keeps the former one.
    pub fn apply_hotkey(&mut self, spec: HotkeySpec, outcome: Registration) -> (effects: Vec<Effect>)
        requires
            old(self).wf(),
        ensures
            final(self).wf(),
            final(self)@ == hotkey_step(old(self)@, spec@, outcome).app,
            effects@ == hotkey_step(old(self)@, spec@, outcome).effects,
    {
        let mut effects: Vec<Effect> = Vec::new();
        match hotkey::refusal(&outcome) {
            None => {
                let mut says = text::copy_text("快捷键已更新为 ");
                text::push_text(&mut says, spec.display().as_str());
                self.hotkey_spec = spec;
                self.hotkey_status = Some(says);
                effects.push(Effect::SaveConfig);
            },
            Some(says) => {
                self.hotkey_status = Some(says);
                effects.push(Effect::RestoreHotkey);
            },
        }
        effects
    }
}

/// A combination that cannot be registered changes neither the one in use nor
/// what is kept.
pub proof fn refused_combinations_change_nothing(
    app: AppView,
    spec: HotkeyView,
    outcome: Registration,
)
    requires
        !(outcome is Done),
    ensures
        hotkey_step(app, spec, outcome).app.hotkey_spec == app.hotkey_spec,
        config_of(hotkey_step(app, spec, outcome).app) == config_of(app),
        hotkey_step(app, spec, outcome).effects == seq![Effect::RestoreHotkey],
        hotkey_step(app, spec, outcome).app.hotkey_status is Some,
{
}

// ---------------------------------------------------------------------------
// The folder of the data

/// The folder that an input asks for: none where it is blank.
pub open spec fn folder_asked(input: Seq<char>) -> Option<Seq<char>> {
    if text::trimmed(input).len() == 0 {
        None
    } else {
        Some(text::trimmed(input))
    }
}

/// The folder that `input` asks for, `None` for the default one.
pub fn asked_folder(input: &str) -> (folder: Option<String>)
    ensures
        models::text_view(folder) == folder_asked(input@),
{
    let trimmed = text::trim(input);
    if trimmed.as_str().unicode_len() == 0 {
        None
    } else {
        Some(trimmed)
    }
}

/// What has to be done once the data moves to another folder: what is set is
/// kept, the items are written there, and the log goes there too.
pub open spec fn move_effects() -> Seq<Effect> {
    seq![
        Effect::SaveConfig,
        Effect::ForgetDataDir,
        Effect::SaveTodos,
        Effect::ReopenLog,
        Effect::ShowDataDir,
    ]
}

/// The data moves to another folder, unless that is one that cannot be created.
pub open spec fn data_dir_step(app: AppView, input: Seq<char>, created: bool) -> Step {
    match folder_asked(input) {
        None => Step {
            app: AppView {
                data_dir_override: None,
                storage_status: Some("已恢复默认存储位置，数据已写回默认目录"@),
                ..app
            },
            effects: move_effects(),
        },
        Some(folder) => if created {
            Step {
                app: AppView {
                    data_dir_override: Some(folder),
                    storage_status: Some("存储位置已更新，待办数据已迁移"@),
                    ..app
                },
                effects: move_effects(),
            }
        } else {
            quiet(
                AppView {
                    storage_status: Some("无法创建该目录，请检查路径是否正确"@),
                    ..app
                },
            )
        },
    }
}

impl App {
    /// Moves the data to the folder that `input` asks for; `created` tells
    /// whether that folder is there or could be created.
    pub fn apply_data_dir(&mut self, input: &str, created: bool) -> (effects: Vec<Effect>)
        requires
            old(self).wf(),
        ensures
            final(self).wf(),
            final(self)@ == data_dir_step(old(self)@, input@, created).app,
            effects@ == data_dir_step(old(self)@, input@, created).effects,
    {
        let mut effects: Vec<Effect> = Vec::new();
        match asked_folder(input) {
            None => {
                self.data_dir_override = None;
                self.storage_status = Some(
                    text::copy_text("已恢复默认存储位置，数据已写回默认目录"),
                );
            },
            Some(folder) => {
                if !created {
                    self.storage_status = Some(
                        text::copy_text("无法创建该目录，请检查路径是否正确"),
                    );
                    return effects;
                }
                self.data_dir_override = Some(folder);
                self.storage_status = Some(text::copy_text("存储位置已更新，待办数据已迁移"));
            },
        }
        effects.push(Effect::SaveConfig);
        effects.push(Effect::ForgetDataDir);
        effects.push(Effect::SaveTodos);
        effects.push(Effect::ReopenLog);
        effects.push(Effect::ShowDataDir);
        proof {
            assert(effects@ =~= move_effects());
        }
        effects
    }

    /// Shows which folder is the current one.
    pub fn show_data_dir(&mut self, current: Option<String>)
        requires
            old(self).wf(),
        ensures
            final(self).wf(),
            final(self)@ == (AppView {
                pending_data_dir: match current {
                    Some(dir) => dir@,
                    None => Seq::empty(),
                },
                ..old(self)@
            }),
    {
        self.pending_data_dir = match current {
            Some(dir) => dir,
            None => String::new(),
        };
    }
}

/// A folder that cannot be created changes nothing but what is said; after a
/// move all items are written and what is set is kept.
pub proof fn moving_the_data_keeps_it(app: AppView, input: Seq<char>, created: bool)
    ensures
        ({
            let step = data_dir_step(app, input, created);
            &&& step.app.todos == app.todos
            &&& config_of(step.app) != config_of(app) ==> step.effects.contains(Effect::SaveConfig)
            &&& step.effects.contains(Effect::SaveConfig) <==> step.effects.contains(
                Effect::SaveTodos,
            )
            &&& folder_asked(input) is Some && !created ==> config_of(step.app) == config_of(app)
                && step.effects.len() == 0
        }),
{
    let step = data_dir_step(app, input, created);
    if step.effects.len() > 0 {
        assert(step.effects[0] == Effect::SaveConfig);
        assert(step.effects[2] == Effect::SaveTodos);
    }
}

// ---------------------------------------------------------------------------
// The window

/// The window is kept above all others, or no longer.
pub open spec fn pin_step(app: AppView, pinned: bool) -> Step {
    Step { app: AppView { pinned, ..app }, effects: seq![Effect::OnTop(pinned)] }
}

/// The window goes to the tray.
pub open spec fn hide_step(app: AppView) -> Step {
    Step {
        app: AppView { hidden: true, ..app },
        effects: seq![Effect::CancelClose, Effect::Visible(false)],
    }
}

/// The window comes back from the tray.
pub open spec fn show_step(app: AppView) -> Step {
    Step {
        app: AppView { hidden: false, ..app },
        effects: seq![Effect::Visible(true), Effect::Focus],
    }
}

/// The window goes to the tray or comes back.
pub open spec fn toggle_step(app: AppView) -> Step {
    if app.hidden {
        show_step(app)
    } else {
        hide_step(app)
    }
}

/// Something was asked for from outside the window.
pub open spec fn tray_step(app: AppView, action: TrayAction) -> Step {
    match action {
        TrayAction::ToggleVisibility => toggle_step(app),
        TrayAction::TogglePin => pin_step(app, !app.pinned),
        TrayAction::OpenSettings => {
            let opened = AppView { show_settings: true, ..app };
            if app.hidden {
                show_step(opened)
            } else {
                quiet(opened)
            }
        },
        TrayAction::Exit => Step { app, effects: seq![Effect::SaveTodos, Effect::Exit] },
    }
}

/// Several things were asked for, one after the other; nothing follows the end
/// of the program.
pub open spec fn tray_run(app: AppView, actions: Seq<TrayAction>) -> Step
    decreases actions.len(),
{
    if actions.len() == 0 {
        quiet(app)
    } else if actions[0] == TrayAction::Exit {
        tray_step(app, TrayAction::Exit)
    } else {
        let first = tray_step(app, actions[0]);
        followed_by(first, tray_run(first.app, actions.skip(1)))
    }
}

/// Whether the program ends with these actions.
pub open spec fn ends(actions: Seq<TrayAction>) -> bool {
    actions.contains(TrayAction::Exit)
}

impl App {
    /// Keeps the window above all others, or no longer.
    pub fn set_pinned(&mut self, pinned: bool) -> (effects: Vec<Effect>)
        requires
            old(self).wf(),
        ensures
            final(self).wf(),
            final(self)@ == pin_step(old(self)@, pinned).app,
            effects@ == pin_step(old(self)@, pinned).effects,
    {
        self.pinned = pinned;
        let mut effects: Vec<Effect> = Vec::new();
        effects.push(Effect::OnTop(pinned));
        effects
    }

    /// Sends the window to the tray.
    pub fn hide_to_tray(&mut self) -> (effects: Vec<Effect>)
        requires
            old(self).wf(),
        ensures
            final(self).wf(),
            final(self)@ == hide_step(old(self)@).app,
            effects@ == hide_step(old(self)@).effects,
    {
        self.hidden = true;
        let mut effects: Vec<Effect> = Vec::new();
        effects.push(Effect::CancelClose);
        effects.push(Effect::Visible(false));
        effects
    }

    /// Brings the window back from the tray.
    pub fn show_from_tray(&mut self) -> (effects: Vec<Effect>)
        requires
            old(self).wf(),
        ensures
            final(self).wf(),
            final(self)@ == show_step(old(self)@).app,
            effects@ == show_step(old(self)@).effects,
    {
        self.hidden = false;
        let mut effects: Vec<Effect> = Vec::new();
        effects.push(Effect::Visible(true));
        effects.push(Effect::Focus);
        effects
    }

    /// Sends the window to the tray, or brings it back.
    pub fn toggle_visibility(&mut self) -> (effects: Vec<Effect>)
        requires
            old(self).wf(),
        ensures
            final(self).wf(),
            final(self)@ == toggle_step(old(self)@).app,
            effects@ == toggle_step(old(self)@).effects,
    {
        if self.hidden {
            self.show_from_tray()
        } else {
            self.hide_to_tray()
        }
    }

    /// Answers one thing that was asked for from outside the window.
    fn handle_tray_action(&mut self, action: TrayAction) -> (effects: Vec<Effect>)
        requires
            old(self).wf(),
        ensures
            final(self).wf(),
            final(self)@ == tray_step(old(self)@, action).app,
            effects@ == tray_step(old(self)@, action).effects,
    {
        match action {
            TrayAction::ToggleVisibility => self.toggle_visibility(),
            TrayAction::TogglePin => {
                let pinned = !self.pinned;
                self.set_pinned(pinned)
            },
            TrayAction::OpenSettings => {
                self.show_settings = true;
                if self.hidden {
                    self.show_from_tray()
                } else {
                    Vec::new()
                }
            },
            TrayAction::Exit => {
                let mut effects: Vec<Effect> = Vec::new();
                effects.push(Effect::SaveTodos);
                effects.push(Effect::Exit);
                effects
            },
        }
    }

    /// Answers what was asked for from outside the window, in its order.
    pub fn handle_tray_actions(&mut self, actions: &Vec<TrayAction>) -> (effects: Vec<Effect>)
        requires
            old(self).wf(),
        ensures
            final(self).wf(),
            final(self)@ == tray_run(old(self)@, actions@).app,
            effects@ == tray_run(old(self)@, actions@).effects,
    {
        let ghost start = self@;
        let mut effects: Vec<Effect> = Vec::new();
        let mut i: usize = 0;
        proof {
            assert(actions@.skip(0) =~= actions@);
            assert(effects@ + tray_run(self@, actions@).effects =~= tray_run(
                self@,
                actions@,
            ).effects);
        }
        while i < actions.len()
            invariant
                i <= actions@.len(),
                self.wf(),
                start == old(self)@,
                tray_run(start, actions@).app == tray_run(self@, actions@.skip(i as int)).app,
                tray_run(start, actions@).effects == effects@ + tray_run(
                    self@,
                    actions@.skip(i as int),
                ).effects,
            decreases actions@.len() - i,
        {
            let ghost before = self@;
            let ghost done = effects@;
            let action = actions[i];
            let more = self.handle_tray_action(action);
            add_effects(&mut effects, more);
            proof {
                assert(actions@.skip(i as int)[0] == action);
                assert(actions@.skip(i as int).skip(1) =~= actions@.skip(i + 1));
            }
            if action == TrayAction::Exit {
                return effects;
            }
            proof {
                assert(tray_run(start, actions@).effects =~= effects@ + tray_run(
                    self@,
                    actions@.skip(i + 1),
                ).effects);
            }
            i += 1;
        }
        proof {
            assert(actions@.skip(i as int) =~= Seq::<TrayAction>::empty());
            assert(effects@ =~= tray_run(start, actions@).effects);
        }
        effects
    }
}

/// Sending the window to the tray and bringing it back leaves the state as it
/// was, and so does pinning it twice.
pub proof fn toggling_twice_restores(app: AppView)
    ensures
        toggle_step(toggle_step(app).app).app == app,
        pin_step(pin_step(app, !app.pinned).app, app.pinned).app == app,
{
}

/// Closing the window only hides it: the close is called off and nothing is lost.
pub proof fn closing_only_hides(app: AppView)
    ensures
        hide_step(app).app == (AppView { hidden: true, ..app }),
        hide_step(app).effects[0] == Effect::CancelClose,
        !hide_step(app).effects.contains(Effect::Exit),
{
}

/// What is asked for without ending the program does not end it and keeps all items.
proof fn lemma_no_end(app: AppView, action: TrayAction)
    requires
        action != TrayAction::Exit,
    ensures
        !tray_step(app, action).effects.contains(Effect::Exit),
        tray_step(app, action).app.todos == app.todos,
{
    let effects = tray_step(app, action).effects;
    assert(effects.len() <= 2);
    if effects.len() > 0 {
        assert(effects[0] != Effect::Exit);
    }
    if effects.len() > 1 {
        assert(effects[1] != Effect::Exit);
    }
}

/// What stands in one list behind another stands in one of them.
pub(crate) proof fn lemma_in_either(a: Seq<Effect>, b: Seq<Effect>, effect: Effect)
    ensures
        (a + b).contains(effect) <==> a.contains(effect) || b.contains(effect),
{
    if a.contains(effect) {
        let i = a.index_of(effect);
        assert((a + b)[i] == effect);
    }
    if b.contains(effect) {
        let i = b.index_of(effect);
        assert((a + b)[a.len() + i] == effect);
    }
}

/// The program ends where that is asked for, and only there, after the items
/// were written.
pub proof fn the_end_comes_after_saving(app: AppView, actions: Seq<TrayAction>)
    ensures
        tray_run(app, actions).effects.contains(Effect::Exit) <==> ends(actions),
        ends(actions) ==> {
            let effects = tray_run(app, actions).effects;
            &&& effects.len() >= 2
            &&& effects[effects.len() - 1] == Effect::Exit
            &&& effects[effects.len() - 2] == Effect::SaveTodos
        },
        tray_run(app, actions).app.todos == app.todos,
    decreases actions.len(),
{
    if actions.len() > 0 {
        let later = actions.skip(1);
        if actions[0] == TrayAction::Exit {
            assert(tray_run(app, actions).effects[1] == Effect::Exit);
            assert(actions.contains(actions[0]));
        } else {
            let first = tray_step(app, actions[0]);
            let rest = tray_run(first.app, later);
            the_end_comes_after_saving(first.app, later);
            lemma_no_end(app, actions[0]);
            lemma_in_either(first.effects, rest.effects, Effect::Exit);
            if ends(actions) {
                let i = actions.index_of(TrayAction::Exit);
                assert(later[i - 1] == TrayAction::Exit);
            }
            if ends(later) {
                let i = later.index_of(TrayAction::Exit);
                assert(actions[i + 1] == TrayAction::Exit);
            }
        }
    }
}

// ---------------------------------------------------------------------------
// Reminders

/// The reminders are looked at: where one goes off, the window comes back and
/// calls for attention.
pub open spec fn reminder_step(app: AppView, now: Moment) -> Step {
    let noted = AppView {
        triggered_reminders: reminder::triggered_after(app.todos, app.triggered_reminders, now),
        ..app
    };
    if reminder::going_off(app.todos, app.triggered_reminders, now).len() > 0 {
        followed_by(show_step(noted), Step { app: show_step(noted).app, effects: seq![Effect::Attention] })
    } else {
        quiet(noted)
    }
}

/// What has to be notified when the reminders are looked at.
pub open spec fn reminder_message(app: AppView, now: Moment) -> Option<Seq<char>> {
    let list = reminder::going_off(app.todos, app.triggered_reminders, now);
    if list.len() > 0 {
        Some(reminder::due_message(list))
    } else {
        None
    }
}

/// How many reminders go off when they are looked at.
pub open spec fn reminder_count(app: AppView, now: Moment) -> nat {
    reminder::going_off(app.todos, app.triggered_reminders, now).len()
}

/// What a look at the reminders led to.
pub struct ReminderOutcome {
    /// What the notification says, where one has to be sent.
    pub says: Option<String>,
    /// How many reminders go off.
    pub count: usize,
    pub effects: Vec<Effect>,
}

/// The title of notifications.
pub const NOTIFICATION_TITLE: &'static str = "deskTodo 待办提醒";

impl App {
    /// Looks at the reminders.
    pub fn check_reminders(&mut self, now: Moment) -> (outcome: ReminderOutcome)
        requires
            old(self).wf(),
            now.valid(),
        ensures
            final(self).wf(),
            final(self)@ == reminder_step(old(self)@, now).app,
            outcome.effects@ == reminder_step(old(self)@, now).effects,
            models::text_view(outcome.says) == reminder_message(old(self)@, now),
            outcome.count == reminder_count(old(self)@, now),
    {
        let found = reminder::check_reminders(&self.todos, &mut self.triggered_reminders, now);
        let mut effects: Vec<Effect> = Vec::new();
        if found.says.is_some() {
            effects = self.show_from_tray();
            effects.push(Effect::Attention);
        }
        proof {
            assert(effects@ =~= reminder_step(old(self)@, now).effects);
        }
        ReminderOutcome { says: found.says, count: found.count, effects }
    }

    /// How many seconds may pass until the reminders have to be looked at again.
    pub fn next_repaint_delay(&self, now: Moment) -> (delay: u64)
        requires
            self.wf(),
            now.valid(),
        ensures
            delay == reminder::delay_at(self@.todos, now),
    {
        reminder::next_delay(&self.todos, now)
    }
}

/// A reminder brings the window back, also from the tray, and calls for attention.
pub proof fn reminders_bring_the_window_back(app: AppView, now: Moment)
    requires
        reminder::going_off(app.todos, app.triggered_reminders, now).len() > 0,
    ensures
        !reminder_step(app, now).app.hidden,
        reminder_step(app, now).effects == seq![
            Effect::Visible(true),
            Effect::Focus,
            Effect::Attention,
        ],
        reminder_message(app, now) is Some,
{
    assert(reminder_step(app, now).effects =~= seq![
        Effect::Visible(true),
        Effect::Focus,
        Effect::Attention,
    ]);
}

// ---------------------------------------------------------------------------
// Between two pictures

/// What happens between two pictures: what was asked for from outside, then the
/// reminders, the opacity and the wish to close the window. Where the program
/// ends, nothing follows.
pub open spec fn logic_step(
    app: AppView,
    actions: Seq<TrayAction>,
    now: Moment,
    close_requested: bool,
) -> Step {
    let asked = tray_run(app, actions);
    if ends(actions) {
        asked
    } else {
        let reminded = followed_by(asked, reminder_step(asked.app, now));
        let synced = if opacity_pending(reminded.app) {
            followed_by(reminded, Step { app: reminded.app, effects: seq![Effect::ApplyOpacity] })
        } else {
            reminded
        };
        if close_requested {
            followed_by(synced, hide_step(synced.app))
        } else {
            synced
        }
    }
}

/// What has to be done between two pictures.
pub struct Tick {
    pub effects: Vec<Effect>,
    /// What the notification says, where one has to be sent.
    pub says: Option<String>,
    /// How many reminders go off.
    pub count: usize,
    /// How many seconds may pass until the next picture.
    pub delay: u64,
}

impl App {
    /// Does what has to be done between two pictures.
    pub fn logic(&mut self, actions: &Vec<TrayAction>, now: Moment, close_requested: bool) -> (tick:
        Tick)
        requires
            old(self).wf(),
            now.valid(),
        ensures
            final(self).wf(),
            final(self)@ == logic_step(old(self)@, actions@, now, close_requested).app,
            tick.effects@ == logic_step(old(self)@, actions@, now, close_requested).effects,
            models::text_view(tick.says) == if ends(actions@) {
                None
            } else {
                reminder_message(tray_run(old(self)@, actions@).app, now)
            },
            tick.count == if ends(actions@) {
                0
            } else {
                reminder_count(tray_run(old(self)@, actions@).app, now)
            },
            tick.delay == reminder::delay_at(old(self)@.todos, now),
    {
        let ghost start = self@;
        let delay: u64 = self.next_repaint_delay(now);
        let mut effects = self.handle_tray_actions(actions);
        proof {
            the_end_comes_after_saving(start, actions@);
        }
        if includes_exit(&effects) {
            return Tick { effects, says: None, count: 0, delay };
        }
        let outcome = self.check_reminders(now);
        add_effects(&mut effects, outcome.effects);
        let ghost reminded = effects@;
        if self.needs_opacity() {
            effects.push(Effect::ApplyOpacity);
            proof {
                assert(effects@ =~= reminded + seq![Effect::ApplyOpacity]);
            }
        }
        if close_requested {
            let more = self.hide_to_tray();
            add_effects(&mut effects, more);
        }
        Tick { effects, says: outcome.says, count: outcome.count, delay }
    }
}

/// Whether the program has to end.
pub fn includes_exit(effects: &Vec<Effect>) -> (yes: bool)
    ensures
        yes == effects@.contains(Effect::Exit),
{
    let mut i: usize = 0;
    while i < effects.len()
        invariant
            i <= effects@.len(),
            forall|k: int| 0 <= k < i ==> #[trigger] effects@[k] != Effect::Exit,
        decreases effects@.len() - i,
    {
        if effects[i] == Effect::Exit {
            return true;
        }
        i += 1;
    }
    false
}

// ---------------------------------------------------------------------------
// What holds of the state

/// At the start the items are those that were loaded, today is selected and its
/// month is on show, the window is on show and not pinned, nothing was typed, no
/// reminder has gone off and the reminder is off and set to nine o'clock.
pub proof fn the_start_shows_today(
    config: ConfigView,
    todos: Map<Seq<char>, Seq<TodoView>>,
    today: Date,
    data_dir: Option<Seq<char>>,
)
    ensures
        ({
            let app = started(config, todos, today, data_dir);
            &&& app.todos == todos
            &&& app.selected == today
            &&& app.view_year == today.year
            &&& app.view_month == today.month
            &&& !app.pinned && !app.hidden && !app.show_settings
            &&& app.input.len() == 0
            &&& !app.remind_enabled
            &&& (app.remind_hour, app.remind_minute, app.remind_second) == (9i32, 0i32, 0i32)
            &&& app.triggered_reminders == Set::<Seq<char>>::empty()
            &&& app.applied_opacity is None
            &&& app.drag.index is None && app.drag.target is None
            &&& !app.editor_expanded && !app.focus_expanded_input
            &&& !app.recording_hotkey && app.hotkey_status is None && app.storage_status is None
            &&& data_dir is Some ==> app.pending_data_dir == data_dir->0
            &&& data_dir is None ==> app.pending_data_dir.len() == 0
        }),
{
}

/// At the start the settings are those that were kept: a theme that does not
/// exist becomes the last one, and an opacity is moved between three tenths and one.
pub proof fn the_start_takes_the_settings(
    config: ConfigView,
    todos: Map<Seq<char>, Seq<TodoView>>,
    today: Date,
    data_dir: Option<Seq<char>>,
)
    requires
        config.theme <= usize::MAX,
    ensures
        ({
            let app = started(config, todos, today, data_dir);
            &&& config.theme < 3 ==> app.theme_index == config.theme
            &&& config.theme >= 3 ==> app.theme_index == 2
            &&& app.font_scale == config.font_scale
            &&& app.hotkey_spec == config.hotkey
            &&& app.data_dir_override == config.data_dir
            &&& app.log_level == logger::level_named(config.log_level)
            &&& 0x3e99_999a <= config.opacity <= 0x3f80_0000 ==> app.opacity == config.opacity
            &&& config.opacity < 0x3e99_999a ==> app.opacity == 0x3e99_999a
            &&& 0x3f80_0000 < config.opacity <= 0x7f80_0000 ==> app.opacity == 0x3f80_0000
            &&& 0x8000_0000 <= config.opacity <= 0xff80_0000 ==> app.opacity == 0x3e99_999a
        }),
{
}

/// What is chosen among the settings is taken, written, and there again at the
/// next start; all else stays as it is.
pub proof fn chosen_settings_are_kept(
    app: AppView,
    index: int,
    level: LogLevel,
    scale: u32,
    opacity: u32,
    todos: Map<Seq<char>, Seq<TodoView>>,
    today: Date,
    data_dir: Option<Seq<char>>,
)
    requires
        app.valid(),
        0 <= index < 3,
        0x3e99_999a <= opacity <= 0x3f80_0000,
    ensures
        ({
            let step = theme_step(app, index);
            &&& step.app == (AppView { theme_index: index as usize, ..app })
            &&& step.effects == seq![Effect::ApplyTheme, Effect::SaveConfig]
            &&& started(config_of(step.app), todos, today, data_dir).theme_index == index
        }),
        ({
            let step = log_level_step(app, level);
            &&& step.app == (AppView { log_level: level, ..app })
            &&& step.effects == seq![Effect::ApplyLogLevel, Effect::SaveConfig]
            &&& started(config_of(step.app), todos, today, data_dir).log_level == level
        }),
        ({
            let step = font_scale_step(app, scale);
            &&& step.app == (AppView { font_scale: scale, ..app })
            &&& step.effects == seq![Effect::ApplyScale, Effect::SaveConfig]
            &&& started(config_of(step.app), todos, today, data_dir).font_scale == scale
        }),
        ({
            let step = opacity_step(app, opacity);
            &&& step.app == (AppView { opacity, ..app })
            &&& step.effects == seq![Effect::SaveConfig]
            &&& started(config_of(step.app), todos, today, data_dir).opacity == opacity
        }),
{
    logger::level_names_read_back(level);
}

/// A theme that does not exist becomes the last one; an opacity outside of what
/// is allowed becomes the nearest that is.
pub proof fn settings_stay_within_bounds(app: AppView, index: int, opacity: u32)
    requires
        0 <= index,
    ensures
        index >= 3 ==> theme_step(app, index).app.theme_index == 2,
        opacity < 0x3e99_999a ==> opacity_step(app, opacity).app.opacity == 0x3e99_999a,
        0x3f80_0000 < opacity <= 0x7f80_0000 ==> opacity_step(app, opacity).app.opacity
            == 0x3f80_0000,
        0x8000_0000 <= opacity <= 0xff80_0000 ==> opacity_step(app, opacity).app.opacity
            == 0x3e99_999a,
{
}

/// The window has to be made as opaque as is set until it was, and again where
/// another opacity is set.
pub proof fn opacity_is_applied_once(app: AppView)
    requires
        app.valid(),
        !scalar::is_nan(app.opacity),
    ensures
        app.applied_opacity is None ==> opacity_pending(app),
        !opacity_pending(AppView { applied_opacity: Some(app.opacity), ..app }),
        app.applied_opacity matches Some(applied) ==> (0 < applied < 0x7f80_0000 && applied
            != app.opacity ==> opacity_pending(app)),
{
}

/// While a combination is being chosen, Escape gives up, a key without Ctrl and
/// Alt and a key that cannot be used are refused with a word, and a usable one
/// ends the choice; nothing but the choice and what is said of it changes.
pub proof fn keys_end_the_choice(app: AppView, press: KeyPress)
    ensures
        ({
            let after = key_recorded(app, choice_at(press));
            let key = press.key@;
            &&& key == "Escape"@ ==> !after.recording_hotkey && after.hotkey_status is None
            &&& key != "Escape"@ && !press.ctrl && !press.alt ==> after.recording_hotkey
                == app.recording_hotkey && after.hotkey_status == Some(
                "快捷键需包含 Ctrl 或 Alt 修饰键"@,
            )
            &&& key != "Escape"@ && (press.ctrl || press.alt) && !hotkey::is_key_name(key)
                ==> after.recording_hotkey == app.recording_hotkey && after.hotkey_status == Some(
                "暂不支持该按键，请使用字母 / 数字 / F1-F12"@,
            )
            &&& key != "Escape"@ && (press.ctrl || press.alt) && hotkey::is_key_name(key)
                ==> !after.recording_hotkey && after.hotkey_status == app.hotkey_status
            &&& after == (AppView {
                recording_hotkey: after.recording_hotkey,
                hotkey_status: after.hotkey_status,
                ..app
            })
        }),
{
}

/// Beginning to choose a combination takes back what was said of the last one;
/// beginning again changes nothing.
pub proof fn the_choice_begins_once(app: AppView)
    ensures
        recording_started(app).recording_hotkey,
        !app.recording_hotkey ==> recording_started(app).hotkey_status is None,
        recording_started(recording_started(app)) == recording_started(app),
        recording_started(app) == (AppView {
            recording_hotkey: true,
            hotkey_status: recording_started(app).hotkey_status,
            ..app
        }),
{
}

/// Keys are taken one after the other, up to the first that completes a combination.
pub proof fn keys_are_taken_in_order(app: AppView, keys: Seq<KeyPress>, press: KeyPress)
    ensures
        keys_recorded(app, Seq::empty()) == app,
        keys_recorded(app, keys.push(press)) == key_recorded(
            keys_recorded(app, keys),
            choice_at(press),
        ),
        0 <= keys_taken(keys) <= keys.len(),
        forall|i: int| 0 <= i < keys_taken(keys) - 1 ==> !(choice_at(#[trigger] keys[i]) is Take),
        keys_taken(keys) < keys.len() ==> keys_taken(keys) > 0 && choice_at(
            keys[keys_taken(keys) - 1],
        ) is Take,
    decreases keys.len(),
{
    assert(keys.push(press).drop_last() =~= keys);
    if keys.len() > 0 {
        let rest = keys.skip(1);
        keys_are_taken_in_order(app, rest, press);
        assert forall|i: int| 0 <= i < keys_taken(keys) - 1 implies !(choice_at(
            #[trigger] keys[i],
        ) is Take) by {
            if i > 0 {
                assert(keys[i] == rest[i - 1]);
            }
        }
        if !(choice_at(keys[0]) is Take) && keys_taken(rest) > 0 {
            assert(keys[keys_taken(keys) - 1] == rest[keys_taken(rest) - 1]);
        }
    }
}

/// A combination that was registered is in use, is shown and is kept for the
/// next start; one that was not is answered with the reason.
pub proof fn registered_combinations_are_kept(
    app: AppView,
    spec: HotkeyView,
    outcome: Registration,
    todos: Map<Seq<char>, Seq<TodoView>>,
    today: Date,
    data_dir: Option<Seq<char>>,
)
    ensures
        ({
            let step = hotkey_step(app, spec, outcome);
            &&& outcome is Done ==> {
                &&& step.app.hotkey_spec == spec
                &&& step.effects == seq![Effect::SaveConfig]
                &&& started(config_of(step.app), todos, today, data_dir).hotkey_spec == spec
                &&& step.app.hotkey_status == Some(
                    "快捷键已更新为 "@ + config::hotkey_text(spec),
                )
            }
            &&& outcome is Invalid ==> step.app.hotkey_status == Some("无效的快捷键组合"@)
            &&& outcome matches Registration::Refused(reason) ==> step.app.hotkey_status == Some(
                "快捷键可能被其他程序占用（"@ + reason@ + "）"@,
            )
            &&& step.app == (AppView {
                hotkey_spec: step.app.hotkey_spec,
                hotkey_status: step.app.hotkey_status,
                ..app
            })
        }),
{
}

/// A blank folder brings the data back to the default one; another one that is
/// there or could be created takes the data, without the white space around its
/// name. The settings are written first, then the items, into the new folder.
pub proof fn the_data_goes_where_it_is_sent(app: AppView, input: Seq<char>, created: bool)
    ensures
        ({
            let step = data_dir_step(app, input, created);
            let folder = text::trimmed(input);
            let moves = seq![
                Effect::SaveConfig,
                Effect::ForgetDataDir,
                Effect::SaveTodos,
                Effect::ReopenLog,
                Effect::ShowDataDir,
            ];
            &&& folder.len() == 0 ==> step.app.data_dir_override is None && step.effects == moves
                && step.app.storage_status == Some("已恢复默认存储位置，数据已写回默认目录"@)
            &&& folder.len() > 0 && created ==> step.app.data_dir_override == Some(folder)
                && step.effects == moves && step.app.storage_status == Some(
                "存储位置已更新，待办数据已迁移"@,
            )
            &&& folder.len() > 0 && !created ==> step.app.data_dir_override
                == app.data_dir_override && step.effects.len() == 0 && step.app.storage_status
                == Some("无法创建该目录，请检查路径是否正确"@)
            &&& step.app == (AppView {
                data_dir_override: step.app.data_dir_override,
                storage_status: step.app.storage_status,
                ..app
            })
        }),
{
}

/// What is asked for from outside the window is done: the window goes to the
/// tray or comes back with the keyboard, is pinned or no longer, shows its
/// settings, or the items are written and the program ends. Nothing else changes.
pub proof fn the_tray_is_answered(app: AppView)
    ensures
        app.hidden ==> tray_step(app, TrayAction::ToggleVisibility) == (Step {
            app: AppView { hidden: false, ..app },
            effects: seq![Effect::Visible(true), Effect::Focus],
        }),
        !app.hidden ==> tray_step(app, TrayAction::ToggleVisibility) == (Step {
            app: AppView { hidden: true, ..app },
            effects: seq![Effect::CancelClose, Effect::Visible(false)],
        }),
        tray_step(app, TrayAction::TogglePin) == (Step {
            app: AppView { pinned: !app.pinned, ..app },
            effects: seq![Effect::OnTop(!app.pinned)],
        }),
        tray_step(app, TrayAction::OpenSettings).app == (AppView {
            show_settings: true,
            hidden: false,
            ..app
        }),
        app.hidden ==> tray_step(app, TrayAction::OpenSettings).effects == seq![
            Effect::Visible(true),
            Effect::Focus,
        ],
        !app.hidden ==> tray_step(app, TrayAction::OpenSettings).effects.len() == 0,
        tray_step(app, TrayAction::Exit) == (Step {
            app,
            effects: seq![Effect::SaveTodos, Effect::Exit],
        }),
{
}

/// What is asked for is answered in its order, and nothing is answered once the
/// program ends.
pub proof fn the_tray_is_answered_in_order(
    app: AppView,
    action: TrayAction,
    rest: Seq<TrayAction>,
)
    ensures
        tray_run(app, Seq::empty()) == (Step { app, effects: Seq::empty() }),
        action != TrayAction::Exit ==> tray_run(app, seq![action] + rest) == (Step {
            app: tray_run(tray_step(app, action).app, rest).app,
            effects: tray_step(app, action).effects + tray_run(
                tray_step(app, action).app,
                rest,
            ).effects,
        }),
        action == TrayAction::Exit ==> tray_run(app, seq![action] + rest) == tray_step(app, action),
{
    let all = seq![action] + rest;
    assert(all.skip(1) =~= rest);
    assert(all[0] == action);
}

/// A look at the reminders notes what has gone off; only where something goes
/// off the window comes back, calls for attention and a notification says what
/// is due. Nothing else changes.
pub proof fn a_look_at_the_reminders(app: AppView, now: Moment)
    ensures
        ({
            let list = reminder::going_off(app.todos, app.triggered_reminders, now);
            let step = reminder_step(app, now);
            &&& step.app == (AppView {
                triggered_reminders: reminder::triggered_after(
                    app.todos,
                    app.triggered_reminders,
                    now,
                ),
                hidden: app.hidden && list.len() == 0,
                ..app
            })
            &&& list.len() == 0 ==> step.effects.len() == 0 && reminder_message(app, now) is None
            &&& list.len() > 0 ==> step.effects == seq![
                Effect::Visible(true),
                Effect::Focus,
                Effect::Attention,
            ] && reminder_message(app, now) == Some(reminder::due_message(list))
            &&& reminder_count(app, now) == list.len()
        }),
{
    let step = reminder_step(app, now);
    if reminder::going_off(app.todos, app.triggered_reminders, now).len() > 0 {
        reminders_bring_the_window_back(app, now);
    }
}

/// Between two pictures: first what was asked for from outside, then the
/// reminders, then the opacity where it is pending, then the wish to close the
/// window, which hides it.
pub proof fn between_two_pictures(
    app: AppView,
    actions: Seq<TrayAction>,
    now: Moment,
    close_requested: bool,
)
    ensures
        ({
            let asked = tray_run(app, actions);
            let reminded = reminder_step(asked.app, now);
            let step = logic_step(app, actions, now, close_requested);
            &&& actions.contains(TrayAction::Exit) ==> step == asked
            &&& !actions.contains(TrayAction::Exit) ==> {
                &&& step.app == (AppView {
                    hidden: reminded.app.hidden || close_requested,
                    ..reminded.app
                })
                &&& step.effects == asked.effects + reminded.effects + (if opacity_pending(
                    reminded.app,
                ) {
                    seq![Effect::ApplyOpacity]
                } else {
                    Seq::empty()
                }) + (if close_requested {
                    seq![Effect::CancelClose, Effect::Visible(false)]
                } else {
                    Seq::empty()
                })
            }
        }),
{
    let asked = tray_run(app, actions);
    let reminded = reminder_step(asked.app, now);
    let step = logic_step(app, actions, now, close_requested);
    let tail = (if opacity_pending(reminded.app) {
        seq![Effect::ApplyOpacity]
    } else {
        Seq::empty()
    });
    let last = (if close_requested {
        seq![Effect::CancelClose, Effect::Visible(false)]
    } else {
        Seq::empty()
    });
    if !actions.contains(TrayAction::Exit) {
        assert(step.effects =~= asked.effects + reminded.effects + tail + last);
    }
}

/// Where the data was sent is kept for the next start.
pub proof fn the_folder_is_kept(
    app: AppView,
    todos: Map<Seq<char>, Seq<TodoView>>,
    today: Date,
    data_dir: Option<Seq<char>>,
)
    ensures
        started(config_of(app), todos, today, data_dir).data_dir_override == app.data_dir_override,
        started(config_of(app), todos, today, data_dir).hotkey_spec == app.hotkey_spec,
        started(config_of(app), todos, today, data_dir).font_scale == app.font_scale,
{
}

/// What the state holds is what its fields hold.
pub proof fn the_state_holds_its_fields(app: App)
    ensures
        app@.todos == app.todos@,
        app@.input == app.input@,
        (app@.view_year, app@.view_month, app@.selected) == (
            app.view_year,
            app.view_month,
            app.selected,
        ),
        (app@.pinned, app@.hidden, app@.show_settings) == (
            app.pinned,
            app.hidden,
            app.show_settings,
        ),
        (app@.remind_enabled, app@.remind_hour, app@.remind_minute, app@.remind_second) == (
            app.remind_enabled,
            app.remind_hour,
            app.remind_minute,
            app.remind_second,
        ),
        (app@.theme_index, app@.font_scale, app@.opacity, app@.applied_opacity) == (
            app.theme_index,
            app.font_scale,
            app.opacity,
            app.applied_opacity,
        ),
        app@.hotkey_spec == app.hotkey_spec@,
        app@.recording_hotkey == app.recording_hotkey,
        app@.pending_data_dir == app.pending_data_dir@,
        app@.log_level == app.log_level,
        app@.triggered_reminders == app.triggered_reminders@,
        app@.drag == app.drag,
        app@.editor_expanded == app.editor_expanded,
        app@.focus_expanded_input == app.focus_expanded_input,
        app.hotkey_status is Some <==> app@.hotkey_status is Some,
        app.hotkey_status is Some ==> app@.hotkey_status->0 == app.hotkey_status->0@,
        app.storage_status is Some <==> app@.storage_status is Some,
        app.storage_status is Some ==> app@.storage_status->0 == app.storage_status->0@,
        app.data_dir_override is Some <==> app@.data_dir_override is Some,
        app.data_dir_override is Some ==> app@.data_dir_override->0 == app.data_dir_override->0@,
{
}

} // verus!
