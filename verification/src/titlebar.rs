//! The bar at the top of the window: its buttons, its title and what clicking does.

use vstd::prelude::*;

use crate::app;
use crate::app::{App, AppView, Effect, Step};
use crate::calendar;
use crate::date::Date;
use crate::navigation;
use crate::text;
use crate::theme;
use crate::theme::Role;

verus! {

// ---------------------------------------------------------------------------
// How it looks

/// The buttons at the right end of the bar.
#[derive(Clone, Copy, PartialEq, Eq, Structural, Debug)]
pub enum BarButton {
    Close,
    Maximize,
    Minimize,
    Pin,
    Theme,
    Settings,
}

/// What a button of the bar is painted with: its ground, none where it has none,
/// and its sign.
#[derive(Clone, Copy, PartialEq, Eq, Structural, Debug)]
pub struct BarButtonLook {
    pub fill: Option<Role>,
    pub sign: Role,
}

/// The colour of a button's sign.
pub open spec fn sign_of(button: BarButton, hovered: bool, pinned: bool) -> Role {
    match button {
        BarButton::Close => Role::Danger,
        BarButton::Theme => if hovered {
            Role::Accent
        } else {
            Role::TextMuted
        },
        BarButton::Pin => if pinned {
            Role::Accent
        } else if hovered {
            Role::TextPrimary
        } else {
            Role::TextSecondary
        },
        BarButton::Maximize | BarButton::Minimize | BarButton::Settings => if hovered {
            Role::TextPrimary
        } else {
            Role::TextSecondary
        },
    }
}

/// How a button of the bar looks; only under the pointer it has a ground.
pub open spec fn bar_button_of(button: BarButton, hovered: bool, pinned: bool) -> BarButtonLook {
    BarButtonLook {
        fill: if !hovered {
            None
        } else if button == BarButton::Close {
            Some(Role::DangerFill)
        } else {
            Some(Role::HoverFill)
        },
        sign: sign_of(button, hovered, pinned),
    }
}

/// How a button of the bar looks.
pub fn bar_button_look(button: BarButton, hovered: bool, pinned: bool) -> (look: BarButtonLook)
    ensures
        look == bar_button_of(button, hovered, pinned),
{
    let fill = if !hovered {
        None
    } else if button == BarButton::Close {
        Some(Role::DangerFill)
    } else {
        Some(Role::HoverFill)
    };
    let sign = match button {
        BarButton::Close => Role::Danger,
        BarButton::Theme => if hovered {
            Role::Accent
        } else {
            Role::TextMuted
        },
        BarButton::Pin => if pinned {
            Role::Accent
        } else if hovered {
            Role::TextPrimary
        } else {
            Role::TextSecondary
        },
        BarButton::Maximize | BarButton::Minimize | BarButton::Settings => if hovered {
            Role::TextPrimary
        } else {
            Role::TextSecondary
        },
    };
    BarButtonLook { fill, sign }
}

/// What is said of a button while the pointer rests on it.
pub open spec fn tip_of(button: BarButton, pinned: bool, maximized: bool, theme: int) -> Seq<char> {
    match button {
        BarButton::Close => "关闭到托盘"@,
        BarButton::Maximize => if maximized {
            "还原窗口"@
        } else {
            "最大化"@
        },
        BarButton::Minimize => "最小化到托盘"@,
        BarButton::Pin => if pinned {
            "取消置顶（快捷键 Ctrl+Alt+T）"@
        } else {
            "窗口置顶（快捷键 Ctrl+Alt+T）"@
        },
        BarButton::Theme => "主题："@ + theme::name_of(theme) + "（点击切换）"@,
        BarButton::Settings => "打开设置"@,
    }
}

/// What is said of a button while the pointer rests on it.
pub fn bar_button_tip(button: BarButton, pinned: bool, maximized: bool, theme: usize) -> (tip: String)
    requires
        theme < theme::THEME_COUNT,
    ensures
        tip@ == tip_of(button, pinned, maximized, theme as int),
{
    match button {
        BarButton::Close => text::copy_text("关闭到托盘"),
        BarButton::Maximize => if maximized {
            text::copy_text("还原窗口")
        } else {
            text::copy_text("最大化")
        },
        BarButton::Minimize => text::copy_text("最小化到托盘"),
        BarButton::Pin => if pinned {
            text::copy_text("取消置顶（快捷键 Ctrl+Alt+T）")
        } else {
            text::copy_text("窗口置顶（快捷键 Ctrl+Alt+T）")
        },
        BarButton::Theme => {
            let mut tip = text::copy_text("主题：");
            text::push_text(&mut tip, theme::theme_name(theme));
            text::push_text(&mut tip, "（点击切换）");
            tip
        },
        BarButton::Settings => text::copy_text("打开设置"),
    }
}

/// The title in the bar: the month on show, or that the settings are open.
pub open spec fn title_of(app: AppView) -> Seq<char> {
    if app.show_settings {
        "设置"@
    } else {
        calendar::month_text(app.view_year as int, app.view_month as nat)
    }
}

impl App {
    /// The title in the bar.
    pub fn title(&self) -> (title: String)
        ensures
            title@ == title_of(self@),
    {
        if self.show_settings {
            text::copy_text("设置")
        } else {
            calendar::month_title(self.view_year, self.view_month)
        }
    }
}

// ---------------------------------------------------------------------------
// What clicking does

/// What happened to the bar.
#[derive(Clone, Copy, PartialEq, Eq, Structural, Debug)]
pub struct TitlebarInput {
    pub close: bool,
    pub maximize: bool,
    pub minimize: bool,
    pub pin: bool,
    pub theme: bool,
    pub settings: bool,
    pub back: bool,
    pub previous: bool,
    pub next: bool,
    pub today: bool,
    pub dragged: bool,
    pub double_clicked: bool,
    /// Whether the window fills the screen.
    pub maximized: bool,
}

/// The second step, where it is taken.
pub open spec fn step_if(taken: bool, first: Step, second: Step) -> Step {
    if taken {
        app::followed_by(first, second)
    } else {
        first
    }
}

/// The buttons for the window: close, maximize, minimize, pin. Both closing and
/// minimizing hide it to the tray.
pub open spec fn window_step(app: AppView, input: TitlebarInput) -> Step {
    let closed = step_if(input.close, app::quiet(app), app::hide_step(app));
    let filled = step_if(
        input.maximize,
        closed,
        Step { app: closed.app, effects: seq![Effect::Maximize(!input.maximized)] },
    );
    let lowered = step_if(input.minimize, filled, app::hide_step(filled.app));
    step_if(input.pin, lowered, app::pin_step(lowered.app, !lowered.app.pinned))
}

/// The buttons for how the window looks and what it shows: theme, settings.
pub open spec fn look_step(app: AppView, input: TitlebarInput) -> Step {
    let themed = step_if(
        input.theme,
        app::quiet(app),
        app::theme_step(app, theme::theme_after(app.theme_index as int)),
    );
    step_if(
        input.settings,
        themed,
        app::quiet(AppView { show_settings: true, ..themed.app }),
    )
}

/// The buttons at the right end, from right to left.
pub open spec fn buttons_step(app: AppView, input: TitlebarInput) -> Step {
    let window = window_step(app, input);
    app::followed_by(window, look_step(window.app, input))
}

/// Whether the steps from month to month that are asked for stay within the
/// years that can be held.
pub open spec fn has_room(app: AppView, input: TitlebarInput) -> bool {
    let first = if input.previous {
        calendar::shifted(app.view_year as int, app.view_month as int, -1)
    } else {
        (app.view_year as int, app.view_month as int)
    };
    &&& i32::MIN <= first.0
    &&& input.next ==> calendar::shifted(first.0, first.1, 1).0 <= i32::MAX
}

/// The buttons at the left end: back from the settings, or from month to month.
pub open spec fn browsed(app: AppView, input: TitlebarInput, today: Date) -> AppView {
    if app.show_settings {
        if input.back {
            AppView { show_settings: false, ..app }
        } else {
            app
        }
    } else {
        let first = if input.previous {
            navigation::month_shifted(app, -1)
        } else {
            app
        };
        let second = if input.next {
            navigation::month_shifted(first, 1)
        } else {
            first
        };
        if input.today {
            navigation::day_shown(second, today)
        } else {
            second
        }
    }
}

/// What dragging and double-clicking the empty part of the bar leads to.
pub open spec fn bar_effects(input: TitlebarInput) -> Seq<Effect> {
    (if input.dragged {
        seq![Effect::StartDrag]
    } else {
        Seq::empty()
    }) + (if input.double_clicked {
        seq![Effect::Maximize(!input.maximized)]
    } else {
        Seq::empty()
    })
}

/// What happens to the bar, taken together.
pub open spec fn titlebar_step(app: AppView, input: TitlebarInput, today: Date) -> Step {
    let buttons = buttons_step(app, input);
    app::followed_by(
        buttons,
        Step { app: browsed(buttons.app, input, today), effects: bar_effects(input) },
    )
}

/// Closing and minimizing hide the window; the buttons for the window end nothing.
proof fn lemma_window_buttons(app: AppView, input: TitlebarInput) -> (at: int)
    ensures
        !window_step(app, input).effects.contains(Effect::Exit),
        input.close || input.minimize ==> {
            &&& window_step(app, input).app.hidden
            &&& 0 <= at < window_step(app, input).effects.len() - 1
            &&& window_step(app, input).effects[at] == Effect::CancelClose
            &&& window_step(app, input).effects[at + 1] == Effect::Visible(false)
        },
{
    if input.close || !input.maximize {
        0
    } else {
        1
    }
}

/// The buttons for how the window looks neither show it nor end anything.
proof fn lemma_look_buttons(app: AppView, input: TitlebarInput)
    ensures
        !look_step(app, input).effects.contains(Effect::Exit),
        look_step(app, input).app.hidden == app.hidden,
{
}

/// A click on the button to close or on the one to minimize hides the window to
/// the tray, and the program goes on.
pub proof fn leaving_hides_to_the_tray(app: AppView, input: TitlebarInput, today: Date)
    requires
        input.close || input.minimize,
    ensures
        titlebar_step(app, input, today).app.hidden,
        exists|i: int|
            0 <= i < titlebar_step(app, input, today).effects.len() - 1
                && #[trigger] titlebar_step(app, input, today).effects[i] == Effect::CancelClose
                && titlebar_step(app, input, today).effects[i + 1] == Effect::Visible(false),
        !titlebar_step(app, input, today).effects.contains(Effect::Exit),
{
    let window = window_step(app, input);
    let look = look_step(window.app, input);
    let at = lemma_window_buttons(app, input);
    lemma_look_buttons(window.app, input);
    let effects = titlebar_step(app, input, today).effects;
    assert(effects == window.effects + look.effects + bar_effects(input));
    assert(effects[at] == Effect::CancelClose);
    assert(effects[at + 1] == Effect::Visible(false));
    app::lemma_in_either(window.effects, look.effects, Effect::Exit);
    app::lemma_in_either(window.effects + look.effects, bar_effects(input), Effect::Exit);
}

impl App {
    /// Answers the clicks on the buttons for the window.
    fn click_window_buttons(&mut self, input: TitlebarInput) -> (effects: Vec<Effect>)
        requires
            old(self).wf(),
        ensures
            final(self).wf(),
            final(self)@ == window_step(old(self)@, input).app,
            effects@ == window_step(old(self)@, input).effects,
    {
        let mut effects: Vec<Effect> = Vec::new();
        if input.close {
            let more = self.hide_to_tray();
            app::add_effects(&mut effects, more);
        }
        let ghost closed = effects@;
        if input.maximize {
            effects.push(Effect::Maximize(!input.maximized));
            proof {
                assert(effects@ =~= closed + seq![Effect::Maximize(!input.maximized)]);
            }
        }
        if input.minimize {
            let more = self.hide_to_tray();
            app::add_effects(&mut effects, more);
        }
        if input.pin {
            let pinned = !self.pinned;
            let more = self.set_pinned(pinned);
            app::add_effects(&mut effects, more);
        }
        effects
    }

    /// Answers the clicks on the buttons for the theme and the settings.
    fn click_look_buttons(&mut self, input: TitlebarInput) -> (effects: Vec<Effect>)
        requires
            old(self).wf(),
        ensures
            final(self).wf(),
            final(self)@ == look_step(old(self)@, input).app,
            effects@ == look_step(old(self)@, input).effects,
    {
        let mut effects: Vec<Effect> = Vec::new();
        if input.theme {
            effects = self.cycle_theme();
        }
        if input.settings {
            self.show_settings = true;
        }
        proof {
            assert(effects@ =~= look_step(old(self)@, input).effects);
        }
        effects
    }

    /// Answers what happened to the bar.
    pub fn draw_titlebar(&mut self, input: TitlebarInput, today: Date) -> (effects: Vec<Effect>)
        requires
            old(self).wf(),
            today.valid(),
            has_room(old(self)@, input),
        ensures
            final(self).wf(),
            final(self)@ == titlebar_step(old(self)@, input, today).app,
            effects@ == titlebar_step(old(self)@, input, today).effects,
    {
        let mut effects = self.click_window_buttons(input);
        let more = self.click_look_buttons(input);
        app::add_effects(&mut effects, more);
        let ghost clicked = effects@;
        if self.show_settings {
            if input.back {
                self.show_settings = false;
            }
        } else {
            if input.previous {
                self.shift_month(-1);
            }
            if input.next {
                self.shift_month(1);
            }
            if input.today {
                self.go_today(today);
            }
        }
        if input.dragged {
            effects.push(Effect::StartDrag);
        }
        if input.double_clicked {
            effects.push(Effect::Maximize(!input.maximized));
        }
        proof {
            assert(effects@ =~= clicked + bar_effects(input));
        }
        effects
    }
}

// ---------------------------------------------------------------------------
// What holds of the bar

/// Each button alone does what it is for: closing and minimizing hide the
/// window, maximizing fills the screen or gives it up, pinning turns the pin
/// round, the theme goes on to the next, and the settings are opened. Nothing
/// else changes.
pub proof fn each_button_does_its_work(app: AppView, today: Date, full: bool)
    requires
        app.valid(),
    ensures
        ({
            let none = TitlebarInput {
                close: false,
                maximize: false,
                minimize: false,
                pin: false,
                theme: false,
                settings: false,
                back: false,
                previous: false,
                next: false,
                today: false,
                dragged: false,
                double_clicked: false,
                maximized: full,
            };
            let hides = Step {
                app: AppView { hidden: true, ..app },
                effects: seq![Effect::CancelClose, Effect::Visible(false)],
            };
            &&& titlebar_step(app, none, today) =~= (Step { app, effects: Seq::empty() })
            &&& titlebar_step(app, TitlebarInput { close: true, ..none }, today) =~= hides
            &&& titlebar_step(app, TitlebarInput { minimize: true, ..none }, today) =~= hides
            &&& titlebar_step(app, TitlebarInput { maximize: true, ..none }, today) =~= (Step {
                app,
                effects: seq![Effect::Maximize(!full)],
            })
            &&& titlebar_step(app, TitlebarInput { double_clicked: true, ..none }, today) =~= (
            Step { app, effects: seq![Effect::Maximize(!full)] })
            &&& titlebar_step(app, TitlebarInput { dragged: true, ..none }, today) =~= (Step {
                app,
                effects: seq![Effect::StartDrag],
            })
            &&& titlebar_step(app, TitlebarInput { pin: true, ..none }, today) =~= (Step {
                app: AppView { pinned: !app.pinned, ..app },
                effects: seq![Effect::OnTop(!app.pinned)],
            })
            &&& titlebar_step(app, TitlebarInput { theme: true, ..none }, today) =~= (Step {
                app: AppView { theme_index: ((app.theme_index + 1) % 3) as usize, ..app },
                effects: seq![Effect::ApplyTheme, Effect::SaveConfig],
            })
            &&& titlebar_step(app, TitlebarInput { settings: true, ..none }, today) =~= (Step {
                app: AppView { show_settings: true, ..app },
                effects: Seq::empty(),
            })
        }),
{
}

/// The buttons at the left end: back leaves the settings; outside of them the
/// month before or behind is shown, or today is selected with its month.
pub proof fn the_bar_leads_through_the_months(app: AppView, input: TitlebarInput, today: Date)
    requires
        1 <= app.view_month <= 12,
        i32::MIN < app.view_year < i32::MAX,
    ensures
        app.show_settings ==> browsed(app, input, today) == (AppView {
            show_settings: !input.back,
            ..app
        }),
        !app.show_settings && !input.previous && !input.next && !input.today ==> browsed(
            app,
            input,
            today,
        ) == app,
        !app.show_settings && input.today ==> browsed(app, input, today) == (AppView {
            selected: today,
            view_year: today.year,
            view_month: today.month,
            ..app
        }),
        !app.show_settings && !input.today ==> ({
            let after = browsed(app, input, today);
            &&& after == (AppView {
                view_year: after.view_year,
                view_month: after.view_month,
                ..app
            })
            &&& input.next && !input.previous ==> after.view_year * 12 + after.view_month
                == app.view_year * 12 + app.view_month + 1
            &&& input.previous && !input.next ==> after.view_year * 12 + after.view_month
                == app.view_year * 12 + app.view_month - 1
            &&& 1 <= after.view_month <= 12
        }),
{
    navigation::a_step_shows_the_month_beside(app);
}

/// The title names the month on show, or the settings while they are open.
pub proof fn the_title_names_what_is_on_show(app: AppView)
    ensures
        app.show_settings ==> title_of(app) == "设置"@,
        !app.show_settings ==> title_of(app) == calendar::month_text(
            app.view_year as int,
            app.view_month as nat,
        ),
{
}

/// Every button says what a click on it will do.
pub proof fn tips_say_what_a_click_does(pinned: bool, maximized: bool, theme: int)
    ensures
        tip_of(BarButton::Close, pinned, maximized, theme) == "关闭到托盘"@,
        tip_of(BarButton::Minimize, pinned, maximized, theme) == "最小化到托盘"@,
        tip_of(BarButton::Settings, pinned, maximized, theme) == "打开设置"@,
        tip_of(BarButton::Maximize, pinned, true, theme) == "还原窗口"@,
        tip_of(BarButton::Maximize, pinned, false, theme) == "最大化"@,
        tip_of(BarButton::Pin, true, maximized, theme) == "取消置顶（快捷键 Ctrl+Alt+T）"@,
        tip_of(BarButton::Pin, false, maximized, theme) == "窗口置顶（快捷键 Ctrl+Alt+T）"@,
        tip_of(BarButton::Theme, pinned, maximized, theme) == "主题："@ + theme::name_of(theme)
            + "（点击切换）"@,
{
}

/// Only under the pointer a button has a ground, a red one where it closes; the
/// sign of the pin is bright while the window is pinned.
pub proof fn buttons_show_pointer_and_pin(button: BarButton, hovered: bool, pinned: bool)
    ensures
        bar_button_of(button, hovered, pinned).fill is Some <==> hovered,
        hovered ==> (bar_button_of(button, hovered, pinned).fill == Some(Role::DangerFill) <==> button
            == BarButton::Close),
        hovered && button != BarButton::Close ==> bar_button_of(button, hovered, pinned).fill
            == Some(Role::HoverFill),
        bar_button_of(BarButton::Close, hovered, pinned).sign == Role::Danger,
        bar_button_of(BarButton::Pin, hovered, true).sign == Role::Accent,
        bar_button_of(BarButton::Pin, true, false).sign == Role::TextPrimary,
        bar_button_of(BarButton::Pin, false, false).sign == Role::TextSecondary,
        bar_button_of(BarButton::Theme, true, pinned).sign == Role::Accent,
        bar_button_of(BarButton::Theme, false, pinned).sign == Role::TextMuted,
        button == BarButton::Maximize || button == BarButton::Minimize || button
            == BarButton::Settings ==> bar_button_of(button, true, pinned).sign
            == Role::TextPrimary && bar_button_of(button, false, pinned).sign
            == Role::TextSecondary,
{
}

/// Without a click on the buttons at the right end, only those at the left end
/// and the empty part of the bar count.
pub proof fn the_left_end_works_alone(app: AppView, input: TitlebarInput, today: Date)
    requires
        !input.close && !input.maximize && !input.minimize,
        !input.pin && !input.theme && !input.settings,
    ensures
        titlebar_step(app, input, today).app == browsed(app, input, today),
        titlebar_step(app, input, today).effects.contains(Effect::StartDrag) <==> input.dragged,
        titlebar_step(app, input, today).effects.contains(Effect::Maximize(!input.maximized))
            <==> input.double_clicked,
        titlebar_step(app, input, today).effects.len() == (if input.dragged {
            1int
        } else {
            0
        }) + (if input.double_clicked {
            1int
        } else {
            0
        }),
{
    let effects = titlebar_step(app, input, today).effects;
    assert(effects =~= bar_effects(input));
    if input.dragged {
        assert(effects[0] == Effect::StartDrag);
    }
    if input.double_clicked {
        assert(effects[effects.len() - 1] == Effect::Maximize(!input.maximized));
    }
}

} // verus!
