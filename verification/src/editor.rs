//! The editor for new items: its reminder, its input and when it is submitted.

use vstd::prelude::*;

use crate::agenda;
use crate::app::{App, AppView, Effect, Step};
use crate::app;
use crate::calendar;
use crate::date::Moment;

verus! {

/// What happened to the editor. What was typed is in the input already.
pub struct EditorInput {
    /// The time as the picker leaves it, where it is shown.
    pub picked: Option<(i32, i32, i32)>,
    /// The time at which the reminder was set to now.
    pub now: Option<Moment>,
    /// The check box for the reminder was clicked.
    pub remind_clicked: bool,
    /// The input has the keyboard.
    pub focused: bool,
    /// The input was given the keyboard just now.
    pub gained_focus: bool,
    pub enter: bool,
    pub shift: bool,
    pub escape: bool,
    /// The button that adds the input was clicked.
    pub add_clicked: bool,
    /// The button that folds the editor was clicked.
    pub fold_clicked: bool,
}

/// The time of the reminder as the picker leaves it, or now; without a reminder
/// there is no picker.
pub open spec fn remind_set(app: AppView, input: EditorInput) -> AppView {
    if !app.remind_enabled {
        app
    } else {
        let picked = match input.picked {
            Some((hour, minute, second)) => AppView {
                remind_hour: hour,
                remind_minute: minute,
                remind_second: second,
                ..app
            },
            None => app,
        };
        match input.now {
            Some(now) => AppView {
                remind_hour: now.hour as i32,
                remind_minute: now.minute as i32,
                remind_second: now.second as i32,
                ..picked
            },
            None => picked,
        }
    }
}

/// The check box for the reminder, where it was clicked.
pub open spec fn remind_toggled(app: AppView, input: EditorInput) -> AppView {
    if input.remind_clicked {
        AppView { remind_enabled: !app.remind_enabled, ..app }
    } else {
        app
    }
}

/// Whether an unfolded editor is submitted: by the button, or by Enter without Shift.
pub open spec fn is_submitted(input: EditorInput) -> bool {
    input.add_clicked || (input.focused && input.enter && !input.shift)
}

/// Whether an unfolded editor is folded: by the button, or by Escape.
pub open spec fn is_folded(input: EditorInput) -> bool {
    input.fold_clicked || (input.focused && input.escape)
}

/// What happens to an unfolded editor.
pub open spec fn unfolded_step(app: AppView, input: EditorInput) -> Step {
    let focused = Step {
        app: AppView { focus_expanded_input: false, ..app },
        effects: if app.focus_expanded_input {
            seq![Effect::FocusInput]
        } else {
            Seq::empty()
        },
    };
    if is_submitted(input) {
        let added = agenda::add_step(focused.app);
        app::followed_by(
            focused,
            Step { app: AppView { editor_expanded: false, ..added.app }, effects: added.effects },
        )
    } else if is_folded(input) {
        app::followed_by(focused, app::quiet(AppView { editor_expanded: false, ..focused.app }))
    } else {
        focused
    }
}

/// What happens to a folded editor: it unfolds when its input is given the keyboard.
pub open spec fn folded_step(app: AppView, input: EditorInput) -> Step {
    let unfolded = if input.gained_focus {
        AppView { editor_expanded: true, focus_expanded_input: true, ..app }
    } else {
        app
    };
    if input.add_clicked {
        agenda::add_step(unfolded)
    } else {
        app::quiet(unfolded)
    }
}

/// What happens to the editor.
pub open spec fn editor_step(app: AppView, input: EditorInput) -> Step {
    let reminded = remind_toggled(remind_set(app, input), input);
    if reminded.editor_expanded {
        unfolded_step(reminded, input)
    } else {
        folded_step(reminded, input)
    }
}

impl App {
    /// The title of the editor: the selected day.
    pub fn editor_title(&self) -> (title: String)
        requires
            self.wf(),
        ensures
            title@ == calendar::day_text(self@.selected),
    {
        calendar::day_title(self.selected)
    }

    /// Sets the time of the reminder.
    fn set_reminder(&mut self, input: &EditorInput)
        requires
            old(self).wf(),
            input.now matches Some(now) ==> now.valid(),
        ensures
            final(self).wf(),
            final(self)@ == remind_toggled(remind_set(old(self)@, *input), *input),
    {
        if self.remind_enabled {
            match input.picked {
                Some((hour, minute, second)) => {
                    self.remind_hour = hour;
                    self.remind_minute = minute;
                    self.remind_second = second;
                },
                None => {},
            }
            match input.now {
                Some(now) => {
                    self.remind_hour = now.hour as i32;
                    self.remind_minute = now.minute as i32;
                    self.remind_second = now.second as i32;
                },
                None => {},
            }
        }
        if input.remind_clicked {
            self.remind_enabled = !self.remind_enabled;
        }
    }

    /// Answers what happened to an unfolded editor.
    fn edit_unfolded(&mut self, input: &EditorInput) -> (effects: Vec<Effect>)
        requires
            old(self).wf(),
        ensures
            final(self).wf(),
            final(self)@ == unfolded_step(old(self)@, *input).app,
            effects@ == unfolded_step(old(self)@, *input).effects,
    {
        let mut effects: Vec<Effect> = Vec::new();
        if self.focus_expanded_input {
            effects.push(Effect::FocusInput);
            self.focus_expanded_input = false;
        }
        let submit = input.add_clicked || (input.focused && input.enter && !input.shift);
        let fold = input.fold_clicked || (input.focused && input.escape);
        if submit {
            let more = self.add_todo();
            app::add_effects(&mut effects, more);
            self.editor_expanded = false;
        } else if fold {
            self.editor_expanded = false;
        }
        proof {
            assert(effects@ =~= unfolded_step(old(self)@, *input).effects);
        }
        effects
    }

    /// Answers what happened to a folded editor.
    fn edit_folded(&mut self, input: &EditorInput) -> (effects: Vec<Effect>)
        requires
            old(self).wf(),
        ensures
            final(self).wf(),
            final(self)@ == folded_step(old(self)@, *input).app,
            effects@ == folded_step(old(self)@, *input).effects,
    {
        if input.gained_focus {
            self.editor_expanded = true;
            self.focus_expanded_input = true;
        }
        if input.add_clicked {
            self.add_todo()
        } else {
            Vec::new()
        }
    }

    /// Answers what happened to the editor.
    pub fn draw_editor(&mut self, input: &EditorInput) -> (effects: Vec<Effect>)
        requires
            old(self).wf(),
            input.now matches Some(now) ==> now.valid(),
        ensures
            final(self).wf(),
            final(self)@ == editor_step(old(self)@, *input).app,
            effects@ == editor_step(old(self)@, *input).effects,
    {
        self.set_reminder(input);
        if self.editor_expanded {
            self.edit_unfolded(input)
        } else {
            self.edit_folded(input)
        }
    }
}

/// Enter submits what was typed in an unfolded editor and folds it; with Shift
/// it does not.
pub proof fn enter_submits_unless_shift_is_held(app: AppView, input: EditorInput)
    requires
        app.editor_expanded,
        !app.focus_expanded_input,
        input.focused,
        input.enter,
        !input.escape,
        !input.add_clicked,
        !input.fold_clicked,
    ensures
        !input.shift ==> unfolded_step(app, input).effects == agenda::add_step(app).effects
            && !unfolded_step(app, input).app.editor_expanded,
        input.shift ==> unfolded_step(app, input) == app::quiet(app),
{
    assert(unfolded_step(app, input).effects =~= if input.shift {
        Seq::<Effect>::empty()
    } else {
        agenda::add_step(app).effects
    });
}

// ---------------------------------------------------------------------------
// What holds of the editor

/// The time of the reminder follows the picker, and the clock where it was set
/// to now; it can only be set while the reminder is on. The check box turns the
/// reminder on and off and keeps its time.
pub proof fn the_reminder_follows_the_picker(app: AppView, input: EditorInput)
    ensures
        ({
            let set = remind_set(app, input);
            let time = (set.remind_hour, set.remind_minute, set.remind_second);
            let before = (app.remind_hour, app.remind_minute, app.remind_second);
            &&& !app.remind_enabled ==> set == app
            &&& app.remind_enabled && input.now is None && input.picked is None ==> time == before
            &&& app.remind_enabled && input.now is None && input.picked is Some ==> time
                == input.picked->0
            &&& app.remind_enabled ==> (input.now matches Some(now) ==> time.0 == now.hour as i32
                && time.1 == now.minute as i32 && time.2 == now.second as i32)
            &&& set == (AppView {
                remind_hour: time.0,
                remind_minute: time.1,
                remind_second: time.2,
                ..app
            })
            &&& remind_toggled(app, input) == (AppView {
                remind_enabled: app.remind_enabled != input.remind_clicked,
                ..app
            })
        }),
{
}

/// An editor that is submitted adds what was typed and folds. One that is
/// folded otherwise adds nothing and keeps what was typed. One that is given
/// the keyboard unfolds. Without any of this it stays as it is.
pub proof fn the_editor_adds_what_was_typed(app: AppView, input: EditorInput)
    requires
        !input.remind_clicked,
        input.picked is None,
        input.now is None,
    ensures
        ({
            let step = editor_step(app, input);
            let submitted = input.add_clicked || (app.editor_expanded && input.focused
                && input.enter && !input.shift);
            let folds = input.fold_clicked || (input.focused && input.escape);
            &&& submitted ==> step.app.todos == agenda::add_step(app).app.todos && step.app.input
                == agenda::add_step(app).app.input
            &&& !submitted ==> step.app.todos == app.todos && step.app.input == app.input
                && !step.effects.contains(Effect::SaveTodos)
            &&& app.editor_expanded && submitted ==> !step.app.editor_expanded
            &&& app.editor_expanded && !submitted ==> step.app.editor_expanded == !folds
            &&& !app.editor_expanded ==> step.app.editor_expanded == input.gained_focus
            &&& !app.editor_expanded && input.gained_focus ==> step.app.focus_expanded_input
            &&& app.editor_expanded ==> !step.app.focus_expanded_input
            &&& app.editor_expanded && app.focus_expanded_input ==> step.effects.contains(
                Effect::FocusInput,
            )
            &&& submitted && agenda::add_step(app).effects.len() > 0 ==> step.effects.contains(
                Effect::SaveTodos,
            )
            &&& step.app == (AppView {
                todos: step.app.todos,
                input: step.app.input,
                editor_expanded: step.app.editor_expanded,
                focus_expanded_input: step.app.focus_expanded_input,
                ..app
            })
        }),
{
    let step = editor_step(app, input);
    let added = agenda::add_step(app).effects;
    if added.len() > 0 {
        assert(added[0] == Effect::SaveTodos);
    }
    if app.editor_expanded && app.focus_expanded_input {
        assert(step.effects[0] == Effect::FocusInput);
    }
    let submitted = input.add_clicked || (app.editor_expanded && input.focused && input.enter
        && !input.shift);
    if submitted && added.len() > 0 {
        assert(step.effects.last() == Effect::SaveTodos);
        assert(step.effects.contains(step.effects.last()));
    }
    if !submitted {
        assert(forall|i: int|
            0 <= i < step.effects.len() ==> #[trigger] step.effects[i] == Effect::FocusInput);
    }
}

/// The reminder is set before what was typed is added, so the new item has it.
pub proof fn the_reminder_is_set_first(app: AppView, input: EditorInput)
    ensures
        ({
            let set = remind_toggled(remind_set(app, input), input);
            let calm = EditorInput { picked: None, now: None, remind_clicked: false, ..input };
            editor_step(app, input) == editor_step(set, calm)
        }),
{
    let set = remind_toggled(remind_set(app, input), input);
    let calm = EditorInput { picked: None, now: None, remind_clicked: false, ..input };
    assert(remind_toggled(remind_set(set, calm), calm) == set);
    assert(editor_step(app, input).effects =~= editor_step(set, calm).effects);
}

} // verus!
