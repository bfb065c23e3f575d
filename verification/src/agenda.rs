//! Adding to the list of the selected day, changing it and clearing it.

use vstd::prelude::*;

use crate::app::{App, AppView, Effect, Step};
use crate::app;
use crate::date;
use crate::date::Moment;
use crate::models;
use crate::models::{TodoItem, TodoView};
use crate::reminder;
use crate::text;
use crate::todo_list;
use crate::todo_list::{RowInput, Span};

verus! {

// ---------------------------------------------------------------------------
// Adding

/// The item that the input stands for.
pub open spec fn new_item(app: AppView) -> TodoView {
    TodoView {
        text: text::collapsed(app.input),
        done: false,
        remind_at: if app.remind_enabled {
            Some(
                reminder::hms_text(
                    app.remind_hour as int,
                    app.remind_minute as int,
                    app.remind_second as int,
                ),
            )
        } else {
            None
        },
    }
}

/// The input becomes the last item of the selected day, unless it is blank.
pub open spec fn add_step(app: AppView) -> Step {
    if text::collapsed(app.input).len() == 0 {
        app::quiet(app)
    } else {
        Step {
            app: AppView {
                todos: app.todos.insert(app.key(), app.list().push(new_item(app))),
                input: Seq::empty(),
                ..app
            },
            effects: seq![Effect::SaveTodos],
        }
    }
}

impl App {
    /// Makes the input the last item of the selected day.
    pub fn add_todo(&mut self) -> (effects: Vec<Effect>)
        requires
            old(self).wf(),
        ensures
            final(self).wf(),
            final(self)@ == add_step(old(self)@).app,
            effects@ == add_step(old(self)@).effects,
    {
        let mut effects: Vec<Effect> = Vec::new();
        let words = text::collapse(self.input.as_str());
        if words.as_str().unicode_len() == 0 {
            return effects;
        }
        let remind_at = if self.remind_enabled {
            Some(reminder::format_hms(self.remind_hour, self.remind_minute, self.remind_second))
        } else {
            None
        };
        let key = date::date_key(self.selected);
        let item = TodoItem { text: words, done: false, remind_at };
        proof {
            assert(item@ =~= new_item(old(self)@));
        }
        self.todos.add(key, item);
        self.input = String::new();
        effects.push(Effect::SaveTodos);
        effects
    }
}

/// What was added stands last in the list of the selected day and waits to be
/// done; the lists of all other days stay as they are.
pub proof fn adding_touches_one_day(app: AppView, other: Seq<char>)
    requires
        text::collapsed(app.input).len() > 0,
    ensures
        ({
            let after = add_step(app).app;
            &&& after.list() == app.list().push(new_item(app))
            &&& other != app.key() ==> models::list_at(after.todos, other) == models::list_at(
                app.todos,
                other,
            )
        }),
{
}

/// A reminder that is set to a time of the day is pending once its item was added.
pub proof fn added_reminders_are_pending(app: AppView)
    requires
        text::collapsed(app.input).len() > 0,
        app.remind_enabled,
        0 <= app.remind_hour < 24,
        0 <= app.remind_minute < 60,
        0 <= app.remind_second < 60,
    ensures
        reminder::is_pending(add_step(app).app.list().last()),
        reminder::reminder_of(add_step(app).app.list().last()).seconds == app.remind_hour * 3600
            + app.remind_minute * 60 + app.remind_second,
{
    reminder::written_time_reads_back(
        app.remind_hour as int,
        app.remind_minute as int,
        app.remind_second as int,
    );
}

/// An item that was added for today with a reminder goes off once its time has
/// come, unless one with the same text and time has gone off today.
pub proof fn added_reminders_go_off(app: AppView, now: Moment)
    requires
        text::collapsed(app.input).len() > 0,
        app.selected == now.date,
        app.remind_enabled,
        0 <= app.remind_hour < 24,
        0 <= app.remind_minute < 60,
        0 <= app.remind_second < 60,
        app.remind_hour * 3600 + app.remind_minute * 60 + app.remind_second <= now.seconds(),
        !app.triggered_reminders.contains(
            reminder::trigger_id(app.key(), reminder::reminder_of(new_item(app))),
        ),
    ensures
        ({
            let after = add_step(app).app;
            reminder::due_ids(
                reminder::going_off(after.todos, after.triggered_reminders, now),
            ).contains(reminder::trigger_id(app.key(), reminder::reminder_of(new_item(app))))
        }),
{
    added_reminders_are_pending(app);
    let after = add_step(app).app;
    let k = after.list().len() - 1;
    assert(after.list()[k] == new_item(app));
    reminder::no_open_item_is_missed(after.todos, after.triggered_reminders, now, k);
}

// ---------------------------------------------------------------------------
// Changing and clearing

/// The rows of the selected day were looked at; without items there are none.
pub open spec fn rows_step(
    app: AppView,
    rows: Seq<RowInput>,
    spans: Seq<Span>,
    pointer: Option<u32>,
) -> Step {
    if app.list().len() == 0 {
        app::quiet(app)
    } else {
        Step {
            app: AppView {
                todos: app.todos.insert(
                    app.key(),
                    todo_list::list_after(app.list(), app.drag, rows, spans, pointer),
                ),
                drag: todo_list::drag_let_go(
                    todo_list::drag_seen(app.drag, rows, spans, pointer),
                    todo_list::any_released(rows),
                ),
                ..app
            },
            effects: if todo_list::list_changed(app.list(), app.drag, rows, spans, pointer) {
                seq![Effect::SaveTodos]
            } else {
                Seq::empty()
            },
        }
    }
}

/// Whether an item of the list is done.
pub open spec fn any_done(items: Seq<TodoView>) -> bool {
    exists|i: int| 0 <= i < items.len() && (#[trigger] items[i]).done
}

/// The items of the selected day that are done are taken out.
pub open spec fn clear_step(app: AppView) -> Step {
    if any_done(app.list()) {
        Step {
            app: AppView {
                todos: app.todos.insert(app.key(), models::open_items(app.list())),
                ..app
            },
            effects: seq![Effect::SaveTodos],
        }
    } else {
        app::quiet(app)
    }
}

/// Where the mark stands that shows where a dragged row would go.
pub open spec fn mark_in(
    app: AppView,
    rows: Seq<RowInput>,
    spans: Seq<Span>,
    pointer: Option<u32>,
) -> Option<int> {
    if app.list().len() == 0 {
        None
    } else {
        todo_list::drop_mark(
            todo_list::dragged_index(rows),
            todo_list::drag_seen(app.drag, rows, spans, pointer).target,
            rows.len() as int,
        )
    }
}

/// What happens to the list of the selected day: first its rows, then the button
/// that clears it.
pub open spec fn list_step(
    app: AppView,
    rows: Seq<RowInput>,
    spans: Seq<Span>,
    pointer: Option<u32>,
    clear: bool,
) -> Step {
    let seen = rows_step(app, rows, spans, pointer);
    if clear {
        app::followed_by(seen, clear_step(seen.app))
    } else {
        seen
    }
}

/// What a look at the list of the selected day led to.
pub struct ListReply {
    pub effects: Vec<Effect>,
    /// Where the mark stands that shows where a dragged row would go.
    pub mark: Option<usize>,
}

impl App {
    /// Whether the selected day has items.
    pub fn has_items(&self) -> (yes: bool)
        requires
            self.wf(),
        ensures
            yes == (self@.list().len() > 0),
    {
        let key = date::date_key(self.selected);
        match self.todos.get(key.as_str()) {
            Some(items) => {
                proof {
                    assert(models::items_view(items@).len() == items@.len());
                }
                items.len() > 0
            },
            None => false,
        }
    }

    /// Looks at the rows of the selected day.
    fn look_at_rows(
        &mut self,
        rows: &Vec<RowInput>,
        spans: &Vec<Span>,
        pointer: Option<u32>,
    ) -> (reply: ListReply)
        requires
            old(self).wf(),
            rows@.len() == old(self)@.list().len(),
            spans@.len() == old(self)@.list().len(),
        ensures
            final(self).wf(),
            final(self)@ == rows_step(old(self)@, rows@, spans@, pointer).app,
            reply.effects@ == rows_step(old(self)@, rows@, spans@, pointer).effects,
            match reply.mark {
                Some(mark) => mark_in(old(self)@, rows@, spans@, pointer) == Some(mark as int),
                None => mark_in(old(self)@, rows@, spans@, pointer) is None,
            },
    {
        let ghost start = self@;
        let mut effects: Vec<Effect> = Vec::new();
        if !self.has_items() {
            return ListReply { effects, mark: None };
        }
        let key = date::date_key(self.selected);
        let mut drag = self.drag;
        let mut mark: Option<usize> = None;
        match self.todos.get_mut(key.as_str()) {
            Some(todos) => {
                proof {
                    assert(models::items_view(todos@).len() == todos@.len());
                }
                let outcome = todo_list::list_frame(todos, &mut drag, rows, spans, pointer);
                mark = outcome.mark;
                if outcome.changed {
                    effects.push(Effect::SaveTodos);
                }
            },
            None => {},
        }
        self.drag = drag;
        proof {
            assert(effects@ =~= rows_step(start, rows@, spans@, pointer).effects);
            assert(self@ =~= rows_step(start, rows@, spans@, pointer).app);
        }
        ListReply { effects, mark }
    }

    /// Takes the items of the selected day out that are done.
    pub fn clear_done(&mut self) -> (effects: Vec<Effect>)
        requires
            old(self).wf(),
        ensures
            final(self).wf(),
            final(self)@ == clear_step(old(self)@).app,
            effects@ == clear_step(old(self)@).effects,
    {
        let ghost start = self@;
        let key = date::date_key(self.selected);
        let mut effects: Vec<Effect> = Vec::new();
        match self.todos.get_mut(key.as_str()) {
            Some(todos) => {
                let ghost before = todos@;
                let ghost views = models::items_view(before);
                let cleared = todo_list::clear_done(todos);
                if cleared {
                    effects.push(Effect::SaveTodos);
                }
                proof {
                    assert(forall|i: int|
                        0 <= i < before.len() ==> (#[trigger] before[i]).done == views[i].done);
                    if cleared {
                        let k = choose|i: int| 0 <= i < before.len() && (#[trigger] before[i]).done;
                        assert(views[k].done);
                        assert(any_done(views));
                    } else {
                        if any_done(views) {
                            let k = choose|i: int| 0 <= i < views.len() && (#[trigger] views[i]).done;
                            assert(before[k].done);
                        }
                        lemma_open_items_of_open(views);
                    }
                }
            },
            None => {},
        }
        proof {
            if !any_done(start.list()) {
                assert(self@.todos =~= start.todos);
            }
            assert(self@ =~= clear_step(start).app);
            assert(effects@ =~= clear_step(start).effects);
        }
        effects
    }

    /// Looks at the list of the selected day: what was clicked, dragged and let
    /// go in its rows, and whether it is to be cleared. There is one row and one
    /// span for each of its items.
    pub fn draw_todo_list(
        &mut self,
        rows: &Vec<RowInput>,
        spans: &Vec<Span>,
        pointer: Option<u32>,
        clear: bool,
    ) -> (reply: ListReply)
        requires
            old(self).wf(),
            rows@.len() == old(self)@.list().len(),
            spans@.len() == old(self)@.list().len(),
        ensures
            final(self).wf(),
            final(self)@ == list_step(old(self)@, rows@, spans@, pointer, clear).app,
            reply.effects@ == list_step(old(self)@, rows@, spans@, pointer, clear).effects,
            match reply.mark {
                Some(mark) => mark_in(old(self)@, rows@, spans@, pointer) == Some(mark as int),
                None => mark_in(old(self)@, rows@, spans@, pointer) is None,
            },
    {
        let seen = self.look_at_rows(rows, spans, pointer);
        let mut effects = seen.effects;
        if clear {
            let more = self.clear_done();
            app::add_effects(&mut effects, more);
        }
        ListReply { effects, mark: seen.mark }
    }
}

/// Where nothing is done, all items are open.
proof fn lemma_open_items_of_open(items: Seq<TodoView>)
    requires
        !any_done(items),
    ensures
        models::open_items(items) == items,
    decreases items.len(),
{
    reveal(Seq::filter);
    if items.len() > 0 {
        let shorter = items.drop_last();
        if any_done(shorter) {
            let k = choose|i: int| 0 <= i < shorter.len() && (#[trigger] shorter[i]).done;
            assert(items[k].done);
        }
        lemma_open_items_of_open(shorter);
        assert(!items[items.len() - 1].done);
        assert(models::open_items(items) =~= items);
    } else {
        assert(models::open_items(items) =~= items);
    }
}

/// Whatever changes the items of a day is written: without a call to write them,
/// they are as they were.
pub proof fn changes_are_saved(
    app: AppView,
    rows: Seq<RowInput>,
    spans: Seq<Span>,
    pointer: Option<u32>,
    clear: bool,
)
    requires
        rows.len() == app.list().len(),
    ensures
        !add_step(app).effects.contains(Effect::SaveTodos) ==> add_step(app).app.todos == app.todos,
        !list_step(app, rows, spans, pointer, clear).effects.contains(Effect::SaveTodos)
            ==> list_step(app, rows, spans, pointer, clear).app.todos == app.todos,
{
    if text::collapsed(app.input).len() > 0 {
        assert(add_step(app).effects[0] == Effect::SaveTodos);
    }
    let seen = rows_step(app, rows, spans, pointer);
    let step = list_step(app, rows, spans, pointer, clear);
    if !step.effects.contains(Effect::SaveTodos) {
        if seen.effects.len() > 0 {
            assert(step.effects[0] == seen.effects[0]);
        }
        if app.list().len() > 0 {
            lemma_unchanged_rows(app, rows, spans, pointer);
            assert(seen.app.todos =~= app.todos);
        }
        if clear && any_done(seen.app.list()) {
            assert(step.effects[step.effects.len() - 1] == Effect::SaveTodos);
        }
    }
}

proof fn lemma_unchanged_rows(
    app: AppView,
    rows: Seq<RowInput>,
    spans: Seq<Span>,
    pointer: Option<u32>,
)
    requires
        rows.len() == app.list().len(),
        !todo_list::list_changed(app.list(), app.drag, rows, spans, pointer),
    ensures
        todo_list::list_after(app.list(), app.drag, rows, spans, pointer) == app.list(),
{
    todo_list::lemma_untouched_rows(app.list(), rows);
}

/// A look at the list of one day leaves all other days as they are.
pub proof fn lists_of_other_days_stay(
    app: AppView,
    rows: Seq<RowInput>,
    spans: Seq<Span>,
    pointer: Option<u32>,
    clear: bool,
    other: Seq<char>,
)
    requires
        other != app.key(),
    ensures
        models::list_at(list_step(app, rows, spans, pointer, clear).app.todos, other)
            == models::list_at(app.todos, other),
{
}

// ---------------------------------------------------------------------------
// What holds of the list of the selected day

/// What was typed becomes the last item of the selected day: all its words in
/// their order with single blanks between, not done, with the time that was set
/// where a reminder is wanted and with none where it is not. The input is then
/// empty, the items are written, and all else stays as it is.
pub proof fn what_was_typed_is_added(app: AppView, i: int)
    requires
        0 <= i < app.input.len(),
        !text::is_white(app.input[i]),
    ensures
        ({
            let step = add_step(app);
            let key = date::key_text(app.selected);
            let before = models::list_at(app.todos, key);
            let after = step.app.todos[key];
            let item = after.last();
            &&& step.app.todos.contains_key(key)
            &&& after.len() == before.len() + 1
            &&& after.drop_last() == before
            &&& text::words(item.text) == text::words(app.input)
            &&& item.text == text::join(text::words(app.input), seq![' '])
            &&& item.done == false
            &&& !app.remind_enabled ==> item.remind_at is None
            &&& app.remind_enabled && 0 <= app.remind_hour < 24 && 0 <= app.remind_minute < 60 && 0
                <= app.remind_second < 60 ==> item.remind_at == Some(
                seq![
                    (48 + app.remind_hour / 10) as char,
                    (48 + app.remind_hour % 10) as char,
                    ':',
                    (48 + app.remind_minute / 10) as char,
                    (48 + app.remind_minute % 10) as char,
                    ':',
                    (48 + app.remind_second / 10) as char,
                    (48 + app.remind_second % 10) as char,
                ],
            )
            &&& step.app.input.len() == 0
            &&& step.effects == seq![Effect::SaveTodos]
            &&& step.app == (AppView { todos: step.app.todos, input: step.app.input, ..app })
            &&& step.app.todos == app.todos.insert(key, after)
        }),
{
    text::collapsing_keeps_the_words(app.input);
    let step = add_step(app);
    let key = date::key_text(app.selected);
    assert(step.app.todos[key].drop_last() =~= models::list_at(app.todos, key));
    if 0 <= app.remind_hour < 24 && 0 <= app.remind_minute < 60 && 0 <= app.remind_second < 60 {
        reminder::times_are_written_in_full(
            app.remind_hour as int,
            app.remind_minute as int,
            app.remind_second as int,
        );
    }
}

/// From an input of white space alone nothing is added, and nothing else happens.
pub proof fn blank_input_adds_nothing(app: AppView)
    requires
        forall|i: int| 0 <= i < app.input.len() ==> text::is_white(#[trigger] app.input[i]),
    ensures
        add_step(app).app == app,
        add_step(app).effects.len() == 0,
{
    text::collapsing_keeps_the_words(app.input);
}

/// Clearing takes the items of the selected day out that are done and keeps the
/// others in their order; where none is done, nothing happens. All else stays.
pub proof fn clearing_keeps_what_is_open(app: AppView)
    ensures
        ({
            let step = clear_step(app);
            let key = date::key_text(app.selected);
            let before = models::list_at(app.todos, key);
            &&& (exists|i: int| 0 <= i < before.len() && (#[trigger] before[i]).done)
                ==> step.app.todos == app.todos.insert(key, models::open_items(before))
                && step.effects == seq![Effect::SaveTodos]
            &&& (forall|i: int| 0 <= i < before.len() ==> !(#[trigger] before[i]).done) ==> step.app
                == app && step.effects.len() == 0
            &&& step.app == (AppView { todos: step.app.todos, ..app })
        }),
{
}

/// A look at the rows changes the list of the selected day as the clicks and
/// the drag say, and nothing else but the drag; a change is written.
pub proof fn rows_change_the_selected_day(
    app: AppView,
    rows: Seq<RowInput>,
    spans: Seq<Span>,
    pointer: Option<u32>,
)
    requires
        rows.len() == models::list_at(app.todos, date::key_text(app.selected)).len(),
    ensures
        ({
            let step = list_step(app, rows, spans, pointer, false);
            let key = date::key_text(app.selected);
            let before = models::list_at(app.todos, key);
            let after = models::list_at(step.app.todos, key);
            &&& after == todo_list::list_after(before, app.drag, rows, spans, pointer)
            &&& after != before ==> step.effects == seq![Effect::SaveTodos]
            &&& step.app == (AppView { todos: step.app.todos, drag: step.app.drag, ..app })
            &&& before.len() > 0 ==> step.app.drag == todo_list::drag_let_go(
                todo_list::drag_seen(app.drag, rows, spans, pointer),
                todo_list::any_released(rows),
            )
            &&& before.len() == 0 ==> step.app == app
            &&& list_step(app, rows, spans, pointer, true).app == clear_step(step.app).app
            &&& list_step(app, rows, spans, pointer, true).effects == step.effects + clear_step(
                step.app,
            ).effects
        }),
{
    let before = app.list();
    if before.len() == 0 {
        todo_list::lemma_untouched_rows(before, rows);
        assert(before =~= Seq::<TodoView>::empty());
        assert(rows =~= Seq::<RowInput>::empty());
    } else {
        todo_list::clicks_count_as_changes(before, app.drag, rows, spans, pointer, 0);
    }
}

/// The mark for a dragged row stands where it would go, before the row that the
/// pointer is at or behind all rows; it is there only while a row is dragged to
/// another place.
pub proof fn the_mark_shows_where_a_row_goes(
    app: AppView,
    rows: Seq<RowInput>,
    spans: Seq<Span>,
    at: u32,
    from: int,
)
    requires
        rows.len() == models::list_at(app.todos, date::key_text(app.selected)).len(),
        spans.len() == rows.len(),
        0 <= from < rows.len() <= usize::MAX,
        rows[from].dragged,
        forall|k: int| from < k < rows.len() ==> !(#[trigger] rows[k]).dragged,
        forall|k: int| 0 <= k < rows.len() ==> !(#[trigger] rows[k]).released,
    ensures
        ({
            let place = todo_list::insert_at(spans, at);
            let mark = mark_in(app, rows, spans, Some(at));
            &&& place == from || place == from + 1 ==> mark is None
            &&& place != from && place != from + 1 ==> mark == Some(place as int)
        }),
{
    todo_list::drags_follow_the_pointer(app.drag, rows, spans, at, from);
}

} // verus!
