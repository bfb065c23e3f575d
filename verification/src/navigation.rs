//! Moving from month to month and from day to day.

use vstd::prelude::*;

use crate::app::{App, AppView};
use crate::calendar;
use crate::date;
use crate::date::Date;
use crate::models;
use crate::models::TodoItem;
use crate::text;

verus! {

/// Another month is shown, `delta` steps away.
pub open spec fn month_shifted(app: AppView, delta: int) -> AppView {
    let (year, month) = calendar::shifted(app.view_year as int, app.view_month as int, delta);
    AppView { view_year: year as i32, view_month: month as u32, ..app }
}

/// A day of the grid is selected; where it is not of the month on show, its own
/// month is shown.
pub open spec fn day_selected(app: AppView, date: Date) -> AppView {
    if date.month != app.view_month {
        AppView { view_year: date.year, view_month: date.month, selected: date, ..app }
    } else {
        AppView { selected: date, ..app }
    }
}

/// A day is selected and its month is shown.
pub open spec fn day_shown(app: AppView, date: Date) -> AppView {
    AppView { view_year: date.year, view_month: date.month, selected: date, ..app }
}

impl App {
    /// Shows another month, `delta` steps away.
    pub fn shift_month(&mut self, delta: i32)
        requires
            old(self).wf(),
            i32::MIN <= old(self).view_month + delta <= i32::MAX,
            i32::MIN <= calendar::shifted(
                old(self).view_year as int,
                old(self).view_month as int,
                delta as int,
            ).0 <= i32::MAX,
        ensures
            final(self).wf(),
            final(self)@ == month_shifted(old(self)@, delta as int),
    {
        let (year, month) = calendar::shift_month(self.view_year, self.view_month, delta);
        self.view_year = year;
        self.view_month = month;
    }

    /// Selects a day of the grid.
    pub fn select_date(&mut self, date: Date)
        requires
            old(self).wf(),
            date.valid(),
        ensures
            final(self).wf(),
            final(self)@ == day_selected(old(self)@, date),
    {
        if date.month != self.view_month {
            self.view_year = date.year;
            self.view_month = date.month;
        }
        self.selected = date;
    }

    /// Selects `today` and shows its month.
    pub fn go_today(&mut self, today: Date)
        requires
            old(self).wf(),
            today.valid(),
        ensures
            final(self).wf(),
            final(self)@ == day_shown(old(self)@, today),
    {
        self.view_year = today.year;
        self.view_month = today.month;
        self.selected = today;
    }
}

/// What the cell of a day holds.
pub struct CellContent {
    pub date: Date,
    pub number: String,
    pub lines: Vec<String>,
    pub badge: Option<String>,
}

/// Whether a cell holds what it has to: the number of the day and what the day
/// shows of its list.
pub open spec fn shows_day(cell: CellContent, app: AppView) -> bool {
    let items = models::list_at(app.todos, date::key_text(cell.date));
    &&& cell.number@ == text::decimal(cell.date.day as nat)
    &&& text::texts_view(cell.lines@) == calendar::summary(items)
    &&& models::text_view(cell.badge) == calendar::badge(items)
}

/// The days of cells.
pub open spec fn cell_days(cells: Seq<CellContent>) -> Seq<Date> {
    cells.map_values(|c: CellContent| c.date)
}

impl App {
    /// The cell of a day.
    pub fn cell(&self, date: Date) -> (cell: CellContent)
        requires
            self.wf(),
            date.valid(),
        ensures
            cell.date == date,
            shows_day(cell, self@),
    {
        let key = date::date_key(date);
        let number = text::number(date.day);
        match self.todos.get(key.as_str()) {
            Some(items) => {
                let shown = calendar::day_summary(items);
                CellContent { date, number, lines: shown.lines, badge: shown.badge }
            },
            None => {
                let none: Vec<TodoItem> = Vec::new();
                proof {
                    assert(models::items_view(none@) =~= Seq::<models::TodoView>::empty());
                }
                let shown = calendar::day_summary(&none);
                CellContent { date, number, lines: shown.lines, badge: shown.badge }
            },
        }
    }

    /// The cells of the month on show, `None` where it has a day that cannot be held.
    pub fn draw_calendar(&self) -> (cells: Option<Vec<CellContent>>)
        requires
            self.wf(),
        ensures
            cells is Some <==> calendar::showable(self@.view_year, self@.view_month),
            cells matches Some(list) ==> calendar::is_grid(
                cell_days(list@),
                self@.view_year,
                self@.view_month,
            ),
            cells matches Some(list) ==> forall|i: int|
                0 <= i < list@.len() ==> shows_day(#[trigger] list@[i], self@),
    {
        let days = match calendar::month_grid(self.view_year, self.view_month) {
            Some(days) => days,
            None => {
                return None;
            },
        };
        let mut cells: Vec<CellContent> = Vec::new();
        let mut i: usize = 0;
        while i < days.len()
            invariant
                self.wf(),
                i <= days@.len(),
                calendar::is_grid(days@, self@.view_year, self@.view_month),
                cells@.len() == i,
                forall|k: int|
                    0 <= k < i ==> (#[trigger] cells@[k]).date == days@[k] && shows_day(
                        cells@[k],
                        self@,
                    ),
            decreases days@.len() - i,
        {
            let cell = self.cell(days[i]);
            cells.push(cell);
            i += 1;
        }
        proof {
            assert(cell_days(cells@) =~= days@);
        }
        Some(cells)
    }
}

/// Whichever day of the grid is selected, the month on show is then its month.
pub proof fn the_selected_day_is_on_show(app: AppView, days: Seq<Date>, i: int)
    requires
        calendar::is_grid(days, app.view_year, app.view_month),
        calendar::first_of(app.view_year, app.view_month).valid(),
        0 <= i < calendar::GRID_CELLS,
    ensures
        day_selected(app, days[i]) == day_shown(app, days[i]),
{
    if days[i].month == app.view_month {
        calendar::same_month_is_the_month(days, app.view_year, app.view_month, i);
    }
}

/// A step to the month beside shows just that month; the selected day, the
/// items and all else stay as they are.
pub proof fn a_step_shows_the_month_beside(app: AppView)
    requires
        1 <= app.view_month <= 12,
        i32::MIN < app.view_year < i32::MAX,
    ensures
        ({
            let next = month_shifted(app, 1);
            let previous = month_shifted(app, -1);
            &&& next.view_year * 12 + next.view_month == app.view_year * 12 + app.view_month + 1
            &&& previous.view_year * 12 + previous.view_month == app.view_year * 12
                + app.view_month - 1
            &&& 1 <= next.view_month <= 12
            &&& 1 <= previous.view_month <= 12
            &&& next == (AppView {
                view_year: next.view_year,
                view_month: next.view_month,
                ..app
            })
            &&& previous == (AppView {
                view_year: previous.view_year,
                view_month: previous.view_month,
                ..app
            })
        }),
{
}

/// The day that is clicked is the selected one, and a day of another month
/// brings its month on show; going to a day always shows its month.
pub proof fn the_clicked_day_is_selected(app: AppView, date: Date)
    ensures
        day_selected(app, date).selected == date,
        date.month != app.view_month ==> day_selected(app, date).view_month == date.month
            && day_selected(app, date).view_year == date.year,
        date.month == app.view_month ==> day_selected(app, date) == (AppView {
            selected: date,
            ..app
        }),
        day_shown(app, date) == (AppView {
            selected: date,
            view_year: date.year,
            view_month: date.month,
            ..app
        }),
        day_selected(app, date).todos == app.todos,
{
}

/// A cell shows the number of its day and what is kept for that day.
pub proof fn cells_show_their_own_day(cell: CellContent, app: AppView)
    requires
        shows_day(cell, app),
    ensures
        cell.number@ == text::decimal(cell.date.day as nat),
        app.todos.contains_key(date::key_text(cell.date)) ==> text::texts_view(cell.lines@)
            == calendar::summary(app.todos[date::key_text(cell.date)]) && models::text_view(
            cell.badge,
        ) == calendar::badge(app.todos[date::key_text(cell.date)]),
        !app.todos.contains_key(date::key_text(cell.date)) ==> cell.lines@.len() == 0
            && cell.badge is None,
{
    let none = Seq::<models::TodoView>::empty();
    models::open_items_are_those_not_done(none, arbitrary());
    calendar::days_show_their_open_items(none, 0);
    if !app.todos.contains_key(date::key_text(cell.date)) {
        assert(text::texts_view(cell.lines@).len() == 0);
    }
}

} // verus!
