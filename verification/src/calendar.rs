//! The month on show: its grid of days and what each day shows.

use vstd::prelude::*;

use crate::date;
use crate::date::Date;
use crate::models;
use crate::models::{TodoItem, TodoView};
use crate::text;
use crate::theme::{Paint, Role};

verus! {

/// How many days the grid shows: six weeks.
pub const GRID_CELLS: usize = 42;

/// How many open items a day shows.
pub const SUMMARY_LINES: usize = 3;

/// How many characters of an item a day shows.
pub const SUMMARY_CHARS: usize = 10;

// ---------------------------------------------------------------------------
// Texts

/// The sign of a day of the week, counted from Monday.
pub open spec fn weekday_sign(weekday: int) -> Seq<char> {
    if weekday == 0 {
        "一"@
    } else if weekday == 1 {
        "二"@
    } else if weekday == 2 {
        "三"@
    } else if weekday == 3 {
        "四"@
    } else if weekday == 4 {
        "五"@
    } else if weekday == 5 {
        "六"@
    } else {
        "日"@
    }
}

/// The sign of a day of the week, counted from Monday.
pub fn weekday_label(weekday: u32) -> (label: &'static str)
    requires
        weekday < 7,
    ensures
        label@ == weekday_sign(weekday as int),
{
    match weekday {
        0 => "一",
        1 => "二",
        2 => "三",
        3 => "四",
        4 => "五",
        5 => "六",
        _ => "日",
    }
}

/// The colour of a column's heading.
pub open spec fn heading_of(weekday: int) -> Role {
    if weekday >= 5 {
        Role::Weekend
    } else {
        Role::TextMuted
    }
}

/// The colour of a column's heading: weekends stand out.
pub fn heading_role(weekday: u32) -> (role: Role)
    ensures
        role == if weekday >= 5 {
            Role::Weekend
        } else {
            Role::TextMuted
        },
        role == heading_of(weekday as int),
{
    if weekday >= 5 {
        Role::Weekend
    } else {
        Role::TextMuted
    }
}

/// A month by its year and number.
pub open spec fn month_text(year: int, month: nat) -> Seq<char> {
    text::signed_padded(year, 0) + seq!['年'] + text::decimal(month) + seq!['月']
}

/// A month by its year and number.
pub fn month_title(year: i32, month: u32) -> (title: String)
    ensures
        title@ == month_text(year as int, month as nat),
{
    let mut title = String::new();
    text::push_signed_padded(&mut title, year as i64, 0);
    title.push('年');
    text::push_decimal(&mut title, month as u64);
    title.push('月');
    proof {
        assert(title@ =~= month_text(year as int, month as nat));
    }
    title
}

/// A day by its month, its day and its day of the week.
pub open spec fn day_text(date: Date) -> Seq<char> {
    text::decimal(date.month as nat) + seq!['月'] + text::decimal(date.day as nat) + seq!['日', ' ', '周']
        + weekday_sign(date.weekday())
}

/// A day by its month, its day and its day of the week.
pub fn day_title(date: Date) -> (title: String)
    requires
        date.valid(),
    ensures
        title@ == day_text(date),
{
    let mut title = String::new();
    text::push_decimal(&mut title, date.month as u64);
    title.push('月');
    text::push_decimal(&mut title, date.day as u64);
    title.push('日');
    title.push(' ');
    title.push('周');
    text::push_text(&mut title, weekday_label(date.weekday_from_monday()));
    proof {
        assert(title@ =~= day_text(date));
    }
    title
}

// ---------------------------------------------------------------------------
// Months

/// The month reached from a month by `delta` steps: leaving a year at either
/// end leads to the nearest month of the year beside it.
pub open spec fn shifted(year: int, month: int, delta: int) -> (int, int) {
    if month + delta < 1 {
        (year - 1, 12)
    } else if month + delta > 12 {
        (year + 1, 1)
    } else {
        (year, month + delta)
    }
}

/// The month reached from a month by `delta` steps.
pub fn shift_month(year: i32, month: u32, delta: i32) -> (result: (i32, u32))
    requires
        1 <= month <= 12,
        i32::MIN <= month + delta <= i32::MAX,
        i32::MIN <= shifted(year as int, month as int, delta as int).0 <= i32::MAX,
    ensures
        (result.0 as int, result.1 as int) == shifted(year as int, month as int, delta as int),
        1 <= result.1 <= 12,
{
    let moved: i32 = month as i32 + delta;
    if moved < 1 {
        (year - 1, 12)
    } else if moved > 12 {
        (year + 1, 1)
    } else {
        (year, moved as u32)
    }
}

/// A step to the next month and one back lead to where they started, either way round.
pub proof fn month_steps_undo_each_other(year: int, month: int)
    requires
        1 <= month <= 12,
    ensures
        ({
            let next = shifted(year, month, 1);
            let previous = shifted(year, month, -1);
            &&& shifted(next.0, next.1, -1) == (year, month)
            &&& shifted(previous.0, previous.1, 1) == (year, month)
        }),
{
}

/// Months counted through the years: a step leads to the month right behind or before.
pub proof fn month_steps_follow_the_calendar(year: int, month: int)
    requires
        1 <= month <= 12,
    ensures
        ({
            let next = shifted(year, month, 1);
            let previous = shifted(year, month, -1);
            &&& next.0 * 12 + next.1 == year * 12 + month + 1
            &&& previous.0 * 12 + previous.1 == year * 12 + month - 1
            &&& 1 <= next.1 <= 12
            &&& 1 <= previous.1 <= 12
        }),
{
}

// ---------------------------------------------------------------------------
// The grid

/// The first day of a month.
pub open spec fn first_of(year: i32, month: u32) -> Date {
    Date { year, month, day: 1 }
}

/// The number of the day in the first cell: the Monday of the week of the first.
pub open spec fn grid_start(year: i32, month: u32) -> int {
    first_of(year, month).number() - first_of(year, month).weekday()
}

/// Whether the month exists and all days of its grid can be held.
pub open spec fn showable(year: i32, month: u32) -> bool {
    &&& first_of(year, month).valid()
    &&& date::holdable(grid_start(year, month))
    &&& date::holdable(grid_start(year, month) + GRID_CELLS - 1)
}

/// Whether `days` are the days of a month's grid: consecutive days from the
/// Monday on or before the first of the month.
pub open spec fn is_grid(days: Seq<Date>, year: i32, month: u32) -> bool {
    &&& days.len() == GRID_CELLS
    &&& forall|i: int|
        0 <= i < GRID_CELLS ==> (#[trigger] days[i]).valid() && days[i].number() == grid_start(
            year,
            month,
        ) + i
}

/// The days of the grid of a month, `None` where the month does not exist or
/// one of its days cannot be held.
pub fn month_grid(year: i32, month: u32) -> (grid: Option<Vec<Date>>)
    ensures
        grid is Some <==> showable(year, month),
        grid matches Some(days) ==> is_grid(days@, year, month),
{
    let first = Date { year, month, day: 1 };
    if !first.is_valid() {
        return None;
    }
    let lead: i64 = first.weekday_from_monday() as i64;
    let mut days: Vec<Date> = Vec::new();
    let mut cell: i64 = 0;
    while cell < 42
        invariant
            0 <= cell <= 42,
            days@.len() == cell,
            first == first_of(year, month),
            first.valid(),
            lead == first.weekday(),
            0 <= lead < 7,
            cell > 0 ==> date::holdable(grid_start(year, month)),
            forall|i: int|
                0 <= i < cell ==> (#[trigger] days@[i]).valid() && days@[i].number() == grid_start(
                    year,
                    month,
                ) + i,
            cell > 0 ==> date::holdable(grid_start(year, month) + cell - 1),
        decreases 42 - cell,
    {
        match first.days_earlier(lead - cell) {
            Some(day) => days.push(day),
            None => {
                proof {
                    assert(!date::holdable(grid_start(year, month) + cell));
                    if cell > 0 {
                        assert(date::holdable(grid_start(year, month)));
                    }
                }
                return None;
            },
        }
        cell += 1;
    }
    Some(days)
}

/// A month has only one grid.
pub proof fn grid_is_unique(a: Seq<Date>, b: Seq<Date>, year: i32, month: u32)
    requires
        is_grid(a, year, month),
        is_grid(b, year, month),
    ensures
        a == b,
{
    assert forall|i: int| 0 <= i < GRID_CELLS implies a[i] == b[i] by {
        date::day_number_is_unique(a[i], b[i]);
    }
    assert(a =~= b);
}

/// Every column of the grid holds one day of the week, the first one the Mondays.
pub proof fn columns_are_weekdays(days: Seq<Date>, year: i32, month: u32, i: int)
    requires
        is_grid(days, year, month),
        0 <= i < GRID_CELLS,
    ensures
        days[i].weekday() == i % 7,
{
    let n = first_of(year, month).number();
    assert(days[i].number() == grid_start(year, month) + i);
    assert((n - 1 - (n - 1) % 7) % 7 == 0);
    assert(grid_start(year, month) - 1 == n - 1 - (n - 1) % 7);
    assert((grid_start(year, month) - 1 + i) % 7 == i % 7) by (nonlinear_arith)
        requires
            (grid_start(year, month) - 1) % 7 == 0,
    ;
}

/// Every day of the month has a cell: the first stands in the first week, and
/// the others follow it.
pub proof fn grid_shows_the_month(days: Seq<Date>, year: i32, month: u32, day: u32)
    requires
        is_grid(days, year, month),
        first_of(year, month).valid(),
        1 <= day <= date::days_in_month(year as int, month as int),
    ensures
        ({
            let cell = first_of(year, month).weekday() + day - 1;
            0 <= cell < GRID_CELLS && days[cell] == (Date { year, month, day })
        }),
{
    let cell = first_of(year, month).weekday() + day - 1;
    let wanted = Date { year, month, day };
    assert(wanted.number() == first_of(year, month).number() + day - 1);
    assert(days[cell].number() == grid_start(year, month) + cell);
    date::day_number_is_unique(days[cell], wanted);
}

/// No day has two cells.
pub proof fn grid_shows_no_day_twice(days: Seq<Date>, year: i32, month: u32, i: int, j: int)
    requires
        is_grid(days, year, month),
        0 <= i < j < GRID_CELLS,
    ensures
        days[i] != days[j],
{
    assert(days[i].number() != days[j].number());
}

/// A day of the grid with the number of the month on show lies in that very
/// month, not in the same month of another year.
pub proof fn same_month_is_the_month(days: Seq<Date>, year: i32, month: u32, i: int)
    requires
        is_grid(days, year, month),
        first_of(year, month).valid(),
        0 <= i < GRID_CELLS,
        days[i].month == month,
    ensures
        days[i].year == year,
{
    let first = first_of(year, month);
    assert(days[i].number() == grid_start(year, month) + i);
    if days[i].year < year {
        date::years_are_far_apart(days[i], first);
    } else if days[i].year > year {
        date::years_are_far_apart(first, days[i]);
    }
}

// ---------------------------------------------------------------------------
// Cells

/// An item as a day shows it: its first characters behind a dot.
pub open spec fn summary_line(item: TodoView) -> Seq<char> {
    seq!['•', ' '] + text::shortened(item.text, SUMMARY_CHARS as nat)
}

/// The first few of a list.
pub open spec fn first_few(items: Seq<TodoView>) -> Seq<TodoView> {
    if items.len() > SUMMARY_LINES {
        items.take(SUMMARY_LINES as int)
    } else {
        items
    }
}

/// The lines that a day shows: one for each of the first few open items.
pub open spec fn summary(items: Seq<TodoView>) -> Seq<Seq<char>> {
    first_few(models::open_items(items)).map_values(|item: TodoView| summary_line(item))
}

/// What a day shows of the open items that have no line: how many they are.
pub open spec fn badge(items: Seq<TodoView>) -> Option<Seq<char>> {
    let open = models::open_items(items).len();
    if open > SUMMARY_LINES {
        Some(seq!['+'] + text::decimal((open - SUMMARY_LINES) as nat))
    } else {
        None
    }
}

/// What a day shows of its list.
pub struct DaySummary {
    pub lines: Vec<String>,
    pub badge: Option<String>,
}

proof fn lemma_open_step(items: Seq<TodoView>, n: int)
    requires
        0 <= n < items.len(),
    ensures
        items[n].done ==> models::open_items(items.take(n + 1)) == models::open_items(items.take(n)),
        !items[n].done ==> models::open_items(items.take(n + 1)) == models::open_items(items.take(n)).push(items[n]),
{
    reveal(Seq::filter);
    assert(items.take(n + 1).drop_last() =~= items.take(n));
    assert(items.take(n + 1).last() == items[n]);
}

/// What a day shows of its list.
pub fn day_summary(items: &Vec<TodoItem>) -> (shown: DaySummary)
    ensures
        text::texts_view(shown.lines@) == summary(models::items_view(items@)),
        models::text_view(shown.badge) == badge(models::items_view(items@)),
{
    let ghost views = models::items_view(items@);
    let mut lines: Vec<String> = Vec::new();
    let mut open: usize = 0;
    let mut i: usize = 0;
    proof {
        reveal(Seq::filter);
        assert(views.take(0) =~= Seq::<TodoView>::empty());
        assert(models::open_items(views.take(0)) =~= Seq::<TodoView>::empty());
        assert(text::texts_view(lines@) =~= summary(views.take(0)));
    }
    while i < items.len()
        invariant
            i <= items@.len(),
            open <= i,
            views == models::items_view(items@),
            open == models::open_items(views.take(i as int)).len(),
            text::texts_view(lines@) == summary(views.take(i as int)),
        decreases items@.len() - i,
    {
        proof {
            lemma_open_step(views, i as int);
            assert(views[i as int] == items@[i as int]@);
        }
        let ghost before = lines@;
        let ghost old_open = models::open_items(views.take(i as int));
        if !items[i].done {
            if open < SUMMARY_LINES {
                let mut line = String::new();
                line.push('•');
                line.push(' ');
                text::push_text(
                    &mut line,
                    text::truncate_chars(items[i].text.as_str(), SUMMARY_CHARS).as_str(),
                );
                proof {
                    assert(line@ =~= summary_line(views[i as int]));
                }
                lines.push(line);
                proof {
                    assert(first_few(old_open) =~= old_open);
                    assert(first_few(models::open_items(views.take(i + 1))) =~= old_open.push(
                        views[i as int],
                    ));
                    assert(text::texts_view(lines@) =~= text::texts_view(before).push(line@));
                    assert(summary(views.take(i + 1)) =~= summary(views.take(i as int)).push(
                        summary_line(views[i as int]),
                    ));
                }
            } else {
                proof {
                    assert(first_few(models::open_items(views.take(i + 1))) =~= first_few(old_open));
                }
            }
            open += 1;
        }
        i += 1;
    }
    proof {
        assert(views.take(i as int) =~= views);
    }
    let count = if open > SUMMARY_LINES {
        let mut label = String::new();
        label.push('+');
        text::push_decimal(&mut label, (open - SUMMARY_LINES) as u64);
        proof {
            assert(label@ =~= seq!['+'] + text::decimal((open - SUMMARY_LINES) as nat));
        }
        Some(label)
    } else {
        None
    };
    DaySummary { lines, badge: count }
}

/// What a day shows besides its list.
#[derive(Clone, Copy, PartialEq, Eq, Structural, Debug)]
pub struct CellLook {
    pub fill: Role,
    /// The outline that marks today, unless it is selected.
    pub outlined: bool,
    pub number: Paint,
    pub lines: Paint,
    /// Whether the ground is lighter: under the pointer, unless selected.
    pub raised: bool,
}

/// How the cell of a day looks.
pub open spec fn cell_of(date: Date, month: u32, today: Date, selected: Date, hovered: bool) -> CellLook {
    CellLook {
        fill: if date == selected {
            Role::CellSelected
        } else if date == today {
            Role::CellToday
        } else if date.month == month {
            Role::CellInMonth
        } else {
            Role::CellOutMonth
        },
        outlined: date == today && date != selected,
        number: if date == selected {
            Paint::White
        } else if date == today {
            Paint::Theme(Role::Accent)
        } else if date.month == month {
            Paint::Theme(Role::TextPrimary)
        } else {
            Paint::Theme(Role::TextDim)
        },
        lines: if date == selected {
            Paint::White
        } else {
            Paint::Theme(Role::TextSecondary)
        },
        raised: hovered && date != selected,
    }
}

/// How the cell of a day looks.
pub fn cell_look(date: Date, month: u32, today: Date, selected: Date, hovered: bool) -> (look:
    CellLook)
    ensures
        look == cell_of(date, month, today, selected, hovered),
{
    let is_selected = date == selected;
    let is_today = date == today;
    let in_month = date.month == month;
    let fill = if is_selected {
        Role::CellSelected
    } else if is_today {
        Role::CellToday
    } else if in_month {
        Role::CellInMonth
    } else {
        Role::CellOutMonth
    };
    let number = if is_selected {
        Paint::White
    } else if is_today {
        Paint::Theme(Role::Accent)
    } else if in_month {
        Paint::Theme(Role::TextPrimary)
    } else {
        Paint::Theme(Role::TextDim)
    };
    let lines = if is_selected {
        Paint::White
    } else {
        Paint::Theme(Role::TextSecondary)
    };
    CellLook {
        fill,
        outlined: is_today && !is_selected,
        number,
        lines,
        raised: hovered && !is_selected,
    }
}

// ---------------------------------------------------------------------------
// What holds of the month on show

/// A day shows a line for each of its first three open items: the whole text
/// behind a dot where it has at most ten characters, else its first ten and an
/// ellipsis. Of the items beyond the third it shows how many there are.
pub proof fn days_show_their_open_items(items: Seq<TodoView>, i: int)
    ensures
        ({
            let open = models::open_items(items);
            &&& open.len() <= 3 ==> summary(items).len() == open.len()
            &&& open.len() > 3 ==> summary(items).len() == 3
            &&& 0 <= i < summary(items).len() && open[i].text.len() <= 10 ==> summary(items)[i]
                == seq!['•', ' '] + open[i].text
            &&& 0 <= i < summary(items).len() && open[i].text.len() > 10 ==> summary(items)[i]
                == seq!['•', ' '] + open[i].text.take(10) + seq!['…']
            &&& open.len() <= 3 ==> badge(items) is None
            &&& open.len() > 3 ==> badge(items) == Some(
                seq!['+'] + text::decimal((open.len() - 3) as nat),
            )
        }),
{
    let open = models::open_items(items);
    if 0 <= i < summary(items).len() && open[i].text.len() > 10 {
        assert(summary(items)[i] =~= seq!['•', ' '] + open[i].text.take(10) + seq!['…']);
    }
}

/// What a day shows depends on the texts of its items and on what is done, and
/// on nothing else, so not on the times of their reminders.
pub proof fn days_show_texts_alone(a: Seq<TodoView>, b: Seq<TodoView>)
    requires
        a.len() == b.len(),
        forall|i: int|
            0 <= i < a.len() ==> (#[trigger] a[i]).text == (#[trigger] b[i]).text && a[i].done
                == b[i].done,
    ensures
        summary(a) == summary(b),
        badge(a) == badge(b),
{
    lemma_open_texts(a, b);
    let x = models::open_items(a);
    let y = models::open_items(b);
    assert forall|i: int| 0 <= i < summary(a).len() implies summary(a)[i] == summary(b)[i] by {
        assert(x[i].text == y[i].text);
    }
    assert(summary(a) =~= summary(b));
}

proof fn lemma_open_texts(a: Seq<TodoView>, b: Seq<TodoView>)
    requires
        a.len() == b.len(),
        forall|i: int|
            0 <= i < a.len() ==> (#[trigger] a[i]).text == (#[trigger] b[i]).text && a[i].done
                == b[i].done,
    ensures
        models::open_items(a).len() == models::open_items(b).len(),
        forall|i: int|
            0 <= i < models::open_items(a).len() ==> (#[trigger] models::open_items(a)[i]).text
                == models::open_items(b)[i].text,
    decreases a.len(),
{
    if a.len() == 0 {
        assert(a =~= b);
    } else {
        let c = a.drop_last();
        let d = b.drop_last();
        assert forall|i: int| 0 <= i < c.len() implies (#[trigger] c[i]).text == (
        #[trigger] d[i]).text && c[i].done == d[i].done by {
            assert(c[i] == a[i] && d[i] == b[i]);
        }
        lemma_open_texts(c, d);
        models::open_items_are_those_not_done(c, a.last());
        models::open_items_are_those_not_done(d, b.last());
        assert(c.push(a.last()) =~= a);
        assert(d.push(b.last()) =~= b);
        assert(a[a.len() - 1].text == b[a.len() - 1].text);
        assert(a.last().done == b.last().done);
    }
}

/// The days of the week have their signs in the order from Monday to Sunday.
pub proof fn weekdays_have_their_signs(weekday: int)
    requires
        0 <= weekday < 7,
    ensures
        weekday_sign(weekday) == seq!["一二三四五六日"@[weekday]],
{
    reveal_strlit("一二三四五六日");
    reveal_strlit("一");
    reveal_strlit("二");
    reveal_strlit("三");
    reveal_strlit("四");
    reveal_strlit("五");
    reveal_strlit("六");
    reveal_strlit("日");
    assert(weekday_sign(weekday) =~= seq!["一二三四五六日"@[weekday]]);
}

/// The title of a month holds its year and its number, that of a day its month,
/// its day and its day of the week, each number without zeros before it.
pub proof fn titles_name_year_month_and_day(date: Date)
    requires
        date.year >= 0,
        date.valid(),
    ensures
        month_text(date.year as int, date.month as nat) == text::decimal(date.year as nat).push(
            '年',
        ) + text::decimal(date.month as nat).push('月'),
        day_text(date) == text::decimal(date.month as nat).push('月') + text::decimal(
            date.day as nat,
        ).push('日') + seq![' ', '周', "一二三四五六日"@[date.weekday()]],
{
    weekdays_have_their_signs(date.weekday());
    text::filling_up_adds_zeros(date.year as nat, 0);
    text::digits_are_decimal(date.year as nat);
    assert(month_text(date.year as int, date.month as nat) =~= text::decimal(
        date.year as nat,
    ).push('年') + text::decimal(date.month as nat).push('月'));
    assert(day_text(date) =~= text::decimal(date.month as nat).push('月') + text::decimal(
        date.day as nat,
    ).push('日') + seq![' ', '周', "一二三四五六日"@[date.weekday()]]);
}

/// The grid has six weeks of days that follow each other, and the first of the
/// month stands in the first week, under its day of the week.
pub proof fn grids_have_six_weeks(days: Seq<Date>, year: i32, month: u32, i: int)
    requires
        is_grid(days, year, month),
        first_of(year, month).valid(),
    ensures
        days.len() == 42,
        0 <= i < 41 ==> days[i + 1].number() == days[i].number() + 1,
        exists|k: int|
            0 <= k < 7 && #[trigger] days[k] == (Date { year, month, day: 1 }) && k
                == days[k].weekday(),
{
    if 0 <= i < 41 {
        assert(days[i].number() == grid_start(year, month) + i);
        assert(days[i + 1].number() == grid_start(year, month) + i + 1);
    }
    let k = first_of(year, month).weekday();
    grid_shows_the_month(days, year, month, 1);
    assert(days[k] == first_of(year, month));
}

/// Every month but those of the first and the last year that can be held can be shown.
pub proof fn months_can_be_shown(year: i32, month: u32)
    requires
        date::MIN_YEAR < year < date::MAX_YEAR,
        1 <= month <= 12,
    ensures
        showable(year, month),
{
    let first = first_of(year, month);
    let early = first_of(date::MIN_YEAR, month);
    let late = first_of(date::MAX_YEAR, month);
    date::years_are_far_apart(early, first);
    date::years_are_far_apart(first, late);
    if early != date::first_day() {
        date::day_numbers_follow_the_calendar(date::first_day(), early);
    }
    date::day_numbers_follow_the_calendar(late, date::last_day());
}

/// The selected day stands out before today, and today before the other days;
/// days of the month on show look different from the others. Only today is
/// outlined, and only the day under the pointer is raised, neither while it is selected.
pub proof fn cells_tell_days_apart(
    date: Date,
    month: u32,
    today: Date,
    selected: Date,
    hovered: bool,
)
    ensures
        ({
            let look = cell_of(date, month, today, selected, hovered);
            &&& look.fill == Role::CellSelected <==> date == selected
            &&& look.fill == Role::CellToday <==> date == today && date != selected
            &&& look.fill == Role::CellInMonth <==> date != today && date != selected && date.month
                == month
            &&& look.fill == Role::CellOutMonth <==> date != today && date != selected && date.month
                != month
            &&& look.outlined <==> date == today && date != selected
            &&& look.raised <==> hovered && date != selected
            &&& look.number == Paint::White <==> date == selected
            &&& look.lines == Paint::White <==> date == selected
            &&& date != selected ==> look.lines == Paint::Theme(Role::TextSecondary)
            &&& look.number == Paint::Theme(Role::Accent) <==> date == today && date != selected
            &&& look.number == Paint::Theme(Role::TextPrimary) <==> look.fill == Role::CellInMonth
            &&& look.number == Paint::Theme(Role::TextDim) <==> look.fill == Role::CellOutMonth
        }),
{
}

/// The headings of Saturday and Sunday stand out, those of the other days do not.
pub proof fn weekends_stand_out(weekday: int)
    requires
        0 <= weekday < 7,
    ensures
        heading_of(weekday) == Role::Weekend <==> weekday == 5 || weekday == 6,
        heading_of(weekday) == Role::TextMuted <==> weekday < 5,
{
}

} // verus!
