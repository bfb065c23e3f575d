use chrono::Datelike;
use desk_todo::calendar::{
    cell_look, day_summary, day_title, heading_role, month_grid, month_title, shift_month, weekday_label,
};
use desk_todo::date::{date_key, Date, Moment, MAX_YEAR, MIN_YEAR};
use desk_todo::models::TodoItem;
use desk_todo::theme::{Paint, Role};

fn date(year: i32, month: u32, day: u32) -> Date {
    Date { year, month, day }
}

fn of(d: chrono::NaiveDate) -> Date {
    date(d.year(), d.month(), d.day())
}

#[test]
fn months_follow_each_other() {
    assert_eq!(shift_month(2024, 5, 1), (2024, 6));
    assert_eq!(shift_month(2024, 12, 1), (2025, 1));
    assert_eq!(shift_month(2024, 1, -1), (2023, 12));
    assert_eq!(shift_month(2024, 7, 100), (2025, 1));
    assert_eq!(shift_month(2024, 7, -100), (2023, 12));
    let (mut year, mut month) = (1999, 4);
    for _ in 0..30 {
        let next = shift_month(year, month, 1);
        assert_eq!(shift_month(next.0, next.1, -1), (year, month));
        year = next.0;
        month = next.1;
    }
    assert_eq!((year, month), (2001, 10));
}

#[test]
fn the_grid_shows_six_weeks() {
    for (year, month) in [(2024, 2), (2024, 9), (2023, 2), (2027, 2), (2024, 12), (1, 1), (-5, 3)] {
        let grid = month_grid(year, month).unwrap();
        assert_eq!(grid.len(), 42);
        let first = chrono::NaiveDate::from_ymd_opt(year, month, 1).unwrap();
        let lead = first.weekday().num_days_from_monday() as i64;
        for (i, day) in grid.iter().enumerate() {
            let expected = first - chrono::Duration::days(lead - i as i64);
            assert_eq!(*day, of(expected));
            assert_eq!(day.weekday_from_monday() as usize, i % 7);
        }
        assert_eq!(grid.iter().filter(|d| d.month == month && d.day == 1).count(), 1);
    }
}

#[test]
fn months_at_the_end_of_time_have_no_grid() {
    assert!(month_grid(2024, 0).is_none());
    assert!(month_grid(2024, 13).is_none());
    assert!(month_grid(MAX_YEAR, 12).is_none());
    assert!(month_grid(MIN_YEAR, 1).is_none() == (of_first_weekday() != 0));
    assert!(month_grid(MAX_YEAR, 10).is_some());
    assert!(month_grid(MAX_YEAR + 1, 1).is_none());
}

fn of_first_weekday() -> u32 {
    chrono::NaiveDate::MIN.weekday().num_days_from_monday()
}

#[test]
fn the_years_that_can_be_held_are_those_of_the_calendar_crate() {
    assert_eq!(of(chrono::NaiveDate::MIN), date(MIN_YEAR, 1, 1));
    assert_eq!(of(chrono::NaiveDate::MAX), date(MAX_YEAR, 12, 31));
    assert!(date(MIN_YEAR, 1, 1).is_valid());
    assert!(!date(MIN_YEAR - 1, 12, 31).is_valid());
    assert!(!date(2023, 2, 29).is_valid());
    assert!(date(2024, 2, 29).is_valid());
    assert!(!date(1900, 2, 29).is_valid());
    assert!(date(2000, 2, 29).is_valid());
    assert!(!date(2024, 4, 31).is_valid());
    assert_eq!(date(MIN_YEAR, 1, 1).days_earlier(1), None);
    assert_eq!(date(MAX_YEAR, 12, 31).days_earlier(-1), None);
    assert_eq!(date(2024, 3, 1).days_earlier(1), Some(date(2024, 2, 29)));
    assert_eq!(date(2023, 12, 31).days_earlier(-1), Some(date(2024, 1, 1)));
}

#[test]
fn days_are_titled() {
    assert_eq!(day_title(date(2024, 5, 1)), "5月1日 周三");
    assert_eq!(day_title(date(2024, 5, 12)), "5月12日 周日");
    assert_eq!(month_title(2024, 5), "2024年5月");
    assert_eq!(month_title(-12, 10), "-12年10月");
    let labels: Vec<&str> = (0..7).map(weekday_label).collect();
    assert_eq!(labels, ["一", "二", "三", "四", "五", "六", "日"]);
    assert_eq!(heading_role(4), Role::TextMuted);
    assert_eq!(heading_role(5), Role::Weekend);
}

#[test]
fn keys_are_written_as_format_writes_them() {
    for (y, m, d) in [(2024, 5, 1), (1, 12, 31), (-3, 1, 2), (12345, 6, 7), (-12345, 6, 7)] {
        assert_eq!(date_key(date(y, m, d)), format!("{:04}-{:02}-{:02}", y, m, d));
    }
}

#[test]
fn moments_are_stamped() {
    let moment = |year| Moment { date: date(year, 2, 3), hour: 4, minute: 5, second: 6, milli: 7 };
    assert_eq!(moment(2024).stamp(), "2024-02-03 04:05:06");
    assert_eq!(moment(2024).fine_stamp(), "2024-02-03 04:05:06.007");
    assert_eq!(moment(33).stamp(), "0033-02-03 04:05:06");
    assert_eq!(moment(-33).stamp(), "-0033-02-03 04:05:06");
    assert_eq!(moment(12345).stamp(), "+12345-02-03 04:05:06");
    assert_eq!(moment(2024).seconds_from_midnight(), 4 * 3600 + 5 * 60 + 6);
}

fn item(text: &str, done: bool) -> TodoItem {
    TodoItem { text: text.to_string(), done, remind_at: None }
}

#[test]
fn days_show_their_first_open_items() {
    let items = vec![
        item("一二三四五六七八九十十一", false),
        item("done", true),
        item("b", false),
        item("c", false),
    ];
    let shown = day_summary(&items);
    assert_eq!(shown.lines, ["• 一二三四五六七八九十…", "• b", "• c"]);
    assert_eq!(shown.badge, None);
    let many: Vec<TodoItem> = (0..15).map(|i| item(&i.to_string(), false)).collect();
    let shown = day_summary(&many);
    assert_eq!(shown.lines, ["• 0", "• 1", "• 2"]);
    assert_eq!(shown.badge.as_deref(), Some("+12"));
    assert!(day_summary(&Vec::new()).lines.is_empty());
}

#[test]
fn cells_show_what_they_stand_for() {
    let today = date(2024, 5, 1);
    let selected = date(2024, 5, 2);
    let look = |d, hovered| cell_look(d, 5, today, selected, hovered);
    let cell = look(selected, true);
    assert_eq!((cell.fill, cell.number), (Role::CellSelected, Paint::White));
    assert!(!cell.raised && !cell.outlined);
    let cell = look(today, true);
    assert_eq!((cell.fill, cell.number), (Role::CellToday, Paint::Theme(Role::Accent)));
    assert!(cell.raised && cell.outlined);
    assert_eq!(look(date(2024, 5, 3), false).fill, Role::CellInMonth);
    let cell = look(date(2024, 6, 3), false);
    assert_eq!((cell.fill, cell.number), (Role::CellOutMonth, Paint::Theme(Role::TextDim)));
    assert!(!cell_look(today, 5, today, today, false).outlined);
}

#[test]
fn days_are_known_by_their_keys() {
    let mut day = date(1999, 12, 1);
    let mut keys: Vec<String> = Vec::new();
    for _ in 0..800 {
        keys.push(date_key(day));
        let next = day.days_earlier(-1).unwrap();
        assert_eq!(next.days_earlier(1), Some(day));
        assert!((next.year, next.month, next.day) > (day.year, day.month, day.day));
        assert_eq!(next.weekday_from_monday(), (day.weekday_from_monday() + 1) % 7);
        day = next;
    }
    let count = keys.len();
    assert!(keys.windows(2).all(|pair| pair[0] < pair[1]));
    keys.dedup();
    assert_eq!(keys.len(), count);
    assert_eq!(date(2024, 1, 31).days_earlier(-366), Some(date(2025, 1, 31)));
}
