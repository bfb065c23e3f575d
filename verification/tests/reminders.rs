use desk_todo::date::{date_key, Date, Moment};
use desk_todo::minute_reminder;
use desk_todo::models::{TodoItem, TodoStore};
use desk_todo::reminder::{
    check_reminders, due_reminders, format_hms, next_delay, parse_hms, pending_reminders, Triggered,
};

fn day() -> Date {
    Date { year: 2024, month: 5, day: 1 }
}

fn at(hour: u32, minute: u32, second: u32) -> Moment {
    Moment { date: day(), hour, minute, second, milli: 0 }
}

fn item(text: &str, done: bool, remind_at: Option<&str>) -> TodoItem {
    TodoItem { text: text.to_string(), done, remind_at: remind_at.map(str::to_string) }
}

fn store(items: Vec<TodoItem>) -> TodoStore {
    let mut store = TodoStore::new();
    store.set(date_key(day()), items);
    store
}

#[test]
fn parse_hms_accepts_hhmm_legacy_format() {
    assert_eq!(parse_hms("09:05"), Some(9 * 3600 + 5 * 60));
    assert_eq!(parse_hms("00:00"), Some(0));
}

#[test]
fn parse_hms_accepts_hhmmss_format() {
    assert_eq!(parse_hms("09:05:30"), Some(9 * 3600 + 5 * 60 + 30));
    assert_eq!(parse_hms("23:59:59"), Some(23 * 3600 + 59 * 60 + 59));
}

#[test]
fn parse_hms_rejects_invalid_values() {
    assert_eq!(parse_hms("24:00:00"), None);
    assert_eq!(parse_hms("12:60:00"), None);
    assert_eq!(parse_hms("12:00:60"), None);
    assert_eq!(parse_hms("12:00:00:00"), None);
    assert_eq!(parse_hms("abc"), None);
    assert_eq!(parse_hms(""), None);
}

#[test]
fn numbers_are_read_as_the_standard_library_reads_them() {
    for text in [
        "7:3", "+7:03", "07:+3", "-1:00", " 7:00", "7 :00", "7:00 ", "7", ":", "7:", ":7", "4294967296:0",
        "00000007:00", "++7:00", "+:00", "７:00",
    ] {
        let mut parts = text.split(':');
        let hour = parts.next().and_then(|p| p.parse::<u32>().ok());
        let minute = parts.next().and_then(|p| p.parse::<u32>().ok());
        let expected = match (hour, minute) {
            (Some(h), Some(m)) if h < 24 && m < 60 => Some(h * 3600 + m * 60),
            _ => None,
        };
        assert_eq!(parse_hms(text), expected, "{text}");
    }
}

#[test]
fn written_times_are_read_back() {
    for hour in 0..24 {
        for minute in 0..60 {
            let second = (hour * 7 + minute) % 60;
            let text = format_hms(hour, minute, second);
            assert_eq!(text, format!("{hour:02}:{minute:02}:{second:02}"));
            assert_eq!(parse_hms(&text), Some((hour * 3600 + minute * 60 + second) as u32));
        }
    }
    assert_eq!(format_hms(-1, 100, 5), format!("{:02}:{:02}:{:02}", -1, 100, 5));
}

#[test]
fn only_open_items_with_a_time_are_pending() {
    let todos = store(vec![
        item("a", false, Some("08:00")),
        item("b", true, Some("08:00")),
        item("c", false, None),
        item("d", false, Some("25:00")),
        item("e", false, Some("07:00:01")),
    ]);
    let list = pending_reminders(&todos, "2024-05-01");
    let found: Vec<(&str, &str, u32)> =
        list.iter().map(|p| (p.text, p.remind_at, p.seconds)).collect();
    assert_eq!(found, vec![("a", "08:00", 28800), ("e", "07:00:01", 25201)]);
    assert!(pending_reminders(&todos, "2024-05-02").is_empty());
}

#[test]
fn due_reminders_say_what_and_when() {
    let todos = store(vec![item("开会", false, Some("08:00")), item("晚饭", false, Some("18:00"))]);
    let due = due_reminders(&todos, &Triggered::new(), at(8, 0, 0));
    assert_eq!(due.len(), 1);
    assert_eq!(due[0].trigger_id, "2024-05-01|开会|08:00");
    assert_eq!(due[0].message, "开会（08:00）");
    assert!(due_reminders(&todos, &Triggered::new(), at(7, 59, 59)).is_empty());
}

#[test]
fn no_reminder_goes_off_twice() {
    let todos = store(vec![
        item("a", false, Some("08:00")),
        item("b", false, Some("08:00:10")),
        item("a", false, Some("08:00")),
    ]);
    let mut triggered = Triggered::new();
    assert_eq!(check_reminders(&todos, &mut triggered, at(7, 0, 0)).says, None);
    assert_eq!(
        check_reminders(&todos, &mut triggered, at(8, 0, 0)).says.as_deref(),
        Some("a（08:00）\na（08:00）")
    );
    assert_eq!(check_reminders(&todos, &mut triggered, at(8, 0, 0)).says, None);
    assert_eq!(
        check_reminders(&todos, &mut triggered, at(9, 0, 0)).says.as_deref(),
        Some("b（08:00:10）")
    );
    assert!(triggered.contains("2024-05-01|a|08:00"));
    let mut next_day = at(9, 0, 0);
    next_day.date.day = 2;
    assert_eq!(check_reminders(&todos, &mut triggered, next_day).says, None);
    assert!(!triggered.contains("2024-05-01|a|08:00"));
}

#[test]
fn the_wait_ends_with_the_next_reminder() {
    let todos = store(vec![item("a", false, Some("08:00:20")), item("b", false, Some("08:00:10"))]);
    assert_eq!(next_delay(&todos, at(7, 0, 0)), 30);
    assert_eq!(next_delay(&todos, at(8, 0, 0)), 10);
    assert_eq!(next_delay(&todos, at(8, 0, 10)), 10);
    assert_eq!(next_delay(&todos, at(8, 0, 19)), 1);
    assert_eq!(next_delay(&todos, at(8, 0, 20)), 30);
    assert_eq!(next_delay(&TodoStore::new(), at(8, 0, 20)), 30);
}

#[test]
fn minutes_are_enough_for_the_short_form() {
    assert_eq!(minute_reminder::parse_hhmm("09:05"), Some(9 * 3600 + 5 * 60));
    assert_eq!(minute_reminder::parse_hhmm("24:00"), None);
    assert_eq!(minute_reminder::parse_hhmm("12"), None);
    let todos = store(vec![item("a", false, Some("08:00")), item("b", false, Some("08:01"))]);
    let mut triggered = Triggered::new();
    let due = minute_reminder::due_reminders(&todos, &triggered, at(8, 0, 30));
    assert_eq!(due.len(), 1);
    assert_eq!(due[0].message, "a（08:00）");
    assert_eq!(minute_reminder::next_delay(&todos, &triggered, at(8, 0, 30)), 1);
    triggered.insert(due[0].trigger_id.clone());
    assert_eq!(minute_reminder::next_delay(&todos, &triggered, at(8, 0, 30)), 30);
    assert_eq!(minute_reminder::next_delay(&todos, &triggered, at(8, 0, 50)), 10);
}
