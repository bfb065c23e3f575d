use desk_todo::date::{Date, Moment};
use desk_todo::logger::{
    clear, enabled, init, log, log_file_path, log_folder, needs_rotation, open_state, reopen, set_level,
    LogFile, LogLevel, LoggerState, LOG_HEADER, MAX_LOG_SIZE,
};
use std::cell::RefCell;
use std::rc::Rc;

type Sheet = Rc<RefCell<String>>;
type Slot = Option<LoggerState<Sheet, String>>;

fn moment() -> Moment {
    Moment {
        date: Date { year: 2024, month: 3, day: 7 },
        hour: 8,
        minute: 5,
        second: 9,
        milli: 42,
    }
}

fn place(sheet: &Sheet) -> Option<LogFile<Sheet, String>> {
    Some(LogFile { path: "logs/deskTodo.log".to_string(), file: Some(sheet.clone()) })
}

fn write_line(slot: &Slot, line: Option<String>) {
    if let (Some(state), Some(line)) = (slot, line) {
        if let Some(sheet) = &state.file {
            sheet.borrow_mut().push_str(&line);
            sheet.borrow_mut().push('\n');
        }
    }
}

fn say(slot: &Slot, level: LogLevel, message: &str) {
    let line = log(slot, level, "test", message, moment());
    write_line(slot, line);
}

fn empty_file(sheet: &Sheet, path: Option<&String>) {
    if path.map(String::as_str) == Some("logs/deskTodo.log") {
        sheet.borrow_mut().clear();
    }
}

#[test]
fn parse_level_names() {
    assert_eq!(LogLevel::parse("off"), LogLevel::Off);
    assert_eq!(LogLevel::parse("ERROR"), LogLevel::Error);
    assert_eq!(LogLevel::parse("warn"), LogLevel::Warn);
    assert_eq!(LogLevel::parse(" debug "), LogLevel::Debug);
    assert_eq!(LogLevel::parse("info"), LogLevel::Info);
    assert_eq!(LogLevel::parse("未知"), LogLevel::Info);
}

#[test]
fn log_respects_level_and_runtime_switch() {
    let sheet: Sheet = Rc::new(RefCell::new(String::new()));
    let mut slot: Slot = None;
    let header = init(&mut slot, LogLevel::Warn, place(&sheet), moment());
    write_line(&slot, header);
    say(&slot, LogLevel::Info, "这条信息级别不足，不应写入");
    say(&slot, LogLevel::Warn, "警告消息");
    set_level(&mut slot, LogLevel::Debug);
    say(&slot, LogLevel::Info, "级别提升后的信息");
    say(&slot, LogLevel::Debug, "调试消息");
    let content = sheet.borrow().clone();
    assert!(content.contains("[WARN ] [test] 警告消息"));
    assert!(content.contains("[INFO ] [test] 级别提升后的信息"));
    assert!(content.contains("[DEBUG] [test] 调试消息"));
    assert!(!content.contains("这条信息级别不足"));
    assert!(content.contains(LOG_HEADER));
}

#[test]
fn log_before_init_is_noop() {
    let slot: Slot = None;
    assert!(log(&slot, LogLevel::Error, "test", "未初始化时不应输出", moment()).is_none());
    assert!(log_file_path(&slot).is_none());
    assert!(clear(&slot).is_none());
}

#[test]
fn clear_truncates_file() {
    let sheet: Sheet = Rc::new(RefCell::new(String::new()));
    let mut slot: Slot = None;
    let header = init(&mut slot, LogLevel::Info, place(&sheet), moment());
    write_line(&slot, header);
    say(&slot, LogLevel::Info, "将被清空的内容");
    empty_file(&sheet, clear(&slot));
    assert!(sheet.borrow().is_empty());
    say(&slot, LogLevel::Info, "清空后可以继续写入");
    assert!(sheet.borrow().contains("清空后可以继续写入"));
}

#[test]
fn lines_are_written_in_full() {
    let sheet: Sheet = Rc::new(RefCell::new(String::new()));
    let mut slot: Slot = None;
    let header = init(&mut slot, LogLevel::Error, place(&sheet), moment());
    assert_eq!(
        header.as_deref(),
        Some("\n===== deskTodo 日志 ===== 启动于 2024-03-07 08:05:09")
    );
    assert_eq!(
        log(&slot, LogLevel::Error, "app", "坏了", moment()).as_deref(),
        Some("2024-03-07 08:05:09.042 [ERROR] [app] 坏了")
    );
    assert_eq!(log(&slot, LogLevel::Warn, "app", "坏了", moment()), None);
}

#[test]
fn without_a_file_no_header_is_written() {
    let mut slot: Slot = None;
    assert_eq!(init(&mut slot, LogLevel::Info, None, moment()), None);
    assert!(log_file_path(&slot).is_none());
    assert!(log(&slot, LogLevel::Info, "a", "b", moment()).is_some());
    let unopened = LogFile { path: "x".to_string(), file: None };
    assert_eq!(init(&mut slot, LogLevel::Info, Some(unopened), moment()), None);
    assert_eq!(log_file_path(&slot).map(String::as_str), Some("x"));
}

#[test]
fn levels_are_ordered_and_named() {
    let all = [LogLevel::Off, LogLevel::Error, LogLevel::Warn, LogLevel::Info, LogLevel::Debug];
    let labels = ["关闭", "错误", "警告", "信息", "调试"];
    for (i, level) in all.iter().enumerate() {
        assert_eq!(LogLevel::parse(level.as_str()), *level);
        assert_eq!(level.display_name(), labels[i]);
        let slot: Slot = Some(open_state(*level, None));
        for (k, other) in all.iter().enumerate() {
            assert_eq!(enabled(&slot, *other), k <= i);
            assert_eq!(other <= level, k <= i);
        }
    }
}

#[test]
fn set_level_without_a_log_does_nothing() {
    let mut slot: Slot = None;
    set_level(&mut slot, LogLevel::Debug);
    assert!(slot.is_none());
}

#[test]
fn reopening_moves_the_log() {
    let sheet: Sheet = Rc::new(RefCell::new(String::new()));
    let mut slot: Slot = None;
    init(&mut slot, LogLevel::Info, None, moment());
    reopen(&mut slot, LogLevel::Debug, place(&sheet));
    assert!(enabled(&slot, LogLevel::Debug));
    assert_eq!(log_file_path(&slot).map(String::as_str), Some("logs/deskTodo.log"));
}

#[test]
fn only_long_files_are_put_aside() {
    assert!(!needs_rotation(None));
    assert!(!needs_rotation(Some(MAX_LOG_SIZE)));
    assert!(needs_rotation(Some(1024 * 1024 + 1)));
    assert_eq!(log_folder(Some(1), Some(2)), Some(1));
    assert_eq!(log_folder(None, Some(2)), Some(2));
    assert_eq!(log_folder::<u8>(None, None), None);
}
