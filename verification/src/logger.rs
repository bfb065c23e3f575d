//! The log: its levels, its lines and where it is kept.

use vstd::prelude::*;

use crate::date;
use crate::date::Moment;
use crate::text;

verus! {

/// How much is logged.
#[derive(Clone, Copy, PartialEq, Eq, PartialOrd, Ord, Structural, Debug)]
pub enum LogLevel {
    Off,
    Error,
    Warn,
    Info,
    Debug,
}

/// How talkative a level is.
pub open spec fn level_rank(level: LogLevel) -> int {
    match level {
        LogLevel::Off => 0,
        LogLevel::Error => 1,
        LogLevel::Warn => 2,
        LogLevel::Info => 3,
        LogLevel::Debug => 4,
    }
}

/// The name of a level.
pub open spec fn level_text(level: LogLevel) -> Seq<char> {
    match level {
        LogLevel::Off => "off"@,
        LogLevel::Error => "error"@,
        LogLevel::Warn => "warn"@,
        LogLevel::Info => "info"@,
        LogLevel::Debug => "debug"@,
    }
}

/// The level with a name, whatever its case and the white space around it;
/// any other text stands for `Info`.
pub open spec fn level_named(value: Seq<char>) -> LogLevel {
    let name = text::ascii_lowered(text::trimmed(value));
    if name == "off"@ {
        LogLevel::Off
    } else if name == "error"@ {
        LogLevel::Error
    } else if name == "warn"@ {
        LogLevel::Warn
    } else if name == "debug"@ {
        LogLevel::Debug
    } else {
        LogLevel::Info
    }
}

/// The name of a level as it is shown.
pub open spec fn level_label(level: LogLevel) -> Seq<char> {
    match level {
        LogLevel::Off => "关闭"@,
        LogLevel::Error => "错误"@,
        LogLevel::Warn => "警告"@,
        LogLevel::Info => "信息"@,
        LogLevel::Debug => "调试"@,
    }
}

/// The name of a level as it stands in a line: capitals, filled up to five characters.
pub open spec fn level_tag(level: LogLevel) -> Seq<char> {
    match level {
        LogLevel::Off => "OFF  "@,
        LogLevel::Error => "ERROR"@,
        LogLevel::Warn => "WARN "@,
        LogLevel::Info => "INFO "@,
        LogLevel::Debug => "DEBUG"@,
    }
}

impl LogLevel {
    /// The level with this name.
    pub fn parse(value: &str) -> (level: LogLevel)
        ensures
            level == level_named(value@),
    {
        let trimmed = text::trim(value);
        let name = text::to_ascii_lowercase(trimmed.as_str());
        if text::same_text(name.as_str(), "off") {
            LogLevel::Off
        } else if text::same_text(name.as_str(), "error") {
            LogLevel::Error
        } else if text::same_text(name.as_str(), "warn") {
            LogLevel::Warn
        } else if text::same_text(name.as_str(), "debug") {
            LogLevel::Debug
        } else {
            LogLevel::Info
        }
    }

    /// The name of this level.
    pub fn as_str(self) -> (name: &'static str)
        ensures
            name@ == level_text(self),
    {
        match self {
            LogLevel::Off => "off",
            LogLevel::Error => "error",
            LogLevel::Warn => "warn",
            LogLevel::Info => "info",
            LogLevel::Debug => "debug",
        }
    }

    /// The name of this level as it is shown.
    pub fn display_name(self) -> (name: &'static str)
        ensures
            name@ == level_label(self),
    {
        match self {
            LogLevel::Off => "关闭",
            LogLevel::Error => "错误",
            LogLevel::Warn => "警告",
            LogLevel::Info => "信息",
            LogLevel::Debug => "调试",
        }
    }

    fn tag(self) -> (tag: &'static str)
        ensures
            tag@ == level_tag(self),
    {
        match self {
            LogLevel::Off => "OFF  ",
            LogLevel::Error => "ERROR",
            LogLevel::Warn => "WARN ",
            LogLevel::Info => "INFO ",
            LogLevel::Debug => "DEBUG",
        }
    }

    fn rank(self) -> (rank: u8)
        ensures
            rank == level_rank(self),
    {
        match self {
            LogLevel::Off => 0,
            LogLevel::Error => 1,
            LogLevel::Warn => 2,
            LogLevel::Info => 3,
            LogLevel::Debug => 4,
        }
    }
}

/// The name of a level is read back as that level.
pub proof fn level_names_read_back(level: LogLevel)
    ensures
        level_named(level_text(level)) == level,
{
    reveal_strlit("off");
    reveal_strlit("error");
    reveal_strlit("warn");
    reveal_strlit("info");
    reveal_strlit("debug");
    let name = level_text(level);
    assert(text::trimmed(name) == name);
    assert(text::ascii_lowered(name) =~= name);
    assert("off"@.len() != "warn"@.len());
    assert("error"@[0] != "debug"@[0]);
    assert("info"@[0] != "warn"@[0]);
}

// ---------------------------------------------------------------------------
// The state of the log

/// The name of the log file.
pub const LOG_FILE_NAME: &'static str = "deskTodo.log";

/// The name under which a log file that has grown too long is kept.
pub const OLD_LOG_FILE_NAME: &'static str = "deskTodo.log.old";

/// The size in bytes above which the log file is put aside.
pub const MAX_LOG_SIZE: u64 = 1048576;

/// What the log is headed with at every start.
pub const LOG_HEADER: &'static str = "===== deskTodo 日志 =====";

/// The log: how much it takes, the open file and its path.
pub struct LoggerState<F, P> {
    pub level: LogLevel,
    pub file: Option<F>,
    pub path: Option<P>,
}

/// The file that a log is kept in: its path, and the file where it could be opened.
pub struct LogFile<F, P> {
    pub path: P,
    pub file: Option<F>,
}

/// The state of a log that is kept in `place`; without one it is kept nowhere.
pub open spec fn opened_state<F, P>(level: LogLevel, place: Option<LogFile<F, P>>) -> LoggerState<
    F,
    P,
> {
    match place {
        Some(found) => LoggerState { level, file: found.file, path: Some(found.path) },
        None => LoggerState { level, file: None, path: None },
    }
}

/// The state of a log that is kept in `place`.
pub fn open_state<F, P>(level: LogLevel, place: Option<LogFile<F, P>>) -> (state: LoggerState<F, P>)
    ensures
        state == opened_state(level, place),
{
    match place {
        Some(found) => LoggerState { level, file: found.file, path: Some(found.path) },
        None => LoggerState { level, file: None, path: None },
    }
}

/// Whether a log file of this size has grown too long.
pub open spec fn is_too_long(size: Option<u64>) -> bool {
    size is Some && size->0 > MAX_LOG_SIZE
}

/// The folder of the log: the current one, or the default one where there is none.
pub open spec fn folder_for_log<D>(current: Option<D>, default: Option<D>) -> Option<D> {
    if current is Some {
        current
    } else {
        default
    }
}

/// Whether a log file of this size has to be put aside before it is opened.
pub fn needs_rotation(size: Option<u64>) -> (yes: bool)
    ensures
        yes == (size is Some && size->0 > MAX_LOG_SIZE),
        yes == is_too_long(size),
{
    match size {
        Some(bytes) => bytes > MAX_LOG_SIZE,
        None => false,
    }
}

/// The folder of the log: the current one, or the default one where there is none.
pub fn log_folder<D>(current: Option<D>, default: Option<D>) -> (folder: Option<D>)
    ensures
        folder == if current is Some {
            current
        } else {
            default
        },
        folder == folder_for_log(current, default),
{
    match current {
        Some(dir) => Some(dir),
        None => default,
    }
}

/// What a log is headed with when the program starts: an empty line, then the
/// header and the time.
pub open spec fn start_text(now: Moment) -> Seq<char> {
    "\n"@ + LOG_HEADER@ + " 启动于 "@ + date::stamp_text(now)
}

/// Sets the log up. Returns what has to be written to its file, if it has one.
pub fn init<F, P>(
    slot: &mut Option<LoggerState<F, P>>,
    level: LogLevel,
    place: Option<LogFile<F, P>>,
    now: Moment,
) -> (line: Option<String>)
    requires
        now.valid(),
    ensures
        *final(slot) == Some(opened_state(level, place)),
        match line {
            Some(l) => opened_state(level, place).file is Some && l@ == start_text(now),
            None => opened_state(level, place).file is None,
        },
{
    let state = open_state(level, place);
    let line = if state.file.is_some() {
        let mut line = text::copy_text("\n");
        text::push_text(&mut line, LOG_HEADER);
        text::push_text(&mut line, " 启动于 ");
        text::push_text(&mut line, now.stamp().as_str());
        Some(line)
    } else {
        None
    };
    *slot = Some(state);
    line
}

/// Changes how much is logged, once the log is set up.
pub fn set_level<F, P>(slot: &mut Option<LoggerState<F, P>>, level: LogLevel)
    ensures
        match *old(slot) {
            Some(state) => *final(slot) == Some(LoggerState { level, ..state }),
            None => *final(slot) is None,
        },
{
    match slot.take() {
        Some(state) => {
            *slot = Some(LoggerState { level, file: state.file, path: state.path });
        },
        None => {},
    }
}

/// Moves the log to another place.
pub fn reopen<F, P>(
    slot: &mut Option<LoggerState<F, P>>,
    level: LogLevel,
    place: Option<LogFile<F, P>>,
)
    ensures
        *final(slot) == Some(opened_state(level, place)),
{
    *slot = Some(open_state(level, place));
}

/// Whether a log takes lines of a level.
pub open spec fn takes<F, P>(slot: Option<LoggerState<F, P>>, level: LogLevel) -> bool {
    match slot {
        Some(state) => level_rank(level) <= level_rank(state.level),
        None => false,
    }
}

/// Whether lines of this level are logged.
pub fn enabled<F, P>(slot: &Option<LoggerState<F, P>>, level: LogLevel) -> (yes: bool)
    ensures
        yes == takes(*slot, level),
{
    match slot {
        Some(state) => level.rank() <= state.level.rank(),
        None => false,
    }
}

/// A line of the log: time, level, origin and message.
pub open spec fn line_text(
    now: Moment,
    level: LogLevel,
    target: Seq<char>,
    message: Seq<char>,
) -> Seq<char> {
    date::fine_stamp_text(now) + " ["@ + level_tag(level) + "] ["@ + target + "] "@ + message
}

/// The line that has to be logged, `None` where its level is not.
pub fn log<F, P>(
    slot: &Option<LoggerState<F, P>>,
    level: LogLevel,
    target: &str,
    message: &str,
    now: Moment,
) -> (line: Option<String>)
    requires
        now.valid(),
    ensures
        match line {
            Some(l) => takes(*slot, level) && l@ == line_text(now, level, target@, message@),
            None => !takes(*slot, level),
        },
{
    if !enabled(slot, level) {
        return None;
    }
    let mut line = now.fine_stamp();
    text::push_text(&mut line, " [");
    text::push_text(&mut line, level.tag());
    text::push_text(&mut line, "] [");
    text::push_text(&mut line, target);
    text::push_text(&mut line, "] ");
    text::push_text(&mut line, message);
    Some(line)
}

/// The path of the log file, `None` where the log is not set up or kept nowhere.
pub fn log_file_path<F, P>(slot: &Option<LoggerState<F, P>>) -> (path: Option<&P>)
    ensures
        match path {
            Some(p) => *slot is Some && slot->0.path == Some(*p),
            None => *slot is None || slot->0.path is None,
        },
{
    match slot {
        Some(state) => match &state.path {
            Some(path) => Some(path),
            None => None,
        },
        None => None,
    }
}

/// The file that has to be emptied to clear the log, `None` where there is none.
/// The log goes on as it was.
pub fn clear<F, P>(slot: &Option<LoggerState<F, P>>) -> (path: Option<&P>)
    ensures
        match path {
            Some(p) => *slot is Some && slot->0.path == Some(*p),
            None => *slot is None || slot->0.path is None,
        },
{
    log_file_path(slot)
}

/// A log that is not set up takes nothing, and one that is set to a more
/// talkative level takes all that it took before.
pub proof fn louder_levels_take_more<F, P>(
    state: LoggerState<F, P>,
    louder: LogLevel,
    level: LogLevel,
)
    requires
        level_rank(state.level) <= level_rank(louder),
    ensures
        !takes(None::<LoggerState<F, P>>, level),
        takes(Some(state), level) ==> takes(Some(LoggerState { level: louder, ..state }), level),
        takes(Some(LoggerState { level: LogLevel::Off, ..state }), level) ==> level == LogLevel::Off,
{
}

// ---------------------------------------------------------------------------
// What holds of the log

/// Levels are known by their names in any case and with white space around
/// them; any other text stands for `Info`.
pub proof fn levels_are_known_by_name(value: Seq<char>)
    ensures
        ({
            let name = text::ascii_lowered(text::trimmed(value));
            &&& level_named(value) == LogLevel::Off <==> name == "off"@
            &&& level_named(value) == LogLevel::Error <==> name == "error"@
            &&& level_named(value) == LogLevel::Warn <==> name == "warn"@
            &&& level_named(value) == LogLevel::Debug <==> name == "debug"@
        }),
{
    reveal_strlit("off");
    reveal_strlit("error");
    reveal_strlit("warn");
    reveal_strlit("debug");
    assert("off"@.len() == 3 && "error"@.len() == 5 && "warn"@.len() == 4 && "debug"@.len() == 5);
    assert("error"@[0] != "debug"@[0]);
}

/// A log takes what is at least as grave as its level: errors before warnings
/// before information before details. A log that is not set up takes nothing.
pub proof fn graver_lines_are_taken<F, P>(state: LoggerState<F, P>)
    ensures
        ({
            let error = takes(Some(state), LogLevel::Error);
            let warn = takes(Some(state), LogLevel::Warn);
            let info = takes(Some(state), LogLevel::Info);
            let debug = takes(Some(state), LogLevel::Debug);
            &&& error <==> state.level != LogLevel::Off
            &&& warn <==> error && state.level != LogLevel::Error
            &&& info <==> warn && state.level != LogLevel::Warn
            &&& debug <==> state.level == LogLevel::Debug
        }),
        forall|level: LogLevel| !(#[trigger] takes(None::<LoggerState<F, P>>, level)),
{
}

/// A level stands in a line in capitals, filled up with blanks to five characters.
pub proof fn tags_are_names_in_capitals(level: LogLevel)
    ensures
        level_tag(level).len() == 5,
        text::ascii_lowered(text::trimmed(level_tag(level))) == level_text(level),
        level_text(level).len() <= 5,
{
    reveal_strlit("off");
    reveal_strlit("error");
    reveal_strlit("warn");
    reveal_strlit("info");
    reveal_strlit("debug");
    reveal_strlit("OFF  ");
    reveal_strlit("ERROR");
    reveal_strlit("WARN ");
    reveal_strlit("INFO ");
    reveal_strlit("DEBUG");
    let tag = level_tag(level);
    reveal_with_fuel(text::trim_end, 4);
    assert(text::trim_start(tag) == tag);
    assert(text::ascii_lowered(text::trimmed(tag)) =~= level_text(level));
}

/// The levels have their labels.
pub proof fn levels_have_their_labels(level: LogLevel)
    ensures
        level == LogLevel::Off ==> level_label(level) == "关闭"@ && level_text(level) == "off"@,
        level == LogLevel::Error ==> level_label(level) == "错误"@ && level_text(level) == "error"@,
        level == LogLevel::Warn ==> level_label(level) == "警告"@ && level_text(level) == "warn"@,
        level == LogLevel::Info ==> level_label(level) == "信息"@ && level_text(level) == "info"@,
        level == LogLevel::Debug ==> level_label(level) == "调试"@ && level_text(level) == "debug"@,
{
}

/// A line holds the time to the millisecond, the level, the origin and the whole
/// message, in this order.
pub proof fn lines_hold_the_whole_message(
    now: Moment,
    level: LogLevel,
    target: Seq<char>,
    message: Seq<char>,
)
    ensures
        ({
            let line = line_text(now, level, target, message);
            let stamp = date::fine_stamp_text(now);
            &&& line.len() == stamp.len() + level_tag(level).len() + target.len() + message.len()
                + 7
            &&& line.take(stamp.len() as int) == stamp
            &&& line.skip(line.len() - message.len()) == message
            &&& line.subrange(
                stamp.len() as int,
                line.len() - message.len(),
            ) == seq![' ', '['] + level_tag(level) + seq![']', ' ', '['] + target + seq![']', ' ']
        }),
        start_text(now) == seq!['\n'] + "===== deskTodo 日志 ====="@ + " 启动于 "@
            + date::stamp_text(now),
{
    reveal_strlit(" [");
    reveal_strlit("] [");
    reveal_strlit("] ");
    reveal_strlit("\n");
    let line = line_text(now, level, target, message);
    let stamp = date::fine_stamp_text(now);
    assert(line.take(stamp.len() as int) =~= stamp);
    assert(line.skip(line.len() - message.len()) =~= message);
    assert(line.subrange(stamp.len() as int, line.len() - message.len()) =~= seq![' ', '[']
        + level_tag(level) + seq![']', ' ', '['] + target + seq![']', ' ']);
    assert("\n"@ =~= seq!['\n']);
}

/// A log that is kept in a place has its path, and its file where it could be opened.
pub proof fn logs_are_kept_in_their_place<F, P>(level: LogLevel, place: Option<LogFile<F, P>>)
    ensures
        opened_state(level, place).level == level,
        place matches Some(found) ==> opened_state(level, place).path == Some(found.path)
            && opened_state(level, place).file == found.file,
        place is None ==> opened_state(level, place).path is None && opened_state(
            level,
            place,
        ).file is None,
{
}

/// A log file is put aside once it is longer than a mebibyte, and the log goes
/// to the current folder before the default one.
pub proof fn long_logs_are_put_aside<D>(size: u64, current: Option<D>, default: Option<D>)
    ensures
        !is_too_long(None),
        is_too_long(Some(size)) <==> size > 1024 * 1024,
        current is Some ==> folder_for_log(current, default) == current,
        current is None ==> folder_for_log(current, default) == default,
{
}

} // verus!
