//! The picker for the time of a reminder: three columns of numbers to turn.

use vstd::prelude::*;

use crate::reminder;
use crate::text;
use crate::theme::Role;

verus! {

/// How many hours a day has.
pub const HOURS: i32 = 24;

/// How many minutes an hour has, and seconds a minute.
pub const SIXTIETHS: i32 = 60;

/// How many empty rows stand before the first number and behind the last.
pub const BUFFER_ROWS: i32 = 2;

/// The height of a row.
pub const ROW_HEIGHT: i32 = 30;

/// A time as the button of the picker shows it.
pub open spec fn picker_text(hour: int, minute: int, second: int) -> Seq<char> {
    seq!['⏰', ' '] + reminder::hms_text(hour, minute, second)
}

/// A time as the button of the picker shows it.
pub fn picker_label(hour: i32, minute: i32, second: i32) -> (label: String)
    ensures
        label@ == picker_text(hour as int, minute as int, second as int),
{
    let mut label = String::new();
    label.push('⏰');
    label.push(' ');
    text::push_text(&mut label, reminder::format_hms(hour, minute, second).as_str());
    proof {
        assert(label@ =~= picker_text(hour as int, minute as int, second as int));
    }
    label
}

// ---------------------------------------------------------------------------
// One column

/// How a row of a column looks.
pub struct SpinnerRow {
    /// The number of the row, where it has one.
    pub label: Option<String>,
    pub color: Role,
    /// Whether the row is marked as the one that is set.
    pub marked: bool,
}

/// Whether a row has a number that can be set.
pub open spec fn in_column(candidate: int, max: int) -> bool {
    0 <= candidate < max
}

/// The colour of a row's number.
pub open spec fn spinner_color(candidate: int, value: int, hovered: bool) -> Role {
    if candidate == value {
        Role::Accent
    } else if hovered {
        Role::TextPrimary
    } else {
        Role::TextSecondary
    }
}

/// The number of a row as it is shown: two digits; there is no room for more.
pub open spec fn spinner_text(candidate: nat) -> Seq<char> {
    if candidate < 100 {
        text::padded(candidate, 2)
    } else {
        Seq::empty()
    }
}

/// How the row for `candidate` looks in a column of `max` numbers that is set to `value`.
pub fn spinner_row(candidate: i32, value: i32, max: i32, hovered: bool) -> (row: SpinnerRow)
    ensures
        match row.label {
            Some(label) => in_column(candidate as int, max as int) && label@ == spinner_text(
                candidate as nat,
            ),
            None => !in_column(candidate as int, max as int),
        },
        row.color == spinner_color(
            candidate as int,
            value as int,
            hovered && in_column(candidate as int, max as int),
        ),
        row.marked == (candidate == value),
{
    let in_range = 0 <= candidate && candidate < max;
    let selected = candidate == value;
    let color = if selected {
        Role::Accent
    } else if in_range && hovered {
        Role::TextPrimary
    } else {
        Role::TextSecondary
    };
    let label = if in_range {
        Some(text::padded_number(candidate as u32))
    } else {
        None
    };
    SpinnerRow { label, color, marked: selected }
}

/// The row that a column comes to rest at when it is to show `row`: the nearest
/// one with a number.
pub open spec fn resting_row(row: int, max: int) -> int {
    if row < 0 || max <= 0 {
        0
    } else if row >= max {
        max - 1
    } else {
        row
    }
}

fn rest_at(row: i64, max: i32) -> (rest: i32)
    ensures
        rest == resting_row(row as int, max as int),
{
    if row < 0 || max <= 0 {
        0
    } else if row >= max as i64 {
        max - 1
    } else {
        row as i32
    }
}

/// What happened to a column.
#[derive(Clone, Copy, PartialEq, Eq, Structural, Debug)]
pub struct SpinnerInput {
    /// The row that the wheel turned the column to.
    pub turned_to: Option<i64>,
    /// The row that was clicked.
    pub clicked: Option<i32>,
}

/// A column: the number that it is set to and the row that it moves to.
#[derive(Clone, Copy, PartialEq, Eq, Structural, Debug)]
pub struct Spinner {
    pub value: i32,
    pub row: i32,
}

/// The column after what happened to it: a click on a number sets it and moves
/// the column there.
pub open spec fn spinner_after(spinner: Spinner, max: i32, snap: bool, input: SpinnerInput) -> Spinner {
    match input.clicked {
        Some(candidate) => if in_column(candidate as int, max as int) {
            Spinner { value: candidate, row: candidate }
        } else {
            turned(spinner, max, snap, input)
        },
        None => turned(spinner, max, snap, input),
    }
}

/// The column after it was turned; where it snaps, it shows the number that it is set to.
pub open spec fn turned(spinner: Spinner, max: i32, snap: bool, input: SpinnerInput) -> Spinner {
    if snap {
        Spinner { row: resting_row(spinner.value as int, max as int) as i32, ..spinner }
    } else {
        match input.turned_to {
            Some(row) => Spinner { row: resting_row(row as int, max as int) as i32, ..spinner },
            None => spinner,
        }
    }
}

/// The column after what happened to it.
pub fn time_spinner_column(spinner: Spinner, max: i32, snap: bool, input: SpinnerInput) -> (after: Spinner)
    ensures
        after == spinner_after(spinner, max, snap, input),
{
    let mut after = spinner;
    if snap {
        after.row = rest_at(spinner.value as i64, max);
    } else {
        match input.turned_to {
            Some(row) => {
                after.row = rest_at(row, max);
            },
            None => {},
        }
    }
    match input.clicked {
        Some(candidate) => {
            if 0 <= candidate && candidate < max {
                after.value = candidate;
                after.row = candidate;
            }
        },
        None => {},
    }
    after
}

/// A column that is set to one of its numbers stays so, whatever happens to it,
/// and never moves past its numbers.
pub proof fn columns_keep_to_their_numbers(spinner: Spinner, max: i32, snap: bool, input: SpinnerInput)
    requires
        in_column(spinner.value as int, max as int),
        in_column(spinner.row as int, max as int),
    ensures
        in_column(spinner_after(spinner, max, snap, input).value as int, max as int),
        in_column(spinner_after(spinner, max, snap, input).row as int, max as int),
{
}

// ---------------------------------------------------------------------------
// The picker

/// Whether the columns are to show what they are set to, now and the next time.
#[derive(Clone, Copy, PartialEq, Eq, Structural, Debug)]
pub struct SnapState {
    pub snap: bool,
    pub snap_next: bool,
}

/// The columns snap when the picker was opened, and once after the time was set to now.
pub open spec fn snap_of(pending: bool, opened: bool, set_to_now: bool) -> SnapState {
    SnapState { snap: pending || opened, snap_next: set_to_now && !pending && !opened }
}

/// Whether the columns snap; `pending` is what the last call said of the next time.
pub fn snap_state(pending: bool, opened: bool, set_to_now: bool) -> (state: SnapState)
    ensures
        state == snap_of(pending, opened, set_to_now),
{
    let snap = pending || opened;
    SnapState { snap, snap_next: set_to_now && !snap }
}

/// The picker: its columns, and whether they are to snap the next time.
#[derive(Clone, Copy, PartialEq, Eq, Structural, Debug)]
pub struct Picker {
    pub hour: Spinner,
    pub minute: Spinner,
    pub second: Spinner,
    pub pending: bool,
}

/// What happened to the picker.
#[derive(Clone, Copy, PartialEq, Eq, Structural, Debug)]
pub struct PickerInput {
    /// The button of the picker was clicked.
    pub opened: bool,
    /// The columns are on show.
    pub shown: bool,
    /// The button that sets the time to now was clicked.
    pub set_to_now: bool,
    pub hour: SpinnerInput,
    pub minute: SpinnerInput,
    pub second: SpinnerInput,
}

/// The picker after what happened to it. Columns that are not on show do not move.
pub open spec fn picker_after(picker: Picker, input: PickerInput) -> Picker {
    let state = snap_of(picker.pending, input.opened, input.set_to_now);
    let turned = Picker { pending: state.snap_next, ..picker };
    if input.shown {
        Picker {
            hour: spinner_after(picker.hour, HOURS, state.snap, input.hour),
            minute: spinner_after(picker.minute, SIXTIETHS, state.snap, input.minute),
            second: spinner_after(picker.second, SIXTIETHS, state.snap, input.second),
            ..turned
        }
    } else {
        turned
    }
}

/// The picker after what happened to it.
pub fn draw_time_picker(picker: Picker, input: PickerInput) -> (after: Picker)
    ensures
        after == picker_after(picker, input),
{
    let state = snap_state(picker.pending, input.opened, input.set_to_now);
    let mut after = picker;
    if input.shown {
        after.hour = time_spinner_column(picker.hour, HOURS, state.snap, input.hour);
        after.minute = time_spinner_column(picker.minute, SIXTIETHS, state.snap, input.minute);
        after.second = time_spinner_column(picker.second, SIXTIETHS, state.snap, input.second);
    }
    after.pending = state.snap_next;
    after
}

/// A picker that is set to a time of the day stays so, whatever happens to it.
pub proof fn pickers_keep_to_times_of_day(picker: Picker, input: PickerInput)
    requires
        in_column(picker.hour.value as int, 24),
        in_column(picker.minute.value as int, 60),
        in_column(picker.second.value as int, 60),
    ensures
        in_column(picker_after(picker, input).hour.value as int, 24),
        in_column(picker_after(picker, input).minute.value as int, 60),
        in_column(picker_after(picker, input).second.value as int, 60),
{
}

// ---------------------------------------------------------------------------
// What holds of the picker

/// A click on a number sets it and shows it, on any other row it sets nothing.
/// Turning moves the column to the nearest row with a number and sets nothing.
pub proof fn clicks_set_and_turning_shows(
    spinner: Spinner,
    max: i32,
    snap: bool,
    input: SpinnerInput,
)
    requires
        max > 0,
    ensures
        ({
            let after = spinner_after(spinner, max, snap, input);
            let sets = input.clicked is Some && 0 <= input.clicked->0 < max;
            &&& sets ==> after.value == input.clicked->0 && after.row == input.clicked->0
            &&& !sets ==> after.value == spinner.value
            &&& !sets && snap && 0 <= spinner.value < max ==> after.row == spinner.value
            &&& !sets && !snap && input.turned_to is None ==> after.row == spinner.row
            &&& !sets && !snap ==> (input.turned_to matches Some(row) ==> {
                &&& row < 0 ==> after.row == 0
                &&& 0 <= row < max ==> after.row == row
                &&& row >= max ==> after.row == max - 1
            })
        }),
{
}

/// Each column of the picker follows what happened to it: twenty-four hours,
/// sixty minutes, sixty seconds. Columns that are not on show stay as they are.
pub proof fn columns_follow_their_own_input(picker: Picker, input: PickerInput)
    ensures
        ({
            let after = picker_after(picker, input);
            let snap = picker.pending || input.opened;
            &&& !input.shown ==> after.hour == picker.hour && after.minute == picker.minute
                && after.second == picker.second
            &&& input.shown ==> after.hour == spinner_after(picker.hour, 24, snap, input.hour)
            &&& input.shown ==> after.minute == spinner_after(
                picker.minute,
                60,
                snap,
                input.minute,
            )
            &&& input.shown ==> after.second == spinner_after(
                picker.second,
                60,
                snap,
                input.second,
            )
            &&& after.pending <==> input.set_to_now && !snap
        }),
{
}

/// The button of the picker shows the time behind a clock, and a row shows its
/// number with two digits; the row that is set stands out.
pub proof fn pickers_show_the_time(hour: int, minute: int, second: int, candidate: nat, value: int, hovered: bool)
    ensures
        picker_text(hour, minute, second).len() == reminder::hms_text(hour, minute, second).len()
            + 2,
        picker_text(hour, minute, second)[0] == '⏰',
        picker_text(hour, minute, second)[1] == ' ',
        picker_text(hour, minute, second).skip(2) == reminder::hms_text(hour, minute, second),
        candidate < 100 ==> spinner_text(candidate) == seq![
            (48 + candidate / 10) as char,
            (48 + candidate % 10) as char,
        ],
        spinner_color(candidate as int, value, hovered) == Role::Accent <==> candidate == value,
        candidate != value && hovered ==> spinner_color(candidate as int, value, hovered)
            == Role::TextPrimary,
        candidate != value && !hovered ==> spinner_color(candidate as int, value, hovered)
            == Role::TextSecondary,
{
    assert(picker_text(hour, minute, second).skip(2) =~= reminder::hms_text(hour, minute, second));
    if candidate < 100 {
        text::two_digits_are_tens_and_ones(candidate);
    }
}

} // verus!
