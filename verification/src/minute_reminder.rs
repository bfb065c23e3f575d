//! Reminders to the minute: times of day with an hour and a minute only, and a
//! schedule that leaves out what has gone off.

use vstd::prelude::*;

use crate::date;
use crate::date::Moment;
use crate::models;
use crate::models::TodoStore;
use crate::reminder;
use crate::reminder::{DueReminder, TimeForm, Triggered};
use crate::text;

verus! {

/// The seconds since midnight that an hour and a minute with a colon between
/// stand for, `None` where the text has another form or no day has that time.
pub open spec fn hhmm_seconds(value: Seq<char>) -> Option<nat> {
    let k = text::first_index(value, ':') as int;
    if k < value.len() {
        reminder::clock_seconds(
            text::unsigned_value(value.take(k)),
            text::unsigned_value(value.skip(k + 1)),
            Some(0),
        )
    } else {
        None
    }
}

/// The seconds since midnight that `value` stands for, `None` where it is no
/// hour and minute.
pub fn parse_hhmm(value: &str) -> (seconds: Option<u32>)
    ensures
        match seconds {
            Some(n) => hhmm_seconds(value@) == Some(n as nat) && n < 86400,
            None => hhmm_seconds(value@) is None,
        },
{
    let chars = text::chars_of(value);
    let mut k: usize = 0;
    while k < chars.len() && chars[k] != ':'
        invariant
            k <= chars@.len(),
            forall|i: int| 0 <= i < k ==> #[trigger] chars@[i] != ':',
        decreases chars@.len() - k,
    {
        k += 1;
    }
    proof {
        text::lemma_first_index_is(chars@, ':', k as int);
    }
    if k == chars.len() {
        return None;
    }
    proof {
        assert(chars@.subrange(0, k as int) =~= value@.take(k as int));
        assert(chars@.subrange(k + 1, chars@.len() as int) =~= value@.skip(k + 1));
    }
    let hour = text::parse_u32(&chars, 0, k);
    let minute = text::parse_u32(&chars, k + 1, chars.len());
    match (hour, minute) {
        (Some(h), Some(m)) => if h < 24 && m < 60 {
            Some(h * 3600 + m * 60)
        } else {
            None
        },
        _ => None,
    }
}

/// The reminders that have to go off now.
pub fn due_reminders(todos: &TodoStore, triggered: &Triggered, now: Moment) -> (list: Vec<
    DueReminder,
>)
    requires
        todos.wf(),
        now.valid(),
    ensures
        reminder::due_views(list@) == reminder::due(
            reminder::reminders_in(
                TimeForm::Minutes,
                models::list_at(todos@, date::key_text(now.date)),
            ),
            date::key_text(now.date),
            triggered@,
            now.seconds(),
        ),
{
    let now_secs: u32 = now.seconds_from_midnight();
    let key = date::date_key(now.date);
    let reminders = reminder::reminders_on(TimeForm::Minutes, todos, key.as_str());
    reminder::due_among(&reminders, key.as_str(), triggered, now_secs)
}

/// How many seconds may pass until the reminders have to be looked at again:
/// thirty, or less where one that has not gone off is due before that, but at least one.
pub fn next_delay(todos: &TodoStore, triggered: &Triggered, now: Moment) -> (delay: u64)
    requires
        todos.wf(),
        now.valid(),
    ensures
        1 <= delay <= 30,
        ({
            let key = date::key_text(now.date);
            let waiting = reminder::reminders_in(TimeForm::Minutes, models::list_at(todos@, key));
            &&& forall|i: int|
                0 <= i < waiting.len() && !triggered@.contains(
                    reminder::trigger_id(key, #[trigger] waiting[i]),
                ) ==> delay <= 1 || delay <= waiting[i].seconds - now.seconds()
            &&& delay == 30 || exists|i: int|
                0 <= i < waiting.len() && !triggered@.contains(
                    reminder::trigger_id(key, #[trigger] waiting[i]),
                ) && (waiting[i].seconds - now.seconds() == delay || (delay == 1
                    && waiting[i].seconds <= now.seconds()))
        }),
{
    let now_secs: u32 = now.seconds_from_midnight();
    let key = date::date_key(now.date);
    let reminders = reminder::reminders_on(TimeForm::Minutes, todos, key.as_str());
    let ghost waiting = reminder::pending_views(reminders@);
    let mut next: u64 = 30;
    let mut i: usize = 0;
    while i < reminders.len()
        invariant
            i <= reminders@.len(),
            waiting == reminder::pending_views(reminders@),
            1 <= next <= 30,
            forall|k: int|
                0 <= k < i && !triggered@.contains(
                    reminder::trigger_id(key@, #[trigger] waiting[k]),
                ) ==> next <= 1 || next <= waiting[k].seconds - now_secs,
            next == 30 || exists|k: int|
                0 <= k < i && !triggered@.contains(
                    reminder::trigger_id(key@, #[trigger] waiting[k]),
                ) && (waiting[k].seconds - now_secs == next || (next == 1 && waiting[k].seconds
                    <= now_secs)),
        decreases reminders@.len() - i,
    {
        let found = &reminders[i];
        proof {
            assert(waiting[i as int] == reminders@[i as int]@);
        }
        let id = reminder::make_trigger_id(key.as_str(), found);
        if !triggered.contains(id.as_str()) {
            let remaining: u32 = if found.seconds > now_secs { found.seconds - now_secs } else { 0 };
            let wait: u64 = if remaining < 1 { 1 } else { remaining as u64 };
            if wait < next {
                next = wait;
                proof {
                    assert(!triggered@.contains(
                        reminder::trigger_id(key@, waiting[i as int]),
                    ));
                }
            }
        }
        i += 1;
    }
    next
}

/// An hour and a minute are read by their parts on both sides of the first
/// colon; without a colon, or with a part that is no number or that no day has,
/// there is no time.
pub proof fn minutes_are_read_by_their_parts(h: Seq<char>, m: Seq<char>)
    requires
        !h.contains(':'),
    ensures
        hhmm_seconds(h) is None,
        match (text::unsigned_value(h), text::unsigned_value(m)) {
            (Some(a), Some(b)) => hhmm_seconds(h.push(':') + m) == (if a <= 23 && b <= 59 {
                Some(((a * 60 + b) * 60) as nat)
            } else {
                None
            }),
            _ => hhmm_seconds(h.push(':') + m) is None,
        },
{
    let s = h.push(':') + m;
    let k = h.len() as int;
    assert forall|i: int| 0 <= i < k implies #[trigger] h[i] != ':' by {
        assert(h.contains(h[i]));
    }
    assert forall|i: int| 0 <= i < k implies #[trigger] s[i] != ':' by {
        assert(s[i] == h[i]);
    }
    text::lemma_first_index_is(h, ':', k);
    text::lemma_first_index_is(s, ':', k);
    assert(s.take(k) =~= h);
    assert(s.skip(k + 1) =~= m);
}

} // verus!
