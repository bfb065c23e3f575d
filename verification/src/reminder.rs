//! When to remind of what.

use vstd::prelude::*;

use crate::date;
use crate::date::Moment;
use crate::minute_reminder;
use crate::models;
use crate::models::{TodoStore, TodoView};
use crate::text;

verus! {

// ---------------------------------------------------------------------------
// Times of day

/// The seconds since midnight that a time of day stands for: hours and minutes,
/// or hours, minutes and seconds, with colons between. `None` where the text
/// has another form or names a time that no day has.
pub open spec fn hms_seconds(value: Seq<char>) -> Option<nat> {
    let parts = text::split_on(value, ':');
    if parts.len() == 2 {
        clock_seconds(text::unsigned_value(parts[0]), text::unsigned_value(parts[1]), Some(0))
    } else if parts.len() == 3 {
        clock_seconds(
            text::unsigned_value(parts[0]),
            text::unsigned_value(parts[1]),
            text::unsigned_value(parts[2]),
        )
    } else {
        None
    }
}

/// The seconds since midnight for an hour, a minute and a second.
pub open spec fn clock_seconds(hour: Option<nat>, minute: Option<nat>, second: Option<nat>) -> Option<
    nat,
> {
    match (hour, minute, second) {
        (Some(h), Some(m), Some(s)) => if h < 24 && m < 60 && s < 60 {
            Some(h * 3600 + m * 60 + s)
        } else {
            None
        },
        _ => None,
    }
}

/// The seconds since midnight that `value` stands for, `None` where it is no time of day.
pub fn parse_hms(value: &str) -> (seconds: Option<u32>)
    ensures
        match seconds {
            Some(n) => hms_seconds(value@) == Some(n as nat) && n < 86400,
            None => hms_seconds(value@) is None,
        },
{
    let chars = text::chars_of(value);
    let parts = text::split_ranges(&chars, ':');
    if parts.len() != 2 && parts.len() != 3 {
        return None;
    }
    let ghost split = text::split_on(value@, ':');
    proof {
        assert(chars@.subrange(parts@[0].0 as int, parts@[0].1 as int) == split[0]);
        assert(chars@.subrange(parts@[1].0 as int, parts@[1].1 as int) == split[1]);
    }
    let hour = text::parse_u32(&chars, parts[0].0, parts[0].1);
    let minute = text::parse_u32(&chars, parts[1].0, parts[1].1);
    let second = if parts.len() == 3 {
        proof {
            assert(chars@.subrange(parts@[2].0 as int, parts@[2].1 as int) == split[2]);
        }
        text::parse_u32(&chars, parts[2].0, parts[2].1)
    } else {
        Some(0)
    };
    match (hour, minute, second) {
        (Some(h), Some(m), Some(s)) => if h < 24 && m < 60 && s < 60 {
            Some(h * 3600 + m * 60 + s)
        } else {
            None
        },
        _ => None,
    }
}

/// A time of day with two digits each for hour, minute and second.
pub open spec fn hms_text(hour: int, minute: int, second: int) -> Seq<char> {
    text::signed_padded(hour, 2) + seq![':'] + text::signed_padded(minute, 2) + seq![':']
        + text::signed_padded(second, 2)
}

/// A time of day with two digits each for hour, minute and second.
pub fn format_hms(hour: i32, minute: i32, second: i32) -> (value: String)
    ensures
        value@ == hms_text(hour as int, minute as int, second as int),
{
    let mut value = String::new();
    text::push_signed_padded(&mut value, hour as i64, 2);
    value.push(':');
    text::push_signed_padded(&mut value, minute as i64, 2);
    value.push(':');
    text::push_signed_padded(&mut value, second as i64, 2);
    proof {
        assert(value@ =~= hms_text(hour as int, minute as int, second as int));
    }
    value
}

/// A time of day that was written down is read back as the same time.
pub proof fn written_time_reads_back(hour: int, minute: int, second: int)
    requires
        0 <= hour < 24,
        0 <= minute < 60,
        0 <= second < 60,
    ensures
        hms_seconds(hms_text(hour, minute, second)) == Some(
            (hour * 3600 + minute * 60 + second) as nat,
        ),
{
    let h = text::padded(hour as nat, 2);
    let m = text::padded(minute as nat, 2);
    let s = text::padded(second as nat, 2);
    text::lemma_padded_digits(hour as nat, 2);
    text::lemma_padded_digits(minute as nat, 2);
    text::lemma_padded_digits(second as nat, 2);
    text::padded_reads_back(hour as nat, 2);
    text::padded_reads_back(minute as nat, 2);
    text::padded_reads_back(second as nat, 2);
    assert(hms_text(hour, minute, second) =~= h.push(':') + (m.push(':') + s));
    assert forall|i: int| 0 <= i < h.len() implies #[trigger] h[i] != ':' by {
        assert(text::is_digit(h[i]));
    }
    assert forall|i: int| 0 <= i < m.len() implies #[trigger] m[i] != ':' by {
        assert(text::is_digit(m[i]));
    }
    assert forall|i: int| 0 <= i < s.len() implies #[trigger] s[i] != ':' by {
        assert(text::is_digit(s[i]));
    }
    text::lemma_split_on_concat(h, m.push(':') + s, ':');
    text::lemma_split_on_concat(m, s, ':');
    text::lemma_split_on_concat(s, Seq::empty(), ':');
    assert(text::split_on(hms_text(hour, minute, second), ':') =~= seq![h, m, s]);
}

// ---------------------------------------------------------------------------
// Pending reminders

/// A reminder of something that is still to be done.
pub struct PendingReminder<'a> {
    pub text: &'a str,
    pub remind_at: &'a str,
    pub seconds: u32,
}

/// What a pending reminder holds.
#[verifier::ext_equal]
pub struct PendingView {
    pub text: Seq<char>,
    pub remind_at: Seq<char>,
    pub seconds: nat,
}

impl<'a> View for PendingReminder<'a> {
    type V = PendingView;

    open spec fn view(&self) -> PendingView {
        PendingView {
            text: self.text@,
            remind_at: self.remind_at@,
            seconds: self.seconds as nat,
        }
    }
}

/// What a list of pending reminders holds.
pub open spec fn pending_views(list: Seq<PendingReminder<'_>>) -> Seq<PendingView> {
    list.map_values(|p: PendingReminder<'_>| p@)
}

/// What a time of day may consist of.
#[derive(Clone, Copy, PartialEq, Eq, Structural, Debug)]
pub enum TimeForm {
    /// An hour and a minute.
    Minutes,
    /// An hour and a minute, and a second or none.
    Seconds,
}

/// The seconds since midnight that a time of day in a form stands for.
pub open spec fn time_seconds(form: TimeForm, value: Seq<char>) -> Option<nat> {
    match form {
        TimeForm::Minutes => minute_reminder::hhmm_seconds(value),
        TimeForm::Seconds => hms_seconds(value),
    }
}

/// The seconds since midnight that `value` stands for, `None` where it is no
/// time of day in this form.
fn parse_time(form: TimeForm, value: &str) -> (seconds: Option<u32>)
    ensures
        match seconds {
            Some(n) => time_seconds(form, value@) == Some(n as nat) && n < 86400,
            None => time_seconds(form, value@) is None,
        },
{
    match form {
        TimeForm::Minutes => minute_reminder::parse_hhmm(value),
        TimeForm::Seconds => parse_hms(value),
    }
}

/// Whether an item is still to be done and has a time in a form at which to remind of it.
pub open spec fn waits(form: TimeForm, item: TodoView) -> bool {
    !item.done && item.remind_at is Some && time_seconds(form, item.remind_at->0) is Some
}

/// The reminder for an item that waits.
pub open spec fn reminder_in(form: TimeForm, item: TodoView) -> PendingView {
    PendingView {
        text: item.text,
        remind_at: item.remind_at->0,
        seconds: time_seconds(form, item.remind_at->0)->0,
    }
}

/// The reminders for a list of items: one for each item that waits, in their order.
pub open spec fn reminders_in(form: TimeForm, items: Seq<TodoView>) -> Seq<PendingView> {
    items.filter(|item: TodoView| waits(form, item)).map_values(
        |item: TodoView| reminder_in(form, item),
    )
}

/// Whether an item is still to be done and has a time at which to remind of it.
pub open spec fn is_pending(item: TodoView) -> bool {
    waits(TimeForm::Seconds, item)
}

/// The reminder for a pending item.
pub open spec fn reminder_of(item: TodoView) -> PendingView {
    reminder_in(TimeForm::Seconds, item)
}

/// The reminders for a list of items: one for each pending item, in their order.
pub open spec fn pending(items: Seq<TodoView>) -> Seq<PendingView> {
    reminders_in(TimeForm::Seconds, items)
}

proof fn lemma_reminders_step(form: TimeForm, items: Seq<TodoView>, n: int)
    requires
        0 <= n < items.len(),
    ensures
        waits(form, items[n]) ==> reminders_in(form, items.take(n + 1)) == reminders_in(
            form,
            items.take(n),
        ).push(reminder_in(form, items[n])),
        !waits(form, items[n]) ==> reminders_in(form, items.take(n + 1)) == reminders_in(
            form,
            items.take(n),
        ),
{
    reveal(Seq::filter);
    assert(items.take(n + 1).drop_last() =~= items.take(n));
    assert(items.take(n + 1).last() == items[n]);
    if waits(form, items[n]) {
        assert(reminders_in(form, items.take(n + 1)) =~= reminders_in(form, items.take(n)).push(
            reminder_in(form, items[n]),
        ));
    }
}

/// The reminders that are pending on the day with the given key.
pub fn pending_reminders<'a>(todos: &'a TodoStore, key: &str) -> (list: Vec<PendingReminder<'a>>)
    requires
        todos.wf(),
    ensures
        pending_views(list@) == pending(models::list_at(todos@, key@)),
        forall|i: int| 0 <= i < list@.len() ==> (#[trigger] list@[i]).seconds < 86400,
{
    reminders_on(TimeForm::Seconds, todos, key)
}

/// The reminders with a time in this form on the day with the given key.
pub(crate) fn reminders_on<'a>(form: TimeForm, todos: &'a TodoStore, key: &str) -> (list: Vec<
    PendingReminder<'a>,
>)
    requires
        todos.wf(),
    ensures
        pending_views(list@) == reminders_in(form, models::list_at(todos@, key@)),
        forall|i: int| 0 <= i < list@.len() ==> (#[trigger] list@[i]).seconds < 86400,
{
    let mut list: Vec<PendingReminder<'a>> = Vec::new();
    let ghost views = models::list_at(todos@, key@);
    proof {
        reveal(Seq::filter);
        assert(reminders_in(form, views.take(0)) =~= Seq::<PendingView>::empty());
        assert(pending_views(list@) =~= Seq::<PendingView>::empty());
    }
    match todos.get(key) {
        Some(items) => {
            let mut i: usize = 0;
            while i < items.len()
                invariant
                    i <= items@.len(),
                    views == models::items_view(items@),
                    pending_views(list@) == reminders_in(form, views.take(i as int)),
                    forall|k: int| 0 <= k < list@.len() ==> (#[trigger] list@[k]).seconds < 86400,
                decreases items@.len() - i,
            {
                proof {
                    lemma_reminders_step(form, views, i as int);
                    assert(views[i as int] == items@[i as int]@);
                }
                let item = &items[i];
                if !item.done {
                    match &item.remind_at {
                        Some(remind_at) => {
                            match parse_time(form, remind_at.as_str()) {
                                Some(seconds) => {
                                    let ghost before = list@;
                                    let found = PendingReminder {
                                        text: item.text.as_str(),
                                        remind_at: remind_at.as_str(),
                                        seconds,
                                    };
                                    list.push(found);
                                    proof {
                                        assert(pending_views(list@) =~= pending_views(before).push(
                                            found@,
                                        ));
                                    }
                                },
                                None => {},
                            }
                        },
                        None => {},
                    }
                }
                i += 1;
            }
            proof {
                assert(views.take(i as int) =~= views);
            }
        },
        None => {
            proof {
                assert(views.take(0) =~= views);
            }
        },
    }
    list
}

// ---------------------------------------------------------------------------
// Reminders that have gone off

/// The identities of the reminders that have gone off already.
pub struct Triggered {
    ids: Vec<String>,
}

impl View for Triggered {
    type V = Set<Seq<char>>;

    closed spec fn view(&self) -> Set<Seq<char>> {
        self.texts().to_set()
    }
}

impl Triggered {
    closed spec fn texts(self) -> Seq<Seq<char>> {
        self.ids@.map_values(|id: String| id@)
    }

    /// No identity is kept twice.
    pub closed spec fn wf(self) -> bool {
        self.texts().no_duplicates()
    }

    /// No reminder has gone off yet.
    pub fn new() -> (triggered: Triggered)
        ensures
            triggered.wf(),
            triggered@ == Set::<Seq<char>>::empty(),
    {
        let triggered = Triggered { ids: Vec::new() };
        proof {
            assert(triggered@ =~= Set::<Seq<char>>::empty());
        }
        triggered
    }

    /// Whether the reminder with this identity has gone off.
    pub fn contains(&self, id: &str) -> (yes: bool)
        ensures
            yes == self@.contains(id@),
    {
        let mut i: usize = 0;
        while i < self.ids.len()
            invariant
                i <= self.ids@.len(),
                forall|k: int| 0 <= k < i ==> #[trigger] self.ids@[k]@ != id@,
            decreases self.ids@.len() - i,
        {
            if text::same_text(self.ids[i].as_str(), id) {
                proof {
                    assert(self.texts()[i as int] == id@);
                }
                return true;
            }
            i += 1;
        }
        proof {
            if self.texts().contains(id@) {
                let k = self.texts().index_of(id@);
                assert(self.texts()[k] == self.ids@[k]@);
            }
        }
        false
    }

    /// Notes that the reminder with this identity has gone off.
    pub fn insert(&mut self, id: String)
        requires
            old(self).wf(),
        ensures
            final(self).wf(),
            final(self)@ == old(self)@.insert(id@),
    {
        let ghost before = *self;
        if !self.contains(id.as_str()) {
            self.ids.push(id);
            proof {
                assert(self.texts() =~= before.texts().push(id@));
                assert(self@ =~= before@.insert(id@)) by {
                    assert forall|x: Seq<char>| #[trigger] self@.contains(x) <==> before@.insert(
                        id@,
                    ).contains(x) by {
                        if before.texts().contains(x) {
                            let k = before.texts().index_of(x);
                            assert(self.texts()[k] == x);
                        }
                        assert(self.texts()[before.texts().len() as int] == id@);
                    }
                }
            }
        } else {
            proof {
                assert(self@ =~= before@.insert(id@));
            }
        }
    }

    /// Forgets the identities that do not begin with `prefix`.
    pub fn retain_prefix(&mut self, prefix: &str)
        requires
            old(self).wf(),
        ensures
            final(self).wf(),
            final(self)@ == old(self)@.filter(|id: Seq<char>| text::has_prefix(id, prefix@)),
    {
        let ghost before = *self;
        let mut kept = Triggered::new();
        let mut i: usize = 0;
        let ghost keep = |id: Seq<char>| text::has_prefix(id, prefix@);
        proof {
            assert(before.texts().take(0).to_set().filter(keep) =~= Set::<Seq<char>>::empty());
        }
        while i < self.ids.len()
            invariant
                *self == before,
                i <= self.ids@.len(),
                kept.wf(),
                keep == (|id: Seq<char>| text::has_prefix(id, prefix@)),
                kept@ == before.texts().take(i as int).to_set().filter(keep),
            decreases self.ids@.len() - i,
        {
            let ghost part = before.texts().take(i as int);
            let ghost longer = before.texts().take(i + 1);
            let ghost id = before.texts()[i as int];
            proof {
                assert(longer =~= part.push(id));
                assert(longer.to_set() =~= part.to_set().insert(id)) by {
                    assert forall|x: Seq<char>| #[trigger] longer.to_set().contains(x)
                        <==> part.to_set().insert(id).contains(x) by {
                        if part.contains(x) {
                            let k = part.index_of(x);
                            assert(longer[k] == x);
                        }
                        assert(longer[i as int] == id);
                    }
                }
            }
            if text::starts_with(self.ids[i].as_str(), prefix) {
                proof {
                    assert(longer.to_set().filter(keep) =~= part.to_set().filter(keep).insert(id));
                }
                kept.insert(self.ids[i].clone());
            } else {
                proof {
                    assert(longer.to_set().filter(keep) =~= part.to_set().filter(keep));
                }
            }
            i += 1;
        }
        proof {
            assert(before.texts().take(i as int) =~= before.texts());
        }
        *self = kept;
    }
}

/// A reminder whose time has come.
pub struct DueReminder {
    pub trigger_id: String,
    pub message: String,
}

/// What a due reminder holds.
#[verifier::ext_equal]
pub struct DueView {
    pub trigger_id: Seq<char>,
    pub message: Seq<char>,
}

impl View for DueReminder {
    type V = DueView;

    open spec fn view(&self) -> DueView {
        DueView { trigger_id: self.trigger_id@, message: self.message@ }
    }
}

/// What a list of due reminders holds.
pub open spec fn due_views(list: Seq<DueReminder>) -> Seq<DueView> {
    list.map_values(|d: DueReminder| d@)
}

/// The identity of a reminder: the key of its day, its text and its time.
pub open spec fn trigger_id(key: Seq<char>, reminder: PendingView) -> Seq<char> {
    key + seq!['|'] + reminder.text + seq!['|'] + reminder.remind_at
}

/// What a reminder says: its text, and its time in brackets.
pub open spec fn message(reminder: PendingView) -> Seq<char> {
    reminder.text + seq!['（'] + reminder.remind_at + seq!['）']
}

/// Whether the time of a reminder has come and it has not gone off before.
pub open spec fn is_due(
    reminder: PendingView,
    key: Seq<char>,
    triggered: Set<Seq<char>>,
    now: int,
) -> bool {
    reminder.seconds <= now && !triggered.contains(trigger_id(key, reminder))
}

/// The due ones among pending reminders, in their order.
pub open spec fn due(
    reminders: Seq<PendingView>,
    key: Seq<char>,
    triggered: Set<Seq<char>>,
    now: int,
) -> Seq<DueView> {
    reminders.filter(|r: PendingView| is_due(r, key, triggered, now)).map_values(
        |r: PendingView| DueView { trigger_id: trigger_id(key, r), message: message(r) },
    )
}

/// The due reminders of the day of `now`.
pub open spec fn due_at(
    store: Map<Seq<char>, Seq<TodoView>>,
    triggered: Set<Seq<char>>,
    now: Moment,
) -> Seq<DueView> {
    let key = date::key_text(now.date);
    due(pending(models::list_at(store, key)), key, triggered, now.seconds())
}

proof fn lemma_due_step(
    reminders: Seq<PendingView>,
    key: Seq<char>,
    triggered: Set<Seq<char>>,
    now: int,
    n: int,
)
    requires
        0 <= n < reminders.len(),
    ensures
        is_due(reminders[n], key, triggered, now) ==> due(
            reminders.take(n + 1),
            key,
            triggered,
            now,
        ) == due(reminders.take(n), key, triggered, now).push(
            DueView {
                trigger_id: trigger_id(key, reminders[n]),
                message: message(reminders[n]),
            },
        ),
        !is_due(reminders[n], key, triggered, now) ==> due(
            reminders.take(n + 1),
            key,
            triggered,
            now,
        ) == due(reminders.take(n), key, triggered, now),
{
    reveal(Seq::filter);
    assert(reminders.take(n + 1).drop_last() =~= reminders.take(n));
    assert(reminders.take(n + 1).last() == reminders[n]);
    if is_due(reminders[n], key, triggered, now) {
        assert(due(reminders.take(n + 1), key, triggered, now) =~= due(
            reminders.take(n),
            key,
            triggered,
            now,
        ).push(
            DueView {
                trigger_id: trigger_id(key, reminders[n]),
                message: message(reminders[n]),
            },
        ));
    }
}

/// The identity of a reminder: the key of its day, its text and its time.
pub fn make_trigger_id(key: &str, reminder: &PendingReminder<'_>) -> (id: String)
    ensures
        id@ == trigger_id(key@, reminder@),
{
    let mut id = text::copy_text(key);
    id.push('|');
    text::push_text(&mut id, reminder.text);
    id.push('|');
    text::push_text(&mut id, reminder.remind_at);
    proof {
        assert(id@ =~= trigger_id(key@, reminder@));
    }
    id
}

/// The due ones among pending reminders, in their order.
pub fn due_among(
    reminders: &Vec<PendingReminder<'_>>,
    key: &str,
    triggered: &Triggered,
    now_secs: u32,
) -> (list: Vec<DueReminder>)
    ensures
        due_views(list@) == due(pending_views(reminders@), key@, triggered@, now_secs as int),
{
    let ghost views = pending_views(reminders@);
    let mut list: Vec<DueReminder> = Vec::new();
    let mut i: usize = 0;
    proof {
        reveal(Seq::filter);
        assert(due(views.take(0), key@, triggered@, now_secs as int) =~= Seq::<DueView>::empty());
        assert(due_views(list@) =~= Seq::<DueView>::empty());
    }
    while i < reminders.len()
        invariant
            i <= reminders@.len(),
            views == pending_views(reminders@),
            due_views(list@) == due(views.take(i as int), key@, triggered@, now_secs as int),
        decreases reminders@.len() - i,
    {
        let reminder = &reminders[i];
        proof {
            lemma_due_step(views, key@, triggered@, now_secs as int, i as int);
            assert(views[i as int] == reminders@[i as int]@);
        }
        if now_secs >= reminder.seconds {
            let id = make_trigger_id(key, reminder);
            if !triggered.contains(id.as_str()) {
                let mut says = text::copy_text(reminder.text);
                says.push('（');
                text::push_text(&mut says, reminder.remind_at);
                says.push('）');
                let found = DueReminder { trigger_id: id, message: says };
                let ghost before = list@;
                list.push(found);
                proof {
                    assert(says@ =~= message(reminder@));
                    assert(due_views(list@) =~= due_views(before).push(found@));
                }
            }
        }
        i += 1;
    }
    proof {
        assert(views.take(i as int) =~= views);
    }
    list
}

/// The reminders that have to go off now.
pub fn due_reminders(todos: &TodoStore, triggered: &Triggered, now: Moment) -> (list: Vec<
    DueReminder,
>)
    requires
        todos.wf(),
        now.valid(),
    ensures
        due_views(list@) == due_at(todos@, triggered@, now),
{
    let now_secs: u32 = now.seconds_from_midnight();
    let key = date::date_key(now.date);
    let reminders = pending_reminders(todos, key.as_str());
    due_among(&reminders, key.as_str(), triggered, now_secs)
}

/// How many seconds may pass until one of the reminders is due: thirty, or less
/// where one is due before that.
pub open spec fn wait_for(reminders: Seq<PendingView>, now: int) -> int
    decreases reminders.len(),
{
    if reminders.len() == 0 {
        30
    } else {
        let others = wait_for(reminders.drop_last(), now);
        let own = reminders.last().seconds - now;
        if 0 < own < others {
            own
        } else {
            others
        }
    }
}

/// How many seconds may pass until the reminders have to be looked at again.
pub open spec fn delay_at(store: Map<Seq<char>, Seq<TodoView>>, now: Moment) -> int {
    wait_for(pending(models::list_at(store, date::key_text(now.date))), now.seconds())
}

/// How many seconds may pass until the reminders have to be looked at again:
/// thirty, or less where one is due before that.
pub fn next_delay(todos: &TodoStore, now: Moment) -> (delay: u64)
    requires
        todos.wf(),
        now.valid(),
    ensures
        delay == delay_at(todos@, now),
{
    let now_secs: u32 = now.seconds_from_midnight();
    let key = date::date_key(now.date);
    let reminders = pending_reminders(todos, key.as_str());
    let ghost waiting = pending_views(reminders@);
    let mut next: u64 = 30;
    let mut i: usize = 0;
    while i < reminders.len()
        invariant
            i <= reminders@.len(),
            waiting == pending_views(reminders@),
            next == wait_for(waiting.take(i as int), now_secs as int),
        decreases reminders@.len() - i,
    {
        let seconds: u32 = reminders[i].seconds;
        proof {
            assert(waiting.take(i + 1).drop_last() =~= waiting.take(i as int));
            assert(waiting.take(i + 1).last() == reminders@[i as int]@);
        }
        if now_secs < seconds {
            let remaining: u64 = (seconds - now_secs) as u64;
            if remaining < next {
                next = remaining;
            }
        }
        i += 1;
    }
    proof {
        assert(waiting.take(i as int) =~= waiting);
    }
    next
}

/// The wait is over when the first of the reminders to come is due, and never
/// longer than thirty seconds.
pub proof fn no_reminder_is_slept_through(reminders: Seq<PendingView>, now: int)
    ensures
        1 <= wait_for(reminders, now) <= 30,
        forall|i: int|
            0 <= i < reminders.len() && (#[trigger] reminders[i]).seconds > now ==> wait_for(
                reminders,
                now,
            ) <= reminders[i].seconds - now,
        wait_for(reminders, now) == 30 || exists|i: int|
            0 <= i < reminders.len() && (#[trigger] reminders[i]).seconds - now == wait_for(
                reminders,
                now,
            ),
    decreases reminders.len(),
{
    if reminders.len() > 0 {
        let shorter = reminders.drop_last();
        no_reminder_is_slept_through(shorter, now);
        assert forall|i: int|
            0 <= i < reminders.len() && (#[trigger] reminders[i]).seconds > now implies wait_for(
            reminders,
            now,
        ) <= reminders[i].seconds - now by {
            if i < shorter.len() {
                assert(shorter[i] == reminders[i]);
            }
        }
        if wait_for(reminders, now) != 30 {
            if wait_for(reminders, now) == wait_for(shorter, now) {
                let k = choose|i: int|
                    0 <= i < shorter.len() && (#[trigger] shorter[i]).seconds - now == wait_for(
                        shorter,
                        now,
                    );
                assert(reminders[k] == shorter[k]);
            } else {
                assert(reminders[reminders.len() - 1].seconds - now == wait_for(reminders, now));
            }
        }
    }
}

// ---------------------------------------------------------------------------
// One look at the reminders

/// The identities of those that have gone off on the day with the given key.
pub open spec fn of_day(triggered: Set<Seq<char>>, key: Seq<char>) -> Set<Seq<char>> {
    triggered.filter(|id: Seq<char>| text::has_prefix(id, key))
}

/// The identities of due reminders.
pub open spec fn due_ids(list: Seq<DueView>) -> Set<Seq<char>> {
    list.map_values(|d: DueView| d.trigger_id).to_set()
}

/// What due reminders say, each on a line of its own.
pub open spec fn due_message(list: Seq<DueView>) -> Seq<char> {
    text::join(list.map_values(|d: DueView| d.message), seq!['\n'])
}

/// The reminders that go off when they are looked at.
pub open spec fn going_off(
    store: Map<Seq<char>, Seq<TodoView>>,
    triggered: Set<Seq<char>>,
    now: Moment,
) -> Seq<DueView> {
    due_at(store, of_day(triggered, date::key_text(now.date)), now)
}

/// The reminders that have gone off once they have been looked at.
pub open spec fn triggered_after(
    store: Map<Seq<char>, Seq<TodoView>>,
    triggered: Set<Seq<char>>,
    now: Moment,
) -> Set<Seq<char>> {
    of_day(triggered, date::key_text(now.date)) + due_ids(going_off(store, triggered, now))
}

/// What a look at the reminders has found.
pub struct Announcement {
    /// What the reminders that go off say, `None` where there are none.
    pub says: Option<String>,
    /// How many go off.
    pub count: usize,
}

/// Looks at the reminders: those of other days are forgotten, the due ones are
/// noted, and what they say is returned.
pub fn check_reminders(todos: &TodoStore, triggered: &mut Triggered, now: Moment) -> (found:
    Announcement)
    requires
        todos.wf(),
        old(triggered).wf(),
        now.valid(),
    ensures
        final(triggered).wf(),
        final(triggered)@ == triggered_after(todos@, old(triggered)@, now),
        found.count == going_off(todos@, old(triggered)@, now).len(),
        match found.says {
            Some(m) => going_off(todos@, old(triggered)@, now).len() > 0 && m@ == due_message(
                going_off(todos@, old(triggered)@, now),
            ),
            None => going_off(todos@, old(triggered)@, now).len() == 0,
        },
{
    let key = date::date_key(now.date);
    triggered.retain_prefix(key.as_str());
    let ghost kept = triggered@;
    let list = due_reminders(todos, triggered, now);
    let ghost views = due_views(list@);
    let ghost ids = views.map_values(|d: DueView| d.trigger_id);
    let ghost lines = views.map_values(|d: DueView| d.message);
    let mut says = String::new();
    let mut i: usize = 0;
    proof {
        assert(kept =~= of_day(old(triggered)@, key@));
        assert(kept + ids.take(0).to_set() =~= kept);
        assert(text::join(lines.take(0), seq!['\n']) =~= Seq::<char>::empty());
    }
    while i < list.len()
        invariant
            i <= list@.len(),
            views == due_views(list@),
            ids == views.map_values(|d: DueView| d.trigger_id),
            lines == views.map_values(|d: DueView| d.message),
            triggered.wf(),
            triggered@ == kept + ids.take(i as int).to_set(),
            says@ == text::join(lines.take(i as int), seq!['\n']),
        decreases list@.len() - i,
    {
        proof {
            let part = ids.take(i as int);
            let longer = ids.take(i + 1);
            assert(longer =~= part.push(ids[i as int]));
            assert(kept + longer.to_set() =~= (kept + part.to_set()).insert(ids[i as int])) by {
                assert forall|x: Seq<char>| #[trigger] longer.to_set().contains(x)
                    <==> part.to_set().insert(ids[i as int]).contains(x) by {
                    if part.contains(x) {
                        let k = part.index_of(x);
                        assert(longer[k] == x);
                    }
                    assert(longer[i as int] == ids[i as int]);
                }
            }
            assert(lines.take(i + 1).drop_last() =~= lines.take(i as int));
            assert(lines.take(i + 1).last() == lines[i as int]);
        }
        triggered.insert(list[i].trigger_id.clone());
        if i > 0 {
            says.push('\n');
        }
        text::push_text(&mut says, list[i].message.as_str());
        proof {
            assert(says@ =~= text::join(lines.take(i + 1), seq!['\n']));
        }
        i += 1;
    }
    proof {
        assert(ids.take(i as int) =~= ids);
        assert(lines.take(i as int) =~= lines);
    }
    let count: usize = list.len();
    if count == 0 {
        Announcement { says: None, count }
    } else {
        Announcement { says: Some(says), count }
    }
}

// ---------------------------------------------------------------------------
// What holds of reminders

/// The identity of a reminder begins with the key of its day.
proof fn lemma_id_has_key(key: Seq<char>, reminder: PendingView)
    ensures
        text::has_prefix(trigger_id(key, reminder), key),
{
    assert(trigger_id(key, reminder).take(key.len() as int) =~= key);
}

/// A due reminder comes from a pending one whose time has come and that has not gone off.
proof fn lemma_due_origin(
    reminders: Seq<PendingView>,
    key: Seq<char>,
    triggered: Set<Seq<char>>,
    now: int,
    i: int,
) -> (k: int)
    requires
        0 <= i < due(reminders, key, triggered, now).len(),
    ensures
        0 <= k < reminders.len(),
        is_due(reminders[k], key, triggered, now),
        due(reminders, key, triggered, now)[i].trigger_id == trigger_id(key, reminders[k]),
        due(reminders, key, triggered, now)[i].message == message(reminders[k]),
{
    let pred = |r: PendingView| is_due(r, key, triggered, now);
    let kept = reminders.filter(pred);
    reminders.lemma_filter_pred(pred, i);
    assert(kept.contains(kept[i]));
    reminders.lemma_filter_contains_rev(pred, kept[i]);
    reminders.index_of(kept[i])
}

/// A pending reminder whose time has come is among the due ones, unless it has gone off.
proof fn lemma_due_complete(
    reminders: Seq<PendingView>,
    key: Seq<char>,
    triggered: Set<Seq<char>>,
    now: int,
    k: int,
)
    requires
        0 <= k < reminders.len(),
        is_due(reminders[k], key, triggered, now),
    ensures
        due_ids(due(reminders, key, triggered, now)).contains(trigger_id(key, reminders[k])),
{
    let pred = |r: PendingView| is_due(r, key, triggered, now);
    let list = due(reminders, key, triggered, now);
    let ids = list.map_values(|d: DueView| d.trigger_id);
    assert(pred(reminders[k]));
    reminders.lemma_filter_contains(pred, k);
    let j = reminders.filter(pred).index_of(reminders[k]);
    assert(ids[j] == trigger_id(key, reminders[k]));
}

/// A reminder that has gone off does not go off again on that day, whatever
/// has become of the lists and however late it is.
pub proof fn no_reminder_goes_off_twice(
    store: Map<Seq<char>, Seq<TodoView>>,
    triggered: Set<Seq<char>>,
    now: Moment,
    later_store: Map<Seq<char>, Seq<TodoView>>,
    later: Moment,
)
    requires
        now.date == later.date,
    ensures
        ({
            let first = going_off(store, triggered, now);
            let second = going_off(later_store, triggered_after(store, triggered, now), later);
            forall|i: int|
                0 <= i < second.len() ==> !due_ids(first).contains(
                    (#[trigger] second[i]).trigger_id,
                )
        }),
{
    let key = date::key_text(now.date);
    let first = going_off(store, triggered, now);
    let noted = triggered_after(store, triggered, now);
    let second = going_off(later_store, noted, later);
    let reminders = pending(models::list_at(later_store, key));
    let old_reminders = pending(models::list_at(store, key));
    let first_ids = first.map_values(|d: DueView| d.trigger_id);
    assert forall|i: int| 0 <= i < second.len() implies !due_ids(first).contains(
        (#[trigger] second[i]).trigger_id,
    ) by {
        let k = lemma_due_origin(reminders, key, of_day(noted, key), later.seconds(), i);
        let id = trigger_id(key, reminders[k]);
        if due_ids(first).contains(id) {
            let j = first_ids.index_of(id);
            let o = lemma_due_origin(
                old_reminders,
                key,
                of_day(triggered, key),
                now.seconds(),
                j,
            );
            assert(first_ids[j] == first[j].trigger_id);
            lemma_id_has_key(key, old_reminders[o]);
            assert(noted.contains(id));
            assert(of_day(noted, key).contains(id));
        }
    }
}

/// After the reminders have been looked at, a second look at the same moment finds nothing.
pub proof fn second_look_finds_nothing(
    store: Map<Seq<char>, Seq<TodoView>>,
    triggered: Set<Seq<char>>,
    now: Moment,
)
    ensures
        going_off(store, triggered_after(store, triggered, now), now).len() == 0,
{
    let key = date::key_text(now.date);
    let reminders = pending(models::list_at(store, key));
    let noted = triggered_after(store, triggered, now);
    let second = going_off(store, noted, now);
    if second.len() > 0 {
        let k = lemma_due_origin(reminders, key, of_day(noted, key), now.seconds(), 0);
        let id = trigger_id(key, reminders[k]);
        lemma_id_has_key(key, reminders[k]);
        assert(!noted.contains(id)) by {
            if noted.contains(id) {
                assert(of_day(noted, key).contains(id));
            }
        }
        if !of_day(triggered, key).contains(id) {
            lemma_due_complete(reminders, key, of_day(triggered, key), now.seconds(), k);
        }
        assert(noted.contains(id));
    }
}

/// What goes off is an item of the day that is not done, at its time or after it.
pub proof fn only_open_items_go_off(
    store: Map<Seq<char>, Seq<TodoView>>,
    triggered: Set<Seq<char>>,
    now: Moment,
    i: int,
)
    requires
        0 <= i < going_off(store, triggered, now).len(),
    ensures
        exists|k: int|
            {
                &&& 0 <= k < models::list_at(store, date::key_text(now.date)).len()
                &&& is_pending(#[trigger] models::list_at(store, date::key_text(now.date))[k])
                &&& reminder_of(models::list_at(store, date::key_text(now.date))[k]).seconds
                    <= now.seconds()
                &&& going_off(store, triggered, now)[i].trigger_id == trigger_id(
                    date::key_text(now.date),
                    reminder_of(models::list_at(store, date::key_text(now.date))[k]),
                )
            },
{
    let key = date::key_text(now.date);
    let items = models::list_at(store, key);
    let p = lemma_due_origin(pending(items), key, of_day(triggered, key), now.seconds(), i);
    let form = TimeForm::Seconds;
    let pred = |item: TodoView| waits(form, item);
    let kept = items.filter(pred);
    items.lemma_filter_pred(pred, p);
    assert(kept.contains(kept[p]));
    items.lemma_filter_contains_rev(pred, kept[p]);
    let k = items.index_of(kept[p]);
    assert(is_pending(items[k]));
}

/// Every item that is not done has gone off once its time has come and the
/// reminders have been looked at.
pub proof fn no_open_item_is_missed(
    store: Map<Seq<char>, Seq<TodoView>>,
    triggered: Set<Seq<char>>,
    now: Moment,
    k: int,
)
    requires
        0 <= k < models::list_at(store, date::key_text(now.date)).len(),
        is_pending(models::list_at(store, date::key_text(now.date))[k]),
        reminder_of(models::list_at(store, date::key_text(now.date))[k]).seconds <= now.seconds(),
    ensures
        triggered_after(store, triggered, now).contains(
            trigger_id(
                date::key_text(now.date),
                reminder_of(models::list_at(store, date::key_text(now.date))[k]),
            ),
        ),
{
    let key = date::key_text(now.date);
    let items = models::list_at(store, key);
    let form = TimeForm::Seconds;
    let pred = |item: TodoView| waits(form, item);
    assert(pred(items[k]));
    items.lemma_filter_contains(pred, k);
    let p = items.filter(pred).index_of(items[k]);
    let reminders = pending(items);
    assert(reminders[p] == reminder_of(items[k]));
    let id = trigger_id(key, reminders[p]);
    if !of_day(triggered, key).contains(id) {
        lemma_due_complete(reminders, key, of_day(triggered, key), now.seconds(), p);
    }
}

/// A time of day is written with two digits each for hour, minute and second,
/// in this order, and colons between.
pub proof fn times_are_written_in_full(hour: int, minute: int, second: int)
    requires
        0 <= hour < 100,
        0 <= minute < 100,
        0 <= second < 100,
    ensures
        hms_text(hour, minute, second) == seq![
            (48 + hour / 10) as char,
            (48 + hour % 10) as char,
            ':',
            (48 + minute / 10) as char,
            (48 + minute % 10) as char,
            ':',
            (48 + second / 10) as char,
            (48 + second % 10) as char,
        ],
{
    text::two_digits_are_tens_and_ones(hour as nat);
    text::two_digits_are_tens_and_ones(minute as nat);
    text::two_digits_are_tens_and_ones(second as nat);
    assert(hms_text(hour, minute, second) =~= seq![
        (48 + hour / 10) as char,
        (48 + hour % 10) as char,
        ':',
        (48 + minute / 10) as char,
        (48 + minute % 10) as char,
        ':',
        (48 + second / 10) as char,
        (48 + second % 10) as char,
    ]);
}

/// A time of day is read by its parts between colons: first the hour, then the
/// minute, then the second, which may be left out. Fewer parts, more parts, a
/// part that is no number, and an hour, minute or second that no day has give
/// no time.
pub proof fn times_are_read_by_their_parts(
    h: Seq<char>,
    m: Seq<char>,
    s: Seq<char>,
    rest: Seq<char>,
)
    requires
        !h.contains(':'),
        !m.contains(':'),
        !s.contains(':'),
    ensures
        hms_seconds(h) is None,
        match (text::unsigned_value(h), text::unsigned_value(m)) {
            (Some(a), Some(b)) => hms_seconds(h.push(':') + m) == (if a <= 23 && b <= 59 {
                Some(((a * 60 + b) * 60) as nat)
            } else {
                None
            }),
            _ => hms_seconds(h.push(':') + m) is None,
        },
        match (text::unsigned_value(h), text::unsigned_value(m), text::unsigned_value(s)) {
            (Some(a), Some(b), Some(c)) => hms_seconds(h.push(':') + (m.push(':') + s)) == (if a
                <= 23 && b <= 59 && c <= 59 {
                Some(((a * 60 + b) * 60 + c) as nat)
            } else {
                None
            }),
            _ => hms_seconds(h.push(':') + (m.push(':') + s)) is None,
        },
        hms_seconds(h.push(':') + (m.push(':') + (s.push(':') + rest))) is None,
{
    lemma_no_colon(h);
    lemma_no_colon(m);
    lemma_no_colon(s);
    let none = Seq::<char>::empty();
    text::lemma_split_on_concat(h, m, ':');
    text::lemma_split_on_concat(m, s, ':');
    text::lemma_split_on_concat(s, none, ':');
    text::lemma_split_on_concat(h, m.push(':') + s, ':');
    text::lemma_split_on_concat(s, rest, ':');
    text::lemma_split_on_concat(m, s.push(':') + rest, ':');
    text::lemma_split_on_concat(h, m.push(':') + (s.push(':') + rest), ':');
    assert(text::split_on(h.push(':') + m, ':') =~= seq![h, m]);
    assert(text::split_on(h.push(':') + (m.push(':') + s), ':') =~= seq![h, m, s]);
    text::split_parts_join_again(rest, ':');
}

proof fn lemma_no_colon(s: Seq<char>)
    requires
        !s.contains(':'),
    ensures
        forall|i: int| 0 <= i < s.len() ==> #[trigger] s[i] != ':',
{
}

/// Only an item that is not done and has a time that can be read is waited for,
/// with its own text and time, and in the order of the list.
pub proof fn only_open_items_are_waited_for(
    form: TimeForm,
    items: Seq<TodoView>,
    item: TodoView,
)
    ensures
        reminders_in(form, Seq::<TodoView>::empty()) == Seq::<PendingView>::empty(),
        item.done ==> reminders_in(form, items.push(item)) == reminders_in(form, items),
        item.remind_at is None ==> reminders_in(form, items.push(item)) == reminders_in(form, items),
        item.remind_at matches Some(at) ==> match time_seconds(form, at) {
            Some(n) => !item.done ==> reminders_in(form, items.push(item)) == reminders_in(
                form,
                items,
            ).push(PendingView { text: item.text, remind_at: at, seconds: n }),
            None => reminders_in(form, items.push(item)) == reminders_in(form, items),
        },
        pending(items) == reminders_in(TimeForm::Seconds, items),
        forall|at: Seq<char>| #[trigger]
            time_seconds(TimeForm::Seconds, at) == hms_seconds(at),
        forall|at: Seq<char>| #[trigger]
            time_seconds(TimeForm::Minutes, at) == minute_reminder::hhmm_seconds(at),
{
    let longer = items.push(item);
    let n = items.len() as int;
    lemma_reminders_step(form, longer, n);
    assert(longer.take(n + 1) =~= longer);
    assert(longer.take(n) =~= items);
    reveal(Seq::filter);
    assert(reminders_in(form, Seq::<TodoView>::empty()) =~= Seq::<PendingView>::empty());
}

/// Where everything is done, nothing is waited for.
pub proof fn finished_lists_are_silent(form: TimeForm, items: Seq<TodoView>)
    requires
        forall|i: int| 0 <= i < items.len() ==> (#[trigger] items[i]).done,
    ensures
        reminders_in(form, items).len() == 0,
        pending(items).len() == 0,
    decreases items.len(),
{
    if items.len() == 0 {
        assert(items =~= Seq::<TodoView>::empty());
        only_open_items_are_waited_for(form, items, arbitrary());
        only_open_items_are_waited_for(TimeForm::Seconds, items, arbitrary());
    } else {
        let shorter = items.drop_last();
        assert forall|i: int| 0 <= i < shorter.len() implies (#[trigger] shorter[i]).done by {
            assert(shorter[i] == items[i]);
        }
        finished_lists_are_silent(form, shorter);
        assert(items[items.len() - 1].done);
        assert(shorter.push(items.last()) =~= items);
        only_open_items_are_waited_for(form, shorter, items.last());
        only_open_items_are_waited_for(TimeForm::Seconds, shorter, items.last());
    }
}

/// Whether an item of today's list goes off: it is not done, its time can be
/// read and has come, and no reminder with its text and time has gone off today.
pub proof fn what_goes_off_today(
    store: Map<Seq<char>, Seq<TodoView>>,
    triggered: Set<Seq<char>>,
    now: Moment,
    items: Seq<TodoView>,
    item: TodoView,
)
    ensures
        ({
            let key = date::key_text(now.date);
            let before = going_off(store.insert(key, items), triggered, now);
            let after = going_off(store.insert(key, items.push(item)), triggered, now);
            &&& going_off(store.insert(key, Seq::empty()), triggered, now).len() == 0
            &&& !store.contains_key(key) ==> going_off(store, triggered, now).len() == 0
            &&& item.done ==> after == before
            &&& item.remind_at is None ==> after == before
            &&& item.remind_at matches Some(at) ==> {
                let id = key + seq!['|'] + item.text + seq!['|'] + at;
                match hms_seconds(at) {
                    None => after == before,
                    Some(n) => {
                        let come = n <= (now.hour * 60 + now.minute) * 60 + now.second;
                        &&& !come ==> after == before
                        &&& triggered.contains(id) ==> after == before
                        &&& !item.done && come && !triggered.contains(id) ==> after == before.push(
                            DueView {
                                trigger_id: id,
                                message: item.text + seq!['（'] + at + seq!['）'],
                            },
                        )
                    },
                }
            }
        }),
{
    let key = date::key_text(now.date);
    let known = of_day(triggered, key);
    only_open_items_are_waited_for(TimeForm::Seconds, items, item);
    let short = pending(items);
    let long = pending(items.push(item));
    reveal(Seq::filter);
    assert(due(Seq::<PendingView>::empty(), key, known, now.seconds()) =~= Seq::<DueView>::empty());
    if long.len() == short.len() + 1 {
        let n = short.len() as int;
        lemma_due_step(long, key, known, now.seconds(), n);
        assert(long.take(n + 1) =~= long);
        assert(long.take(n) =~= short);
        lemma_id_has_key(key, long[n]);
        assert(known.contains(trigger_id(key, long[n])) <==> triggered.contains(
            trigger_id(key, long[n]),
        ));
    }
}

/// What goes off depends on today's list alone.
pub proof fn other_days_do_not_go_off(
    store: Map<Seq<char>, Seq<TodoView>>,
    other: Map<Seq<char>, Seq<TodoView>>,
    triggered: Set<Seq<char>>,
    now: Moment,
)
    requires
        store.contains_key(date::key_text(now.date)),
        other.contains_key(date::key_text(now.date)),
        store[date::key_text(now.date)] == other[date::key_text(now.date)],
    ensures
        going_off(store, triggered, now) == going_off(other, triggered, now),
        delay_at(store, now) == delay_at(other, now),
{
}

/// Each reminder that goes off is one of an item of today's list that is not
/// done, whose time has come and that has not gone off before; it says the text
/// and the time of that item.
pub proof fn only_items_not_done_go_off(
    store: Map<Seq<char>, Seq<TodoView>>,
    triggered: Set<Seq<char>>,
    now: Moment,
    i: int,
)
    requires
        0 <= i < going_off(store, triggered, now).len(),
    ensures
        store.contains_key(date::key_text(now.date)),
        exists|k: int|
            #![trigger store[date::key_text(now.date)][k]]
            {
                let key = date::key_text(now.date);
                let item = store[key][k];
                &&& 0 <= k < store[key].len()
                &&& item.done == false
                &&& item.remind_at is Some
                &&& hms_seconds(item.remind_at->0) is Some
                &&& hms_seconds(item.remind_at->0)->0 <= (now.hour * 60 + now.minute) * 60
                    + now.second
                &&& going_off(store, triggered, now)[i].trigger_id == key + seq!['|'] + item.text
                    + seq!['|'] + item.remind_at->0
                &&& going_off(store, triggered, now)[i].message == item.text + seq!['（']
                    + item.remind_at->0 + seq!['）']
                &&& !triggered.contains(going_off(store, triggered, now)[i].trigger_id)
            },
{
    let key = date::key_text(now.date);
    let items = models::list_at(store, key);
    let p = lemma_due_origin(pending(items), key, of_day(triggered, key), now.seconds(), i);
    let form = TimeForm::Seconds;
    let pred = |item: TodoView| waits(form, item);
    let kept = items.filter(pred);
    items.lemma_filter_pred(pred, p);
    assert(kept.contains(kept[p]));
    items.lemma_filter_contains_rev(pred, kept[p]);
    let k = items.index_of(kept[p]);
    assert(pending(items)[p] == reminder_of(items[k]));
    lemma_id_has_key(key, pending(items)[p]);
    assert(store[key][k] == items[k]);
}

/// What has gone off once the reminders were looked at: what had gone off today
/// before, and what goes off now.
pub proof fn what_has_gone_off_is_noted(
    store: Map<Seq<char>, Seq<TodoView>>,
    triggered: Set<Seq<char>>,
    now: Moment,
    id: Seq<char>,
)
    ensures
        ({
            let key = date::key_text(now.date);
            let list = going_off(store, triggered, now);
            triggered_after(store, triggered, now).contains(id) <==> {
                ||| triggered.contains(id) && key.len() <= id.len() && id.take(key.len() as int)
                    == key
                ||| exists|i: int| 0 <= i < list.len() && (#[trigger] list[i]).trigger_id == id
            }
        }),
{
    let list = going_off(store, triggered, now);
    let ids = list.map_values(|d: DueView| d.trigger_id);
    if ids.contains(id) {
        let i = ids.index_of(id);
        assert(list[i].trigger_id == id);
    }
    if exists|i: int| 0 <= i < list.len() && (#[trigger] list[i]).trigger_id == id {
        let i = choose|i: int| 0 <= i < list.len() && (#[trigger] list[i]).trigger_id == id;
        assert(ids[i] == id);
    }
}

/// What due reminders say: one line for each, in their order.
pub proof fn due_reminders_have_a_line_each(list: Seq<DueView>, found: DueView)
    ensures
        due_message(Seq::<DueView>::empty()).len() == 0,
        due_message(seq![found]) == found.message,
        list.len() > 0 ==> due_message(list.push(found)) == due_message(list) + seq!['\n']
            + found.message,
{
    let lines = list.map_values(|d: DueView| d.message);
    let one = seq![found].map_values(|d: DueView| d.message);
    assert(one =~= seq![found.message]);
    assert(list.push(found).map_values(|d: DueView| d.message) =~= lines.push(found.message));
    text::parts_are_joined_in_order(lines, found.message, seq!['\n']);
    assert(Seq::<DueView>::empty().map_values(|d: DueView| d.message) =~= Seq::<
        Seq<char>,
    >::empty());
}

/// How long may be waited: thirty seconds, and less where an item of today that
/// is not done has its time before that. What is done is not waited for.
pub proof fn how_long_may_be_waited(
    store: Map<Seq<char>, Seq<TodoView>>,
    now: Moment,
    items: Seq<TodoView>,
    item: TodoView,
)
    ensures
        ({
            let key = date::key_text(now.date);
            let before = delay_at(store.insert(key, items), now);
            let after = delay_at(store.insert(key, items.push(item)), now);
            &&& delay_at(store.insert(key, Seq::empty()), now) == 30
            &&& !store.contains_key(key) ==> delay_at(store, now) == 30
            &&& item.done ==> after == before
            &&& item.remind_at is None ==> after == before
            &&& item.remind_at matches Some(at) ==> match hms_seconds(at) {
                None => after == before,
                Some(n) => {
                    let left = n - ((now.hour * 60 + now.minute) * 60 + now.second);
                    &&& left <= 0 || left >= before ==> after == before
                    &&& !item.done && 0 < left < before ==> after == left
                },
            }
        }),
{
    only_open_items_are_waited_for(TimeForm::Seconds, items, item);
    let short = pending(items);
    let long = pending(items.push(item));
    if long.len() == short.len() + 1 {
        assert(long.drop_last() =~= short);
    }
}

} // verus!
