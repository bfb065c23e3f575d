//! The to-do items and the store that keeps them by day.

use vstd::prelude::*;

use crate::text;

verus! {

/// One thing to do, with the time of day at which to remind of it.
pub struct TodoItem {
    pub text: String,
    pub done: bool,
    pub remind_at: Option<String>,
}

/// What an item holds.
#[verifier::ext_equal]
pub struct TodoView {
    pub text: Seq<char>,
    pub done: bool,
    pub remind_at: Option<Seq<char>>,
}

/// The characters of an optional text.
pub open spec fn text_view(text: Option<String>) -> Option<Seq<char>> {
    match text {
        Some(t) => Some(t@),
        None => None,
    }
}

/// A copy of an optional text.
pub fn copy_optional(text: &Option<String>) -> (copy: Option<String>)
    ensures
        text_view(copy) == text_view(*text),
{
    match text {
        Some(t) => Some(text::copy_text(t.as_str())),
        None => None,
    }
}

impl View for TodoItem {
    type V = TodoView;

    open spec fn view(&self) -> TodoView {
        TodoView { text: self.text@, done: self.done, remind_at: text_view(self.remind_at) }
    }
}

/// What a list of items holds.
pub open spec fn items_view(items: Seq<TodoItem>) -> Seq<TodoView> {
    items.map_values(|item: TodoItem| item@)
}

/// The items that are not done, in their order.
pub open spec fn open_items(items: Seq<TodoView>) -> Seq<TodoView> {
    items.filter(|item: TodoView| !item.done)
}

/// The list under `key`, empty where there is none.
pub open spec fn list_at(store: Map<Seq<char>, Seq<TodoView>>, key: Seq<char>) -> Seq<TodoView> {
    if store.contains_key(key) {
        store[key]
    } else {
        Seq::empty()
    }
}

/// A copy of a list of items.
fn copy_items(items: &Vec<TodoItem>) -> (copy: Vec<TodoItem>)
    ensures
        items_view(copy@) == items_view(items@),
{
    let mut copy: Vec<TodoItem> = Vec::new();
    let mut i: usize = 0;
    while i < items.len()
        invariant
            i <= items@.len(),
            items_view(copy@) == items_view(items@).take(i as int),
        decreases items@.len() - i,
    {
        let item = &items[i];
        let ghost before = copy@;
        let same = TodoItem {
            text: text::copy_text(item.text.as_str()),
            done: item.done,
            remind_at: copy_optional(&item.remind_at),
        };
        copy.push(same);
        proof {
            assert(items_view(copy@) =~= items_view(before).push(same@));
            assert(items_view(items@).take(i + 1) =~= items_view(items@).take(i as int).push(
                items@[i as int]@,
            ));
        }
        i += 1;
    }
    proof {
        assert(items_view(items@).take(i as int) =~= items_view(items@));
    }
    copy
}

/// The list of one day.
pub struct Day {
    pub key: String,
    pub items: Vec<TodoItem>,
}

/// What the list of one day holds.
#[verifier::ext_equal]
pub struct DayView {
    pub key: Seq<char>,
    pub items: Seq<TodoView>,
}

impl View for Day {
    type V = DayView;

    open spec fn view(&self) -> DayView {
        DayView { key: self.key@, items: items_view(self.items@) }
    }
}

/// What the lists of several days hold.
pub open spec fn days_view(days: Seq<Day>) -> Seq<DayView> {
    days.map_values(|day: Day| day@)
}

/// The lists of several days, each under its key; of two under one key the later one counts.
pub open spec fn gathered(days: Seq<DayView>) -> Map<Seq<char>, Seq<TodoView>>
    decreases days.len(),
{
    if days.len() == 0 {
        Map::empty()
    } else {
        gathered(days.drop_last()).insert(days.last().key, days.last().items)
    }
}

/// Texts that stand in their order stand in no other order.
proof fn lemma_one_order(a: Seq<Seq<char>>, b: Seq<Seq<char>>)
    requires
        forall|i: int, j: int|
            0 <= i < j < a.len() ==> text::text_before(#[trigger] a[i], #[trigger] a[j]),
        forall|i: int, j: int|
            0 <= i < j < b.len() ==> text::text_before(#[trigger] b[i], #[trigger] b[j]),
        forall|key: Seq<char>|
            #![trigger a.contains(key)]
            #![trigger b.contains(key)]
            a.contains(key) <==> b.contains(key),
    ensures
        a == b,
    decreases a.len(),
{
    if a.len() == 0 {
        if b.len() > 0 {
            assert(b.contains(b[0]));
        }
        assert(a =~= b);
    } else {
        assert(a.contains(a.last()));
        assert(b.len() > 0);
        assert(b.contains(b.last()));
        let i = b.index_of(a.last());
        let j = a.index_of(b.last());
        text::text_order_is_total(a.last(), b.last());
        assert(a.last() == b.last()) by {
            if a.last() != b.last() {
                assert(text::text_before(b[i], b[b.len() - 1]));
                assert(text::text_before(a[j], a[a.len() - 1]));
            }
        }
        let c = a.drop_last();
        let d = b.drop_last();
        assert forall|key: Seq<char>| #[trigger] c.contains(key) <==> d.contains(key) by {
            text::text_order_is_total(key, a.last());
            if c.contains(key) {
                let k = c.index_of(key);
                assert(a[k] == key);
                assert(text::text_before(a[k], a[a.len() - 1]));
                assert(b.contains(key));
                let m = b.index_of(key);
                assert(d[m] == key);
            }
            if d.contains(key) {
                let k = d.index_of(key);
                assert(b[k] == key);
                assert(text::text_before(b[k], b[b.len() - 1]));
                assert(a.contains(key));
                let m = a.index_of(key);
                assert(c[m] == key);
            }
        }
        lemma_one_order(c, d);
        assert(a =~= c.push(a.last()));
        assert(b =~= d.push(b.last()));
    }
}

/// The lists of all days, each under its key, in the order of the keys.
pub struct TodoStore {
    days: Vec<Day>,
}

impl View for TodoStore {
    type V = Map<Seq<char>, Seq<TodoView>>;

    closed spec fn view(&self) -> Map<Seq<char>, Seq<TodoView>> {
        Map::new(
            |key: Seq<char>| self.keys().contains(key),
            |key: Seq<char>| items_view(self.days@[self.keys().index_of(key)].items@),
        )
    }
}

impl TodoStore {
    /// The keys of the days, in the order in which they are kept.
    pub closed spec fn keys(self) -> Seq<Seq<char>> {
        self.days@.map_values(|day: Day| day.key@)
    }

    /// Every key stands before all that follow it, so none occurs twice.
    pub open spec fn wf(self) -> bool {
        forall|i: int, j: int|
            0 <= i < j < self.keys().len() ==> text::text_before(
                #[trigger] self.keys()[i],
                #[trigger] self.keys()[j],
            )
    }

    proof fn lemma_at(self, i: int)
        requires
            self.wf(),
            0 <= i < self.days@.len(),
        ensures
            self.keys().len() == self.days@.len(),
            self.keys()[i] == self.days@[i].key@,
            self@.contains_key(self.days@[i].key@),
            self@[self.days@[i].key@] == items_view(self.days@[i].items@),
    {
        let key = self.days@[i].key@;
        assert(self.keys()[i] == key);
        assert(self.keys().contains(key));
        let j = self.keys().index_of(key);
        assert(self.keys()[j] == key);
        text::text_order_is_total(key, key);
        if i < j {
            assert(text::text_before(self.keys()[i], self.keys()[j]));
        }
        if j < i {
            assert(text::text_before(self.keys()[j], self.keys()[i]));
        }
    }

    /// Where only the list at one place differs, the keys are the same and the
    /// store holds that list under its key.
    proof fn lemma_list_changed(self, after: TodoStore, at: int)
        requires
            self.wf(),
            0 <= at < self.days@.len(),
            after.days@.len() == self.days@.len(),
            after.days@[at].key@ == self.days@[at].key@,
            forall|i: int|
                0 <= i < self.days@.len() && i != at ==> #[trigger] after.days@[i] == self.days@[i],
        ensures
            after.wf(),
            after.keys() == self.keys(),
            after@ == self@.insert(self.days@[at].key@, items_view(after.days@[at].items@)),
    {
        assert(after.keys() =~= self.keys());
        let key = self.days@[at].key@;
        after.lemma_at(at);
        self.lemma_at(at);
        assert forall|k: Seq<char>| self@.contains_key(k) && k != key implies after@[k]
            == self@[k] by {
            let j = self.keys().index_of(k);
            assert(self.keys()[j] == k);
        }
        assert(after@ =~= self@.insert(key, items_view(after.days@[at].items@)));
    }

    /// Where one day was added at its place in the order, the store holds its
    /// list besides all the others.
    proof fn lemma_day_added(self, after: TodoStore, at: int)
        requires
            self.wf(),
            0 <= at <= self.days@.len(),
            after.days@.len() == self.days@.len() + 1,
            after.days@ == self.days@.insert(at, after.days@[at]),
            !self.keys().contains(after.days@[at].key@),
            forall|i: int|
                0 <= i < at ==> text::text_before(
                    #[trigger] self.days@[i].key@,
                    after.days@[at].key@,
                ),
            forall|i: int|
                at <= i < self.days@.len() ==> text::text_before(
                    after.days@[at].key@,
                    #[trigger] self.days@[i].key@,
                ),
        ensures
            after.wf(),
            after@ == self@.insert(after.days@[at].key@, items_view(after.days@[at].items@)),
    {
        let key = after.days@[at].key@;
        assert(after.keys() =~= self.keys().insert(at, key));
        assert forall|i: int, j: int| 0 <= i < j < after.keys().len() implies text::text_before(
            #[trigger] after.keys()[i],
            #[trigger] after.keys()[j],
        ) by {
            let oi = if i < at { i } else { i - 1 };
            let oj = if j < at { j } else { j - 1 };
            if i == at {
                assert(after.keys()[j] == self.days@[oj].key@);
            } else if j == at {
                assert(after.keys()[i] == self.days@[oi].key@);
            } else {
                assert(after.keys()[i] == self.keys()[oi]);
                assert(after.keys()[j] == self.keys()[oj]);
            }
        }
        assert forall|k: Seq<char>| #[trigger] after@.contains_key(k) <==> self@.contains_key(k)
            || k == key by {
            if self.keys().contains(k) {
                let i = self.keys().index_of(k);
                let moved = if i < at { i } else { i + 1 };
                assert(after.keys()[moved] == k);
            }
            if k == key {
                assert(after.keys()[at] == k);
            }
            if after.keys().contains(k) && k != key {
                let i = after.keys().index_of(k);
                let oi = if i < at { i } else { i - 1 };
                assert(self.keys()[oi] == k);
            }
        }
        assert forall|k: Seq<char>| self@.contains_key(k) implies after@[k] == self@[k] by {
            let i = self.keys().index_of(k);
            self.lemma_at(i);
            let moved = if i < at { i } else { i + 1 };
            assert(after.days@[moved] == self.days@[i]);
            after.lemma_at(moved);
        }
        after.lemma_at(at);
        assert(after@ =~= self@.insert(key, items_view(after.days@[at].items@)));
    }

    /// A store without any day.
    pub fn new() -> (store: TodoStore)
        ensures
            store.wf(),
            store@ == Map::<Seq<char>, Seq<TodoView>>::empty(),
            store.keys() == Seq::<Seq<char>>::empty(),
    {
        let store = TodoStore { days: Vec::new() };
        proof {
            assert(store.keys() =~= Seq::<Seq<char>>::empty());
            assert(store@ =~= Map::<Seq<char>, Seq<TodoView>>::empty());
        }
        store
    }

    /// Where `key` stands, or where it would have to stand.
    fn position(&self, key: &str) -> (found: (usize, bool))
        requires
            self.wf(),
        ensures
            found.0 <= self.days@.len(),
            found.1 ==> found.0 < self.days@.len() && self.days@[found.0 as int].key@ == key@,
            !found.1 ==> !self.keys().contains(key@),
            forall|i: int|
                0 <= i < found.0 ==> text::text_before(#[trigger] self.days@[i].key@, key@),
            !found.1 ==> forall|i: int|
                found.0 <= i < self.days@.len() ==> text::text_before(
                    key@,
                    #[trigger] self.days@[i].key@,
                ),
    {
        let mut at: usize = 0;
        while at < self.days.len() && text::is_before(self.days[at].key.as_str(), key)
            invariant
                at <= self.days@.len(),
                forall|i: int|
                    0 <= i < at ==> text::text_before(#[trigger] self.days@[i].key@, key@),
            decreases self.days@.len() - at,
        {
            at += 1;
        }
        proof {
            assert forall|i: int| 0 <= i < at implies #[trigger] self.days@[i].key@ != key@ by {
                text::text_order_is_total(self.days@[i].key@, key@);
            }
        }
        if at < self.days.len() {
            if text::same_text(self.days[at].key.as_str(), key) {
                return (at, true);
            }
            proof {
                text::text_order_is_total(self.days@[at as int].key@, key@);
                assert forall|i: int| at <= i < self.days@.len() implies text::text_before(
                    key@,
                    #[trigger] self.days@[i].key@,
                ) by {
                    if at < i {
                        assert(text::text_before(self.keys()[at as int], self.keys()[i]));
                        text::text_order_is_transitive(
                            key@,
                            self.days@[at as int].key@,
                            self.days@[i].key@,
                        );
                    }
                }
                assert forall|i: int| at <= i < self.days@.len() implies #[trigger] self.days@[i].key@
                    != key@ by {
                    text::text_order_is_total(key@, self.days@[i].key@);
                }
            }
        }
        proof {
            if self.keys().contains(key@) {
                let i = self.keys().index_of(key@);
                assert(self.keys()[i] == self.days@[i].key@);
            }
        }
        (at, false)
    }

    /// The list under `key`, if there is one.
    pub fn get(&self, key: &str) -> (items: Option<&Vec<TodoItem>>)
        requires
            self.wf(),
        ensures
            match items {
                Some(list) => self@.contains_key(key@) && items_view(list@) == self@[key@],
                None => !self@.contains_key(key@),
            },
    {
        let (at, found) = self.position(key);
        if found {
            proof {
                self.lemma_at(at as int);
            }
            Some(&self.days[at].items)
        } else {
            None
        }
    }

    /// The list under `key` for change, if there is one. No other list changes.
    pub fn get_mut(&mut self, key: &str) -> (items: Option<&mut Vec<TodoItem>>)
        requires
            old(self).wf(),
        ensures
            final(self).wf(),
            final(self).keys() == old(self).keys(),
            match items {
                Some(list) => {
                    &&& old(self)@.contains_key(key@)
                    &&& items_view(list@) == old(self)@[key@]
                    &&& final(self)@ == old(self)@.insert(key@, items_view(final(list)@))
                },
                None => !old(self)@.contains_key(key@) && *final(self) == *old(self),
            },
    {
        let (at, found) = self.position(key);
        if found {
            proof {
                self.lemma_at(at as int);
            }
            let ghost before = *self;
            let ghost after = *final(self);
            let list = &mut self.days[at].items;
            proof {
                before.lemma_list_changed(after, at as int);
            }
            Some(list)
        } else {
            None
        }
    }

    /// Keeps `items` under `key`, in place of any list that was there.
    pub fn set(&mut self, key: String, items: Vec<TodoItem>)
        requires
            old(self).wf(),
        ensures
            final(self).wf(),
            final(self)@ == old(self)@.insert(key@, items_view(items@)),
    {
        let (at, found) = self.position(key.as_str());
        let ghost before = *self;
        if found {
            self.days[at].items = items;
            proof {
                before.lemma_list_changed(*self, at as int);
            }
        } else {
            self.days.insert(at, Day { key, items });
            proof {
                before.lemma_day_added(*self, at as int);
            }
        }
    }

    /// Puts `item` behind the other items under `key`.
    pub fn add(&mut self, key: String, item: TodoItem)
        requires
            old(self).wf(),
        ensures
            final(self).wf(),
            final(self)@ == old(self)@.insert(key@, list_at(old(self)@, key@).push(item@)),
    {
        let (at, found) = self.position(key.as_str());
        let ghost before = *self;
        if found {
            proof {
                self.lemma_at(at as int);
            }
            self.days[at].items.push(item);
            proof {
                before.lemma_list_changed(*self, at as int);
                assert(items_view(self.days@[at as int].items@) =~= list_at(before@, key@).push(
                    item@,
                ));
            }
        } else {
            let mut items: Vec<TodoItem> = Vec::new();
            items.push(item);
            proof {
                assert(items_view(items@) =~= list_at(before@, key@).push(item@));
            }
            self.days.insert(at, Day { key, items });
            proof {
                before.lemma_day_added(*self, at as int);
            }
        }
    }

    /// How many days there are.
    pub fn day_count(&self) -> (count: usize)
        ensures
            count == self.keys().len(),
    {
        self.days.len()
    }

    /// The day at `index` in the order of the keys, and its list.
    pub fn day_at(&self, index: usize) -> (day: (&str, &Vec<TodoItem>))
        requires
            self.wf(),
            index < self.keys().len(),
        ensures
            day.0@ == self.keys()[index as int],
            self@.contains_key(day.0@),
            items_view(day.1@) == self@[day.0@],
    {
        proof {
            self.lemma_at(index as int);
        }
        (self.days[index].key.as_str(), &self.days[index].items)
    }

    /// The lists of all days in the order of the keys, as they are written down.
    pub open spec fn written(self) -> Seq<DayView> {
        Seq::new(
            self.keys().len(),
            |i: int| DayView { key: self.keys()[i], items: self@[self.keys()[i]] },
        )
    }

    /// The lists of all days in the order of the keys, to be written down.
    pub fn to_days(&self) -> (days: Vec<Day>)
        requires
            self.wf(),
        ensures
            days_view(days@) == self.written(),
    {
        let mut days: Vec<Day> = Vec::new();
        let mut i: usize = 0;
        while i < self.days.len()
            invariant
                self.wf(),
                i <= self.days@.len(),
                days_view(days@) == self.written().take(i as int),
            decreases self.days@.len() - i,
        {
            proof {
                self.lemma_at(i as int);
            }
            let ghost before = days@;
            let day = Day {
                key: text::copy_text(self.days[i].key.as_str()),
                items: copy_items(&self.days[i].items),
            };
            days.push(day);
            proof {
                assert(days_view(days@) =~= days_view(before).push(day@));
                assert(day@ == self.written()[i as int]);
                assert(self.written().take(i + 1) =~= self.written().take(i as int).push(
                    self.written()[i as int],
                ));
            }
            i += 1;
        }
        proof {
            assert(self.written().take(i as int) =~= self.written());
        }
        days
    }

    /// The store of lists that were read; of two under one key the later one counts.
    pub fn from_days(days: Vec<Day>) -> (store: TodoStore)
        ensures
            store.wf(),
            store@ == gathered(days_view(days@)),
    {
        let ghost all = days_view(days@);
        let mut store = TodoStore::new();
        let mut rest = days;
        let ghost mut n: int = 0;
        proof {
            assert(days_view(rest@) =~= all.skip(0));
            assert(all.take(0) =~= Seq::<DayView>::empty());
        }
        while rest.len() > 0
            invariant
                0 <= n <= all.len(),
                n + rest@.len() == all.len(),
                days_view(rest@) == all.skip(n),
                store.wf(),
                store@ == gathered(all.take(n)),
            decreases rest@.len(),
        {
            let ghost before = days_view(rest@);
            let day = rest.remove(0);
            proof {
                assert(day@ == before[0]);
                assert(before[0] == all[n]);
                assert(days_view(rest@) =~= before.skip(1));
                assert(before.skip(1) =~= all.skip(n + 1));
                assert(all.take(n + 1).drop_last() =~= all.take(n));
                assert(all.take(n + 1).last() == all[n]);
            }
            store.set(day.key, day.items);
            proof {
                n = n + 1;
            }
        }
        proof {
            assert(all.take(n) =~= all);
        }
        store
    }

    /// What was written down is read back as the same lists under the same keys.
    pub proof fn written_days_read_back(self)
        requires
            self.wf(),
        ensures
            gathered(self.written()) == self@,
    {
        self.keys_are_the_days();
        self.lemma_gathered(self.keys().len() as int);
        assert(self.written().take(self.keys().len() as int) =~= self.written());
        assert(gathered(self.written()) =~= self@) by {
            assert forall|key: Seq<char>| #[trigger] self@.contains_key(key) implies gathered(
                self.written(),
            ).contains_key(key) && gathered(self.written())[key] == self@[key] by {
                let i = self.keys().index_of(key);
                assert(self.keys()[i] == key);
            }
        }
    }

    /// The first `n` days that are written down, gathered.
    proof fn lemma_gathered(self, n: int)
        requires
            self.wf(),
            0 <= n <= self.keys().len(),
        ensures
            forall|i: int|
                0 <= i < n ==> gathered(self.written().take(n)).contains_key(
                    #[trigger] self.keys()[i],
                ),
            forall|key: Seq<char>| #[trigger]
                gathered(self.written().take(n)).contains_key(key) ==> self@.contains_key(key)
                    && gathered(self.written().take(n))[key] == self@[key],
        decreases n,
    {
        if n > 0 {
            self.keys_are_the_days();
            self.lemma_gathered(n - 1);
            assert(self.written().take(n).drop_last() =~= self.written().take(n - 1));
            assert(self.written().take(n).last() == self.written()[n - 1]);
            let last = self.keys()[n - 1];
            let fewer = gathered(self.written().take(n - 1));
            assert(self.keys().contains(last));
            assert(gathered(self.written().take(n)) == fewer.insert(last, self@[last]));
            assert forall|key: Seq<char>| #[trigger]
                gathered(self.written().take(n)).contains_key(key) implies self@.contains_key(key)
                && gathered(self.written().take(n))[key] == self@[key] by {
                assert(key == last || fewer.contains_key(key));
            }
        }
    }

    /// Stores with the same lists write them down in the same order.
    pub proof fn same_lists_are_written_alike(self, other: TodoStore)
        requires
            self.wf(),
            other.wf(),
            self@ == other@,
        ensures
            self.written() == other.written(),
    {
        self.keys_are_the_days();
        other.keys_are_the_days();
        lemma_one_order(self.keys(), other.keys());
        assert(self.written() =~= other.written());
    }

    /// The store holds a list under exactly the keys that it lists.
    pub proof fn keys_are_the_days(self)
        requires
            self.wf(),
        ensures
            forall|key: Seq<char>|
                #![trigger self@.contains_key(key)]
                #![trigger self.keys().contains(key)]
                self@.contains_key(key) <==> self.keys().contains(key),
            self.keys().no_duplicates(),
    {
        assert forall|i: int, j: int| 0 <= i < j < self.keys().len() implies self.keys()[i]
            != self.keys()[j] by {
            text::text_order_is_total(self.keys()[i], self.keys()[j]);
        }
    }
}

// ---------------------------------------------------------------------------
// What holds of lists

/// The open items of a list are those that are not done, in their order.
pub proof fn open_items_are_those_not_done(items: Seq<TodoView>, item: TodoView)
    ensures
        open_items(Seq::<TodoView>::empty()) == Seq::<TodoView>::empty(),
        item.done ==> open_items(items.push(item)) == open_items(items),
        !item.done ==> open_items(items.push(item)) == open_items(items).push(item),
{
    reveal(Seq::filter);
    assert(items.push(item).drop_last() =~= items);
    assert(open_items(Seq::<TodoView>::empty()) =~= Seq::<TodoView>::empty());
}

/// A day without a list has an empty one, and what is kept under a key is the
/// list of that key and of no other.
pub proof fn lists_are_found_under_their_keys(
    store: Map<Seq<char>, Seq<TodoView>>,
    key: Seq<char>,
    other: Seq<char>,
    items: Seq<TodoView>,
)
    ensures
        list_at(Map::empty(), key) == Seq::<TodoView>::empty(),
        list_at(store.insert(key, items), key) == items,
        other != key ==> list_at(store.insert(key, items), other) == list_at(store, other),
        list_at(store.remove(key), key) == Seq::<TodoView>::empty(),
{
}

/// The lists that were read are kept one after the other: a later one takes the
/// place of an earlier one under the same key.
pub proof fn lists_are_gathered_in_order(days: Seq<DayView>, day: DayView)
    ensures
        gathered(Seq::<DayView>::empty()) == Map::<Seq<char>, Seq<TodoView>>::empty(),
        gathered(days.push(day)) == gathered(days).insert(day.key, day.items),
{
    assert(days.push(day).drop_last() =~= days);
}

/// What an item holds is its text, its mark and its time; what a day holds is
/// its key and its items in their order.
pub proof fn items_hold_their_fields(item: TodoItem, day: Day, i: int)
    ensures
        item@.text == item.text@,
        item@.done == item.done,
        item.remind_at is None <==> item@.remind_at is None,
        item.remind_at is Some ==> item@.remind_at->0 == item.remind_at->0@,
        day@.key == day.key@,
        day@.items.len() == day.items@.len(),
        0 <= i < day.items@.len() ==> day@.items[i] == day.items@[i]@,
{
}

/// The days are written down in the order of their keys, each with its own list.
pub proof fn days_are_written_in_order(store: TodoStore, i: int, j: int)
    requires
        store.wf(),
        0 <= i < j < store.written().len(),
    ensures
        text::text_before(store.written()[i].key, store.written()[j].key),
        store@.contains_key(store.written()[i].key),
        store.written()[i].items == store@[store.written()[i].key],
{
    store.keys_are_the_days();
    assert(store.keys().contains(store.keys()[i]));
}

} // verus!
