//! The list of a day: how its rows look and what clicking and dragging them does.

use vstd::prelude::*;

use crate::models;
use crate::models::{TodoItem, TodoView};
use crate::scalar;
use crate::text;
use crate::theme::Role;

verus! {

// ---------------------------------------------------------------------------
// Where a dragged row goes

/// The middle and the lower edge of a row, as coordinates.
#[derive(Clone, Copy, PartialEq, Eq, Structural, Debug)]
pub struct Span {
    pub center: u32,
    pub bottom: u32,
}

/// The first row whose lower edge lies below the pointer; behind the last row
/// where there is none.
pub open spec fn row_under(rows: Seq<Span>, pointer: u32) -> nat
    decreases rows.len(),
{
    if rows.len() == 0 || scalar::less(pointer, rows[0].bottom) {
        0
    } else {
        1 + row_under(rows.skip(1), pointer)
    }
}

/// Where a row goes that is dropped at the pointer: behind the row that it
/// points at where it stands in its lower half, else before it.
pub open spec fn insert_at(rows: Seq<Span>, pointer: u32) -> nat {
    let row = row_under(rows, pointer);
    if row < rows.len() && scalar::less(rows[row as int].center, pointer) {
        row + 1
    } else {
        row
    }
}

/// All rows before the one that the pointer is at end above the pointer.
proof fn lemma_row_under(rows: Seq<Span>, pointer: u32)
    ensures
        row_under(rows, pointer) <= rows.len(),
        forall|i: int|
            0 <= i < row_under(rows, pointer) ==> !scalar::less(pointer, #[trigger] rows[i].bottom),
        row_under(rows, pointer) < rows.len() ==> scalar::less(
            pointer,
            rows[row_under(rows, pointer) as int].bottom,
        ),
    decreases rows.len(),
{
    if rows.len() > 0 && !scalar::less(pointer, rows[0].bottom) {
        lemma_row_under(rows.skip(1), pointer);
        assert forall|i: int| 0 <= i < row_under(rows, pointer) implies !scalar::less(
            pointer,
            #[trigger] rows[i].bottom,
        ) by {
            if i > 0 {
                assert(rows[i] == rows.skip(1)[i - 1]);
            }
        }
    }
}

/// Where a row goes that is dropped at the pointer.
pub fn insert_position(rows: &[Span], pointer: u32) -> (position: usize)
    ensures
        position == insert_at(rows@, pointer),
        position <= rows@.len(),
{
    let mut index: usize = 0;
    proof {
        assert(rows@.skip(0) =~= rows@);
    }
    while index < rows.len()
        invariant
            index <= rows@.len(),
            row_under(rows@, pointer) == index + row_under(rows@.skip(index as int), pointer),
        decreases rows@.len() - index,
    {
        let row = rows[index];
        proof {
            assert(rows@.skip(index as int).skip(1) =~= rows@.skip(index + 1));
        }
        if scalar::is_less(pointer, row.bottom) {
            return if scalar::is_less(row.center, pointer) {
                index + 1
            } else {
                index
            };
        }
        index += 1;
    }
    rows.len()
}

/// Moving the pointer down never moves the place of the dropped row up.
pub proof fn dragging_down_goes_down(rows: Seq<Span>, upper: u32, lower: u32)
    requires
        !scalar::is_nan(upper),
        !scalar::is_nan(lower),
        !scalar::less(lower, upper),
    ensures
        insert_at(rows, upper) <= insert_at(rows, lower) <= rows.len(),
{
    lemma_row_under(rows, upper);
    lemma_row_under(rows, lower);
    let a = row_under(rows, upper);
    let b = row_under(rows, lower);
    if b < a {
        assert(!scalar::less(upper, rows[b as int].bottom));
        assert(scalar::less(lower, rows[b as int].bottom));
    }
}

/// Where the row at `from` stands once it was put before what stood at `insert_at`.
pub open spec fn move_target(from: int, insert_at: int) -> int {
    if insert_at > from {
        insert_at - 1
    } else {
        insert_at
    }
}

/// The list with its item at `from` put before what stands at `insert_at`.
pub open spec fn moved<T>(items: Seq<T>, from: int, insert_at: int) -> Seq<T> {
    let target = move_target(from, insert_at);
    if target == from {
        items
    } else {
        items.remove(from).insert(target, items[from])
    }
}

/// Puts the item at `from` before what stands at `insert_at`; tells whether that
/// changed the list.
pub fn move_todo(todos: &mut Vec<TodoItem>, from: usize, insert_at: usize) -> (changed: bool)
    requires
        move_target(from as int, insert_at as int) != from ==> from < old(todos)@.len()
            && insert_at <= old(todos)@.len(),
    ensures
        changed == (move_target(from as int, insert_at as int) != from),
        final(todos)@ == moved(old(todos)@, from as int, insert_at as int),
{
    let target: usize = if insert_at > from { insert_at - 1 } else { insert_at };
    if target == from {
        return false;
    }
    let item = todos.remove(from);
    todos.insert(target, item);
    true
}

/// Moving an item loses none, doubles none, and keeps the others in their order.
pub proof fn moving_keeps_the_items<T>(items: Seq<T>, from: int, insert_at: int)
    requires
        0 <= from < items.len(),
        0 <= insert_at <= items.len(),
    ensures
        moved(items, from, insert_at).len() == items.len(),
        moved(items, from, insert_at)[move_target(from, insert_at)] == items[from],
        moved(items, from, insert_at).remove(move_target(from, insert_at)) == items.remove(from),
        moved(items, from, insert_at).to_multiset() == items.to_multiset(),
{
    let target = move_target(from, insert_at);
    let rest = items.remove(from);
    let after = moved(items, from, insert_at);
    assert(after.remove(target) =~= rest);
    after.to_multiset_ensures();
    items.to_multiset_ensures();
    assert(items.remove(from).to_multiset() =~= items.to_multiset().remove(items[from]));
    assert(after.remove(target).to_multiset() =~= after.to_multiset().remove(after[target]));
    assert(items.to_multiset().count(items[from]) > 0) by {
        assert(items.contains(items[from]));
    }
    assert(after.to_multiset().count(after[target]) > 0) by {
        assert(after.contains(after[target]));
    }
    assert(after.to_multiset() =~= after.to_multiset().remove(items[from]).insert(items[from]));
    assert(items.to_multiset() =~= items.to_multiset().remove(items[from]).insert(items[from]));
}

/// A move can be undone: the item is put back before or behind what stands at its old place.
pub proof fn moving_back_restores<T>(items: Seq<T>, from: int, insert_at: int)
    requires
        0 <= from < items.len(),
        0 <= insert_at <= items.len(),
    ensures
        ({
            let target = move_target(from, insert_at);
            let back = if from > target {
                from + 1
            } else {
                from
            };
            moved(moved(items, from, insert_at), target, back) == items
        }),
{
    let target = move_target(from, insert_at);
    let back = if from > target {
        from + 1
    } else {
        from
    };
    assert(moved(moved(items, from, insert_at), target, back) =~= items);
}

// ---------------------------------------------------------------------------
// One look at the rows

/// What happened to a row: its handle was dragged or let go, its check box or
/// its delete button was clicked.
#[derive(Clone, Copy, PartialEq, Eq, Structural, Debug)]
pub struct RowInput {
    pub dragged: bool,
    pub released: bool,
    pub toggled: bool,
    pub deleted: bool,
}

/// The item with its mark as the clicks leave it.
pub open spec fn toggled_item(item: TodoView, input: RowInput) -> TodoView {
    if input.toggled {
        TodoView { done: !item.done, ..item }
    } else {
        item
    }
}

/// The list as the clicks leave it: marks toggled, deleted rows gone.
pub open spec fn clicked(items: Seq<TodoView>, rows: Seq<RowInput>) -> Seq<TodoView>
    decreases items.len(),
{
    if items.len() == 0 || rows.len() == 0 {
        items
    } else {
        (if rows[0].deleted {
            Seq::empty()
        } else {
            seq![toggled_item(items[0], rows[0])]
        }) + clicked(items.skip(1), rows.skip(1))
    }
}

/// Whether a click changed the list.
pub open spec fn any_clicked(rows: Seq<RowInput>) -> bool {
    exists|i: int| 0 <= i < rows.len() && ((#[trigger] rows[i]).toggled || rows[i].deleted)
}

/// The row whose handle is dragged, the last one where there are several.
pub open spec fn dragged_row(rows: Seq<RowInput>) -> Option<nat>
    decreases rows.len(),
{
    if rows.len() == 0 {
        None
    } else if rows.last().dragged {
        Some((rows.len() - 1) as nat)
    } else {
        dragged_row(rows.drop_last())
    }
}

/// Whether a handle was let go.
pub open spec fn any_released(rows: Seq<RowInput>) -> bool {
    exists|i: int| 0 <= i < rows.len() && (#[trigger] rows[i]).released
}

/// What the rows were told, taken together.
#[derive(Clone, Copy, PartialEq, Eq, Structural, Debug)]
pub struct Gestures {
    pub clicked: bool,
    pub dragged: Option<usize>,
    pub released: bool,
}

/// What the rows were told, taken together.
pub fn gestures(rows: &Vec<RowInput>) -> (found: Gestures)
    ensures
        found.clicked == any_clicked(rows@),
        found.released == any_released(rows@),
        match found.dragged {
            Some(index) => dragged_row(rows@) == Some(index as nat) && index < rows@.len(),
            None => dragged_row(rows@) is None,
        },
{
    let mut found = Gestures { clicked: false, dragged: None, released: false };
    let mut i: usize = 0;
    while i < rows.len()
        invariant
            i <= rows@.len(),
            found.clicked == any_clicked(rows@.take(i as int)),
            found.released == any_released(rows@.take(i as int)),
            match found.dragged {
                Some(index) => dragged_row(rows@.take(i as int)) == Some(index as nat) && index < i,
                None => dragged_row(rows@.take(i as int)) is None,
            },
        decreases rows@.len() - i,
    {
        let row = rows[i];
        let ghost part = rows@.take(i as int);
        let ghost longer = rows@.take(i + 1);
        proof {
            assert(longer.drop_last() =~= part);
            assert(longer.last() == row);
            assert(forall|k: int| 0 <= k < i ==> part[k] == longer[k]);
            if any_clicked(part) {
                let k = choose|k: int|
                    0 <= k < part.len() && ((#[trigger] part[k]).toggled || part[k].deleted);
                assert(longer[k] == part[k]);
            }
            if any_released(part) {
                let k = choose|k: int| 0 <= k < part.len() && (#[trigger] part[k]).released;
                assert(longer[k] == part[k]);
            }
            assert(longer[i as int] == row);
        }
        if row.toggled || row.deleted {
            found.clicked = true;
        }
        if row.dragged {
            found.dragged = Some(i);
        }
        if row.released {
            found.released = true;
        }
        proof {
            if any_clicked(longer) && !(row.toggled || row.deleted) {
                let k = choose|k: int|
                    0 <= k < longer.len() && ((#[trigger] longer[k]).toggled || longer[k].deleted);
                assert(part[k] == longer[k]);
            }
            if any_released(longer) && !row.released {
                let k = choose|k: int| 0 <= k < longer.len() && (#[trigger] longer[k]).released;
                assert(part[k] == longer[k]);
            }
        }
        i += 1;
    }
    proof {
        assert(rows@.take(i as int) =~= rows@);
    }
    found
}

/// Toggles the marks and deletes the rows that were clicked.
pub fn apply_clicks(todos: &mut Vec<TodoItem>, rows: &Vec<RowInput>)
    requires
        rows@.len() == old(todos)@.len(),
    ensures
        models::items_view(final(todos)@) == clicked(models::items_view(old(todos)@), rows@),
{
    let ghost before = models::items_view(todos@);
    let mut i: usize = todos.len();
    proof {
        assert(before.take(i as int) =~= before);
        assert(before.skip(i as int) =~= Seq::<TodoView>::empty());
        assert(models::items_view(todos@) =~= before.take(i as int) + clicked(
            before.skip(i as int),
            rows@.skip(i as int),
        ));
    }
    while i > 0
        invariant
            i <= rows@.len(),
            i <= todos@.len(),
            rows@.len() == before.len(),
            models::items_view(todos@) == before.take(i as int) + clicked(
                before.skip(i as int),
                rows@.skip(i as int),
            ),
        decreases i,
    {
        let ghost tail = clicked(before.skip(i as int), rows@.skip(i as int));
        let ghost whole = models::items_view(todos@);
        i -= 1;
        proof {
            assert(before.skip(i as int).skip(1) =~= before.skip(i + 1));
            assert(rows@.skip(i as int).skip(1) =~= rows@.skip(i + 1));
            assert(before.skip(i as int)[0] == before[i as int]);
            assert(rows@.skip(i as int)[0] == rows@[i as int]);
            assert(whole[i as int] == before[i as int]);
            assert(todos@[i as int]@ == whole[i as int]);
        }
        if rows[i].deleted {
            todos.remove(i);
            proof {
                assert(models::items_view(todos@) =~= whole.remove(i as int));
                assert(whole.remove(i as int) =~= before.take(i as int) + tail);
                assert(clicked(before.skip(i as int), rows@.skip(i as int)) =~= tail);
            }
        } else {
            if rows[i].toggled {
                let done = todos[i].done;
                todos[i].done = !done;
            }
            proof {
                let item = toggled_item(before[i as int], rows@[i as int]);
                assert(todos@[i as int]@ =~= item);
                assert(models::items_view(todos@) =~= whole.update(i as int, item));
                assert(whole.update(i as int, item) =~= before.take(i as int) + (seq![item] + tail));
            }
        }
    }
    proof {
        assert(before.skip(0) =~= before);
        assert(rows@.skip(0) =~= rows@);
        assert(models::items_view(todos@) =~= clicked(before, rows@));
    }
}

// ---------------------------------------------------------------------------
// Dragging

/// The row that is being dragged, and where it would go.
#[derive(Clone, Copy, PartialEq, Eq, Structural, Debug)]
pub struct Drag {
    pub index: Option<usize>,
    pub target: Option<usize>,
}

/// No row is being dragged.
pub open spec fn no_drag() -> Drag {
    Drag { index: None, target: None }
}

/// The drag once the rows were looked at: a dragged handle starts it or carries
/// it on, and it ends where no handle is dragged and none was let go.
pub open spec fn drag_after(
    drag: Drag,
    dragged: Option<usize>,
    released: bool,
    spans: Seq<Span>,
    pointer: Option<u32>,
) -> Drag {
    match dragged {
        Some(from) => Drag {
            index: Some(from),
            target: match pointer {
                Some(at) => Some(insert_at(spans, at) as usize),
                None => drag.target,
            },
        },
        None => if released {
            drag
        } else {
            no_drag()
        },
    }
}

/// Where the mark stands that shows where the dragged row would go: before the
/// row at this index, behind all rows where it is their number. None where the
/// row would stay.
pub open spec fn drop_mark(dragged: Option<usize>, target: Option<usize>, rows: int) -> Option<int> {
    match (dragged, target) {
        (Some(from), Some(at)) => if at != from && at != from + 1 && rows > 0 {
            Some(
                if at < rows {
                    at as int
                } else {
                    rows
                },
            )
        } else {
            None
        },
        _ => None,
    }
}

/// Where a dragged row is put when it is let go: before what stands at its
/// target, or where it was if it has none.
pub open spec fn drop_place(drag: Drag) -> Option<(int, int)> {
    match drag.index {
        Some(from) => Some(
            (
                from as int,
                match drag.target {
                    Some(at) => at as int,
                    None => from as int,
                },
            ),
        ),
        None => None,
    }
}

/// The list once a row was let go. A row that is no longer there moves nothing.
pub open spec fn dropped<T>(items: Seq<T>, drag: Drag) -> Seq<T> {
    match drop_place(drag) {
        Some((from, at)) => if from < items.len() && at <= items.len() {
            moved(items, from, at)
        } else {
            items
        },
        None => items,
    }
}

/// Whether letting go of a row changes a list of this length.
pub open spec fn drop_changes(len: int, drag: Drag) -> bool {
    match drop_place(drag) {
        Some((from, at)) => from < len && at <= len && move_target(from, at) != from,
        None => false,
    }
}

/// What a look at the rows led to.
#[derive(Clone, Copy, PartialEq, Eq, Structural, Debug)]
pub struct ListOutcome {
    /// Whether the list has changed.
    pub changed: bool,
    /// Where the mark stands that shows where the dragged row would go.
    pub mark: Option<usize>,
}

/// The drag once a row was let go.
pub open spec fn drag_let_go(drag: Drag, released: bool) -> Drag {
    if released && drag.index is Some {
        no_drag()
    } else {
        drag
    }
}

/// The index of the dragged row, as the rows tell it.
pub open spec fn dragged_index(rows: Seq<RowInput>) -> Option<usize> {
    match dragged_row(rows) {
        Some(index) => Some(index as usize),
        None => None,
    }
}

/// The drag before a row is let go.
pub open spec fn drag_seen(drag: Drag, rows: Seq<RowInput>, spans: Seq<Span>, pointer: Option<u32>) -> Drag {
    drag_after(drag, dragged_index(rows), any_released(rows), spans, pointer)
}

/// The list after a look at its rows: clicks first, then the row that was let go.
pub open spec fn list_after(
    items: Seq<TodoView>,
    drag: Drag,
    rows: Seq<RowInput>,
    spans: Seq<Span>,
    pointer: Option<u32>,
) -> Seq<TodoView> {
    if any_released(rows) {
        dropped(clicked(items, rows), drag_seen(drag, rows, spans, pointer))
    } else {
        clicked(items, rows)
    }
}

/// Whether a look at the rows changed the list.
pub open spec fn list_changed(
    items: Seq<TodoView>,
    drag: Drag,
    rows: Seq<RowInput>,
    spans: Seq<Span>,
    pointer: Option<u32>,
) -> bool {
    ||| any_clicked(rows)
    ||| any_released(rows) && drop_changes(
        clicked(items, rows).len() as int,
        drag_seen(drag, rows, spans, pointer),
    )
}

/// Looks at the rows of a list: applies what was clicked, follows the drag and
/// puts a row that was let go where it belongs. There is one input and one span
/// for each item; `pointer` is where the pointer stands, if it is known.
pub fn list_frame(
    todos: &mut Vec<TodoItem>,
    drag: &mut Drag,
    rows: &Vec<RowInput>,
    spans: &Vec<Span>,
    pointer: Option<u32>,
) -> (outcome: ListOutcome)
    requires
        rows@.len() == old(todos)@.len(),
        spans@.len() == old(todos)@.len(),
    ensures
        models::items_view(final(todos)@) == list_after(
            models::items_view(old(todos)@),
            *old(drag),
            rows@,
            spans@,
            pointer,
        ),
        *final(drag) == drag_let_go(
            drag_seen(*old(drag), rows@, spans@, pointer),
            any_released(rows@),
        ),
        outcome.changed == list_changed(
            models::items_view(old(todos)@),
            *old(drag),
            rows@,
            spans@,
            pointer,
        ),
        match outcome.mark {
            Some(mark) => drop_mark(
                dragged_index(rows@),
                drag_seen(*old(drag), rows@, spans@, pointer).target,
                rows@.len() as int,
            ) == Some(mark as int),
            None => drop_mark(
                dragged_index(rows@),
                drag_seen(*old(drag), rows@, spans@, pointer).target,
                rows@.len() as int,
            ) is None,
        },
{
    let found = gestures(rows);
    let ghost before = models::items_view(todos@);
    apply_clicks(todos, rows);
    let mut changed = found.clicked;
    match found.dragged {
        Some(from) => {
            drag.index = Some(from);
            match pointer {
                Some(at) => {
                    drag.target = Some(insert_position(spans.as_slice(), at));
                },
                None => {},
            }
        },
        None => {
            if !found.released {
                drag.index = None;
                drag.target = None;
            }
        },
    }
    let ghost seen = *drag;
    let mut mark: Option<usize> = None;
    match (found.dragged, drag.target) {
        (Some(from), Some(at)) => {
            proof {
                assert(from < rows@.len());
            }
            if rows.len() > 0 && at != from && at != from + 1 {
                mark = Some(
                    if at < rows.len() {
                        at
                    } else {
                        rows.len()
                    },
                );
            }
        },
        _ => {},
    }
    proof {
        assert(seen == drag_seen(*old(drag), rows@, spans@, pointer));
    }
    if found.released {
        match drag.index {
            Some(from) => {
                let at: usize = match drag.target {
                    Some(target) => target,
                    None => from,
                };
                drag.index = None;
                drag.target = None;
                if from < todos.len() && at <= todos.len() {
                    let ghost items = todos@;
                    if move_todo(todos, from, at) {
                        changed = true;
                    }
                    proof {
                        assert(models::items_view(todos@) =~= moved(
                            models::items_view(items),
                            from as int,
                            at as int,
                        ));
                    }
                }
            },
            None => {},
        }
    }
    ListOutcome { changed, mark }
}

/// Deleting a row takes its item out and leaves the others as they are.
pub proof fn deleting_removes_one_item(items: Seq<TodoView>, rows: Seq<RowInput>, at: int)
    requires
        rows.len() == items.len(),
        0 <= at < items.len(),
        rows[at].deleted,
        forall|i: int|
            0 <= i < rows.len() && i != at ==> !(#[trigger] rows[i]).deleted && !rows[i].toggled,
    ensures
        clicked(items, rows) == items.remove(at),
    decreases items.len(),
{
    if at == 0 {
        lemma_untouched(items.skip(1), rows.skip(1));
        assert(clicked(items, rows) =~= items.remove(0));
    } else {
        assert forall|i: int| 0 <= i < rows.skip(1).len() && i != at - 1 implies !(
        #[trigger] rows.skip(1)[i]).deleted && !rows.skip(1)[i].toggled by {
            assert(rows.skip(1)[i] == rows[i + 1]);
        }
        deleting_removes_one_item(items.skip(1), rows.skip(1), at - 1);
        assert(!rows[0].deleted && !rows[0].toggled);
        assert(clicked(items, rows) =~= items.remove(at));
    }
}

/// Without a click the list stays as it is.
pub proof fn lemma_untouched_rows(items: Seq<TodoView>, rows: Seq<RowInput>)
    requires
        rows.len() == items.len(),
        !any_clicked(rows),
    ensures
        clicked(items, rows) == items,
{
    lemma_untouched(items, rows);
}

proof fn lemma_untouched(items: Seq<TodoView>, rows: Seq<RowInput>)
    requires
        rows.len() == items.len(),
        forall|i: int| 0 <= i < rows.len() ==> !(#[trigger] rows[i]).deleted && !rows[i].toggled,
    ensures
        clicked(items, rows) == items,
    decreases items.len(),
{
    if items.len() > 0 {
        assert forall|i: int| 0 <= i < rows.skip(1).len() implies !(
        #[trigger] rows.skip(1)[i]).deleted && !rows.skip(1)[i].toggled by {
            assert(rows.skip(1)[i] == rows[i + 1]);
        }
        lemma_untouched(items.skip(1), rows.skip(1));
        assert(!rows[0].deleted && !rows[0].toggled);
        assert(clicked(items, rows) =~= items);
    }
}

/// Where nothing is clicked, dragged or let go, nothing changes and no drag goes on.
pub proof fn quiet_rows_change_nothing(
    items: Seq<TodoView>,
    drag: Drag,
    rows: Seq<RowInput>,
    spans: Seq<Span>,
    pointer: Option<u32>,
)
    requires
        rows.len() == items.len(),
        !any_clicked(rows),
        !any_released(rows),
        dragged_row(rows) is None,
    ensures
        list_after(items, drag, rows, spans, pointer) == items,
        !list_changed(items, drag, rows, spans, pointer),
        drag_seen(drag, rows, spans, pointer) == no_drag(),
{
    lemma_untouched(items, rows);
}

// ---------------------------------------------------------------------------
// Clearing

/// Takes the items out that are done; tells whether there were any.
pub fn clear_done(todos: &mut Vec<TodoItem>) -> (changed: bool)
    ensures
        models::items_view(final(todos)@) == models::open_items(models::items_view(old(todos)@)),
        changed == (exists|i: int| 0 <= i < old(todos)@.len() && (#[trigger] old(todos)@[i]).done),
{
    let ghost before = todos@;
    let ghost views = models::items_view(before);
    let ghost open = |item: TodoView| !item.done;
    let mut changed = false;
    let mut i: usize = todos.len();
    proof {
        reveal(Seq::filter);
        assert(views.take(i as int) =~= views);
        assert(views.skip(i as int) =~= Seq::<TodoView>::empty());
        assert(models::items_view(todos@) =~= views.take(i as int) + models::open_items(
            views.skip(i as int),
        ));
    }
    while i > 0
        invariant
            i <= before.len(),
            i <= todos@.len(),
            views == models::items_view(before),
            open == (|item: TodoView| !item.done),
            models::items_view(todos@) == views.take(i as int) + models::open_items(
                views.skip(i as int),
            ),
            changed == (exists|k: int| i <= k < before.len() && (#[trigger] before[k]).done),
        decreases i,
    {
        let ghost tail = models::open_items(views.skip(i as int));
        let ghost whole = models::items_view(todos@);
        i -= 1;
        proof {
            assert(whole[i as int] == views[i as int]);
            assert(todos@[i as int]@ == views[i as int]);
            assert(views[i as int] == before[i as int]@);
            let one = seq![views[i as int]];
            assert(views.skip(i as int) =~= one + views.skip(i + 1));
            Seq::filter_distributes_over_add(one, views.skip(i + 1), open);
            reveal_with_fuel(Seq::filter, 2);
            assert(one.drop_last() =~= Seq::<TodoView>::empty());
            assert(one.filter(open) =~= if views[i as int].done {
                Seq::<TodoView>::empty()
            } else {
                one
            });
            assert(models::open_items(views.skip(i as int)) =~= one.filter(open) + tail);
        }
        if todos[i].done {
            todos.remove(i);
            changed = true;
            proof {
                assert(models::items_view(todos@) =~= whole.remove(i as int));
                assert(whole.remove(i as int) =~= views.take(i as int) + tail);
                assert(before[i as int].done);
            }
        } else {
            proof {
                assert(whole =~= views.take(i as int) + (seq![views[i as int]] + tail));
            }
        }
    }
    proof {
        assert(views.skip(0) =~= views);
        assert(models::items_view(todos@) =~= models::open_items(views));
    }
    changed
}

/// Clearing leaves nothing that is done, and clearing again changes nothing.
pub proof fn clearing_leaves_open_items(items: Seq<TodoView>)
    ensures
        forall|i: int|
            0 <= i < models::open_items(items).len() ==> !(#[trigger] models::open_items(
                items,
            )[i]).done,
        models::open_items(models::open_items(items)) == models::open_items(items),
    decreases items.len(),
{
    reveal(Seq::filter);
    let open = |item: TodoView| !item.done;
    if items.len() > 0 {
        clearing_leaves_open_items(items.drop_last());
        let shorter = models::open_items(items.drop_last());
        if !items.last().done {
            assert(models::open_items(items) =~= shorter.push(items.last()));
            assert(shorter.push(items.last()).drop_last() =~= shorter);
        } else {
            assert(models::open_items(items) =~= shorter);
        }
    } else {
        assert(models::open_items(items) =~= Seq::<TodoView>::empty());
    }
}

// ---------------------------------------------------------------------------
// How a row looks

/// How a row looks.
#[derive(Clone, Copy, PartialEq, Eq, Structural, Debug)]
pub struct RowLook {
    pub handle: Role,
    pub label: Role,
    pub struck: bool,
    pub outlined: bool,
}

/// How a row looks: what is done is struck through, the dragged row is outlined.
pub open spec fn row_of(done: bool, dragging: bool) -> RowLook {
    RowLook {
        handle: if dragging {
            Role::Accent
        } else {
            Role::TextMuted
        },
        label: if done {
            Role::TextDone
        } else {
            Role::TextSecondary
        },
        struck: done,
        outlined: dragging,
    }
}

/// How the row at `index` looks.
pub fn row_look(done: bool, drag: Drag, index: usize) -> (look: RowLook)
    ensures
        look == row_of(done, drag.index == Some(index)),
{
    let dragging = match drag.index {
        Some(at) => at == index,
        None => false,
    };
    let handle = if dragging {
        Role::Accent
    } else {
        Role::TextMuted
    };
    let label = if done {
        Role::TextDone
    } else {
        Role::TextSecondary
    };
    RowLook { handle, label, struck: done, outlined: dragging }
}

/// The time of a reminder as a row shows it.
pub open spec fn remind_text(remind_at: Seq<char>) -> Seq<char> {
    seq!['⏰', ' '] + remind_at
}

/// The time of an item's reminder as its row shows it.
pub fn remind_label(item: &TodoItem) -> (label: Option<String>)
    ensures
        match label {
            Some(l) => item.remind_at is Some && l@ == remind_text(item.remind_at->0@),
            None => item.remind_at is None,
        },
{
    match &item.remind_at {
        Some(remind_at) => {
            let mut label = String::new();
            label.push('⏰');
            label.push(' ');
            text::push_text(&mut label, remind_at.as_str());
            proof {
                assert(label@ =~= remind_text(remind_at@));
            }
            Some(label)
        },
        None => None,
    }
}

// ---------------------------------------------------------------------------
// What holds of lists under clicks and drags

/// The first row whose lower edge lies below the pointer decides where a row is
/// dropped: behind it where the pointer is below its middle, else before it.
/// Where there is no such row, it is dropped behind all rows.
pub proof fn the_pointer_decides_the_place(rows: Seq<Span>, pointer: u32, row: int)
    requires
        0 <= row <= rows.len(),
        forall|i: int| 0 <= i < row ==> !scalar::less(pointer, (#[trigger] rows[i]).bottom),
        row < rows.len() ==> scalar::less(pointer, rows[row].bottom),
    ensures
        row == rows.len() ==> insert_at(rows, pointer) == rows.len(),
        row < rows.len() && scalar::less(rows[row].center, pointer) ==> insert_at(rows, pointer)
            == row + 1,
        row < rows.len() && !scalar::less(rows[row].center, pointer) ==> insert_at(rows, pointer)
            == row,
{
    lemma_row_under(rows, pointer);
    let k = row_under(rows, pointer) as int;
    if k < row {
        assert(!scalar::less(pointer, rows[k].bottom));
    }
    if row < k {
        assert(!scalar::less(pointer, rows[row].bottom));
    }
}

/// Clicks work row by row: a deleted item is gone, a toggled one has its mark
/// turned round and keeps its text and its reminder, any other stays as it is.
pub proof fn clicks_work_row_by_row(
    items: Seq<TodoView>,
    rows: Seq<RowInput>,
    item: TodoView,
    row: RowInput,
)
    requires
        rows.len() == items.len(),
    ensures
        clicked(Seq::empty(), Seq::empty()).len() == 0,
        row.deleted ==> clicked(items.push(item), rows.push(row)) == clicked(items, rows),
        !row.deleted && !row.toggled ==> clicked(items.push(item), rows.push(row)) == clicked(
            items,
            rows,
        ).push(item),
        !row.deleted && row.toggled ==> clicked(items.push(item), rows.push(row)) == clicked(
            items,
            rows,
        ).push(TodoView { text: item.text, done: !item.done, remind_at: item.remind_at }),
    decreases items.len(),
{
    let more = items.push(item);
    let longer = rows.push(row);
    if items.len() == 0 {
        assert(more.skip(1) =~= Seq::<TodoView>::empty());
        assert(clicked(more.skip(1), longer.skip(1)) =~= Seq::<TodoView>::empty());
        assert(clicked(items, rows) =~= Seq::<TodoView>::empty());
        assert(more[0] == item && longer[0] == row);
        if row.deleted {
            assert(clicked(more, longer) =~= clicked(items, rows));
        } else {
            assert(clicked(more, longer) =~= clicked(items, rows).push(toggled_item(item, row)));
        }
    } else {
        assert(more.skip(1) =~= items.skip(1).push(item));
        assert(longer.skip(1) =~= rows.skip(1).push(row));
        assert(more[0] == items[0] && longer[0] == rows[0]);
        clicks_work_row_by_row(items.skip(1), rows.skip(1), item, row);
        if row.deleted {
            assert(clicked(more, longer) =~= clicked(items, rows));
        } else {
            assert(clicked(more, longer) =~= clicked(items, rows).push(toggled_item(item, row)));
        }
    }
}

/// Where nothing is deleted, every item stays in its place with its text and
/// its reminder, and its mark is turned round where its row was toggled.
pub proof fn toggling_changes_marks_alone(items: Seq<TodoView>, rows: Seq<RowInput>)
    requires
        rows.len() == items.len(),
        forall|i: int| 0 <= i < rows.len() ==> !(#[trigger] rows[i]).deleted,
    ensures
        clicked(items, rows).len() == items.len(),
        forall|i: int|
            0 <= i < items.len() ==> (#[trigger] clicked(items, rows)[i]).text == items[i].text
                && clicked(items, rows)[i].remind_at == items[i].remind_at && clicked(
                items,
                rows,
            )[i].done == (items[i].done != rows[i].toggled),
    decreases items.len(),
{
    if items.len() == 0 {
        clicks_work_row_by_row(Seq::empty(), Seq::empty(), arbitrary(), arbitrary());
        assert(items =~= Seq::<TodoView>::empty());
        assert(rows =~= Seq::<RowInput>::empty());
    } else {
        let shorter = items.drop_last();
        let fewer = rows.drop_last();
        assert forall|i: int| 0 <= i < fewer.len() implies !(#[trigger] fewer[i]).deleted by {
            assert(fewer[i] == rows[i]);
        }
        toggling_changes_marks_alone(shorter, fewer);
        assert(!rows[rows.len() - 1].deleted);
        clicks_work_row_by_row(shorter, fewer, items.last(), rows.last());
        assert(shorter.push(items.last()) =~= items);
        assert(fewer.push(rows.last()) =~= rows);
        let after = clicked(items, rows);
        let part = clicked(shorter, fewer);
        assert forall|i: int| 0 <= i < items.len() implies (#[trigger] after[i]).text
            == items[i].text && after[i].remind_at == items[i].remind_at && after[i].done == (
        items[i].done != rows[i].toggled) by {
            if i < shorter.len() {
                assert(after[i] == part[i]);
                assert(shorter[i] == items[i] && fewer[i] == rows[i]);
            }
        }
    }
}

/// Toggling the same rows a second time gives the list back.
pub proof fn toggling_twice_restores(items: Seq<TodoView>, rows: Seq<RowInput>)
    requires
        rows.len() == items.len(),
        forall|i: int| 0 <= i < rows.len() ==> !(#[trigger] rows[i]).deleted,
    ensures
        clicked(clicked(items, rows), rows) == items,
{
    toggling_changes_marks_alone(items, rows);
    let once = clicked(items, rows);
    toggling_changes_marks_alone(once, rows);
    let twice = clicked(once, rows);
    assert forall|i: int| 0 <= i < items.len() implies twice[i] == items[i] by {
        assert(once[i].text == items[i].text);
        assert(twice[i].text == once[i].text);
    }
    assert(twice =~= items);
}

/// Toggling one row turns the mark of its item round and changes nothing else.
pub proof fn toggling_changes_one_mark(items: Seq<TodoView>, rows: Seq<RowInput>, at: int)
    requires
        rows.len() == items.len(),
        0 <= at < items.len(),
        rows[at].toggled && !rows[at].deleted,
        forall|i: int|
            0 <= i < rows.len() && i != at ==> !(#[trigger] rows[i]).deleted && !rows[i].toggled,
    ensures
        clicked(items, rows) == items.update(
            at,
            TodoView {
                text: items[at].text,
                done: !items[at].done,
                remind_at: items[at].remind_at,
            },
        ),
{
    toggling_changes_marks_alone(items, rows);
    let after = clicked(items, rows);
    let wanted = items.update(
        at,
        TodoView { text: items[at].text, done: !items[at].done, remind_at: items[at].remind_at },
    );
    assert forall|i: int| 0 <= i < items.len() implies after[i] == wanted[i] by {
        assert(after[i].text == items[i].text);
        if i != at {
            assert(!rows[i].toggled);
        }
    }
    assert(after =~= wanted);
}

/// While no handle is let go, a look at the rows does what was clicked and
/// nothing else.
pub proof fn holding_on_moves_nothing(
    items: Seq<TodoView>,
    drag: Drag,
    rows: Seq<RowInput>,
    spans: Seq<Span>,
    pointer: Option<u32>,
)
    requires
        forall|i: int| 0 <= i < rows.len() ==> !(#[trigger] rows[i]).released,
    ensures
        list_after(items, drag, rows, spans, pointer) == clicked(items, rows),
{
}

/// The item at `from` now stands directly before what stood at `at`, at the end
/// where nothing stood there; all others keep their order.
proof fn lemma_moved<T>(items: Seq<T>, from: int, at: int)
    requires
        0 <= from < items.len(),
        0 <= at <= items.len(),
    ensures
        moved(items, from, at).len() == items.len(),
        at <= from ==> {
            &&& moved(items, from, at)[at] == items[from]
            &&& forall|i: int|
                0 <= i < at || from < i < items.len() ==> #[trigger] moved(items, from, at)[i]
                    == items[i]
            &&& forall|i: int|
                at <= i < from ==> #[trigger] moved(items, from, at)[i + 1] == items[i]
        },
        at > from ==> {
            &&& moved(items, from, at)[at - 1] == items[from]
            &&& forall|i: int|
                0 <= i < from || at <= i < items.len() ==> #[trigger] moved(items, from, at)[i]
                    == items[i]
            &&& forall|i: int|
                from < i < at ==> #[trigger] moved(items, from, at)[i - 1] == items[i]
        },
{
}

/// A row that was dragged from `from` and is let go over `at` stands directly
/// before what stood there, behind all others where nothing stood there: dragged
/// up it stands at `at` and the rows from there move down by one, dragged down
/// it stands before `at` and the rows from `from` move up by one.
pub proof fn dropped_rows_stand_before_their_target(
    items: Seq<TodoView>,
    drag: Drag,
    rows: Seq<RowInput>,
    spans: Seq<Span>,
    pointer: Option<u32>,
    from: int,
    at: int,
    i: int,
)
    requires
        rows.len() == items.len(),
        0 <= from < items.len(),
        0 <= at <= items.len(),
        drag.index == Some(from as usize),
        drag.target == Some(at as usize),
        from <= usize::MAX,
        at <= usize::MAX,
        exists|k: int| 0 <= k < rows.len() && (#[trigger] rows[k]).released,
        forall|k: int|
            0 <= k < rows.len() ==> !(#[trigger] rows[k]).dragged && !rows[k].toggled
                && !rows[k].deleted,
    ensures
        ({
            let after = list_after(items, drag, rows, spans, pointer);
            &&& after.len() == items.len()
            &&& at <= from ==> after[at] == items[from]
            &&& at <= from && (0 <= i < at || from < i < items.len()) ==> after[i] == items[i]
            &&& at <= from && at <= i < from ==> after[i + 1] == items[i]
            &&& at > from ==> after[at - 1] == items[from]
            &&& at > from && (0 <= i < from || at <= i < items.len()) ==> after[i] == items[i]
            &&& at > from && from < i < at ==> after[i - 1] == items[i]
        }),
{
    lemma_untouched(items, rows);
    lemma_nothing_dragged(rows);
    lemma_moved(items, from, at);
    let after = list_after(items, drag, rows, spans, pointer);
    assert(after == moved(items, from, at));
    if at <= from && at <= i < from {
        assert(moved(items, from, at)[i + 1] == items[i]);
    }
    if at > from && from < i < at {
        assert(moved(items, from, at)[i - 1] == items[i]);
    }
}

proof fn lemma_nothing_dragged(rows: Seq<RowInput>)
    requires
        forall|k: int| 0 <= k < rows.len() ==> !(#[trigger] rows[k]).dragged,
    ensures
        dragged_row(rows) is None,
    decreases rows.len(),
{
    if rows.len() > 0 {
        let fewer = rows.drop_last();
        assert forall|k: int| 0 <= k < fewer.len() implies !(#[trigger] fewer[k]).dragged by {
            assert(fewer[k] == rows[k]);
        }
        assert(!rows[rows.len() - 1].dragged);
        lemma_nothing_dragged(fewer);
    }
}

proof fn lemma_one_dragged(rows: Seq<RowInput>, from: int)
    requires
        0 <= from < rows.len(),
        rows[from].dragged,
        forall|k: int| from < k < rows.len() ==> !(#[trigger] rows[k]).dragged,
    ensures
        dragged_row(rows) == Some(from as nat),
    decreases rows.len(),
{
    if from < rows.len() - 1 {
        let fewer = rows.drop_last();
        assert forall|k: int| from < k < fewer.len() implies !(#[trigger] fewer[k]).dragged by {
            assert(fewer[k] == rows[k]);
        }
        assert(!rows[rows.len() - 1].dragged);
        lemma_one_dragged(fewer, from);
    }
}

/// A handle that is dragged starts the drag of its row or carries it on, with
/// the place that the pointer shows; the mark stands at that place, unless the
/// row stands there already. The drag goes on until no handle is held, and
/// letting go ends it.
pub proof fn drags_follow_the_pointer(
    drag: Drag,
    rows: Seq<RowInput>,
    spans: Seq<Span>,
    at: u32,
    from: int,
)
    requires
        0 <= from < rows.len() <= usize::MAX,
        spans.len() == rows.len(),
        rows[from].dragged,
        forall|k: int| from < k < rows.len() ==> !(#[trigger] rows[k]).dragged,
        forall|k: int| 0 <= k < rows.len() ==> !(#[trigger] rows[k]).released,
    ensures
        ({
            let seen = drag_seen(drag, rows, spans, Some(at));
            let place = insert_at(spans, at);
            let mark = drop_mark(dragged_index(rows), seen.target, rows.len() as int);
            &&& seen.index == Some(from as usize)
            &&& seen.target == Some(place as usize)
            &&& place <= rows.len()
            &&& drag_let_go(seen, any_released(rows)) == seen
            &&& place == from || place == from + 1 ==> mark is None
            &&& place != from && place != from + 1 ==> mark == Some(place as int)
            &&& drag_seen(drag, rows, spans, None).index == Some(from as usize)
            &&& drag_seen(drag, rows, spans, None).target == drag.target
        }),
{
    lemma_one_dragged(rows, from);
    lemma_row_under(spans, at);
}

/// A drag is over once its row is let go, and also where no handle is held.
pub proof fn drags_end(
    drag: Drag,
    rows: Seq<RowInput>,
    spans: Seq<Span>,
    pointer: Option<u32>,
)
    requires
        forall|k: int| 0 <= k < rows.len() ==> !(#[trigger] rows[k]).dragged,
        drag.index is None ==> drag.target is None,
    ensures
        ({
            let after = drag_let_go(drag_seen(drag, rows, spans, pointer), any_released(rows));
            after.index is None && after.target is None
        }),
        drop_mark(
            dragged_index(rows),
            drag_seen(drag, rows, spans, pointer).target,
            rows.len() as int,
        ) is None,
{
    lemma_nothing_dragged(rows);
}

/// A click, or a row that is let go at another place, counts as a change.
pub proof fn clicks_count_as_changes(
    items: Seq<TodoView>,
    drag: Drag,
    rows: Seq<RowInput>,
    spans: Seq<Span>,
    pointer: Option<u32>,
    i: int,
)
    requires
        rows.len() == items.len(),
        0 <= i < rows.len(),
    ensures
        rows[i].toggled || rows[i].deleted ==> list_changed(items, drag, rows, spans, pointer),
        list_after(items, drag, rows, spans, pointer) != items ==> list_changed(
            items,
            drag,
            rows,
            spans,
            pointer,
        ),
{
    if !any_clicked(rows) {
        lemma_untouched(items, rows);
    }
}

/// What is done is struck through and has the colour for it; the row that is
/// dragged is outlined and has a bright handle.
pub proof fn rows_show_what_is_done(done: bool, dragging: bool)
    ensures
        row_of(done, dragging).struck == done,
        row_of(done, dragging).outlined == dragging,
        row_of(done, dragging).label == Role::TextDone <==> done,
        row_of(done, dragging).label == Role::TextSecondary <==> !done,
        row_of(done, dragging).handle == Role::Accent <==> dragging,
        row_of(done, dragging).handle == Role::TextMuted <==> !dragging,
{
}

/// A row shows the time of its reminder as it was written, behind a clock.
pub proof fn rows_show_the_time(remind_at: Seq<char>)
    ensures
        remind_text(remind_at).len() == remind_at.len() + 2,
        remind_text(remind_at)[0] == '⏰',
        remind_text(remind_at)[1] == ' ',
        remind_text(remind_at).skip(2) == remind_at,
{
    assert(remind_text(remind_at).skip(2) =~= remind_at);
}

/// Letting go moves nothing where no row is dragged, where the dragged row has
/// no place to go, and where its row is no longer there.
pub proof fn nothing_is_dropped_without_a_place(
    items: Seq<TodoView>,
    drag: Drag,
    rows: Seq<RowInput>,
    spans: Seq<Span>,
    pointer: Option<u32>,
)
    requires
        rows.len() == items.len(),
        drag.index is None || drag.target is None || drag.index->0 >= items.len()
            || drag.target->0 > items.len(),
        forall|k: int|
            0 <= k < rows.len() ==> !(#[trigger] rows[k]).dragged && !rows[k].toggled
                && !rows[k].deleted,
    ensures
        list_after(items, drag, rows, spans, pointer) == items,
        !list_changed(items, drag, rows, spans, pointer),
{
    lemma_untouched(items, rows);
    lemma_nothing_dragged(rows);
}

/// A row that is dragged and let go in one look goes where the pointer shows,
/// as if it had been dragged there before.
pub proof fn a_quick_drag_is_a_drag(
    items: Seq<TodoView>,
    drag: Drag,
    rows: Seq<RowInput>,
    still: Seq<RowInput>,
    spans: Seq<Span>,
    at: u32,
    from: int,
)
    requires
        rows.len() == items.len() <= usize::MAX,
        still.len() == items.len(),
        0 <= from < rows.len(),
        rows[from].dragged,
        forall|k: int| from < k < rows.len() ==> !(#[trigger] rows[k]).dragged,
        exists|k: int| 0 <= k < rows.len() && (#[trigger] rows[k]).released,
        forall|k: int|
            0 <= k < rows.len() ==> {
                &&& !(#[trigger] still[k]).dragged
                &&& still[k].released == rows[k].released
                &&& still[k].toggled == rows[k].toggled
                &&& still[k].deleted == rows[k].deleted
            },
    ensures
        list_after(items, drag, rows, spans, Some(at)) == list_after(
            items,
            Drag { index: Some(from as usize), target: Some(insert_at(spans, at) as usize) },
            still,
            spans,
            Some(at),
        ),
{
    lemma_one_dragged(rows, from);
    lemma_nothing_dragged(still);
    lemma_same_clicks(items, rows, still);
    let k = choose|k: int| 0 <= k < rows.len() && (#[trigger] rows[k]).released;
    assert(still[k].released);
}

proof fn lemma_same_clicks(items: Seq<TodoView>, a: Seq<RowInput>, b: Seq<RowInput>)
    requires
        a.len() == items.len(),
        b.len() == items.len(),
        forall|k: int|
            0 <= k < a.len() ==> (#[trigger] b[k]).toggled == a[k].toggled && b[k].deleted
                == a[k].deleted,
    ensures
        clicked(items, a) == clicked(items, b),
    decreases items.len(),
{
    if items.len() > 0 {
        let x = a.skip(1);
        let y = b.skip(1);
        assert forall|k: int| 0 <= k < x.len() implies (#[trigger] y[k]).toggled == x[k].toggled
            && y[k].deleted == x[k].deleted by {
            assert(y[k] == b[k + 1] && x[k] == a[k + 1]);
        }
        lemma_same_clicks(items.skip(1), x, y);
        assert(b[0].toggled == a[0].toggled);
    }
}

} // verus!
