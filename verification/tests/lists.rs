use desk_todo::models::TodoItem;
use desk_todo::scalar::{clamp, is_equal, is_less};
use desk_todo::theme::Role;
use desk_todo::todo_list::{
    clear_done, insert_position, list_frame, move_todo, remind_label, row_look, Drag, RowInput, Span,
};

fn row(y: f32) -> Span {
    let height = 32.0f32;
    Span { center: (y + height / 2.0).to_bits(), bottom: (y + height).to_bits() }
}

fn sample_rows() -> Vec<Span> {
    vec![row(100.0), row(140.0), row(180.0)]
}

fn position(rows: &[Span], pointer_y: f32) -> usize {
    insert_position(rows, pointer_y.to_bits())
}

fn todos(names: &[&str]) -> Vec<TodoItem> {
    names
        .iter()
        .map(|text| TodoItem { text: (*text).to_string(), done: false, remind_at: None })
        .collect()
}

fn texts(items: &[TodoItem]) -> Vec<&str> {
    items.iter().map(|item| item.text.as_str()).collect()
}

#[test]
fn ui_insert_position_above_first_row_inserts_at_start() {
    assert_eq!(position(&sample_rows(), 90.0), 0);
}

#[test]
fn ui_insert_position_upper_half_inserts_before_row() {
    assert_eq!(position(&sample_rows(), 105.0), 0);
    assert_eq!(position(&sample_rows(), 145.0), 1);
}

#[test]
fn ui_insert_position_lower_half_inserts_after_row() {
    assert_eq!(position(&sample_rows(), 125.0), 1);
    assert_eq!(position(&sample_rows(), 165.0), 2);
}

#[test]
fn ui_insert_position_below_all_rows_inserts_at_end() {
    assert_eq!(position(&sample_rows(), 500.0), 3);
}

#[test]
fn ui_insert_position_empty_list_inserts_at_end() {
    assert_eq!(position(&[], 500.0), 0);
}

#[test]
fn ui_move_todo_forward_moves_item_down() {
    let mut items = todos(&["A", "B", "C"]);
    assert!(move_todo(&mut items, 0, 2));
    assert_eq!(texts(&items), ["B", "A", "C"]);
}

#[test]
fn ui_move_todo_to_end_appends_item() {
    let mut items = todos(&["A", "B", "C"]);
    assert!(move_todo(&mut items, 0, 3));
    assert_eq!(texts(&items), ["B", "C", "A"]);
}

#[test]
fn ui_move_todo_backward_moves_item_up() {
    let mut items = todos(&["A", "B", "C"]);
    assert!(move_todo(&mut items, 2, 0));
    assert_eq!(texts(&items), ["C", "A", "B"]);
}

#[test]
fn ui_move_todo_same_position_is_noop() {
    let mut items = todos(&["A", "B", "C"]);
    assert!(!move_todo(&mut items, 1, 1));
    assert!(!move_todo(&mut items, 1, 2));
    assert_eq!(texts(&items), ["A", "B", "C"]);
}

#[test]
fn todo_list_insert_position_above_first_row_inserts_at_start() {
    assert_eq!(position(&sample_rows(), 90.0), 0);
}

#[test]
fn todo_list_insert_position_upper_half_inserts_before_row() {
    assert_eq!(position(&sample_rows(), 105.0), 0);
    assert_eq!(position(&sample_rows(), 145.0), 1);
}

#[test]
fn todo_list_insert_position_lower_half_inserts_after_row() {
    assert_eq!(position(&sample_rows(), 125.0), 1);
    assert_eq!(position(&sample_rows(), 165.0), 2);
}

#[test]
fn todo_list_insert_position_below_all_rows_inserts_at_end() {
    assert_eq!(position(&sample_rows(), 500.0), 3);
}

#[test]
fn todo_list_insert_position_empty_list_inserts_at_end() {
    assert_eq!(position(&[], 500.0), 0);
}

#[test]
fn todo_list_move_todo_forward_moves_item_down() {
    let mut items = todos(&["A", "B", "C"]);
    assert!(move_todo(&mut items, 0, 2));
    assert_eq!(texts(&items), ["B", "A", "C"]);
}

#[test]
fn todo_list_move_todo_to_end_appends_item() {
    let mut items = todos(&["A", "B", "C"]);
    assert!(move_todo(&mut items, 0, 3));
    assert_eq!(texts(&items), ["B", "C", "A"]);
}

#[test]
fn todo_list_move_todo_backward_moves_item_up() {
    let mut items = todos(&["A", "B", "C"]);
    assert!(move_todo(&mut items, 2, 0));
    assert_eq!(texts(&items), ["C", "A", "B"]);
}

#[test]
fn todo_list_move_todo_same_position_is_noop() {
    let mut items = todos(&["A", "B", "C"]);
    assert!(!move_todo(&mut items, 1, 1));
    assert!(!move_todo(&mut items, 1, 2));
    assert_eq!(texts(&items), ["A", "B", "C"]);
}

#[test]
fn bits_order_as_numbers_do() {
    let numbers = [
        f32::NEG_INFINITY, -1.0e30, -2.5, -1.0, -1.0e-40, -0.0, 0.0, 1.0e-40, 0.3, 1.0, 1.5, 7.0e12,
        f32::INFINITY, f32::NAN, -f32::NAN,
    ];
    for a in numbers {
        for b in numbers {
            assert_eq!(is_less(a.to_bits(), b.to_bits()), a < b);
            assert_eq!(is_equal(a.to_bits(), b.to_bits()), a == b);
        }
        let clamped = clamp(a.to_bits(), 0.3f32.to_bits(), 1.0f32.to_bits());
        assert_eq!(clamped, a.clamp(0.3, 1.0).to_bits());
    }
}

#[test]
fn moving_down_never_moves_the_place_up() {
    let rows = sample_rows();
    let mut last = 0;
    for y in 80..260 {
        let at = position(&rows, y as f32);
        assert!(at >= last);
        last = at;
    }
    assert_eq!(last, 3);
    assert_eq!(position(&rows, f32::NAN), 3);
}

#[test]
fn a_move_can_be_undone() {
    for from in 0..4usize {
        for at in 0..5usize {
            let mut items = todos(&["A", "B", "C", "D"]);
            let target = if at > from { at - 1 } else { at };
            move_todo(&mut items, from, at);
            assert_eq!(texts(&items)[target], ["A", "B", "C", "D"][from]);
            move_todo(&mut items, target, if from > target { from + 1 } else { from });
            assert_eq!(texts(&items), ["A", "B", "C", "D"]);
        }
    }
}

fn idle() -> RowInput {
    RowInput { dragged: false, released: false, toggled: false, deleted: false }
}

fn nothing() -> Drag {
    Drag { index: None, target: None }
}

#[test]
fn single_rows_are_deleted() {
    for gone in 0..3usize {
        let mut items = todos(&["A", "B", "C"]);
        let mut rows = vec![idle(), idle(), idle()];
        rows[gone].deleted = true;
        let mut drag = nothing();
        let outcome = list_frame(&mut items, &mut drag, &rows, &sample_rows(), None);
        assert!(outcome.changed);
        let expected: Vec<&str> =
            ["A", "B", "C"].into_iter().enumerate().filter(|(i, _)| *i != gone).map(|(_, t)| t).collect();
        assert_eq!(texts(&items), expected);
    }
}

#[test]
fn marks_are_toggled() {
    let mut items = todos(&["A", "B", "C"]);
    let mut rows = vec![idle(), idle(), idle()];
    rows[1].toggled = true;
    let mut drag = nothing();
    assert!(list_frame(&mut items, &mut drag, &rows, &sample_rows(), None).changed);
    assert_eq!(items.iter().map(|i| i.done).collect::<Vec<bool>>(), [false, true, false]);
    assert!(list_frame(&mut items, &mut drag, &rows, &sample_rows(), None).changed);
    assert!(items.iter().all(|i| !i.done));
}

#[test]
fn a_row_is_dragged_and_let_go() {
    let mut items = todos(&["A", "B", "C"]);
    let mut drag = nothing();
    let mut rows = vec![idle(), idle(), idle()];
    rows[0].dragged = true;
    let pointer = Some(165.0f32.to_bits());
    let outcome = list_frame(&mut items, &mut drag, &rows, &sample_rows(), pointer);
    assert!(!outcome.changed);
    assert_eq!(outcome.mark, Some(2));
    assert_eq!(drag, Drag { index: Some(0), target: Some(2) });
    let outcome = list_frame(&mut items, &mut drag, &rows, &sample_rows(), None);
    assert_eq!(outcome.mark, Some(2));
    rows[0] = idle();
    rows[0].released = true;
    let outcome = list_frame(&mut items, &mut drag, &rows, &sample_rows(), None);
    assert!(outcome.changed);
    assert_eq!(outcome.mark, None);
    assert_eq!(drag, nothing());
    assert_eq!(texts(&items), ["B", "A", "C"]);
}

#[test]
fn a_row_that_stays_has_no_mark() {
    for (y, mark) in [(105.0f32, None), (125.0, None), (165.0, Some(2)), (500.0, Some(3))] {
        let mut items = todos(&["A", "B", "C"]);
        let mut drag = nothing();
        let mut rows = vec![idle(), idle(), idle()];
        rows[0].dragged = true;
        let outcome = list_frame(&mut items, &mut drag, &rows, &sample_rows(), Some(y.to_bits()));
        assert_eq!(outcome.mark, mark);
    }
}

#[test]
fn a_drag_that_was_left_ends() {
    let mut items = todos(&["A", "B", "C"]);
    let mut drag = Drag { index: Some(1), target: Some(0) };
    let rows = vec![idle(), idle(), idle()];
    let outcome = list_frame(&mut items, &mut drag, &rows, &sample_rows(), None);
    assert!(!outcome.changed);
    assert_eq!(drag, nothing());
    assert_eq!(texts(&items), ["A", "B", "C"]);
}

#[test]
fn a_row_that_is_gone_moves_nothing() {
    let mut items = todos(&["A"]);
    let mut drag = Drag { index: Some(4), target: Some(0) };
    let mut rows = vec![idle()];
    rows[0].released = true;
    let outcome = list_frame(&mut items, &mut drag, &rows, &vec![row(100.0)], None);
    assert!(!outcome.changed);
    assert_eq!(drag, nothing());
}

#[test]
fn clearing_takes_out_what_is_done() {
    let mut items = todos(&["A", "B", "C", "D"]);
    assert!(!clear_done(&mut items));
    items[0].done = true;
    items[2].done = true;
    assert!(clear_done(&mut items));
    assert_eq!(texts(&items), ["B", "D"]);
    assert!(!clear_done(&mut items));
}

#[test]
fn rows_show_their_state() {
    let dragged = Drag { index: Some(1), target: None };
    let look = row_look(true, dragged, 1);
    assert_eq!((look.handle, look.label), (Role::Accent, Role::TextDone));
    assert!(look.struck && look.outlined);
    let look = row_look(false, dragged, 0);
    assert_eq!((look.handle, look.label), (Role::TextMuted, Role::TextSecondary));
    assert!(!look.struck && !look.outlined);
    let mut item = todos(&["A"]).remove(0);
    assert_eq!(remind_label(&item), None);
    item.remind_at = Some("08:00:00".to_string());
    assert_eq!(remind_label(&item).as_deref(), Some("⏰ 08:00:00"));
}
