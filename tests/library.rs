use nu_plugin_explore::config::Key;
use nu_plugin_explore::edit::{string_of, Editor, EditorOutcome};
use nu_plugin_explore::navigation::{go_back_in_data, go_deeper_in_data, go_up_or_down_in_data, Direction};
use nu_plugin_explore::value::{
    follow_cell_path, mutate_value_cell, PathMember, ResolutionError, ResolutionErrorKind, Value,
};
use nu_plugin_explore::State;

fn string(s: &str) -> Value {
    Value::String { val: s.to_string() }
}

fn int_value(i: i64) -> Value {
    Value::Int { val: i }
}

fn record(cols: Vec<&str>, vals: Vec<Value>) -> Value {
    Value::Record { cols: cols.into_iter().map(|c| c.to_string()).collect(), vals }
}

fn key(k: &str) -> PathMember {
    PathMember::String { val: k.to_string(), optional: false }
}

fn index(i: usize) -> PathMember {
    PathMember::Int { val: i, optional: false }
}

fn sample() -> Value {
    record(
        vec!["l", "r", "s", "i"],
        vec![
            Value::List { vals: vec![string("my"), string("list"), string("elements")] },
            record(vec!["a", "b"], vec![int_value(1), int_value(2)]),
            string("some string"),
            int_value(123),
        ],
    )
}

#[test]
fn follow_reaches_nested_nodes() {
    let v = sample();
    assert_eq!(follow_cell_path(&v, &vec![key("l"), index(2)]), Ok(string("elements")));
    assert_eq!(follow_cell_path(&v, &vec![key("r"), key("b")]), Ok(int_value(2)));
    assert_eq!(follow_cell_path(&v, &vec![]), Ok(sample()));
}

#[test]
fn follow_reports_the_failing_member() {
    let v = sample();
    assert_eq!(
        follow_cell_path(&v, &vec![key("l"), index(3)]),
        Err(ResolutionError { kind: ResolutionErrorKind::IndexOutOfRange, position: 1 })
    );
    assert_eq!(
        follow_cell_path(&v, &vec![key("x")]),
        Err(ResolutionError { kind: ResolutionErrorKind::KeyNotFound, position: 0 })
    );
    assert_eq!(
        follow_cell_path(&v, &vec![index(0)]),
        Err(ResolutionError { kind: ResolutionErrorKind::IndexOutOfRange, position: 0 })
    );
}

#[test]
fn optional_member_on_empty_container_gives_nothing() {
    let v = Value::List { vals: vec![] };
    assert_eq!(follow_cell_path(&v, &vec![PathMember::Int { val: 0, optional: true }]), Ok(Value::Nothing));
}

#[test]
fn mutate_replaces_only_the_target() {
    let v = sample();
    let new = mutate_value_cell(&v, &vec![key("r"), key("a")], &int_value(7));
    assert_eq!(follow_cell_path(&new, &vec![key("r"), key("a")]), Ok(int_value(7)));
    assert_eq!(follow_cell_path(&new, &vec![key("r"), key("b")]), Ok(int_value(2)));
    assert_eq!(follow_cell_path(&new, &vec![key("s")]), Ok(string("some string")));
    assert_eq!(v, sample());
    let new = mutate_value_cell(&v, &vec![key("l"), index(1)], &string("LIST"));
    assert_eq!(follow_cell_path(&new, &vec![key("l"), index(1)]), Ok(string("LIST")));
    assert_eq!(follow_cell_path(&new, &vec![key("l"), index(0)]), Ok(string("my")));
}

#[test]
fn mutate_on_a_path_that_selects_nothing_keeps_the_tree() {
    let v = sample();
    assert_eq!(mutate_value_cell(&v, &vec![key("zzz")], &int_value(1)), sample());
    assert_eq!(mutate_value_cell(&v, &vec![], &int_value(1)), int_value(1));
}

#[test]
fn down_as_many_times_as_siblings_comes_back() {
    let v = sample();
    let start = vec![key("r")];
    let mut path = start.clone();
    for _ in 0..4 {
        go_up_or_down_in_data(&mut path, false, &v, Direction::Down);
    }
    assert_eq!(path, start);
    let start = vec![key("l"), index(1)];
    let mut path = start.clone();
    for _ in 0..3 {
        go_up_or_down_in_data(&mut path, false, &v, Direction::Down);
    }
    assert_eq!(path, start);
}

#[test]
fn down_and_up_wrap_around() {
    let v = sample();
    let mut path = vec![key("i")];
    go_up_or_down_in_data(&mut path, false, &v, Direction::Down);
    assert_eq!(path, vec![key("l")]);
    go_up_or_down_in_data(&mut path, false, &v, Direction::Up);
    assert_eq!(path, vec![key("i")]);
}

#[test]
fn single_child_does_not_move() {
    let v = Value::List { vals: vec![int_value(1)] };
    let mut path = vec![index(0)];
    go_up_or_down_in_data(&mut path, false, &v, Direction::Down);
    assert_eq!(path, vec![index(0)]);
}

#[test]
fn right_then_left_restores_the_path() {
    let v = sample();
    for start in [vec![key("l")], vec![key("r")], vec![key("s")], vec![key("l"), index(2)]] {
        let mut path = start.clone();
        let mut bottom = false;
        go_deeper_in_data(&mut path, &mut bottom, &v);
        go_back_in_data(&mut path, &mut bottom);
        assert_eq!(path, start);
        assert!(!bottom);
    }
}

#[test]
fn bottom_flag_after_right() {
    let v = sample();
    let mut path = vec![key("r")];
    let mut bottom = false;
    go_deeper_in_data(&mut path, &mut bottom, &v);
    assert!(!bottom);
    assert_eq!(path, vec![key("r"), key("a")]);
    go_deeper_in_data(&mut path, &mut bottom, &v);
    assert!(bottom);
    assert_eq!(path, vec![key("r"), key("a")]);
}

#[test]
fn keys_at_the_bottom() {
    let v = sample();
    let mut path = vec![key("s")];
    go_up_or_down_in_data(&mut path, true, &v, Direction::Down);
    assert_eq!(path, vec![key("s")]);
    go_up_or_down_in_data(&mut path, true, &v, Direction::Up);
    assert_eq!(path, vec![key("s")]);
    let mut bottom = true;
    go_back_in_data(&mut path, &mut bottom);
    assert!(!bottom);
    assert_eq!(path, vec![key("s")]);
}

#[test]
fn left_at_top_level_stays() {
    let mut path = vec![key("s")];
    let mut bottom = false;
    go_back_in_data(&mut path, &mut bottom);
    assert_eq!(path, vec![key("s")]);
}

#[test]
fn editor_types_and_moves() {
    let mut e = Editor::from_value(&string("ab"));
    assert_eq!(e.cursor, 2);
    assert_eq!(e.handle_key(&Key::ArrowLeft), EditorOutcome::Edited);
    assert_eq!(e.handle_key(&Key::Char('x')), EditorOutcome::Edited);
    assert_eq!(e.buffer, vec!['a', 'x', 'b']);
    assert_eq!(e.cursor, 2);
    assert_eq!(e.handle_key(&Key::Backspace), EditorOutcome::Edited);
    assert_eq!(e.buffer, vec!['a', 'b']);
    assert_eq!(e.handle_key(&Key::End), EditorOutcome::Edited);
    assert_eq!(e.cursor, 2);
    assert_eq!(e.handle_key(&Key::ArrowRight), EditorOutcome::Edited);
    assert_eq!(e.cursor, 2);
    assert_eq!(e.handle_key(&Key::Home), EditorOutcome::Edited);
    assert_eq!(e.handle_key(&Key::ArrowLeft), EditorOutcome::Edited);
    assert_eq!(e.cursor, 0);
    assert_eq!(e.handle_key(&Key::Backspace), EditorOutcome::Edited);
    assert_eq!(e.buffer, vec!['a', 'b']);
    assert_eq!(e.handle_key(&Key::Tab), EditorOutcome::Unhandled);
    assert_eq!(e.handle_key(&Key::Escape), EditorOutcome::Cancelled);
    assert_eq!(e.handle_key(&Key::Enter), EditorOutcome::Committed(string("ab")));
}

#[test]
fn editor_on_non_string_is_empty() {
    let e = Editor::from_value(&int_value(4));
    assert!(e.buffer.is_empty());
    assert_eq!(e.cursor, 0);
    let mut e = Editor::from_value(&string("héllo"));
    assert_eq!(e.buffer.len(), 5);
    e.set_width(40);
    assert_eq!(e.width, 40);
}

#[test]
fn string_of_joins_characters() {
    assert_eq!(string_of(&vec!['a', 'é', 'c']), "aéc".to_string());
    assert_eq!(string_of(&vec![]), String::new());
}

#[test]
fn state_starts_normal() {
    assert_eq!(State::default(), State::Normal);
}
