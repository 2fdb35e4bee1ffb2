use stackvm::frame::{Frame, Locals};
use stackvm::Value;

fn text(s: &str) -> Value {
    Value::Text(s.to_string())
}

#[test]
fn a_new_frame_holds_its_arguments_and_nothing_else() {
    let frame = Frame::new(4, vec![Value::Integer(1), text("two")]);
    assert_eq!(frame.ip, 4);
    assert!(!frame.carry);
    assert_eq!(frame.stack, vec![Value::Integer(1), text("two")]);
    assert_eq!(frame.locals.get(&"x".to_string()), None);
}

#[test]
fn push_and_pop_work_at_the_top() {
    let mut frame = Frame::new(0, Vec::new());
    frame.push(Value::Integer(1));
    frame.push(text("two"));
    frame.push(Value::Integer(3));
    assert!(!frame.holds_text(0));
    assert!(frame.holds_text(1));
    assert!(!frame.holds_text(2));
    assert_eq!(frame.pop_integer(), 3);
    assert_eq!(frame.pop_text(), "two");
    assert_eq!(frame.pop(), Value::Integer(1));
    assert!(frame.stack.is_empty());
}

#[test]
fn split_top_keeps_the_order() {
    let mut frame = Frame::new(0, vec![Value::Integer(1), Value::Integer(2), Value::Integer(3)]);
    assert_eq!(frame.split_top(2), vec![Value::Integer(2), Value::Integer(3)]);
    assert_eq!(frame.stack, vec![Value::Integer(1)]);
    assert_eq!(frame.split_top(0), Vec::<Value>::new());
    assert_eq!(frame.split_top(1), vec![Value::Integer(1)]);
    assert!(frame.stack.is_empty());
}

#[test]
fn advance_moves_to_the_next_line() {
    let mut frame = Frame::new(7, Vec::new());
    frame.advance();
    assert_eq!(frame.ip, 8);
}

#[test]
fn locals_bind_and_rebind() {
    let mut locals = Locals::new();
    assert_eq!(locals.get(&"a".to_string()), None);
    locals.insert("a".to_string(), Value::Integer(1));
    locals.insert("b".to_string(), text("bee"));
    assert_eq!(locals.get(&"a".to_string()), Some(Value::Integer(1)));
    locals.insert("a".to_string(), text("one"));
    assert_eq!(locals.get(&"a".to_string()), Some(text("one")));
    assert_eq!(locals.get(&"b".to_string()), Some(text("bee")));
    assert_eq!(locals.get(&"".to_string()), None);
    locals.insert("".to_string(), Value::Integer(0));
    assert_eq!(locals.get(&"".to_string()), Some(Value::Integer(0)));
}
