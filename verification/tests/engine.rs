use stackvm::{Outcome, Status, Value, VmError, VM};

fn load(lines: &[&str]) -> VM {
    VM::new(lines.to_vec()).expect("the program loads")
}

fn text(s: &str) -> Value {
    Value::Text(s.to_string())
}

fn run_from_zero(lines: &[&str], budget: u64) -> (Outcome, Vec<Value>) {
    let vm = load(lines);
    let mut stack = Vec::new();
    let outcome = vm.run_call(0, &mut stack, budget);
    (outcome, stack)
}

#[test]
fn push_int_leaves_one_integer() {
    for (literal, n) in [("0", 0i64), ("42", 42), ("-7", -7), ("+9", 9), ("007", 7)] {
        let line = format!("push int {}", literal);
        let (outcome, stack) = run_from_zero(&[&line], 10);
        assert_eq!(outcome.status, Status::Returned(None));
        assert_eq!(stack, vec![Value::Integer(n)]);
    }
}

#[test]
fn push_int_extremes() {
    let (_, stack) = run_from_zero(&["push int 9223372036854775807"], 10);
    assert_eq!(stack, vec![Value::Integer(i64::MAX)]);
    let (_, stack) = run_from_zero(&["push int -9223372036854775808"], 10);
    assert_eq!(stack, vec![Value::Integer(i64::MIN)]);
    let (outcome, stack) = run_from_zero(&["push int 9223372036854775808"], 10);
    assert_eq!(outcome.status, Status::Halted(VmError::UnknownInstruction));
    assert!(stack.is_empty());
}

#[test]
fn three_plus_four_is_seven() {
    let (outcome, stack) = run_from_zero(&["push int 3", "push int 4", "math +"], 10);
    assert_eq!(outcome.status, Status::Returned(None));
    assert_eq!(stack, vec![Value::Integer(7)]);
}

#[test]
fn concat_puts_the_later_text_first() {
    let (outcome, stack) =
        run_from_zero(&["push str hello", "push str world", "call primitive concat"], 10);
    assert_eq!(outcome.status, Status::Returned(None));
    assert_eq!(stack, vec![text("worldhello")]);
}

#[test]
fn dup_doubles_the_top() {
    let (_, stack) = run_from_zero(&["push str a b", "dup"], 10);
    assert_eq!(stack.len(), 2);
    assert_eq!(stack[0], stack[1]);
    assert_eq!(stack[0], text("a b"));
}

#[test]
fn jump_carry_with_carry_down_does_not_loop() {
    let vm = load(&["$label main", "push int 1", "jump carry 0"]);
    let mut stack = Vec::new();
    let outcome = vm.run_call(vm.entry(), &mut stack, 1000);
    assert_eq!(outcome.status, Status::Returned(None));
    assert_eq!(stack, vec![Value::Integer(1)]);
}

#[test]
fn jump_carry_with_carry_up_loops_until_the_budget_ends() {
    let vm = load(&["$label main", "push int 1", "carry set true", "jump carry 0"]);
    let mut stack = Vec::new();
    let outcome = vm.run_call(vm.entry(), &mut stack, 40);
    assert_eq!(outcome.status, Status::Running);
    assert_eq!(stack, vec![Value::Integer(1); 10]);
}

#[test]
fn counting_loop_ends_by_comparison() {
    let program = [
        "push int 0",
        "local store n",
        "$label again",
        "local load n",
        "push int 1",
        "math +",
        "dup",
        "local store n",
        "push int 5",
        "cmp <",
        "jump carry $again",
        "local load n",
    ];
    let (outcome, stack) = run_from_zero(&program, 1000);
    assert_eq!(outcome.status, Status::Returned(None));
    assert_eq!(stack, vec![Value::Integer(5)]);
}

#[test]
fn call_two_add_returns_the_sum() {
    let program = [
        "$label main",
        "push int 100",
        "push int 20",
        "push int 22",
        "call 2 add",
        "ret",
        "$label add",
        "math +",
        "ret val",
    ];
    let vm = load(&program);
    assert_eq!(vm.entry(), 0);
    let mut stack = Vec::new();
    let outcome = vm.run_call(vm.entry(), &mut stack, 100);
    assert_eq!(outcome.status, Status::Returned(None));
    assert_eq!(stack, vec![Value::Integer(100), Value::Integer(42)]);
}

#[test]
fn local_store_then_load_round_trips() {
    for value in ["push int -3", "push str some text"] {
        let (outcome, stack) = run_from_zero(&[value, "dup", "local store x", "local load x"], 10);
        assert_eq!(outcome.status, Status::Returned(None));
        assert_eq!(stack.len(), 2);
        assert_eq!(stack[0], stack[1]);
    }
}

#[test]
fn callee_does_not_see_the_locals_of_its_caller() {
    let program = [
        "push int 1",
        "local store x",
        "call 0 peek",
        "ret",
        "$label peek",
        "local load x",
        "ret val",
    ];
    let (outcome, _) = run_from_zero(&program, 100);
    assert_eq!(outcome.status, Status::Halted(VmError::UnknownLocal));
}

#[test]
fn jump_past_the_end_is_malformed() {
    let (outcome, stack) = run_from_zero(&["push int 1", "jump always 3", "push int 2"], 10);
    assert_eq!(outcome.status, Status::Halted(VmError::MalformedProgram));
    assert_eq!(stack, vec![Value::Integer(1)]);
    let (outcome, _) = run_from_zero(&["jump always 1"], 10);
    assert_eq!(outcome.status, Status::Halted(VmError::MalformedProgram));
    let (outcome, _) = run_from_zero(&["jump carry 7"], 10);
    assert_eq!(outcome.status, Status::Halted(VmError::MalformedProgram));
}

#[test]
fn ret_val_needs_exactly_one_value() {
    let (outcome, _) = run_from_zero(&["ret val"], 10);
    assert_eq!(outcome.status, Status::Halted(VmError::InvalidReturnShape));
    let (outcome, stack) = run_from_zero(&["push int 1", "push int 2", "ret val"], 10);
    assert_eq!(outcome.status, Status::Halted(VmError::InvalidReturnShape));
    assert_eq!(stack.len(), 2);
    let (outcome, stack) = run_from_zero(&["push int 1", "ret val"], 10);
    assert_eq!(outcome.status, Status::Returned(Some(Value::Integer(1))));
    assert!(stack.is_empty());
}
