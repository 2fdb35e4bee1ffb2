use stackvm::{Machine, Outcome, Status, Value, VmError, VM};

fn load(lines: &[&str]) -> VM {
    VM::new(lines.to_vec()).expect("the program loads")
}

fn text(s: &str) -> Value {
    Value::Text(s.to_string())
}

fn run(lines: &[&str]) -> (Outcome, Vec<Value>) {
    let vm = load(lines);
    let mut stack = Vec::new();
    let outcome = vm.run_call(vm.entry(), &mut stack, 10_000);
    (outcome, stack)
}

fn halts_with(lines: &[&str], error: VmError) {
    let (outcome, _) = run(lines);
    assert_eq!(outcome.status, Status::Halted(error), "{:?}", lines);
}

#[test]
fn subtraction_takes_the_later_value_from_the_earlier() {
    let (_, stack) = run(&["push int 10", "push int 3", "math -"]);
    assert_eq!(stack, vec![Value::Integer(7)]);
    let (_, stack) = run(&["push int 3", "push int 10", "math -"]);
    assert_eq!(stack, vec![Value::Integer(-7)]);
}

#[test]
fn multiplication() {
    let (_, stack) = run(&["push int -6", "push int 7", "math *"]);
    assert_eq!(stack, vec![Value::Integer(-42)]);
}

#[test]
fn arithmetic_wraps() {
    let (_, stack) = run(&["push int 9223372036854775807", "push int 1", "math +"]);
    assert_eq!(stack, vec![Value::Integer(i64::MIN)]);
    let (_, stack) = run(&["push int -9223372036854775808", "push int 1", "math -"]);
    assert_eq!(stack, vec![Value::Integer(i64::MAX)]);
    let (_, stack) = run(&["push int 4611686018427387904", "push int 4", "math *"]);
    assert_eq!(stack, vec![Value::Integer(0)]);
    let (_, stack) = run(&["push int -9223372036854775808", "push int -1", "math *"]);
    assert_eq!(stack, vec![Value::Integer(i64::MIN)]);
    let (_, stack) = run(&["push int 3037000500", "push int 3037000500", "math *"]);
    assert_eq!(stack, vec![Value::Integer(3037000500i64.wrapping_mul(3037000500))]);
}

#[test]
fn math_leaves_the_rest_of_the_stack() {
    let (_, stack) = run(&["push str keep", "push int 1", "push int 2", "math +"]);
    assert_eq!(stack, vec![text("keep"), Value::Integer(3)]);
}

fn carry_after(lines: &[&str]) -> bool {
    let vm = load(lines);
    let mut machine = Machine::start(0, Vec::new());
    vm.run_machine(&mut machine, lines.len() as u64);
    assert!(machine.is_running());
    machine.active().carry
}

#[test]
fn comparisons_read_their_operands_in_push_order() {
    assert!(carry_after(&["push int 1", "push int 2", "cmp <"]));
    assert!(!carry_after(&["push int 2", "push int 1", "cmp <"]));
    assert!(!carry_after(&["push int 2", "push int 2", "cmp <"]));
    assert!(carry_after(&["push int 2", "push int 1", "cmp >"]));
    assert!(!carry_after(&["push int 1", "push int 2", "cmp >"]));
    assert!(carry_after(&["push int 2", "push int 2", "cmp <="]));
    assert!(carry_after(&["push int 1", "push int 2", "cmp <="]));
    assert!(!carry_after(&["push int 3", "push int 2", "cmp <="]));
    assert!(carry_after(&["push int 2", "push int 2", "cmp >="]));
    assert!(carry_after(&["push int 3", "push int 2", "cmp >="]));
    assert!(!carry_after(&["push int 1", "push int 2", "cmp >="]));
    assert!(carry_after(&["push int -5", "push int -5", "cmp ="]));
    assert!(!carry_after(&["push int -5", "push int 5", "cmp ="]));
}

#[test]
fn texts_compare_for_equality_only() {
    assert!(carry_after(&["push str a b", "push str a b", "cmp ="]));
    assert!(!carry_after(&["push str a b", "push str a  b", "cmp ="]));
    halts_with(&["push str a", "push str b", "cmp <"], VmError::TypeMismatch);
    halts_with(&["push str a", "push str b", "cmp >="], VmError::TypeMismatch);
    halts_with(&["push str 1", "push int 1", "cmp ="], VmError::TypeMismatch);
    halts_with(&["push int 1", "push str 1", "cmp ="], VmError::TypeMismatch);
}

#[test]
fn comparison_takes_both_operands() {
    let (_, stack) = run(&["push int 9", "push int 1", "push int 2", "cmp <"]);
    assert_eq!(stack, vec![Value::Integer(9)]);
}

#[test]
fn carry_set_and_invert() {
    assert!(carry_after(&["carry set true"]));
    assert!(!carry_after(&["carry set true", "carry set false"]));
    assert!(carry_after(&["carry invert"]));
    assert!(!carry_after(&["carry invert", "carry invert"]));
}

#[test]
fn a_taken_conditional_jump_leaves_the_carry_up() {
    let vm = load(&["carry set true", "jump carry 3", "push int 0", "push int 1"]);
    let mut machine = Machine::start(0, Vec::new());
    vm.run_machine(&mut machine, 2);
    assert_eq!(machine.active().ip, 3);
    assert!(machine.active().carry);
}

#[test]
fn say_writes_lines_in_order() {
    let vm = load(&[
        "push str first line",
        "call primitive say",
        "push int 12",
        "call primitive int2str",
        "call primitive say",
        "push str ",
        "call primitive say",
    ]);
    let outcome = vm.run(100);
    assert_eq!(outcome.status, Status::Returned(None));
    assert_eq!(outcome.output, vec!["first line", "12", ""]);
}

#[test]
fn say_needs_a_text() {
    halts_with(&["call primitive say"], VmError::StackUnderflow);
    halts_with(&["push int 1", "call primitive say"], VmError::TypeMismatch);
}

#[test]
fn output_before_a_halt_is_kept() {
    let vm = load(&["push str so far", "call primitive say", "math +", "call primitive say"]);
    let outcome = vm.run(100);
    assert_eq!(outcome.status, Status::Halted(VmError::StackUnderflow));
    assert_eq!(outcome.output, vec!["so far"]);
}

#[test]
fn typeof_names_the_variant() {
    let (_, stack) = run(&["push int 1", "call primitive typeof"]);
    assert_eq!(stack, vec![text("int")]);
    let (_, stack) = run(&["push str 1", "call primitive typeof"]);
    assert_eq!(stack, vec![text("str")]);
    halts_with(&["call primitive typeof"], VmError::StackUnderflow);
}

#[test]
fn int2str_gives_the_decimal_text() {
    let (_, stack) = run(&["push int -9223372036854775808", "call primitive int2str"]);
    assert_eq!(stack, vec![text("-9223372036854775808")]);
    let (_, stack) = run(&["push int 0", "call primitive int2str"]);
    assert_eq!(stack, vec![text("0")]);
    halts_with(&["call primitive int2str"], VmError::StackUnderflow);
    halts_with(&["push str 1", "call primitive int2str"], VmError::TypeMismatch);
}

#[test]
fn concat_needs_two_texts() {
    halts_with(&["call primitive concat"], VmError::StackUnderflow);
    halts_with(&["push str a", "call primitive concat"], VmError::StackUnderflow);
    halts_with(&["push int 1", "call primitive concat"], VmError::StackUnderflow);
    halts_with(&["push str a", "push int 1", "call primitive concat"], VmError::TypeMismatch);
    halts_with(&["push int 1", "push str a", "call primitive concat"], VmError::TypeMismatch);
    let (_, stack) = run(&["push int 5", "push str a b", "push str c", "call primitive concat"]);
    assert_eq!(stack, vec![Value::Integer(5), text("ca b")]);
}

#[test]
fn math_needs_two_integers() {
    halts_with(&["math +"], VmError::StackUnderflow);
    halts_with(&["push int 1", "math +"], VmError::StackUnderflow);
    halts_with(&["push str 1", "math +"], VmError::StackUnderflow);
    halts_with(&["push str 1", "push int 1", "math +"], VmError::TypeMismatch);
    halts_with(&["push int 1", "push str 1", "math *"], VmError::TypeMismatch);
    halts_with(&["cmp ="], VmError::StackUnderflow);
    halts_with(&["push int 1", "cmp ="], VmError::StackUnderflow);
}

#[test]
fn a_halt_leaves_the_stack_as_it_was() {
    let (outcome, stack) = run(&["push int 1", "push str x", "math +", "push int 9"]);
    assert_eq!(outcome.status, Status::Halted(VmError::TypeMismatch));
    assert_eq!(stack, vec![Value::Integer(1), text("x")]);
}

#[test]
fn other_underflows() {
    halts_with(&["dup"], VmError::StackUnderflow);
    halts_with(&["local store x"], VmError::StackUnderflow);
    halts_with(&["push int 1", "call 2 f", "$label f"], VmError::StackUnderflow);
}

#[test]
fn lines_that_are_no_instructions_halt_when_reached() {
    halts_with(&["frobnicate"], VmError::UnknownInstruction);
    halts_with(&["push int x"], VmError::UnknownInstruction);
    halts_with(&["jump sometimes 0"], VmError::UnknownInstruction);
    halts_with(&["call primitive shout"], VmError::UnknownInstruction);
    let (outcome, stack) = run(&["push int 1", "ret", "frobnicate"]);
    assert_eq!(outcome.status, Status::Returned(None));
    assert_eq!(stack, vec![Value::Integer(1)]);
}

#[test]
fn unknown_locals_and_labels() {
    halts_with(&["local load x"], VmError::UnknownLocal);
    halts_with(&["push int 1", "local store x", "local load y"], VmError::UnknownLocal);
    halts_with(&["jump always $nowhere"], VmError::MalformedProgram);
    halts_with(&["jump carry $nowhere"], VmError::MalformedProgram);
    halts_with(&["call 0 nowhere"], VmError::MalformedProgram);
}

#[test]
fn store_overwrites() {
    let (_, stack) = run(&[
        "push int 1",
        "local store x",
        "push str two",
        "local store x",
        "push int 3",
        "local store y",
        "local load x",
        "local load y",
        "local load x",
    ]);
    assert_eq!(stack, vec![text("two"), Value::Integer(3), text("two")]);
}

#[test]
fn jumps_by_label_and_by_index() {
    let (_, stack) = run(&["jump always $end", "push int 1", "$label end", "push int 2"]);
    assert_eq!(stack, vec![Value::Integer(2)]);
    let (_, stack) = run(&["jump always 2", "push int 1", "push int 2"]);
    assert_eq!(stack, vec![Value::Integer(2)]);
}

#[test]
fn arguments_arrive_in_push_order() {
    let (outcome, stack) = run(&[
        "push int 0",
        "push int 10",
        "push int 3",
        "call 2 minus",
        "ret",
        "$label minus",
        "math -",
        "ret val",
    ]);
    assert_eq!(outcome.status, Status::Returned(None));
    assert_eq!(stack, vec![Value::Integer(0), Value::Integer(7)]);
}

#[test]
fn a_call_without_a_value_pushes_nothing() {
    let (_, stack) = run(&[
        "push int 1",
        "push int 2",
        "call 1 drop",
        "ret",
        "$label drop",
        "ret",
    ]);
    assert_eq!(stack, vec![Value::Integer(1)]);
    let (_, stack) = run(&["push int 1", "call 1 off", "ret", "$label off"]);
    assert!(stack.is_empty());
}

#[test]
fn the_carry_flag_is_private_to_a_frame() {
    let program = [
        "carry set true",
        "call 0 probe",
        "jump carry $up",
        "push str caller lost it",
        "ret",
        "$label up",
        "push str caller kept it",
        "ret",
        "$label probe",
        "jump carry $inherited",
        "push str fresh",
        "call primitive say",
        "ret",
        "$label inherited",
        "push str inherited",
        "call primitive say",
        "carry set false",
        "ret",
    ];
    let vm = load(&program);
    let mut stack = Vec::new();
    let outcome = vm.run_call(0, &mut stack, 100);
    assert_eq!(outcome.output, vec!["fresh"]);
    assert_eq!(stack, vec![text("caller kept it")]);
}

#[test]
fn recursion() {
    let program = [
        "$label main",
        "push int 10",
        "call 1 sum",
        "ret val",
        "$label sum",
        "dup",
        "local store n",
        "push int 0",
        "cmp =",
        "jump carry $zero",
        "local load n",
        "local load n",
        "push int 1",
        "math -",
        "call 1 sum",
        "math +",
        "ret val",
        "$label zero",
        "push int 0",
        "ret val",
    ];
    let vm = load(&program);
    let outcome = vm.run(10_000);
    assert_eq!(outcome.status, Status::Returned(Some(Value::Integer(55))));
}

#[test]
fn run_call_seeds_the_stack_with_the_arguments() {
    let vm = load(&["math -", "ret val"]);
    let mut stack = vec![Value::Integer(50), Value::Integer(8)];
    let outcome = vm.run_call(0, &mut stack, 10);
    assert_eq!(outcome.status, Status::Returned(Some(Value::Integer(42))));
    assert!(stack.is_empty());
}

#[test]
fn run_call_past_the_end_returns_at_once() {
    let vm = load(&["push int 1"]);
    let mut stack = vec![text("kept")];
    let outcome = vm.run_call(1, &mut stack, 10);
    assert_eq!(outcome.status, Status::Returned(None));
    assert_eq!(stack, vec![text("kept")]);
    let outcome = vm.run_call(usize::MAX, &mut stack, 10);
    assert_eq!(outcome.status, Status::Returned(None));
    assert_eq!(stack, vec![text("kept")]);
}

#[test]
fn the_budget_bounds_the_steps() {
    let vm = load(&["push int 1", "push int 2", "push int 3"]);
    for (budget, depth, status) in [
        (0u64, 0usize, Status::Running),
        (1, 1, Status::Running),
        (3, 3, Status::Running),
        (4, 3, Status::Returned(None)),
        (u64::MAX, 3, Status::Returned(None)),
    ] {
        let mut stack = Vec::new();
        let outcome = vm.run_call(0, &mut stack, budget);
        assert_eq!(outcome.status, status);
        assert_eq!(stack.len(), depth);
    }
}

#[test]
fn an_endless_program_ends_with_the_budget() {
    let vm = load(&["$label main", "push str again", "call primitive say", "jump always $main"]);
    let outcome = vm.run(40);
    assert_eq!(outcome.status, Status::Running);
    assert_eq!(outcome.output.len(), 10);
}

#[test]
fn stepping_by_hand() {
    let vm = load(&["push str hi", "call 1 speak", "ret", "$label speak", "call primitive say"]);
    let mut machine = Machine::start(vm.entry(), Vec::new());
    assert!(machine.is_running());
    assert_eq!(machine.depth(), 0);
    assert_eq!(vm.step(&mut machine), None);
    assert_eq!(machine.active().stack, vec![text("hi")]);
    assert_eq!(vm.step(&mut machine), None);
    assert_eq!(machine.depth(), 1);
    assert_eq!(machine.active().ip, 3);
    assert_eq!(machine.active().stack, vec![text("hi")]);
    assert_eq!(machine.root().ip, 2);
    assert!(machine.root().stack.is_empty());
    assert_eq!(vm.step(&mut machine), None);
    assert_eq!(vm.step(&mut machine), Some("hi".to_string()));
    assert_eq!(machine.depth(), 1);
    assert_eq!(vm.step(&mut machine), None);
    assert_eq!(machine.depth(), 0);
    assert_eq!(machine.active().ip, 2);
    assert!(machine.is_running());
    assert_eq!(vm.step(&mut machine), None);
    assert_eq!(machine.status(), &Status::Returned(None));
    assert!(!machine.is_running());
    assert_eq!(vm.step(&mut machine), None);
    assert_eq!(machine.status(), &Status::Returned(None));
    let (status, stack) = machine.finish();
    assert_eq!(status, Status::Returned(None));
    assert!(stack.is_empty());
}

#[test]
fn a_halt_inside_a_call_keeps_every_frame() {
    let vm = load(&["push int 1", "push int 2", "call 1 bad", "ret", "$label bad", "math +"]);
    let mut machine = Machine::start(0, Vec::new());
    let lines = vm.run_machine(&mut machine, 100);
    assert!(lines.is_empty());
    assert_eq!(machine.status(), &Status::Halted(VmError::StackUnderflow));
    assert_eq!(machine.depth(), 1);
    assert_eq!(machine.active().ip, 5);
    assert_eq!(machine.active().stack, vec![Value::Integer(2)]);
    assert_eq!(machine.root().stack, vec![Value::Integer(1)]);
    let (_, stack) = machine.finish();
    assert_eq!(stack, vec![Value::Integer(1)]);
}

#[test]
fn copies_hold_the_same_datum() {
    assert_eq!(Value::Integer(-3).duplicate(), Value::Integer(-3));
    assert_eq!(text("a b").duplicate(), text("a b"));
}
