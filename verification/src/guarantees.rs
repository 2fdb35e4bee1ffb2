//! What holds of every program and every state, proved from the semantics.

use vstd::prelude::*;
use crate::instruction::{decode_spec, InstructionView, MathOp, TargetView};
use crate::labels::lemma_labels_last_wins;
use crate::literal::{all_digits, int_literal, is_digit, unsigned_part};
use crate::semantics::{
    effect, output, perform, resolve, run, said, step, wrap, Effect, FrameView, MachineView,
    ProgramView, StatusView,
};
use crate::text::{is_blank, is_comment, is_space_char, lemma_first_space_is, split_spaces};
use crate::value::{ValueView, VmError};
use crate::vm::program_of;

verus! {

/// A signed literal holds no space.
pub proof fn lemma_int_literal_has_no_space(literal: Seq<char>)
    requires
        int_literal(literal) is Some,
    ensures
        literal.len() >= 1,
        forall|i: int| 0 <= i < literal.len() ==> literal[i] != ' ',
{
    assert forall|i: int| 0 <= i < literal.len() implies literal[i] != ' ' by {
        if literal[0] == '-' || literal[0] == '+' {
            let digits = literal.skip(1);
            assert(all_digits(digits));
            if i >= 1 {
                assert(is_digit(digits[i - 1]));
            }
        } else {
            assert(unsigned_part(literal) == literal);
            assert(is_digit(literal[i]));
        }
    }
}

/// The line `push int N` decodes to the instruction that pushes the integer
/// which the literal `N` writes.
pub proof fn lemma_decode_push_int(literal: Seq<char>, n: i64)
    requires
        int_literal(literal) == Some(n),
    ensures
        decode_spec("push int "@ + literal) == Some(InstructionView::PushInt(n)),
{
    let line = "push int "@ + literal;
    reveal_strlit("push int ");
    reveal_strlit("push");
    reveal_strlit("int");
    reveal_strlit("$label");
    lemma_int_literal_has_no_space(literal);
    assert(line[0] == 'p');
    assert(!is_space_char(line[0]));
    assert(!is_blank(line));
    assert(!is_comment(line));
    lemma_first_space_is(line, 4);
    assert(line.take(4) =~= "push"@);
    let rest = line.skip(5);
    lemma_first_space_is(rest, 3);
    assert(rest.take(3) =~= "int"@);
    assert(rest.skip(4) =~= literal);
    lemma_first_space_is(literal, literal.len() as int);
    assert(split_spaces(literal) =~= seq![literal]);
    assert(split_spaces(rest) =~= seq!["int"@, literal]);
    assert(split_spaces(line) =~= seq!["push"@, "int"@, literal]);
    assert("push"@.len() == 4);
    assert("$label"@.len() == 6);
}

/// For every valid integer literal, the program of the one line `push int N`,
/// run from its first line on an empty stack, ends without a value and leaves
/// exactly the integer N on the stack. It writes nothing.
pub proof fn push_int_leaves_the_integer(literal: Seq<char>, n: i64, budget: nat)
    requires
        int_literal(literal) == Some(n),
        budget >= 2,
    ensures
        ({
            let program = program_of(seq!["push int "@ + literal]);
            let begun = MachineView::start(0, Seq::empty());
            let ended = run(program, begun, budget);
            &&& ended.status == StatusView::Returned(None)
            &&& ended.frames.len() == 1
            &&& ended.root().stack == seq![ValueView::Integer(n)]
            &&& output(program, begun, budget) == Seq::<Seq<char>>::empty()
        }),
{
    let program = program_of(seq!["push int "@ + literal]);
    let begun = MachineView::start(0, Seq::empty());
    lemma_decode_push_int(literal, n);
    assert(program.code[0] == Some(InstructionView::PushInt(n)));
    let pushed = FrameView::fresh(0, Seq::empty()).at(1).with_stack(
        Seq::<ValueView>::empty().push(ValueView::Integer(n)),
    );
    assert(begun.frames.drop_last() =~= Seq::<FrameView>::empty());
    let second = step(program, begun);
    assert(second.frames =~= seq![pushed]);
    assert(second.frames.drop_last() =~= Seq::<FrameView>::empty());
    let third = step(program, second);
    assert(third.status == StatusView::Returned(None));
    assert(third.frames =~= seq![pushed]);
    assert(pushed.stack =~= seq![ValueView::Integer(n)]);
    reveal_with_fuel(run, 3);
    reveal_with_fuel(output, 3);
    assert(run(program, begun, budget) == third);
}

/// `dup` on a stack that holds a value puts a second copy of the top on it;
/// on a stack of one value the result holds two values, and they are equal.
pub proof fn dup_doubles_the_top(p: ProgramView, f: FrameView)
    requires
        f.stack.len() >= 1,
    ensures
        perform(p, f, InstructionView::Dup) matches Effect::Continue { frame, said } && {
            &&& said is None
            &&& frame.stack == f.stack.push(f.top())
            &&& frame.stack.len() == f.stack.len() + 1
            &&& frame.stack[frame.stack.len() - 1] == frame.stack[frame.stack.len() - 2]
            &&& frame.locals == f.locals
            &&& frame.carry == f.carry
        },
{
}

/// `dup` on an empty stack halts the run.
pub proof fn dup_needs_a_value(p: ProgramView, f: FrameView)
    requires
        f.stack.len() == 0,
    ensures
        perform(p, f, InstructionView::Dup) == Effect::Fail(VmError::StackUnderflow),
{
}

/// `local store` of a name and then `local load` of it, in the same frame,
/// gives the stack back as it was: the value comes back the same in variant
/// and content.
pub proof fn store_then_load_restores(p: ProgramView, f: FrameView, name: Seq<char>)
    requires
        f.stack.len() >= 1,
    ensures
        perform(p, f, InstructionView::LocalStore(name)) matches Effect::Continue {
            frame: stored,
            said: _,
        } && perform(p, stored, InstructionView::LocalLoad(name)) matches Effect::Continue {
            frame: loaded,
            said: _,
        } && {
            &&& stored.locals[name] == f.top()
            &&& loaded.stack == f.stack
            &&& loaded.top() == f.top()
        },
{
    let stored = f.at(f.ip + 1).with_stack(f.without(1)).with_local(name, f.top());
    assert(stored.stack.push(f.top()) =~= f.stack);
}

/// The frame that a call makes has no locals, whatever its caller has bound,
/// so a `local load` that it runs before any `local store` halts the run.
pub proof fn callee_starts_without_locals(
    p: ProgramView,
    f: FrameView,
    arity: usize,
    label: Seq<char>,
    name: Seq<char>,
)
    requires
        perform(p, f, InstructionView::Call { arity, name: label }) is Enter,
    ensures
        perform(p, f, InstructionView::Call { arity, name: label }) matches Effect::Enter {
            caller,
            callee,
        } && {
            &&& callee.locals == Map::<Seq<char>, ValueView>::empty()
            &&& !callee.carry
            &&& caller.locals == f.locals
            &&& perform(p, callee, InstructionView::LocalLoad(name)) == Effect::Fail(
                VmError::UnknownLocal,
            )
        },
{
}

/// A call takes exactly `arity` values from the caller, in the order in which
/// they were pushed, and the value that the callee returns comes back on top
/// of what the caller kept.
pub proof fn call_moves_the_arguments(p: ProgramView, f: FrameView, arity: usize, label: Seq<char>)
    requires
        arity <= f.stack.len(),
        p.labels.contains_key(label),
    ensures
        perform(p, f, InstructionView::Call { arity, name: label }) matches Effect::Enter {
            caller,
            callee,
        } && {
            &&& caller.stack + callee.stack == f.stack
            &&& callee.stack.len() == arity
            &&& callee.ip == p.labels[label]
            &&& caller.ip == f.ip + 1
        },
{
    let at = f.stack.len() - arity;
    assert(f.stack.take(at) + f.stack.skip(at) =~= f.stack);
}

/// Whether the machine runs, has a frame, and its active frame stands at the
/// instruction `i`.
pub open spec fn stands_at(p: ProgramView, m: MachineView, i: InstructionView) -> bool {
    &&& m.status == StatusView::Running
    &&& m.frames.len() >= 1
    &&& 0 <= m.active().ip < p.code.len()
    &&& p.code[m.active().ip] == Some(i)
}

/// A machine that halts with `error` and is otherwise as `m` is.
pub open spec fn halted(m: MachineView, error: VmError) -> MachineView {
    MachineView { status: StatusView::Halted(error), ..m }
}

/// A step that fails halts the machine where it stands: every frame is as it
/// was, nothing is written, and no further step changes anything.
pub proof fn failure_halts_in_place(p: ProgramView, m: MachineView, error: VmError, budget: nat)
    requires
        m.status == StatusView::Running,
        m.frames.len() >= 1,
        effect(p, m.active()) == Effect::Fail(error),
        budget >= 1,
    ensures
        step(p, m) == halted(m, error),
        said(p, m) is None,
        run(p, m, budget) == halted(m, error),
        output(p, m, budget) == Seq::<Seq<char>>::empty(),
{
    reveal_with_fuel(run, 2);
    reveal_with_fuel(output, 2);
}

/// A jump, taken or not, to an index that is not below the number of
/// instructions halts the run as malformed before anything else happens.
pub proof fn jump_out_of_range_halts(
    p: ProgramView,
    m: MachineView,
    conditional: bool,
    target: TargetView,
    budget: nat,
)
    requires
        stands_at(p, m, InstructionView::Jump { conditional, target }),
        resolve(p, target) matches Some(to) && to >= p.code.len(),
        budget >= 1,
    ensures
        run(p, m, budget) == halted(m, VmError::MalformedProgram),
        output(p, m, budget) == Seq::<Seq<char>>::empty(),
{
    failure_halts_in_place(p, m, VmError::MalformedProgram, budget);
}

/// A jump to a label that the program does not declare halts the run as malformed.
pub proof fn jump_to_unknown_label_halts(
    p: ProgramView,
    m: MachineView,
    conditional: bool,
    target: TargetView,
    budget: nat,
)
    requires
        stands_at(p, m, InstructionView::Jump { conditional, target }),
        resolve(p, target) is None,
        budget >= 1,
    ensures
        run(p, m, budget) == halted(m, VmError::MalformedProgram),
{
    failure_halts_in_place(p, m, VmError::MalformedProgram, budget);
}

/// `ret val` in a frame whose stack holds no value, or more than one, halts
/// the run.
pub proof fn ret_val_needs_one_value(p: ProgramView, m: MachineView, budget: nat)
    requires
        stands_at(p, m, InstructionView::RetVal),
        m.active().stack.len() != 1,
        budget >= 1,
    ensures
        perform(p, m.active(), InstructionView::RetVal) == Effect::Fail(
            VmError::InvalidReturnShape,
        ),
        run(p, m, budget) == halted(m, VmError::InvalidReturnShape),
{
    failure_halts_in_place(p, m, VmError::InvalidReturnShape, budget);
}

/// `ret val` in a frame whose stack holds exactly one value ends the frame
/// with that value.
pub proof fn ret_val_returns_the_value(p: ProgramView, f: FrameView)
    requires
        f.stack.len() == 1,
    ensures
        perform(p, f, InstructionView::RetVal) matches Effect::Leave { frame, value } && value
            == Some(f.stack[0]) && frame.stack.len() == 0,
{
}

/// A conditional jump to an instruction of the program is taken exactly when
/// the carry flag is up; either way the frame is otherwise unchanged, the
/// flag included.
pub proof fn conditional_jump_follows_carry(p: ProgramView, f: FrameView, target: TargetView)
    requires
        resolve(p, target) matches Some(to) && to < p.code.len(),
    ensures
        perform(p, f, InstructionView::Jump { conditional: true, target }) == (Effect::Continue {
            frame: f.at(
                if f.carry {
                    resolve(p, target)->0
                } else {
                    f.ip + 1
                },
            ),
            said: None,
        }),
{
}

/// A call of a two-argument procedure that adds and returns: after four steps
/// the caller stands behind the call with the two arguments replaced by their
/// wrapped sum, so its stack is one value shorter than before the call, and
/// one value longer than before the arguments were pushed. No frame is left
/// over from the call.
pub proof fn call_of_add_returns_the_sum(
    p: ProgramView,
    m: MachineView,
    name: Seq<char>,
    a: i64,
    b: i64,
)
    requires
        stands_at(p, m, InstructionView::Call { arity: 2, name }),
        p.labels.contains_key(name),
        p.labels[name] + 2 < p.code.len(),
        p.code[p.labels[name] as int] == Some(InstructionView::Label(name)),
        p.code[p.labels[name] + 1] == Some(InstructionView::Math(MathOp::Plus)),
        p.code[p.labels[name] + 2] == Some(InstructionView::RetVal),
        m.active().stack.len() >= 2,
        m.active().second() == ValueView::Integer(a),
        m.active().top() == ValueView::Integer(b),
    ensures
        ({
            let caller = m.active();
            let ended = run(p, m, 4);
            &&& ended.status == StatusView::Running
            &&& ended.frames.len() == m.frames.len()
            &&& ended.frames.drop_last() == m.frames.drop_last()
            &&& ended.active() == caller.at(caller.ip + 1).with_stack(
                caller.without(2).push(ValueView::Integer(wrap(a + b))),
            )
            &&& output(p, m, 4) == Seq::<Seq<char>>::empty()
        }),
{
    let caller = m.active();
    let below = m.frames.drop_last();
    let at = p.labels[name] as int;
    let waiting = caller.at(caller.ip + 1).with_stack(caller.without(2));
    let arguments = seq![ValueView::Integer(a), ValueView::Integer(b)];
    assert(caller.stack.skip(caller.stack.len() - 2) =~= arguments);
    let callee0 = FrameView::fresh(at, arguments);
    let m1 = step(p, m);
    assert(m1.frames == below.push(waiting).push(callee0));
    assert(m1.frames.drop_last() =~= below.push(waiting));
    let callee1 = callee0.at(at + 1);
    let m2 = step(p, m1);
    assert(m2.frames == below.push(waiting).push(callee1));
    assert(m2.frames.drop_last() =~= below.push(waiting));
    let sum = ValueView::Integer(wrap(a + b));
    let callee2 = callee1.at(at + 2).with_stack(callee1.without(2).push(sum));
    assert(callee1.without(2) =~= Seq::<ValueView>::empty());
    assert(callee2.stack =~= seq![sum]);
    let m3 = step(p, m2);
    assert(m3.frames == below.push(waiting).push(callee2));
    assert(m3.frames.drop_last() =~= below.push(waiting));
    let m4 = step(p, m3);
    assert(below.push(waiting).drop_last() =~= below);
    assert(m4.frames == below.push(waiting.with_stack(waiting.stack.push(sum))));
    assert(m4.frames.drop_last() =~= below);
    reveal_with_fuel(run, 5);
    reveal_with_fuel(output, 5);
}

/// A frame that goes on, and one that fails, touch no frame but their own:
/// the frames below the active one are after the step what they were before.
pub proof fn a_step_leaves_the_frames_below(p: ProgramView, m: MachineView)
    requires
        m.frames.len() >= 1,
        !(effect(p, m.active()) is Leave),
    ensures
        step(p, m).frames.len() >= m.frames.len(),
        step(p, m).frames.take(m.frames.len() - 1) == m.frames.drop_last(),
{
    let below = m.frames.drop_last();
    let next = step(p, m);
    assert(next.frames.take(m.frames.len() - 1) =~= below);
}

/// When an invocation that was called ends, its caller resumes where the
/// call left it: position, carry flag and locals as they were, the stack as
/// it was but for the returned value on top. The frames below the caller stay
/// as they were, and the frame that ended is gone.
pub proof fn return_resumes_the_caller(p: ProgramView, m: MachineView)
    requires
        m.status == StatusView::Running,
        m.frames.len() >= 2,
        effect(p, m.active()) is Leave,
    ensures
        ({
            let caller = m.frames[m.frames.len() - 2];
            let value = effect(p, m.active())->Leave_value;
            let next = step(p, m);
            &&& next.status == StatusView::Running
            &&& next.frames.len() == m.frames.len() - 1
            &&& next.frames.drop_last() == m.frames.take(m.frames.len() - 2)
            &&& next.active().ip == caller.ip
            &&& next.active().carry == caller.carry
            &&& next.active().locals == caller.locals
            &&& next.active().stack == match value {
                Some(v) => caller.stack.push(v),
                None => caller.stack,
            }
        }),
{
    let below = m.frames.drop_last();
    assert(below.last() == m.frames[m.frames.len() - 2]);
    assert(below.drop_last() =~= m.frames.take(m.frames.len() - 2));
    let next = step(p, m);
    assert(next.frames.drop_last() =~= below.drop_last());
}

/// When the root invocation ends, the machine has returned with its value
/// and keeps its frame.
pub proof fn root_return_ends_the_run(p: ProgramView, m: MachineView, budget: nat)
    requires
        m.status == StatusView::Running,
        m.frames.len() == 1,
        effect(p, m.active()) is Leave,
        budget >= 1,
    ensures
        ({
            let ended = run(p, m, budget);
            &&& ended.status == StatusView::Returned(effect(p, m.active())->Leave_value)
            &&& ended.frames == seq![effect(p, m.active())->Leave_frame]
        }),
{
    reveal_with_fuel(run, 2);
}

/// Every label of the program marks one of its instructions.
pub open spec fn labels_in_range(p: ProgramView) -> bool {
    forall|name: Seq<char>| #[trigger]
        p.labels.contains_key(name) ==> 0 <= p.labels[name] < p.code.len()
}

/// Every frame stands at an instruction of the program or just behind the last.
pub open spec fn positions_in_range(p: ProgramView, m: MachineView) -> bool {
    forall|i: int| 0 <= i < m.frames.len() ==> 0 <= (#[trigger] m.frames[i]).ip <= p.code.len()
}

/// The labels of a program made from lines mark lines of that program.
pub proof fn loaded_labels_are_in_range(lines: Seq<Seq<char>>)
    requires
        lines.len() <= usize::MAX,
    ensures
        labels_in_range(program_of(lines)),
        program_of(lines).code.len() == lines.len(),
{
    let p = program_of(lines);
    assert forall|name: Seq<char>| #[trigger] p.labels.contains_key(name) implies 0
        <= p.labels[name] < p.code.len() by {
        lemma_labels_last_wins(lines, name);
    }
}

/// A step keeps the machine in shape: there is still a frame, and where the
/// labels mark instructions of the program every frame still stands at one of
/// them or just behind the last. So the program counter never leaves the
/// program.
pub proof fn step_keeps_positions(p: ProgramView, m: MachineView)
    requires
        m.frames.len() >= 1,
        labels_in_range(p),
        positions_in_range(p, m),
    ensures
        step(p, m).frames.len() >= 1,
        positions_in_range(p, step(p, m)),
{
    let next = step(p, m);
    let below = m.frames.drop_last();
    let f = m.active();
    assert(f == m.frames[m.frames.len() - 1]);
    assert forall|i: int| 0 <= i < below.len() implies 0 <= (#[trigger] below[i]).ip
        <= p.code.len() by {
        assert(below[i] == m.frames[i]);
    }
    if m.status == StatusView::Running {
        match effect(p, f) {
            Effect::Continue { frame, said } => {
                assert(0 <= frame.ip <= p.code.len());
            },
            Effect::Enter { caller, callee } => {
                assert(0 <= caller.ip <= p.code.len());
                assert(0 <= callee.ip <= p.code.len());
            },
            Effect::Leave { frame, value } => {
                if below.len() > 0 {
                    assert(0 <= below.last().ip <= p.code.len());
                }
            },
            Effect::Fail(e) => {},
        }
    }
}

/// A run keeps the machine in shape, as every step of it does.
pub proof fn run_keeps_positions(p: ProgramView, m: MachineView, budget: nat)
    requires
        m.frames.len() >= 1,
        labels_in_range(p),
        positions_in_range(p, m),
    ensures
        run(p, m, budget).frames.len() >= 1,
        positions_in_range(p, run(p, m, budget)),
    decreases budget,
{
    if budget > 0 && m.status == StatusView::Running {
        step_keeps_positions(p, m);
        run_keeps_positions(p, step(p, m), (budget - 1) as nat);
    }
}

/// The stack of a frame never goes below empty: an instruction either finds
/// the values it needs, or halts the run and leaves the frame as it was.
pub proof fn underflow_is_reported(p: ProgramView, f: FrameView, i: InstructionView)
    ensures
        perform(p, f, i) == Effect::Fail(VmError::StackUnderflow) <==> f.stack.len() < needs(i),
{
}

/// How many values an instruction needs on the stack.
pub open spec fn needs(i: InstructionView) -> int {
    match i {
        InstructionView::Dup => 1,
        InstructionView::Say => 1,
        InstructionView::TypeOf => 1,
        InstructionView::IntToStr => 1,
        InstructionView::LocalStore(_) => 1,
        InstructionView::Concat => 2,
        InstructionView::Math(_) => 2,
        InstructionView::Compare(_) => 2,
        InstructionView::Call { arity, name } => arity as int,
        _ => 0,
    }
}

} // verus!
