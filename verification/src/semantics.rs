//! What the machine does, as mathematics: the effect of one instruction on a
//! frame, one step of the machine, and a run of boundedly many steps.
//!
//! Binary operators read their operands in the order in which they were
//! pushed: with `a` pushed before `b`, `math -` computes `a - b` and `cmp <`
//! tests `a < b`. `concat` puts the later text first: it gives `b` followed
//! by `a`.

use vstd::prelude::*;
use crate::instruction::{InstructionView, MathOp, Relation, TargetView};
use crate::literal::decimal;
use crate::value::{ValueView, VmError};

verus! {

/// A program: its decoded lines (`None` where a line is no instruction) and
/// its label table.
pub ghost struct ProgramView {
    pub code: Seq<Option<InstructionView>>,
    pub labels: Map<Seq<char>, usize>,
}

/// One invocation: where it stands, its carry flag, its stack (top last) and
/// its local variables.
pub ghost struct FrameView {
    pub ip: int,
    pub carry: bool,
    pub stack: Seq<ValueView>,
    pub locals: Map<Seq<char>, ValueView>,
}

pub ghost enum StatusView {
    Running,
    Returned(Option<ValueView>),
    Halted(VmError),
}

/// The machine: the frames of the invocations in progress, the root first
/// and the active one last, and whether it still runs.
pub ghost struct MachineView {
    pub frames: Seq<FrameView>,
    pub status: StatusView,
}

/// What one instruction does to the frame that runs it.
pub ghost enum Effect {
    /// The frame goes on as `frame`; `said` is the line it wrote, if any.
    Continue { frame: FrameView, said: Option<Seq<char>> },
    /// The frame calls a procedure: it is left as `caller` and `callee` becomes active.
    Enter { caller: FrameView, callee: FrameView },
    /// The frame ends as `frame`, handing `value` to its caller.
    Leave { frame: FrameView, value: Option<ValueView> },
    /// The run halts; the frame is as it was.
    Fail(VmError),
}

/// The 64-bit two's complement integer that `x` wraps to.
pub open spec fn wrap(x: int) -> i64 {
    let m = x % 0x1_0000_0000_0000_0000;
    if m > i64::MAX {
        (m - 0x1_0000_0000_0000_0000) as i64
    } else {
        m as i64
    }
}

/// `a OP b`, wrapped.
pub open spec fn math_result(op: MathOp, a: i64, b: i64) -> i64 {
    match op {
        MathOp::Plus => wrap(a + b),
        MathOp::Minus => wrap(a - b),
        MathOp::Times => wrap(a * b),
    }
}

/// Whether `a REL b` holds.
pub open spec fn relation_holds(relation: Relation, a: i64, b: i64) -> bool {
    match relation {
        Relation::Less => a < b,
        Relation::Greater => a > b,
        Relation::AtMost => a <= b,
        Relation::AtLeast => a >= b,
        Relation::Equal => a == b,
    }
}

/// The text that `typeof` gives for a value.
pub open spec fn variant_name(v: ValueView) -> Seq<char> {
    match v {
        ValueView::Integer(_) => "int"@,
        ValueView::Text(_) => "str"@,
    }
}

/// The index that a jump target stands for, if it stands for one.
pub open spec fn resolve(p: ProgramView, target: TargetView) -> Option<int> {
    match target {
        TargetView::Index(n) => Some(n as int),
        TargetView::Label(name) => if p.labels.contains_key(name) {
            Some(p.labels[name] as int)
        } else {
            None
        },
    }
}

impl FrameView {
    /// The frame of a new invocation that starts at `ip` with `arguments` on
    /// its stack: no locals, the carry flag down.
    pub open spec fn fresh(ip: int, arguments: Seq<ValueView>) -> FrameView {
        FrameView { ip, carry: false, stack: arguments, locals: Map::empty() }
    }

    pub open spec fn at(self, ip: int) -> FrameView {
        FrameView { ip, ..self }
    }

    pub open spec fn with_carry(self, carry: bool) -> FrameView {
        FrameView { carry, ..self }
    }

    pub open spec fn with_stack(self, stack: Seq<ValueView>) -> FrameView {
        FrameView { stack, ..self }
    }

    pub open spec fn with_local(self, name: Seq<char>, value: ValueView) -> FrameView {
        FrameView { locals: self.locals.insert(name, value), ..self }
    }

    /// The value on top of the stack.
    pub open spec fn top(self) -> ValueView
        recommends
            self.stack.len() >= 1,
    {
        self.stack[self.stack.len() - 1]
    }

    /// The value under the top of the stack.
    pub open spec fn second(self) -> ValueView
        recommends
            self.stack.len() >= 2,
    {
        self.stack[self.stack.len() - 2]
    }

    /// The stack without its `n` topmost values.
    pub open spec fn without(self, n: int) -> Seq<ValueView>
        recommends
            0 <= n <= self.stack.len(),
    {
        self.stack.take(self.stack.len() - n)
    }
}

/// A frame that goes on at the next instruction and writes nothing.
pub open spec fn go_on(frame: FrameView) -> Effect {
    Effect::Continue { frame, said: None }
}

/// What the instruction `i` does to the frame `f` that stands at it.
pub open spec fn perform(p: ProgramView, f: FrameView, i: InstructionView) -> Effect {
    let next = f.at(f.ip + 1);
    match i {
        InstructionView::Nop => go_on(next),
        InstructionView::Label(_) => go_on(next),
        InstructionView::PushInt(n) => go_on(next.with_stack(f.stack.push(ValueView::Integer(n)))),
        InstructionView::PushStr(text) => go_on(
            next.with_stack(f.stack.push(ValueView::Text(text))),
        ),
        InstructionView::Dup => if f.stack.len() < 1 {
            Effect::Fail(VmError::StackUnderflow)
        } else {
            go_on(next.with_stack(f.stack.push(f.top())))
        },
        InstructionView::Jump { conditional, target } => match resolve(p, target) {
            None => Effect::Fail(VmError::MalformedProgram),
            Some(to) => if to >= p.code.len() {
                Effect::Fail(VmError::MalformedProgram)
            } else if !conditional || f.carry {
                go_on(f.at(to))
            } else {
                go_on(next)
            },
        },
        InstructionView::CarrySet(value) => go_on(next.with_carry(value)),
        InstructionView::CarryInvert => go_on(next.with_carry(!f.carry)),
        InstructionView::Say => if f.stack.len() < 1 {
            Effect::Fail(VmError::StackUnderflow)
        } else {
            match f.top() {
                ValueView::Text(text) => Effect::Continue {
                    frame: next.with_stack(f.without(1)),
                    said: Some(text),
                },
                ValueView::Integer(_) => Effect::Fail(VmError::TypeMismatch),
            }
        },
        InstructionView::Concat => if f.stack.len() < 2 {
            Effect::Fail(VmError::StackUnderflow)
        } else {
            match (f.second(), f.top()) {
                (ValueView::Text(a), ValueView::Text(b)) => go_on(
                    next.with_stack(f.without(2).push(ValueView::Text(b + a))),
                ),
                _ => Effect::Fail(VmError::TypeMismatch),
            }
        },
        InstructionView::TypeOf => if f.stack.len() < 1 {
            Effect::Fail(VmError::StackUnderflow)
        } else {
            go_on(next.with_stack(f.without(1).push(ValueView::Text(variant_name(f.top())))))
        },
        InstructionView::IntToStr => if f.stack.len() < 1 {
            Effect::Fail(VmError::StackUnderflow)
        } else {
            match f.top() {
                ValueView::Integer(n) => go_on(
                    next.with_stack(f.without(1).push(ValueView::Text(decimal(n as int)))),
                ),
                ValueView::Text(_) => Effect::Fail(VmError::TypeMismatch),
            }
        },
        InstructionView::Call { arity, name } => if f.stack.len() < arity {
            Effect::Fail(VmError::StackUnderflow)
        } else if !p.labels.contains_key(name) {
            Effect::Fail(VmError::MalformedProgram)
        } else {
            Effect::Enter {
                caller: next.with_stack(f.without(arity as int)),
                callee: FrameView::fresh(
                    p.labels[name] as int,
                    f.stack.skip(f.stack.len() - arity),
                ),
            }
        },
        InstructionView::Ret => Effect::Leave { frame: f, value: None },
        InstructionView::RetVal => if f.stack.len() != 1 {
            Effect::Fail(VmError::InvalidReturnShape)
        } else {
            Effect::Leave { frame: f.with_stack(Seq::empty()), value: Some(f.top()) }
        },
        InstructionView::Math(op) => if f.stack.len() < 2 {
            Effect::Fail(VmError::StackUnderflow)
        } else {
            match (f.second(), f.top()) {
                (ValueView::Integer(a), ValueView::Integer(b)) => go_on(
                    next.with_stack(f.without(2).push(ValueView::Integer(math_result(op, a, b)))),
                ),
                _ => Effect::Fail(VmError::TypeMismatch),
            }
        },
        InstructionView::Compare(relation) => if f.stack.len() < 2 {
            Effect::Fail(VmError::StackUnderflow)
        } else {
            match (f.second(), f.top()) {
                (ValueView::Integer(a), ValueView::Integer(b)) => go_on(
                    next.with_stack(f.without(2)).with_carry(relation_holds(relation, a, b)),
                ),
                (ValueView::Text(a), ValueView::Text(b)) => if relation == Relation::Equal {
                    go_on(next.with_stack(f.without(2)).with_carry(a == b))
                } else {
                    Effect::Fail(VmError::TypeMismatch)
                },
                _ => Effect::Fail(VmError::TypeMismatch),
            }
        },
        InstructionView::LocalLoad(name) => if f.locals.contains_key(name) {
            go_on(next.with_stack(f.stack.push(f.locals[name])))
        } else {
            Effect::Fail(VmError::UnknownLocal)
        },
        InstructionView::LocalStore(name) => if f.stack.len() < 1 {
            Effect::Fail(VmError::StackUnderflow)
        } else {
            go_on(next.with_stack(f.without(1)).with_local(name, f.top()))
        },
    }
}

/// What the frame `f` does next: it ends where it has run past the last
/// instruction, halts the run at a line that is no instruction, and else
/// performs the instruction it stands at.
pub open spec fn effect(p: ProgramView, f: FrameView) -> Effect {
    if f.ip < 0 || f.ip >= p.code.len() {
        Effect::Leave { frame: f, value: None }
    } else {
        match p.code[f.ip] {
            None => Effect::Fail(VmError::UnknownInstruction),
            Some(i) => perform(p, f, i),
        }
    }
}

/// The caller as it resumes with what the callee returned.
pub open spec fn resumed(caller: FrameView, value: Option<ValueView>) -> FrameView {
    match value {
        Some(v) => caller.with_stack(caller.stack.push(v)),
        None => caller,
    }
}

impl MachineView {
    /// The machine about to run a single invocation from `ip` with
    /// `arguments` on its stack.
    pub open spec fn start(ip: int, arguments: Seq<ValueView>) -> MachineView {
        MachineView { frames: seq![FrameView::fresh(ip, arguments)], status: StatusView::Running }
    }

    /// The frame of the invocation that runs.
    pub open spec fn active(self) -> FrameView
        recommends
            self.frames.len() >= 1,
    {
        self.frames.last()
    }

    /// The frame of the outermost invocation.
    pub open spec fn root(self) -> FrameView
        recommends
            self.frames.len() >= 1,
    {
        self.frames[0]
    }
}

impl MachineView {
    /// The machine after its active frame has ended as `frame` with `value`:
    /// the frame below resumes with the value on its stack, or, where the
    /// frame was the root, the machine has returned and keeps that frame.
    pub open spec fn leave(self, frame: FrameView, value: Option<ValueView>) -> MachineView
        recommends
            self.frames.len() >= 1,
    {
        let below = self.frames.drop_last();
        if below.len() == 0 {
            MachineView { frames: seq![frame], status: StatusView::Returned(value) }
        } else {
            MachineView { frames: below.drop_last().push(resumed(below.last(), value)), ..self }
        }
    }
}

/// One step: the active frame's next effect, applied to the machine. A
/// machine that no longer runs stays as it is, and a halt leaves every frame
/// as it was.
pub open spec fn step(p: ProgramView, m: MachineView) -> MachineView
    recommends
        m.frames.len() >= 1,
{
    if m.status != StatusView::Running {
        m
    } else {
        let below = m.frames.drop_last();
        match effect(p, m.active()) {
            Effect::Continue { frame, said } => MachineView { frames: below.push(frame), ..m },
            Effect::Enter { caller, callee } => MachineView {
                frames: below.push(caller).push(callee),
                ..m
            },
            Effect::Leave { frame, value } => m.leave(frame, value),
            Effect::Fail(e) => MachineView { status: StatusView::Halted(e), ..m },
        }
    }
}

/// Where a program starts: at the label `main`, or at its first line where
/// no such label is declared.
pub open spec fn entry(p: ProgramView) -> int {
    if p.labels.contains_key("main"@) {
        p.labels["main"@] as int
    } else {
        0
    }
}

/// The line that the step from `m` writes, if it writes one.
pub open spec fn said(p: ProgramView, m: MachineView) -> Option<Seq<char>>
    recommends
        m.frames.len() >= 1,
{
    if m.status != StatusView::Running {
        None
    } else {
        match effect(p, m.active()) {
            Effect::Continue { frame, said } => said,
            _ => None,
        }
    }
}

/// The machine after at most `budget` steps from `m`: it stops earlier only
/// when it has returned or halted.
pub open spec fn run(p: ProgramView, m: MachineView, budget: nat) -> MachineView
    decreases budget,
{
    if budget == 0 || m.status != StatusView::Running {
        m
    } else {
        run(p, step(p, m), (budget - 1) as nat)
    }
}

/// The lines written during those steps, in the order of writing.
pub open spec fn output(p: ProgramView, m: MachineView, budget: nat) -> Seq<Seq<char>>
    decreases budget,
{
    if budget == 0 || m.status != StatusView::Running {
        Seq::empty()
    } else {
        let rest = output(p, step(p, m), (budget - 1) as nat);
        match said(p, m) {
            Some(line) => seq![line] + rest,
            None => rest,
        }
    }
}

} // verus!
