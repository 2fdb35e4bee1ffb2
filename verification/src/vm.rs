//! The machine: a program with its label table, and the execution of it step
//! by step.

use vstd::prelude::*;
use crate::frame::Frame;
use crate::instruction::{decode, decode_spec, decoded_view, Instruction, MathOp, Relation, Target};
use crate::labels::{labels_complete, labels_of, parse_labels, LabelTable};
use crate::literal::int_to_text;
use crate::semantics::{
    entry, math_result, output, perform, relation_holds, resolve, run, said, step, Effect,
    FrameView, MachineView, ProgramView, StatusView,
};
use crate::text::{line_views, views};
use crate::value::{option_view, value_views, Value, VmError};

verus! {

/// The program that a sequence of lines is: each line decoded, and the labels
/// that the lines declare.
pub open spec fn program_of(lines: Seq<Seq<char>>) -> ProgramView {
    ProgramView {
        code: lines.map_values(|line: Seq<char>| decode_spec(line)),
        labels: labels_of(lines),
    }
}

/// The view of an optional line of output.
pub open spec fn line_view(line: Option<String>) -> Option<Seq<char>> {
    match line {
        Some(text) => Some(text@),
        None => None,
    }
}

/// A loaded program. It does not change once it is made.
pub struct VM {
    code: Vec<Option<Instruction>>,
    labels: LabelTable,
}

impl View for VM {
    type V = ProgramView;

    closed spec fn view(&self) -> ProgramView {
        ProgramView {
            code: self.code@.map_values(|d: Option<Instruction>| decoded_view(d)),
            labels: self.labels@,
        }
    }
}

/// Whether the machine still runs, and how it ended if it does not.
#[derive(Clone, Debug, PartialEq, Eq)]
pub enum Status {
    /// The machine has neither returned nor halted.
    Running,
    /// The root invocation has ended, with this value if it returned one.
    Returned(Option<Value>),
    /// The run was halted by this error.
    Halted(VmError),
}

impl View for Status {
    type V = StatusView;

    open spec fn view(&self) -> StatusView {
        match self {
            Status::Running => StatusView::Running,
            Status::Returned(value) => StatusView::Returned(option_view(*value)),
            Status::Halted(error) => StatusView::Halted(*error),
        }
    }
}

/// The views of a sequence of frames.
pub open spec fn frame_views(frames: Seq<Frame>) -> Seq<FrameView> {
    frames.map_values(|f: Frame| f@)
}

/// An execution in progress: the frames of the invocations that have not
/// ended, and the status.
pub struct Machine {
    current: Frame,
    suspended: Vec<Frame>,
    status: Status,
}

impl View for Machine {
    type V = MachineView;

    closed spec fn view(&self) -> MachineView {
        MachineView {
            frames: frame_views(self.suspended@).push(self.current@),
            status: self.status@,
        }
    }
}

impl Machine {
    /// A machine about to run one invocation from `ip`, with `arguments` on
    /// its stack.
    pub fn start(ip: usize, arguments: Vec<Value>) -> (machine: Machine)
        ensures
            machine@ == MachineView::start(ip as int, value_views(arguments@)),
    {
        let machine = Machine {
            current: Frame::new(ip, arguments),
            suspended: Vec::new(),
            status: Status::Running,
        };
        proof {
            assert(machine@.frames =~= seq![machine.current@]);
        }
        machine
    }

    /// There is always a root frame.
    pub proof fn lemma_has_frames(&self)
        ensures
            self@.frames.len() >= 1,
    {
    }

    /// The status.
    pub fn status(&self) -> (status: &Status)
        ensures
            status@ == self@.status,
    {
        &self.status
    }

    /// Whether the machine still runs.
    pub fn is_running(&self) -> (running: bool)
        ensures
            running == (self@.status == StatusView::Running),
    {
        match &self.status {
            Status::Running => true,
            _ => false,
        }
    }

    /// How deeply the active invocation is nested: 0 for the root.
    pub fn depth(&self) -> (depth: usize)
        ensures
            depth == self@.frames.len() - 1,
    {
        self.suspended.len()
    }

    /// The frame of the invocation that runs.
    pub fn active(&self) -> (frame: &Frame)
        ensures
            frame@ == self@.active(),
    {
        &self.current
    }

    /// The frame of the outermost invocation.
    pub fn root(&self) -> (frame: &Frame)
        ensures
            frame@ == self@.root(),
    {
        if self.suspended.len() == 0 {
            &self.current
        } else {
            &self.suspended[0]
        }
    }

    /// Ends the machine: its status, and the stack of the outermost invocation.
    pub fn finish(self) -> (parts: (Status, Vec<Value>))
        ensures
            parts.0@ == self@.status,
            value_views(parts.1@) == self@.root().stack,
    {
        let mut machine = self;
        if machine.suspended.len() == 0 {
            (machine.status, machine.current.stack)
        } else {
            (machine.status, machine.suspended.swap_remove(0).stack)
        }
    }

    /// Ends the active invocation, which hands `value` to its caller.
    fn leave(&mut self, value: Option<Value>)
        ensures
            final(self)@ == old(self)@.leave(old(self)@.active(), option_view(value)),
    {
        match self.suspended.pop() {
            None => {
                self.status = Status::Returned(value);
                proof {
                    assert(old(self)@.frames.drop_last() =~= frame_views(old(self).suspended@));
                    assert(self@.frames =~= seq![old(self)@.active()]);
                }
            },
            Some(caller) => {
                let mut caller = caller;
                if let Some(v) = value {
                    caller.push(v);
                }
                self.current = caller;
                proof {
                    let below = old(self)@.frames.drop_last();
                    assert(below =~= frame_views(old(self).suspended@));
                    assert(below.drop_last() =~= frame_views(self.suspended@));
                    assert(self@.frames =~= below.drop_last().push(self.current@));
                }
            },
        }
    }

    /// Makes `callee` the active invocation; the one that was active waits.
    fn enter(&mut self, callee: Frame)
        ensures
            final(self)@.frames == old(self)@.frames.push(callee@),
            final(self)@.status == old(self)@.status,
    {
        let mut caller = callee;
        core::mem::swap(&mut self.current, &mut caller);
        proof {
            assert(frame_views(self.suspended@.push(caller)) =~= frame_views(
                self.suspended@,
            ).push(caller@));
        }
        self.suspended.push(caller);
    }
}

/// How a run ended, and what it wrote.
#[derive(Clone, Debug, PartialEq, Eq)]
pub struct Outcome {
    /// `Running` where the budget ran out first.
    pub status: Status,
    /// The lines that `say` wrote, in order.
    pub output: Vec<String>,
}

/// What one instruction did to the frame that ran it.
enum Performed {
    Continue(Option<String>),
    Enter(Frame),
    Leave(Option<Value>),
    Fail(VmError),
}

/// `done` tells of the effect `expected` on a frame that was `before` and is
/// now `after`.
spec fn performed_as(
    done: Performed,
    before: FrameView,
    after: FrameView,
    expected: Effect,
) -> bool {
    match done {
        Performed::Continue(line) => expected == (Effect::Continue {
            frame: after,
            said: line_view(line),
        }),
        Performed::Enter(callee) => expected == (Effect::Enter { caller: after, callee: callee@ }),
        Performed::Leave(value) => expected == (Effect::Leave {
            frame: after,
            value: option_view(value),
        }),
        Performed::Fail(error) => expected == Effect::Fail(error) && after == before,
    }
}

fn compute(op: MathOp, a: i64, b: i64) -> (r: i64)
    ensures
        r == math_result(op, a, b),
{
    match op {
        MathOp::Plus => a.wrapping_add(b),
        MathOp::Minus => a.wrapping_sub(b),
        MathOp::Times => a.wrapping_mul(b),
    }
}

fn holds(relation: Relation, a: i64, b: i64) -> (r: bool)
    ensures
        r == relation_holds(relation, a, b),
{
    match relation {
        Relation::Less => a < b,
        Relation::Greater => a > b,
        Relation::AtMost => a <= b,
        Relation::AtLeast => a >= b,
        Relation::Equal => a == b,
    }
}

impl VM {
    /// Loads a program: decodes every line and collects the labels. Only a
    /// label declaration without a name is refused here; a line that is no
    /// instruction halts the run when it is reached, not the load.
    pub fn new(instructions: Vec<&str>) -> (r: Result<VM, VmError>)
        ensures
            r is Ok <==> labels_complete(line_views(instructions@)),
            r matches Ok(vm) ==> vm@ == program_of(line_views(instructions@)),
            r matches Err(e) ==> e == VmError::MalformedProgram,
    {
        let labels = match parse_labels(&instructions) {
            Ok(labels) => labels,
            Err(e) => {
                return Err(e);
            },
        };
        let ghost lines = line_views(instructions@);
        let mut code: Vec<Option<Instruction>> = Vec::new();
        let mut i: usize = 0;
        while i < instructions.len()
            invariant
                i <= instructions.len(),
                lines == line_views(instructions@),
                code.len() == i,
                forall|j: int|
                    0 <= j < i ==> decoded_view(#[trigger] code@[j]) == decode_spec(lines[j]),
            decreases instructions.len() - i,
        {
            code.push(decode(instructions[i]));
            i += 1;
        }
        let vm = VM { code, labels };
        proof {
            assert(vm@.code =~= program_of(lines).code);
        }
        Ok(vm)
    }

    /// The index that a jump target stands for.
    fn resolve(&self, target: &Target) -> (to: Option<usize>)
        ensures
            match to {
                Some(n) => resolve(self@, target@) == Some(n as int),
                None => resolve(self@, target@) is None,
            },
    {
        match target {
            Target::Index(n) => Some(*n),
            Target::Label(name) => self.labels.get(name),
        }
    }

    /// Runs `instruction` on `frame`, which stands at it.
    fn perform(&self, frame: &mut Frame, instruction: &Instruction) -> (done: Performed)
        requires
            old(frame).ip < self@.code.len(),
        ensures
            performed_as(
                done,
                old(frame)@,
                final(frame)@,
                perform(self@, old(frame)@, instruction@),
            ),
    {
        let depth = frame.stack.len();
        proof {
            assert(self@.code.len() == self.code.len());
        }
        match instruction {
            Instruction::Nop => {
                frame.advance();
                Performed::Continue(None)
            },
            Instruction::Label(_) => {
                frame.advance();
                Performed::Continue(None)
            },
            Instruction::PushInt(n) => {
                frame.push(Value::Integer(*n));
                frame.advance();
                Performed::Continue(None)
            },
            Instruction::PushStr(text) => {
                frame.push(Value::Text(text.clone()));
                frame.advance();
                Performed::Continue(None)
            },
            Instruction::Dup => {
                if depth < 1 {
                    return Performed::Fail(VmError::StackUnderflow);
                }
                let copy = frame.stack[depth - 1].duplicate();
                frame.push(copy);
                frame.advance();
                Performed::Continue(None)
            },
            Instruction::Jump { conditional, target } => {
                match self.resolve(target) {
                    None => Performed::Fail(VmError::MalformedProgram),
                    Some(to) => {
                        if to >= self.code.len() {
                            Performed::Fail(VmError::MalformedProgram)
                        } else {
                            if !*conditional || frame.carry {
                                frame.ip = to;
                            } else {
                                frame.advance();
                            }
                            Performed::Continue(None)
                        }
                    },
                }
            },
            Instruction::CarrySet(value) => {
                frame.carry = *value;
                frame.advance();
                Performed::Continue(None)
            },
            Instruction::CarryInvert => {
                frame.carry = !frame.carry;
                frame.advance();
                Performed::Continue(None)
            },
            Instruction::Say => {
                if depth < 1 {
                    return Performed::Fail(VmError::StackUnderflow);
                }
                if !frame.holds_text(0) {
                    return Performed::Fail(VmError::TypeMismatch);
                }
                let text = frame.pop_text();
                frame.advance();
                Performed::Continue(Some(text))
            },
            Instruction::Concat => {
                if depth < 2 {
                    return Performed::Fail(VmError::StackUnderflow);
                }
                if !frame.holds_text(0) || !frame.holds_text(1) {
                    return Performed::Fail(VmError::TypeMismatch);
                }
                let top = frame.pop_text();
                let second = frame.pop_text();
                proof {
                    assert(frame@.stack =~= old(frame)@.without(2));
                }
                frame.push(Value::Text(top.concat(second.as_str())));
                frame.advance();
                Performed::Continue(None)
            },
            Instruction::TypeOf => {
                if depth < 1 {
                    return Performed::Fail(VmError::StackUnderflow);
                }
                let name = match frame.pop() {
                    Value::Integer(_) => String::from_str("int"),
                    Value::Text(_) => String::from_str("str"),
                };
                frame.push(Value::Text(name));
                frame.advance();
                Performed::Continue(None)
            },
            Instruction::IntToStr => {
                if depth < 1 {
                    return Performed::Fail(VmError::StackUnderflow);
                }
                if frame.holds_text(0) {
                    return Performed::Fail(VmError::TypeMismatch);
                }
                let n = frame.pop_integer();
                frame.push(Value::Text(int_to_text(n)));
                frame.advance();
                Performed::Continue(None)
            },
            Instruction::Call { arity, name } => {
                if depth < *arity {
                    return Performed::Fail(VmError::StackUnderflow);
                }
                match self.labels.get(name) {
                    None => Performed::Fail(VmError::MalformedProgram),
                    Some(to) => {
                        let arguments = frame.split_top(*arity);
                        frame.advance();
                        Performed::Enter(Frame::new(to, arguments))
                    },
                }
            },
            Instruction::Ret => Performed::Leave(None),
            Instruction::RetVal => {
                if depth != 1 {
                    return Performed::Fail(VmError::InvalidReturnShape);
                }
                let value = frame.pop();
                proof {
                    assert(frame@.stack =~= Seq::empty());
                }
                Performed::Leave(Some(value))
            },
            Instruction::Math(op) => {
                if depth < 2 {
                    return Performed::Fail(VmError::StackUnderflow);
                }
                if frame.holds_text(0) || frame.holds_text(1) {
                    return Performed::Fail(VmError::TypeMismatch);
                }
                let b = frame.pop_integer();
                let a = frame.pop_integer();
                proof {
                    assert(frame@.stack =~= old(frame)@.without(2));
                }
                frame.push(Value::Integer(compute(*op, a, b)));
                frame.advance();
                Performed::Continue(None)
            },
            Instruction::Compare(relation) => {
                if depth < 2 {
                    return Performed::Fail(VmError::StackUnderflow);
                }
                let texts = frame.holds_text(0);
                if texts != frame.holds_text(1) {
                    return Performed::Fail(VmError::TypeMismatch);
                }
                if texts {
                    match relation {
                        Relation::Equal => {
                            let b = frame.pop_text();
                            let a = frame.pop_text();
                            proof {
                                assert(frame@.stack =~= old(frame)@.without(2));
                            }
                            frame.carry = a == b;
                        },
                        _ => {
                            return Performed::Fail(VmError::TypeMismatch);
                        },
                    }
                } else {
                    let b = frame.pop_integer();
                    let a = frame.pop_integer();
                    proof {
                        assert(frame@.stack =~= old(frame)@.without(2));
                    }
                    frame.carry = holds(*relation, a, b);
                }
                frame.advance();
                Performed::Continue(None)
            },
            Instruction::LocalLoad(name) => {
                match frame.locals.get(name) {
                    None => Performed::Fail(VmError::UnknownLocal),
                    Some(value) => {
                        frame.push(value);
                        frame.advance();
                        Performed::Continue(None)
                    },
                }
            },
            Instruction::LocalStore(name) => {
                if depth < 1 {
                    return Performed::Fail(VmError::StackUnderflow);
                }
                let value = frame.pop();
                frame.locals.insert(name.clone(), value);
                frame.advance();
                Performed::Continue(None)
            },
        }
    }

    /// Takes one step. A machine that has returned or halted is left as it
    /// is. The result is the line that the step wrote, if it wrote one.
    pub fn step(&self, machine: &mut Machine) -> (line: Option<String>)
        ensures
            final(machine)@ == step(self@, old(machine)@),
            line_view(line) == said(self@, old(machine)@),
    {
        if !machine.is_running() {
            return None;
        }
        let ip = machine.current.ip;
        proof {
            assert(self@.code.len() == self.code.len());
            assert(old(machine)@.frames.drop_last() =~= frame_views(machine.suspended@));
        }
        if ip >= self.code.len() {
            machine.leave(None);
            return None;
        }
        proof {
            assert(self@.code[ip as int] == decoded_view(self.code@[ip as int]));
        }
        match &self.code[ip] {
            None => {
                machine.status = Status::Halted(VmError::UnknownInstruction);
                None
            },
            Some(instruction) => {
                match self.perform(&mut machine.current, instruction) {
                    Performed::Continue(line) => line,
                    Performed::Enter(callee) => {
                        machine.enter(callee);
                        None
                    },
                    Performed::Leave(value) => {
                        proof {
                            assert(machine@.frames.drop_last() =~= old(
                                machine,
                            )@.frames.drop_last());
                        }
                        machine.leave(value);
                        None
                    },
                    Performed::Fail(error) => {
                        machine.status = Status::Halted(error);
                        None
                    },
                }
            },
        }
    }

    /// Takes steps until the machine has returned or halted, `budget` steps
    /// at most. The result holds the lines written, in order.
    pub fn run_machine(&self, machine: &mut Machine, budget: u64) -> (lines: Vec<String>)
        ensures
            final(machine)@ == run(self@, old(machine)@, budget as nat),
            views(lines@) == output(self@, old(machine)@, budget as nat),
    {
        let mut lines: Vec<String> = Vec::new();
        let mut left: u64 = budget;
        proof {
            assert(views(lines@) + output(self@, machine@, left as nat) =~= output(
                self@,
                machine@,
                left as nat,
            ));
        }
        while left > 0 && machine.is_running()
            invariant
                run(self@, old(machine)@, budget as nat) == run(self@, machine@, left as nat),
                output(self@, old(machine)@, budget as nat) == views(lines@) + output(
                    self@,
                    machine@,
                    left as nat,
                ),
            decreases left,
        {
            let ghost before = machine@;
            let ghost written = views(lines@);
            let said = self.step(machine);
            left = left - 1;
            let ghost rest = output(self@, machine@, left as nat);
            match said {
                Some(line) => {
                    proof {
                        assert(views(lines@.push(line)) =~= written.push(line@));
                        assert(written.push(line@) + rest =~= written + (seq![line@] + rest));
                    }
                    lines.push(line);
                },
                None => {},
            }
        }
        proof {
            assert(views(lines@) + Seq::<Seq<char>>::empty() =~= views(lines@));
        }
        lines
    }

    /// Runs one invocation from `start_ip` with the values of `stack` as its
    /// arguments, for `budget` steps at most. Afterwards `stack` holds what
    /// the invocation left on its stack.
    pub fn run_call(&self, start_ip: usize, stack: &mut Vec<Value>, budget: u64) -> (outcome:
        Outcome)
        ensures
            ({
                let begun = MachineView::start(start_ip as int, value_views(old(stack)@));
                let ended = run(self@, begun, budget as nat);
                &&& outcome.status@ == ended.status
                &&& views(outcome.output@) == output(self@, begun, budget as nat)
                &&& value_views(final(stack)@) == ended.root().stack
            }),
    {
        let mut arguments: Vec<Value> = Vec::new();
        core::mem::swap(stack, &mut arguments);
        let mut machine = Machine::start(start_ip, arguments);
        let output = self.run_machine(&mut machine, budget);
        let (status, left) = machine.finish();
        *stack = left;
        Outcome { status, output }
    }

    /// The index at which the program starts.
    pub fn entry(&self) -> (ip: usize)
        ensures
            ip == entry(self@),
    {
        match self.labels.get(&String::from_str("main")) {
            Some(ip) => ip,
            None => 0,
        }
    }

    /// Runs the program from its entry with an empty stack, for `budget`
    /// steps at most.
    pub fn run(&self, budget: u64) -> (outcome: Outcome)
        ensures
            ({
                let begun = MachineView::start(entry(self@), Seq::empty());
                &&& outcome.status@ == run(self@, begun, budget as nat).status
                &&& views(outcome.output@) == output(self@, begun, budget as nat)
            }),
    {
        let mut stack: Vec<Value> = Vec::new();
        proof {
            assert(value_views(stack@) =~= Seq::empty());
        }
        self.run_call(self.entry(), &mut stack, budget)
    }

    /// The number of lines of the program.
    pub fn len(&self) -> (n: usize)
        ensures
            n == self@.code.len(),
    {
        self.code.len()
    }
}

} // verus!
