//! Runtime values and the errors that halt a run.

use vstd::prelude::*;

verus! {

/// A runtime datum: a 64-bit signed integer or a string. Nothing converts
/// between the two but the `int2str` primitive.
#[derive(Clone, Debug, PartialEq, Eq)]
pub enum Value {
    Integer(i64),
    Text(String),
}

/// What a `Value` holds, as mathematics.
pub ghost enum ValueView {
    Integer(i64),
    Text(Seq<char>),
}

impl View for Value {
    type V = ValueView;

    open spec fn view(&self) -> ValueView {
        match self {
            Value::Integer(n) => ValueView::Integer(*n),
            Value::Text(s) => ValueView::Text(s@),
        }
    }
}

/// The views of a sequence of values, as a stack holds them (top last).
pub open spec fn value_views(values: Seq<Value>) -> Seq<ValueView> {
    values.map_values(|v: Value| v@)
}

/// The view of an optional value.
pub open spec fn option_view(v: Option<Value>) -> Option<ValueView> {
    match v {
        Some(v) => Some(v@),
        None => None,
    }
}

impl Value {
    /// A copy that holds the same datum.
    pub fn duplicate(&self) -> (copy: Value)
        ensures
            copy@ == self@,
    {
        match self {
            Value::Integer(n) => Value::Integer(*n),
            Value::Text(s) => Value::Text(s.clone()),
        }
    }
}

/// Why a run halted. Every one of these is fatal: the machine stops at the
/// instruction that raised it and runs nothing after it.
#[derive(Clone, Copy, Debug, PartialEq, Eq, Structural)]
pub enum VmError {
    /// A label declaration without a name, a reference to a label that is not
    /// declared, or a jump target that is not the index of an instruction.
    MalformedProgram,
    /// An instruction needs more values than the stack holds.
    StackUnderflow,
    /// An instruction got a value of the wrong variant.
    TypeMismatch,
    /// The line is not an instruction of the language.
    UnknownInstruction,
    /// `local load` of a name that the frame has not bound.
    UnknownLocal,
    /// `ret val` in a frame whose stack does not hold exactly one value.
    InvalidReturnShape,
}

} // verus!
