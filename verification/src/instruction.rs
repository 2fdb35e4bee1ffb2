//! The instruction set and its decoder: one line of program text in, one
//! typed instruction out.

use vstd::prelude::*;
use crate::literal::{index_literal, int_literal, parse_index, parse_int};
use crate::text::{
    is_blank, is_comment, is_idle_line, join_spaces, split_line, split_spaces, strip_dollars,
    trim_dollars, views,
};

verus! {

/// Where a jump goes: an instruction index, or a label to look up when the
/// jump runs.
#[derive(Clone, Debug, PartialEq, Eq)]
pub enum Target {
    Index(usize),
    Label(String),
}

pub ghost enum TargetView {
    Index(usize),
    Label(Seq<char>),
}

impl View for Target {
    type V = TargetView;

    open spec fn view(&self) -> TargetView {
        match self {
            Target::Index(n) => TargetView::Index(*n),
            Target::Label(name) => TargetView::Label(name@),
        }
    }
}

/// The operators of `math`.
#[derive(Clone, Copy, Debug, PartialEq, Eq, Structural)]
pub enum MathOp {
    Plus,
    Minus,
    Times,
}

/// The operators of `cmp`.
#[derive(Clone, Copy, Debug, PartialEq, Eq, Structural)]
pub enum Relation {
    Less,
    Greater,
    AtMost,
    AtLeast,
    Equal,
}

/// A decoded instruction.
#[derive(Clone, Debug, PartialEq, Eq)]
pub enum Instruction {
    /// A blank line or a comment.
    Nop,
    /// `$label NAME`: marks its own index; does nothing when run.
    Label(String),
    /// `push int N`
    PushInt(i64),
    /// `push str W...`
    PushStr(String),
    /// `dup`
    Dup,
    /// `jump always T` and, with `conditional`, `jump carry T`
    Jump { conditional: bool, target: Target },
    /// `carry set true` and `carry set false`
    CarrySet(bool),
    /// `carry invert`
    CarryInvert,
    /// `call primitive say`
    Say,
    /// `call primitive concat`
    Concat,
    /// `call primitive typeof`
    TypeOf,
    /// `call primitive int2str`
    IntToStr,
    /// `call ARITY NAME`
    Call { arity: usize, name: String },
    /// `ret`
    Ret,
    /// `ret val`
    RetVal,
    /// `math OP`
    Math(MathOp),
    /// `cmp OP`
    Compare(Relation),
    /// `local load NAME`
    LocalLoad(String),
    /// `local store NAME`
    LocalStore(String),
}

pub ghost enum InstructionView {
    Nop,
    Label(Seq<char>),
    PushInt(i64),
    PushStr(Seq<char>),
    Dup,
    Jump { conditional: bool, target: TargetView },
    CarrySet(bool),
    CarryInvert,
    Say,
    Concat,
    TypeOf,
    IntToStr,
    Call { arity: usize, name: Seq<char> },
    Ret,
    RetVal,
    Math(MathOp),
    Compare(Relation),
    LocalLoad(Seq<char>),
    LocalStore(Seq<char>),
}

impl View for Instruction {
    type V = InstructionView;

    open spec fn view(&self) -> InstructionView {
        match self {
            Instruction::Nop => InstructionView::Nop,
            Instruction::Label(name) => InstructionView::Label(name@),
            Instruction::PushInt(n) => InstructionView::PushInt(*n),
            Instruction::PushStr(text) => InstructionView::PushStr(text@),
            Instruction::Dup => InstructionView::Dup,
            Instruction::Jump { conditional, target } => InstructionView::Jump {
                conditional: *conditional,
                target: target@,
            },
            Instruction::CarrySet(value) => InstructionView::CarrySet(*value),
            Instruction::CarryInvert => InstructionView::CarryInvert,
            Instruction::Say => InstructionView::Say,
            Instruction::Concat => InstructionView::Concat,
            Instruction::TypeOf => InstructionView::TypeOf,
            Instruction::IntToStr => InstructionView::IntToStr,
            Instruction::Call { arity, name } => InstructionView::Call {
                arity: *arity,
                name: name@,
            },
            Instruction::Ret => InstructionView::Ret,
            Instruction::RetVal => InstructionView::RetVal,
            Instruction::Math(op) => InstructionView::Math(*op),
            Instruction::Compare(relation) => InstructionView::Compare(*relation),
            Instruction::LocalLoad(name) => InstructionView::LocalLoad(name@),
            Instruction::LocalStore(name) => InstructionView::LocalStore(name@),
        }
    }
}

/// The view of a decoding result.
pub open spec fn decoded_view(d: Option<Instruction>) -> Option<InstructionView> {
    match d {
        Some(i) => Some(i@),
        None => None,
    }
}

/// The target that the last token of a jump names: `$` marks a label, whose
/// name is the token without the `$` at either end; anything else is an
/// unsigned literal.
pub open spec fn target_of(token: Seq<char>) -> Option<TargetView> {
    if token.len() > 0 && token[0] == '$' {
        Some(TargetView::Label(trim_dollars(token)))
    } else {
        match index_literal(token) {
            Some(n) => Some(TargetView::Index(n)),
            None => None,
        }
    }
}

pub open spec fn math_op_of(token: Seq<char>) -> Option<MathOp> {
    if token == "+"@ {
        Some(MathOp::Plus)
    } else if token == "-"@ {
        Some(MathOp::Minus)
    } else if token == "*"@ {
        Some(MathOp::Times)
    } else {
        None
    }
}

pub open spec fn relation_of(token: Seq<char>) -> Option<Relation> {
    if token == "<"@ {
        Some(Relation::Less)
    } else if token == ">"@ {
        Some(Relation::Greater)
    } else if token == "<="@ {
        Some(Relation::AtMost)
    } else if token == ">="@ {
        Some(Relation::AtLeast)
    } else if token == "="@ {
        Some(Relation::Equal)
    } else {
        None
    }
}

/// The instruction that a sequence of tokens spells, if it spells one. The
/// whole shape counts: the mnemonic, the number of operands and what each
/// operand may be.
pub open spec fn decode_tokens(t: Seq<Seq<char>>) -> Option<InstructionView> {
    if t.len() == 0 {
        None
    } else if t[0] == "$label"@ {
        if t.len() == 2 {
            Some(InstructionView::Label(t[1]))
        } else {
            None
        }
    } else if t[0] == "push"@ {
        if t.len() == 3 && t[1] == "int"@ {
            match int_literal(t[2]) {
                Some(n) => Some(InstructionView::PushInt(n)),
                None => None,
            }
        } else if t.len() >= 3 && t[1] == "str"@ {
            Some(InstructionView::PushStr(join_spaces(t.skip(2))))
        } else {
            None
        }
    } else if t[0] == "dup"@ {
        if t.len() == 1 {
            Some(InstructionView::Dup)
        } else {
            None
        }
    } else if t[0] == "jump"@ {
        if t.len() == 3 && (t[1] == "always"@ || t[1] == "carry"@) {
            match target_of(t[2]) {
                Some(target) => Some(
                    InstructionView::Jump { conditional: t[1] == "carry"@, target },
                ),
                None => None,
            }
        } else {
            None
        }
    } else if t[0] == "carry"@ {
        if t.len() == 3 && t[1] == "set"@ && t[2] == "true"@ {
            Some(InstructionView::CarrySet(true))
        } else if t.len() == 3 && t[1] == "set"@ && t[2] == "false"@ {
            Some(InstructionView::CarrySet(false))
        } else if t.len() == 2 && t[1] == "invert"@ {
            Some(InstructionView::CarryInvert)
        } else {
            None
        }
    } else if t[0] == "call"@ {
        if t.len() != 3 {
            None
        } else if t[1] == "primitive"@ && t[2] == "say"@ {
            Some(InstructionView::Say)
        } else if t[1] == "primitive"@ && t[2] == "concat"@ {
            Some(InstructionView::Concat)
        } else if t[1] == "primitive"@ && t[2] == "typeof"@ {
            Some(InstructionView::TypeOf)
        } else if t[1] == "primitive"@ && t[2] == "int2str"@ {
            Some(InstructionView::IntToStr)
        } else {
            match index_literal(t[1]) {
                Some(arity) => Some(InstructionView::Call { arity, name: t[2] }),
                None => None,
            }
        }
    } else if t[0] == "ret"@ {
        if t.len() == 1 {
            Some(InstructionView::Ret)
        } else if t.len() == 2 && t[1] == "val"@ {
            Some(InstructionView::RetVal)
        } else {
            None
        }
    } else if t[0] == "math"@ {
        if t.len() == 2 {
            match math_op_of(t[1]) {
                Some(op) => Some(InstructionView::Math(op)),
                None => None,
            }
        } else {
            None
        }
    } else if t[0] == "cmp"@ {
        if t.len() == 2 {
            match relation_of(t[1]) {
                Some(relation) => Some(InstructionView::Compare(relation)),
                None => None,
            }
        } else {
            None
        }
    } else if t[0] == "local"@ {
        if t.len() == 3 && t[1] == "load"@ {
            Some(InstructionView::LocalLoad(t[2]))
        } else if t.len() == 3 && t[1] == "store"@ {
            Some(InstructionView::LocalStore(t[2]))
        } else {
            None
        }
    } else {
        None
    }
}

/// The instruction that a line spells: nothing for a blank line or a comment,
/// else what its tokens spell. `None` is a line that is no instruction.
pub open spec fn decode_spec(line: Seq<char>) -> Option<InstructionView> {
    if is_comment(line) || is_blank(line) {
        Some(InstructionView::Nop)
    } else {
        decode_tokens(split_spaces(line))
    }
}

fn word_is(token: &String, word: &str) -> (r: bool)
    ensures
        r == (token@ == word@),
{
    let w = String::from_str(word);
    *token == w
}

fn starts_with_dollar(token: &str) -> (r: bool)
    ensures
        r == (token@.len() > 0 && token@[0] == '$'),
{
    token.unicode_len() > 0 && token.get_char(0) == '$'
}

fn decode_target(token: &String) -> (r: Option<Target>)
    ensures
        match r {
            Some(t) => target_of(token@) == Some(t@),
            None => target_of(token@) is None,
        },
{
    if starts_with_dollar(token.as_str()) {
        Some(Target::Label(strip_dollars(token.as_str())))
    } else {
        match parse_index(token.as_str()) {
            Some(n) => Some(Target::Index(n)),
            None => None,
        }
    }
}

fn decode_math_op(token: &String) -> (r: Option<MathOp>)
    ensures
        r == math_op_of(token@),
{
    if word_is(token, "+") {
        Some(MathOp::Plus)
    } else if word_is(token, "-") {
        Some(MathOp::Minus)
    } else if word_is(token, "*") {
        Some(MathOp::Times)
    } else {
        None
    }
}

fn decode_relation(token: &String) -> (r: Option<Relation>)
    ensures
        r == relation_of(token@),
{
    if word_is(token, "<") {
        Some(Relation::Less)
    } else if word_is(token, ">") {
        Some(Relation::Greater)
    } else if word_is(token, "<=") {
        Some(Relation::AtMost)
    } else if word_is(token, ">=") {
        Some(Relation::AtLeast)
    } else if word_is(token, "=") {
        Some(Relation::Equal)
    } else {
        None
    }
}

/// The words from the third on, joined by single spaces.
fn join_operands(tokens: &Vec<String>) -> (text: String)
    requires
        tokens.len() >= 3,
    ensures
        text@ == join_spaces(views(tokens@).skip(2)),
{
    let ghost words = views(tokens@);
    let mut text = tokens[2].clone();
    let mut i: usize = 3;
    assert(words.subrange(2, 3) =~= seq![tokens@[2]@]);
    while i < tokens.len()
        invariant
            3 <= i <= tokens.len(),
            words == views(tokens@),
            text@ == join_spaces(words.subrange(2, i as int)),
        decreases tokens.len() - i,
    {
        proof {
            let next = words.subrange(2, i + 1);
            assert(next.drop_last() =~= words.subrange(2, i as int));
            assert(next.last() == tokens@[i as int]@);
            reveal_strlit(" ");
            assert(" "@ =~= seq![' ']);
        }
        text.append(" ");
        text.append(tokens[i].as_str());
        i += 1;
    }
    assert(words.subrange(2, i as int) =~= words.skip(2));
    text
}

fn decode_words(tokens: &Vec<String>) -> (r: Option<Instruction>)
    ensures
        decoded_view(r) == decode_tokens(views(tokens@)),
{
    let n = tokens.len();
    if n == 0 {
        return None;
    }
    let head = &tokens[0];
    if word_is(head, "$label") {
        if n == 2 {
            Some(Instruction::Label(tokens[1].clone()))
        } else {
            None
        }
    } else if word_is(head, "push") {
        if n == 3 && word_is(&tokens[1], "int") {
            match parse_int(tokens[2].as_str()) {
                Some(v) => Some(Instruction::PushInt(v)),
                None => None,
            }
        } else if n >= 3 && word_is(&tokens[1], "str") {
            Some(Instruction::PushStr(join_operands(tokens)))
        } else {
            None
        }
    } else if word_is(head, "dup") {
        if n == 1 {
            Some(Instruction::Dup)
        } else {
            None
        }
    } else if word_is(head, "jump") {
        if n == 3 && (word_is(&tokens[1], "always") || word_is(&tokens[1], "carry")) {
            let conditional = word_is(&tokens[1], "carry");
            match decode_target(&tokens[2]) {
                Some(target) => Some(Instruction::Jump { conditional, target }),
                None => None,
            }
        } else {
            None
        }
    } else if word_is(head, "carry") {
        if n == 3 && word_is(&tokens[1], "set") && word_is(&tokens[2], "true") {
            Some(Instruction::CarrySet(true))
        } else if n == 3 && word_is(&tokens[1], "set") && word_is(&tokens[2], "false") {
            Some(Instruction::CarrySet(false))
        } else if n == 2 && word_is(&tokens[1], "invert") {
            Some(Instruction::CarryInvert)
        } else {
            None
        }
    } else if word_is(head, "call") {
        if n != 3 {
            None
        } else if word_is(&tokens[1], "primitive") && word_is(&tokens[2], "say") {
            Some(Instruction::Say)
        } else if word_is(&tokens[1], "primitive") && word_is(&tokens[2], "concat") {
            Some(Instruction::Concat)
        } else if word_is(&tokens[1], "primitive") && word_is(&tokens[2], "typeof") {
            Some(Instruction::TypeOf)
        } else if word_is(&tokens[1], "primitive") && word_is(&tokens[2], "int2str") {
            Some(Instruction::IntToStr)
        } else {
            match parse_index(tokens[1].as_str()) {
                Some(arity) => Some(Instruction::Call { arity, name: tokens[2].clone() }),
                None => None,
            }
        }
    } else if word_is(head, "ret") {
        if n == 1 {
            Some(Instruction::Ret)
        } else if n == 2 && word_is(&tokens[1], "val") {
            Some(Instruction::RetVal)
        } else {
            None
        }
    } else if word_is(head, "math") {
        if n == 2 {
            match decode_math_op(&tokens[1]) {
                Some(op) => Some(Instruction::Math(op)),
                None => None,
            }
        } else {
            None
        }
    } else if word_is(head, "cmp") {
        if n == 2 {
            match decode_relation(&tokens[1]) {
                Some(relation) => Some(Instruction::Compare(relation)),
                None => None,
            }
        } else {
            None
        }
    } else if word_is(head, "local") {
        if n == 3 && word_is(&tokens[1], "load") {
            Some(Instruction::LocalLoad(tokens[2].clone()))
        } else if n == 3 && word_is(&tokens[1], "store") {
            Some(Instruction::LocalStore(tokens[2].clone()))
        } else {
            None
        }
    } else {
        None
    }
}

/// Decodes one line. `None` exactly when the line is no instruction of the
/// language: an unknown mnemonic, or a known one with operands of the wrong
/// number or shape.
pub fn decode(line: &str) -> (r: Option<Instruction>)
    ensures
        decoded_view(r) == decode_spec(line@),
{
    if is_idle_line(line) {
        Some(Instruction::Nop)
    } else {
        let tokens = split_line(line);
        decode_words(&tokens)
    }
}

} // verus!
