use stackvm::{decode, Instruction, MathOp, Relation, Target};

fn name(s: &str) -> String {
    s.to_string()
}

#[test]
fn blank_lines_and_comments_do_nothing() {
    assert_eq!(decode(""), Some(Instruction::Nop));
    assert_eq!(decode("   "), Some(Instruction::Nop));
    assert_eq!(decode("\t \u{a0}"), Some(Instruction::Nop));
    assert_eq!(decode("# push int 1"), Some(Instruction::Nop));
    assert_eq!(decode("#"), Some(Instruction::Nop));
    assert_eq!(decode(" # not a comment"), None);
}

#[test]
fn label_declaration_takes_exactly_one_name() {
    assert_eq!(decode("$label main"), Some(Instruction::Label(name("main"))));
    assert_eq!(decode("$label "), Some(Instruction::Label(name(""))));
    assert_eq!(decode("$label"), None);
    assert_eq!(decode("$label a b"), None);
}

#[test]
fn push_int_reads_a_signed_literal() {
    assert_eq!(decode("push int 12"), Some(Instruction::PushInt(12)));
    assert_eq!(decode("push int -12"), Some(Instruction::PushInt(-12)));
    assert_eq!(decode("push int +12"), Some(Instruction::PushInt(12)));
    assert_eq!(decode("push int 000"), Some(Instruction::PushInt(0)));
    assert_eq!(decode("push int -0"), Some(Instruction::PushInt(0)));
    assert_eq!(decode("push int"), None);
    assert_eq!(decode("push int "), None);
    assert_eq!(decode("push int -"), None);
    assert_eq!(decode("push int +"), None);
    assert_eq!(decode("push int 1 2"), None);
    assert_eq!(decode("push int 1x"), None);
    assert_eq!(decode("push int --1"), None);
    assert_eq!(decode("push int 9223372036854775808"), None);
    assert_eq!(decode("push int -9223372036854775809"), None);
    assert_eq!(decode("push  int 1"), None);
}

#[test]
fn push_str_joins_its_words_with_single_spaces() {
    assert_eq!(decode("push str hello"), Some(Instruction::PushStr(name("hello"))));
    assert_eq!(
        decode("push str hello big world"),
        Some(Instruction::PushStr(name("hello big world")))
    );
    assert_eq!(decode("push str a  b"), Some(Instruction::PushStr(name("a  b"))));
    assert_eq!(decode("push str "), Some(Instruction::PushStr(name(""))));
    assert_eq!(decode("push str int 3"), Some(Instruction::PushStr(name("int 3"))));
    assert_eq!(decode("push str"), None);
    assert_eq!(decode("push"), None);
    assert_eq!(decode("push text x"), None);
}

#[test]
fn jump_takes_an_index_or_a_label() {
    assert_eq!(
        decode("jump always 3"),
        Some(Instruction::Jump { conditional: false, target: Target::Index(3) })
    );
    assert_eq!(
        decode("jump carry +3"),
        Some(Instruction::Jump { conditional: true, target: Target::Index(3) })
    );
    assert_eq!(
        decode("jump carry $loop"),
        Some(Instruction::Jump { conditional: true, target: Target::Label(name("loop")) })
    );
    assert_eq!(
        decode("jump always $$a$b$"),
        Some(Instruction::Jump { conditional: false, target: Target::Label(name("a$b")) })
    );
    assert_eq!(
        decode("jump always $"),
        Some(Instruction::Jump { conditional: false, target: Target::Label(name("")) })
    );
    assert_eq!(decode("jump always -1"), None);
    assert_eq!(decode("jump always loop"), None);
    assert_eq!(decode("jump always"), None);
    assert_eq!(decode("jump never 3"), None);
    assert_eq!(decode("jump 3"), None);
    assert_eq!(decode("jump always 3 4"), None);
    assert_eq!(decode("jump always 99999999999999999999999999"), None);
}

#[test]
fn carry_instructions() {
    assert_eq!(decode("carry set true"), Some(Instruction::CarrySet(true)));
    assert_eq!(decode("carry set false"), Some(Instruction::CarrySet(false)));
    assert_eq!(decode("carry invert"), Some(Instruction::CarryInvert));
    assert_eq!(decode("carry set yes"), None);
    assert_eq!(decode("carry set"), None);
    assert_eq!(decode("carry"), None);
    assert_eq!(decode("carry invert now"), None);
}

#[test]
fn primitives_and_calls() {
    assert_eq!(decode("call primitive say"), Some(Instruction::Say));
    assert_eq!(decode("call primitive concat"), Some(Instruction::Concat));
    assert_eq!(decode("call primitive typeof"), Some(Instruction::TypeOf));
    assert_eq!(decode("call primitive int2str"), Some(Instruction::IntToStr));
    assert_eq!(decode("call 2 add"), Some(Instruction::Call { arity: 2, name: name("add") }));
    assert_eq!(
        decode("call 0 primitive"),
        Some(Instruction::Call { arity: 0, name: name("primitive") })
    );
    assert_eq!(decode("call primitive shout"), None);
    assert_eq!(decode("call add"), None);
    assert_eq!(decode("call -1 add"), None);
    assert_eq!(decode("call 2 add now"), None);
}

#[test]
fn return_instructions() {
    assert_eq!(decode("ret"), Some(Instruction::Ret));
    assert_eq!(decode("ret val"), Some(Instruction::RetVal));
    assert_eq!(decode("ret value"), None);
    assert_eq!(decode("ret val 1"), None);
    assert_eq!(decode("ret "), None);
}

#[test]
fn operator_instructions() {
    assert_eq!(decode("math +"), Some(Instruction::Math(MathOp::Plus)));
    assert_eq!(decode("math -"), Some(Instruction::Math(MathOp::Minus)));
    assert_eq!(decode("math *"), Some(Instruction::Math(MathOp::Times)));
    assert_eq!(decode("math /"), None);
    assert_eq!(decode("math"), None);
    assert_eq!(decode("math + +"), None);
    assert_eq!(decode("cmp <"), Some(Instruction::Compare(Relation::Less)));
    assert_eq!(decode("cmp >"), Some(Instruction::Compare(Relation::Greater)));
    assert_eq!(decode("cmp <="), Some(Instruction::Compare(Relation::AtMost)));
    assert_eq!(decode("cmp >="), Some(Instruction::Compare(Relation::AtLeast)));
    assert_eq!(decode("cmp ="), Some(Instruction::Compare(Relation::Equal)));
    assert_eq!(decode("cmp =="), None);
    assert_eq!(decode("cmp !="), None);
    assert_eq!(decode("cmp"), None);
}

#[test]
fn local_instructions() {
    assert_eq!(decode("local load x"), Some(Instruction::LocalLoad(name("x"))));
    assert_eq!(decode("local store x"), Some(Instruction::LocalStore(name("x"))));
    assert_eq!(decode("local load"), None);
    assert_eq!(decode("local drop x"), None);
    assert_eq!(decode("local load x y"), None);
}

#[test]
fn unknown_mnemonics_and_stray_spaces() {
    assert_eq!(decode("pop"), None);
    assert_eq!(decode("DUP"), None);
    assert_eq!(decode(" dup"), None);
    assert_eq!(decode("dup "), None);
    assert_eq!(decode("dup\t"), None);
    assert_eq!(decode("dup"), Some(Instruction::Dup));
}
