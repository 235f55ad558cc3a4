use tpbuffers::ast::{ConstValueASTNode, TypeIDASTNode};
use tpbuffers::lexer::{Decimal, Literal};
use tpbuffers::swift::{generator_tokens, ir, types};

fn decimal(v: f64) -> Decimal {
    let text = format!("{}", v);
    let negative = text.starts_with('-');
    let digits = text.trim_start_matches('-');
    let (integer, fraction) = match digits.split_once('.') {
        Some((i, f)) => (i.to_string(), f.to_string()),
        None => (digits.to_string(), String::new()),
    };
    Decimal { negative, integer, fraction }
}

fn integer(id: &str, size: usize, signed: bool) -> TypeIDASTNode {
    TypeIDASTNode::Integer { id: String::from(id), size, signed }
}

fn number(id: &str, size: usize) -> TypeIDASTNode {
    TypeIDASTNode::Number { id: String::from(id), size }
}

fn other(id: &str) -> TypeIDASTNode {
    TypeIDASTNode::Other { id: String::from(id) }
}

fn boolean(id: &str) -> TypeIDASTNode {
    TypeIDASTNode::Bool { id: String::from(id) }
}

fn value(literal: Literal, type_id: TypeIDASTNode) -> ConstValueASTNode {
    ConstValueASTNode::Literal { literal, type_id }
}

#[test]
fn generator_tokens_generate_const_value_test_string() {
    assert_eq!(
        generator_tokens::generate_const_value(
            &value(Literal::StringLiteral(String::from("Hello World!")), other("String")),
            &other("String")
        ),
        String::from("\"Hello World!\"")
    );
}

#[test]
fn generator_tokens_generate_const_value_test_int() {
    assert_eq!(
        generator_tokens::generate_const_value(&value(Literal::IntLiteral(13), integer("i64", 8, true)), &integer("i64", 8, true)),
        String::from("13")
    );
    assert_eq!(
        generator_tokens::generate_const_value(&value(Literal::IntLiteral(13), integer("u64", 8, false)), &integer("u64", 8, false)),
        String::from("13")
    );
}

#[test]
fn generator_tokens_generate_const_value_test_float() {
    assert_eq!(
        generator_tokens::generate_const_value(&value(Literal::NumberLiteral(decimal(3.14)), number("f64", 8)), &number("f64", 8)),
        String::from("3.14")
    );
    assert_eq!(
        generator_tokens::generate_const_value(&value(Literal::NumberLiteral(decimal(314.0)), number("f64", 8)), &number("f64", 8)),
        String::from("314.0")
    );
}

#[test]
fn generator_tokens_generate_const_value_test_boolean() {
    assert_eq!(
        generator_tokens::generate_const_value(&value(Literal::BoolLiteral(true), boolean("Bool")), &boolean("Bool")),
        String::from("true")
    );
    assert_eq!(
        generator_tokens::generate_const_value(&value(Literal::BoolLiteral(false), boolean("Bool")), &boolean("Bool")),
        String::from("false")
    );
}

#[test]
fn swift_ir_generate_type_id_test_signed_integers() {
    assert_eq!(ir::generate_type_id(&integer("i8", 1, true)), String::from("Int8"));
    assert_eq!(ir::generate_type_id(&integer("i32", 4, true)), String::from("Int32"));
    assert_eq!(ir::generate_type_id(&integer("i64", 8, true)), String::from("Int64"));
}

#[test]
fn swift_ir_generate_type_id_test_unsigned_integers() {
    assert_eq!(ir::generate_type_id(&integer("u8", 1, false)), String::from("UInt8"));
    assert_eq!(ir::generate_type_id(&integer("u32", 4, false)), String::from("UInt32"));
    assert_eq!(ir::generate_type_id(&integer("u64", 8, false)), String::from("UInt64"));
}

#[test]
fn swift_ir_generate_type_id_test_numbers() {
    assert_eq!(ir::generate_type_id(&number("f32", 4)), String::from("Float"));
    assert_eq!(ir::generate_type_id(&number("f64", 8)), String::from("Double"));
}

#[test]
fn swift_ir_generate_type_id_test_boolean() {
    assert_eq!(ir::generate_type_id(&boolean("bool")), String::from("Bool"));
}

#[test]
fn ir_generate_const_value_test_int() {
    assert_eq!(
        ir::generate_const_value(&value(Literal::IntLiteral(13), integer("i64", 8, true)), &integer("i64", 8, true)),
        String::from("13")
    );
    assert_eq!(
        ir::generate_const_value(&value(Literal::IntLiteral(13), integer("u64", 8, false)), &integer("u64", 8, false)),
        String::from("13")
    );
}

#[test]
fn ir_generate_const_value_test_float() {
    assert_eq!(
        ir::generate_const_value(&value(Literal::NumberLiteral(decimal(3.14)), number("f64", 8)), &number("f64", 8)),
        String::from("3.14")
    );
    assert_eq!(
        ir::generate_const_value(&value(Literal::NumberLiteral(decimal(314.0)), number("f64", 8)), &number("f64", 8)),
        String::from("314.0")
    );
}

#[test]
fn swift_ir_generate_const_value_test_string() {
    assert_eq!(
        ir::generate_const_value(&value(Literal::StringLiteral(String::from("Hello World!")), other("String")), &other("String")),
        String::from("\"Hello World!\"")
    );
}

#[test]
fn swift_ir_generate_const_value_test_boolean() {
    assert_eq!(
        ir::generate_const_value(&value(Literal::BoolLiteral(true), boolean("Bool")), &boolean("Bool")),
        String::from("true")
    );
    assert_eq!(
        ir::generate_const_value(&value(Literal::BoolLiteral(false), boolean("Bool")), &boolean("Bool")),
        String::from("false")
    );
}

#[test]
fn generate_const_value_test_signed_integers() {
    assert_eq!(types::generate_type_id(&integer("i8", 1, true)), String::from("Int8"));
    assert_eq!(types::generate_type_id(&integer("i32", 4, true)), String::from("Int32"));
    assert_eq!(types::generate_type_id(&integer("i64", 8, true)), String::from("Int64"));
}

#[test]
fn generate_const_value_test_unsigned_integers() {
    assert_eq!(types::generate_type_id(&integer("u8", 1, false)), String::from("UInt8"));
    assert_eq!(types::generate_type_id(&integer("u32", 4, false)), String::from("UInt32"));
    assert_eq!(types::generate_type_id(&integer("u64", 8, false)), String::from("UInt64"));
}

#[test]
fn generate_const_value_test_numbers() {
    assert_eq!(types::generate_type_id(&number("f32", 4)), String::from("Float"));
    assert_eq!(types::generate_type_id(&number("f64", 8)), String::from("Double"));
}

#[test]
fn types_generate_const_value_test_boolean() {
    assert_eq!(types::generate_type_id(&boolean("bool")), String::from("Bool"));
}
