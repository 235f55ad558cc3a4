use tpbuffers::ast::{ConstValueASTNode, TypeIDASTNode};
use tpbuffers::kotlin::consts;
use tpbuffers::kotlin::ir::{generate_const_value, generate_type_id};
use tpbuffers::lexer::{Decimal, Literal};

fn decimal(v: f64) -> Decimal {
    let text = format!("{}", v);
    let negative = text.starts_with('-');
    let digits = text.trim_start_matches('-');
    let (integer, fraction) = match digits.split_once('.') {
        Some((i, f)) => (i.to_string(), f.to_string()),
        None => (digits.to_string(), String::new()),
    };
    Decimal { negative, integer, fraction }
}

fn integer(id: &str, size: usize, signed: bool) -> TypeIDASTNode {
    TypeIDASTNode::Integer { id: String::from(id), size, signed }
}

fn number(id: &str, size: usize) -> TypeIDASTNode {
    TypeIDASTNode::Number { id: String::from(id), size }
}

fn other(id: &str) -> TypeIDASTNode {
    TypeIDASTNode::Other { id: String::from(id) }
}

fn boolean(id: &str) -> TypeIDASTNode {
    TypeIDASTNode::Bool { id: String::from(id) }
}

fn value(literal: Literal, type_id: TypeIDASTNode) -> ConstValueASTNode {
    ConstValueASTNode::Literal { literal, type_id }
}

#[test]
fn consts_generate_const_value_test_string() {
    assert_eq!(
        consts::generate_const_value(
            &value(Literal::StringLiteral(String::from("Hello World!")), other("String")),
            &other("String")
        ),
        String::from("\"Hello World!\"")
    );
}

#[test]
fn consts_generate_const_value_test_int8() {
    assert_eq!(
        consts::generate_const_value(&value(Literal::IntLiteral(13), integer("i8", 1, true)), &integer("i8", 1, true)),
        String::from("13")
    );
    assert_eq!(
        consts::generate_const_value(&value(Literal::IntLiteral(13), integer("u8", 1, false)), &integer("u8", 1, false)),
        String::from("13U")
    );
}

#[test]
fn consts_generate_const_value_test_int32() {
    assert_eq!(
        consts::generate_const_value(&value(Literal::IntLiteral(13), integer("i32", 4, true)), &integer("i32", 4, true)),
        String::from("13")
    );
    assert_eq!(
        consts::generate_const_value(&value(Literal::IntLiteral(13), integer("u32", 4, false)), &integer("u32", 4, false)),
        String::from("13U")
    );
}

#[test]
fn consts_generate_const_value_test_int64() {
    assert_eq!(
        consts::generate_const_value(&value(Literal::IntLiteral(13), integer("i64", 8, true)), &integer("i64", 8, true)),
        String::from("13L")
    );
    assert_eq!(
        consts::generate_const_value(&value(Literal::IntLiteral(13), integer("u64", 8, false)), &integer("u64", 8, false)),
        String::from("13UL")
    );
}

#[test]
fn consts_generate_const_value_test_float32() {
    assert_eq!(
        consts::generate_const_value(&value(Literal::NumberLiteral(decimal(3.14)), number("f32", 4)), &number("f32", 4)),
        String::from("3.14f")
    );
    assert_eq!(
        consts::generate_const_value(&value(Literal::NumberLiteral(decimal(314.0)), number("f32", 4)), &number("f32", 4)),
        String::from("314.0f")
    );
}

#[test]
fn consts_generate_const_value_test_float64() {
    assert_eq!(
        consts::generate_const_value(&value(Literal::NumberLiteral(decimal(3.14)), number("f64", 8)), &number("f64", 8)),
        String::from("3.14")
    );
    assert_eq!(
        consts::generate_const_value(&value(Literal::NumberLiteral(decimal(314.0)), number("f64", 8)), &number("f64", 8)),
        String::from("314.0")
    );
}

#[test]
fn consts_generate_const_value_test_boolean() {
    assert_eq!(
        consts::generate_const_value(&value(Literal::BoolLiteral(true), boolean("Bool")), &boolean("Bool")),
        String::from("true")
    );
    assert_eq!(
        consts::generate_const_value(&value(Literal::BoolLiteral(false), boolean("Bool")), &boolean("Bool")),
        String::from("false")
    );
}

#[test]
fn ir_generate_type_id_test_signed_integers() {
    assert_eq!(generate_type_id(&integer("i8", 1, true)), String::from("Byte"));
    assert_eq!(generate_type_id(&integer("i32", 4, true)), String::from("Int"));
    assert_eq!(generate_type_id(&integer("i64", 8, true)), String::from("Long"));
}

#[test]
fn ir_generate_type_id_test_unsigned_integers() {
    assert_eq!(generate_type_id(&integer("u8", 1, false)), String::from("UByte"));
    assert_eq!(generate_type_id(&integer("u32", 4, false)), String::from("UInt"));
    assert_eq!(generate_type_id(&integer("u64", 8, false)), String::from("ULong"));
}

#[test]
fn ir_generate_type_id_test_numbers() {
    assert_eq!(generate_type_id(&number("f32", 4)), String::from("Float"));
    assert_eq!(generate_type_id(&number("f64", 8)), String::from("Double"));
}

#[test]
fn ir_generate_type_id_test_boolean() {
    assert_eq!(generate_type_id(&boolean("bool")), String::from("Boolean"));
}

#[test]
fn ir_generate_const_value_test_string() {
    assert_eq!(
        generate_const_value(&other("String"), &value(Literal::StringLiteral(String::from("Hello World!")), other("String"))),
        String::from("\"Hello World!\"")
    );
}

#[test]
fn ir_generate_const_value_test_int8() {
    assert_eq!(
        generate_const_value(&integer("i8", 1, true), &value(Literal::IntLiteral(13), integer("i8", 1, true))),
        String::from("13.toByte()")
    );
    assert_eq!(
        generate_const_value(&integer("u8", 1, false), &value(Literal::IntLiteral(13), integer("u8", 1, false))),
        String::from("13.toUByte()")
    );
}

#[test]
fn ir_generate_const_value_test_int32() {
    assert_eq!(
        generate_const_value(&integer("i32", 4, true), &value(Literal::IntLiteral(13), integer("i32", 4, true))),
        String::from("13")
    );
    assert_eq!(
        generate_const_value(&integer("u32", 4, false), &value(Literal::IntLiteral(13), integer("u32", 4, false))),
        String::from("13U")
    );
}

#[test]
fn ir_generate_const_value_test_int64() {
    assert_eq!(
        generate_const_value(&integer("i64", 8, true), &value(Literal::IntLiteral(13), integer("i64", 8, true))),
        String::from("13L")
    );
    assert_eq!(
        generate_const_value(&integer("u64", 8, false), &value(Literal::IntLiteral(13), integer("u64", 8, false))),
        String::from("13UL")
    );
}

#[test]
fn ir_generate_const_value_test_float32() {
    assert_eq!(
        generate_const_value(&number("f32", 4), &value(Literal::NumberLiteral(decimal(3.14)), number("f32", 4))),
        String::from("3.14f")
    );
    assert_eq!(
        generate_const_value(&number("f32", 4), &value(Literal::NumberLiteral(decimal(314.0)), number("f32", 4))),
        String::from("314.0f")
    );
}

#[test]
fn ir_generate_const_value_test_float64() {
    assert_eq!(
        generate_const_value(&number("f64", 8), &value(Literal::NumberLiteral(decimal(3.14)), number("f64", 8))),
        String::from("3.14")
    );
    assert_eq!(
        generate_const_value(&number("f64", 8), &value(Literal::NumberLiteral(decimal(314.0)), number("f64", 8))),
        String::from("314.0")
    );
}

#[test]
fn ir_generate_const_value_test_boolean() {
    assert_eq!(
        generate_const_value(&boolean("Bool"), &value(Literal::BoolLiteral(true), boolean("Bool"))),
        String::from("true")
    );
    assert_eq!(
        generate_const_value(&boolean("Bool"), &value(Literal::BoolLiteral(false), boolean("Bool"))),
        String::from("false")
    );
}

#[test]
fn kotlin_sync_rpc_method_calls_the_runtime() {
    use_kotlin_rpc();
}

fn use_kotlin_rpc() {
    let node = tpbuffers::ast::FnASTNode {
        id: String::from("say_hello"),
        position: 1,
        args: vec![tpbuffers::ast::FnArgASTNode {
            id: String::from("first_name"),
            type_id: tpbuffers::ast::TypeIDASTNode::Other { id: String::from("String") },
        }],
        return_type_id: Some(tpbuffers::ast::TypeIDASTNode::Other { id: String::from("String") }),
        is_read: false,
        is_async: false,
        is_signal: false,
    };
    let ir = tpbuffers::kotlin::generator::generate_sync_rpc_method(&node);
    let text = tpbuffers::kotlin::ir::stringify_ir(&[ir]);
    assert!(text.contains("fun sayHello("));
    assert!(text.contains("firstName: String"));
    assert!(text.contains("TechPawsBuffersRpcRuntime.rpc("));
    assert!(text.contains("scopeId = SCOPE_ID"));
    assert!(text.contains("methodId = 1U"));
    assert!(text.contains("runtime.writeArgs"));
    assert!(text.contains("firstName.writeToBuffers(writer)"));
    assert!(text.contains("runtime.callRpc()"));
    assert!(text.contains("runtime.readResult"));
    assert!(text.contains("String.readFromBuffers(reader)"));
    assert!(text.contains("return TechPawsBuffersRpcRuntime.rpc("));
}
