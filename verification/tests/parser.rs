use tpbuffers::ast::{ASTNode, ConstItemASTNode, ConstValueASTNode, DirectiveASTNode, EnumItemASTNode, TypeIDASTNode};
use tpbuffers::lexer::{Lexer, Literal};
use tpbuffers::parser::{parse, parse_position, parse_type_id};

fn parse_text(text: &str) -> Option<Vec<ASTNode>> {
    let mut lexer = Lexer::tokenize(text);
    parse(&mut lexer).ok()
}

#[test]
fn parse_position_test() {
    let mut lexer = Lexer::tokenize("#[123]");
    let position = parse_position(&mut lexer).ok();
    assert_eq!(position, Some(123));
}

#[test]
fn parse_generic_type() {
    let mut lexer = Lexer::tokenize("LinearTable<f32, Vec<u8>>");
    let t = parse_type_id(&mut lexer).ok().unwrap();
    match t {
        TypeIDASTNode::Generic { id, generics } => {
            assert_eq!(id, "LinearTable");
            assert_eq!(generics.len(), 2);
            assert!(matches!(&generics[0], TypeIDASTNode::Number { size: 4, .. }));
            match &generics[1] {
                TypeIDASTNode::Generic { id, generics } => {
                    assert_eq!(id, "Vec");
                    assert!(matches!(&generics[0], TypeIDASTNode::Integer { size: 1, signed: false, .. }));
                }
                _ => panic!("expected a generic type"),
            }
        }
        _ => panic!("expected a generic type"),
    }
}

#[test]
fn parse_struct_with_fields() {
    let ast = parse_text("struct BasicTypesModel {  byte: u8,  some_integer: i32,  some_string: String,  optional_f32: Option<f32>, }").unwrap();
    assert_eq!(ast.len(), 1);
    match &ast[0] {
        ASTNode::Struct(s) => {
            assert_eq!(s.id, "BasicTypesModel");
            assert_eq!(s.fields.len(), 4);
            assert_eq!(s.fields[0].name, "byte");
            assert_eq!(s.fields[0].position, 0);
            assert_eq!(s.fields[3].name, "optional_f32");
            assert_eq!(s.fields[3].position, 3);
            assert!(matches!(&s.fields[1].type_id, TypeIDASTNode::Integer { size: 4, signed: true, .. }));
            assert!(matches!(&s.fields[2].type_id, TypeIDASTNode::Other { .. }));
        }
        _ => panic!("expected a struct"),
    }
}

#[test]
fn parse_empty_struct() {
    let ast = parse_text("struct Empty;").unwrap();
    assert!(matches!(&ast[0], ASTNode::Struct(s) if s.fields.is_empty() && s.id == "Empty"));
}

#[test]
fn parse_enum_with_positions() {
    let ast = parse_text("enum MyEnum {  #[1] Idle,  #[2] Move {      #[2] y: f64,      #[1] x: f64,  },  #[3] Update(#[1] f64, #[4] String, #[2] f64), }").unwrap();
    match &ast[0] {
        ASTNode::Enum(e) => {
            assert_eq!(e.id, "MyEnum");
            assert_eq!(e.items.len(), 3);
            assert!(matches!(&e.items[0], EnumItemASTNode::Empty { position: 1, .. }));
            match &e.items[1] {
                EnumItemASTNode::Struct { position, fields, .. } => {
                    assert_eq!(*position, 2);
                    assert_eq!(fields[0].name, "x");
                    assert_eq!(fields[1].name, "y");
                }
                _ => panic!("expected a struct variant"),
            }
            match &e.items[2] {
                EnumItemASTNode::Tuple { position, values, .. } => {
                    assert_eq!(*position, 3);
                    let positions: Vec<u32> = values.iter().map(|v| v.position).collect();
                    assert_eq!(positions, vec![1, 2, 4]);
                    assert!(matches!(&values[2].type_id, TypeIDASTNode::Other { .. }));
                }
                _ => panic!("expected a tuple variant"),
            }
        }
        _ => panic!("expected an enum"),
    }
}

#[test]
fn parse_enum_without_positions() {
    let ast = parse_text("enum E { Option1(u64), Option2 { name: String }, Option3 }").unwrap();
    match &ast[0] {
        ASTNode::Enum(e) => {
            let positions: Vec<u32> = e.items.iter().map(|i| i.position()).collect();
            assert_eq!(positions, vec![0, 1, 2]);
        }
        _ => panic!("expected an enum"),
    }
}

#[test]
fn parse_rpc_example() {
    let src = "#[id = \"ee61593c\"] #[namespace = \"rpc_examples\"] #[rust(use = \"crate::rpc_examples::*\")] fn print_hello_world(); fn say_hello(first_name: String, last_name: String) -> String; signal counter_stream -> i32; async fn later() -> bool;";
    let ast = parse_text(src).unwrap();
    assert_eq!(ast.len(), 7);
    match &ast[0] {
        ASTNode::Directive(DirectiveASTNode::Value { id, value: ConstValueASTNode::Literal { literal: Literal::StringLiteral(s), .. } }) => {
            assert_eq!(id, "id");
            assert_eq!(s, "ee61593c");
        }
        _ => panic!("expected a value directive"),
    }
    match &ast[2] {
        ASTNode::Directive(DirectiveASTNode::Group { group_id, values }) => {
            assert_eq!(group_id, "rust");
            assert_eq!(values.len(), 1);
            assert_eq!(values[0].id, "use");
        }
        _ => panic!("expected a group directive"),
    }
    match (&ast[3], &ast[4], &ast[5], &ast[6]) {
        (ASTNode::Fn(a), ASTNode::Fn(b), ASTNode::Fn(c), ASTNode::Fn(d)) => {
            assert_eq!((a.position, b.position, c.position, d.position), (0, 1, 2, 3));
            assert!(a.args.is_empty() && a.return_type_id.is_none() && !a.is_signal);
            assert_eq!(b.args.len(), 2);
            assert_eq!(b.args[1].id, "last_name");
            assert!(b.return_type_id.is_some());
            assert!(c.is_signal && c.args.is_empty());
            assert!(d.is_async && !d.is_signal);
        }
        _ => panic!("expected methods"),
    }
}

#[test]
fn parse_const_blocks() {
    let ast = parse_text("const addr {  SOME_VALUE: String = \"Hello World!\";  const groups {      MAIN: GroupAddress = 7;  }  FLAG: bool = true; }").unwrap();
    match &ast[0] {
        ASTNode::Const(c) => {
            assert_eq!(c.id, "addr");
            assert_eq!(c.items.len(), 3);
            assert!(matches!(&c.items[0], ConstItemASTNode::Value { id, .. } if id == "SOME_VALUE"));
            match &c.items[1] {
                ConstItemASTNode::ConstNode { node } => {
                    assert_eq!(node.id, "groups");
                    assert!(matches!(&node.items[0], ConstItemASTNode::Value { value: ConstValueASTNode::Literal { literal: Literal::IntLiteral(7), .. }, .. }));
                }
                _ => panic!("expected a nested block"),
            }
            assert!(matches!(&c.items[2], ConstItemASTNode::Value { value: ConstValueASTNode::Literal { literal: Literal::BoolLiteral(true), .. }, .. }));
        }
        _ => panic!("expected a constant block"),
    }
}

#[test]
fn parse_rejects_bad_input() {
    assert!(parse_text("struct {").is_none());
    assert!(parse_text("enum E { #[1] A, #[1] B }").is_none());
    assert!(parse_text("fn f(").is_none());
    assert!(parse_text("42").is_none());
}

#[test]
fn parse_empty_text() {
    assert_eq!(parse_text("").unwrap().len(), 0);
}
