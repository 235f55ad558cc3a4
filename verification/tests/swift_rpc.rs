use tpbuffers::ast::{ASTNode, ConstValueASTNode, DirectiveASTNode, FnASTNode, FnArgASTNode, TypeIDASTNode};
use tpbuffers::lexer::Literal;
use tpbuffers::swift::generate;

fn string_directive(id: &str, value: &str) -> ASTNode {
    ASTNode::Directive(DirectiveASTNode::Value {
        id: String::from(id),
        value: ConstValueASTNode::Literal {
            literal: Literal::StringLiteral(String::from(value)),
            type_id: TypeIDASTNode::Other { id: String::from("String") },
        },
    })
}

fn method(id: &str, position: u32, args: Vec<FnArgASTNode>, ret: Option<TypeIDASTNode>, is_signal: bool) -> ASTNode {
    ASTNode::Fn(FnASTNode {
        id: String::from(id),
        position,
        args,
        return_type_id: ret,
        is_read: false,
        is_async: false,
        is_signal,
    })
}

fn i32_type() -> TypeIDASTNode {
    TypeIDASTNode::Integer { id: String::from("i32"), size: 4, signed: true }
}

fn string_type() -> TypeIDASTNode {
    TypeIDASTNode::Other { id: String::from("String") }
}

#[test]
fn swift_rpc_struct_holds_signals_and_calls() {
    let ast = vec![
        string_directive("namespace", "test"),
        string_directive("id", "abc"),
        method("counter", 0, vec![], Some(i32_type()), true),
        method(
            "say_hello",
            1,
            vec![FnArgASTNode { id: String::from("name"), type_id: string_type() }],
            Some(string_type()),
            false,
        ),
    ];
    let text = generate(&ast);
    assert!(text.starts_with("// GENERATED, DO NOT EDIT"));
    assert!(text.contains("struct TestRpc"));
    assert!(text.contains("private static let scopeId = \"abc\""));
    assert!(text.contains("private(set) static var counterCurrent: Int32 = 0"));
    assert!(text.contains("private static let counterSubject = PassthroughSubject<Int32, Never>()"));
    assert!(text.contains("static func consumeStreams("));
    assert!(text.contains("runtime.consumeResult("));
    assert!(text.contains("counterSubject.send(value)"));
    assert!(text.contains("static func sayHello("));
    assert!(text.contains(") -> String {"));
    assert!(text.contains("runtime.callRpc()"));
    assert!(text.contains("runtime.writeArgs"));
    assert!(text.contains("runtime.readResult"));
}

#[test]
fn swift_file_without_methods_has_no_rpc_struct() {
    let ast = vec![string_directive("namespace", "test")];
    let text = generate(&ast);
    assert!(!text.contains("Rpc"));
    assert!(text.contains("import Combine"));
}

#[test]
fn swift_inputs_supported_follows_the_generator_precondition() {
    let ok = vec![
        string_directive("namespace", "test"),
        string_directive("id", "abc"),
        method("counter", 0, vec![], Some(i32_type()), true),
    ];
    assert!(tpbuffers::swift::swift_inputs_supported(&ok));
    let no_namespace = vec![string_directive("id", "abc"), method("counter", 0, vec![], Some(i32_type()), true)];
    assert!(!tpbuffers::swift::swift_inputs_supported(&no_namespace));
    let bad_size = vec![
        string_directive("namespace", "test"),
        string_directive("id", "abc"),
        method("counter", 0, vec![], Some(TypeIDASTNode::Integer { id: String::from("i16"), size: 2, signed: true }), true),
    ];
    assert!(!tpbuffers::swift::swift_inputs_supported(&bad_size));
    assert!(tpbuffers::swift::swift_inputs_supported(&vec![]));
}
