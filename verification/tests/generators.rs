use tpbuffers::ast::{
    ASTNode, ConstASTNode, ConstItemASTNode, ConstValueASTNode, EnumASTNode, EnumItemASTNode, StructASTNode,
    StructFieldASTNode, TypeIDASTNode,
};
use tpbuffers::kotlin;
use tpbuffers::lexer::Literal;
use tpbuffers::swift;

fn i32_type() -> TypeIDASTNode {
    TypeIDASTNode::Integer { id: String::from("i32"), size: 4, signed: true }
}

fn f32_type() -> TypeIDASTNode {
    TypeIDASTNode::Number { id: String::from("f32"), size: 4 }
}

fn one_const_block() -> Vec<ASTNode> {
    vec![ASTNode::Const(ConstASTNode {
        id: String::from("my_consts"),
        items: vec![ConstItemASTNode::Value {
            id: String::from("A"),
            type_id: i32_type(),
            value: ConstValueASTNode::Literal { literal: Literal::IntLiteral(1), type_id: i32_type() },
        }],
    })]
}

fn point() -> StructASTNode {
    StructASTNode {
        id: String::from("Point"),
        fields: vec![StructFieldASTNode { position: 1, name: String::from("x"), type_id: f32_type() }],
        emplace_buffers: false,
        into_buffers: true,
    }
}

#[test]
fn kotlin_const_objects_are_written() {
    let ir = kotlin::generator::generate_consts(&one_const_block());
    assert_eq!(kotlin::ir::stringify_ir(&ir), "object MyConsts {\n    const val A: Int = 1\n}\n");
}

#[test]
fn kotlin_const_block_as_text() {
    assert_eq!(kotlin::consts::generate_consts(&one_const_block()), "object MyConsts {\n    const val A: Int = 1\n}\n");
}

#[test]
fn swift_const_structs_are_written() {
    let ir = swift::generator::generate_consts(&one_const_block());
    assert_eq!(swift::ir::stringify_ir(&ir), "struct MyConsts {\n    static let a: Int32 = 1\n}\n");
}

#[test]
fn swift_const_tokens_are_written() {
    let tokens = swift::consts::generate_consts(&one_const_block());
    assert_eq!(
        swift::generator_tokens::stringify_tokens(&tokens),
        "struct MyConsts {\n    static let a: Int32 = 1\n}\n"
    );
}

#[test]
fn kotlin_enum_case_without_values_is_a_data_object() {
    let shape = EnumASTNode { id: String::from("Shape"), items: vec![EnumItemASTNode::Empty { position: 1, id: String::from("Dot") }] };
    let ir = kotlin::generator::generate_enum_case(&shape, &shape.items[0]);
    assert_eq!(kotlin::ir::stringify_ir(&[ir]), "data object Dot : Shape\n");
}

#[test]
fn kotlin_struct_model_without_defaults() {
    let ir = kotlin::generator::generate_struct_model(&point(), false);
    assert_eq!(
        kotlin::ir::stringify_ir(&[ir]),
        "data class Point(\n    val x: Float,\n) {\n    fun writeToBuffers(writer: Long) {\n        x.writeToBuffers(writer)\n    }\n}\n"
    );
}

#[test]
fn swift_struct_model_is_written() {
    let ir = swift::generator::generate_struct_model(&point());
    let expected = "struct Point: TechPawsBuffersModel {
    let x: Float

    static func createBuffersDefault() -> Self {
        return Point(
            x: 0
        )
    }

    static func readFromBuffers(
        _ bytesReader: TechPawsBuffersBytesReader
    ) -> Self {
        let x = bytesReader.readFloat()

        return Point(
            x: x
        )
    }

    static func skipInBuffers(
        _ bytesReader: TechPawsBuffersBytesReader,
        _ count: UInt64
    ) {
        for _ in 1...count {
            let _ = bytesReader.readFloat()
        }
    }

    func writeToBuffers(
        _ bytesWriter: TechPawsBuffersBytesWriter
    ) {
        bytesWriter.writeFloat(x)
    }
}
";
    assert_eq!(swift::ir::stringify_ir(&[ir]), expected);
}

#[test]
fn swift_file_has_header_imports_and_declarations() {
    let mut ast = one_const_block();
    ast.push(ASTNode::Directive(tpbuffers::ast::DirectiveASTNode::Group {
        group_id: String::from("swift"),
        values: vec![tpbuffers::ast::IdValuePair {
            id: String::from("import"),
            value: ConstValueASTNode::Literal {
                literal: Literal::StringLiteral(String::from("TechPawsBuffers")),
                type_id: TypeIDASTNode::Other { id: String::from("String") },
            },
        }],
    }));
    assert_eq!(
        swift::generate(&ast),
        "// GENERATED, DO NOT EDIT\n\nimport Foundation\nimport Combine\n\nimport TechPawsBuffers\nstruct MyConsts {\n    static let a: Int32 = 1\n}\n"
    );
}
