use tpbuffers::ast::{
    find_directive_group_value, find_directive_group_values, ASTNode, ConstValueASTNode, DirectiveASTNode,
    IdValuePair, StructASTNode, StructFieldASTNode, TypeIDASTNode,
};
use tpbuffers::ast::{EnumASTNode, EnumItemASTNode, TupleFieldASTNode};
use tpbuffers::dart;
use tpbuffers::rust::enum_buffers::{generate_enum_buffers_read_from_buffers, generate_enum_buffers_write_to_buffers};
use tpbuffers::kotlin;
use tpbuffers::lexer::Literal;
use tpbuffers::rust_generator;
use tpbuffers::swift;
use tpbuffers::text::trim_blank_lines_end;
use tpbuffers::writer::Writer;

fn string_value(text: &str) -> ConstValueASTNode {
    ConstValueASTNode::Literal {
        literal: Literal::StringLiteral(String::from(text)),
        type_id: TypeIDASTNode::Other { id: String::from("String") },
    }
}

fn rust_use(text: &str) -> ASTNode {
    ASTNode::Directive(DirectiveASTNode::Group {
        group_id: String::from("rust"),
        values: vec![IdValuePair { id: String::from("use"), value: string_value(text) }],
    })
}

fn literal_text(value: &ConstValueASTNode) -> String {
    match value {
        ConstValueASTNode::Literal { literal: Literal::StringLiteral(text), .. } => text.clone(),
        _ => String::new(),
    }
}

#[test]
fn directive_group_value_is_the_first_of_the_values() {
    let ast = vec![rust_use("crate::a::*"), rust_use("crate::b::*")];
    let all = find_directive_group_values(&ast, "rust", "use");
    assert_eq!(all.len(), 2);
    let first = find_directive_group_value(&ast, "rust", "use").unwrap();
    assert_eq!(literal_text(&first), literal_text(&all[0]));
    assert_eq!(literal_text(&first), "crate::a::*");
    assert!(find_directive_group_value(&ast, "swift", "import").is_none());
}

#[test]
fn trimming_blank_lines_removes_them_all_and_is_idempotent() {
    let once = trim_blank_lines_end("a\n\n\n\n");
    assert_eq!(once, "a\n");
    assert_eq!(trim_blank_lines_end(&once), once);
    assert_eq!(trim_blank_lines_end("b\n"), "b\n");
}

#[test]
fn rust_file_never_ends_with_a_blank_line() {
    let ast = vec![
        rust_use("crate::models::*"),
        ASTNode::Struct(StructASTNode {
            id: String::from("Empty"),
            fields: vec![],
            emplace_buffers: false,
            into_buffers: true,
        }),
        ASTNode::Struct(StructASTNode {
            id: String::from("Point"),
            fields: vec![StructFieldASTNode {
                position: 1,
                name: String::from("x"),
                type_id: TypeIDASTNode::Number { id: String::from("f32"), size: 4 },
            }],
            emplace_buffers: false,
            into_buffers: true,
        }),
    ];
    let text = rust_generator::generate(&ast);
    assert!(text.ends_with('\n'));
    assert!(!text.ends_with("\n\n"));
    assert!(!rust_generator::generate(&[]).ends_with("\n\n"));
}

#[test]
fn gaps_do_not_depend_on_order() {
    let class = |id: &str| {
        dart::ir::DartIR::Class(dart::ir::ClassDartIR { id: String::from(id), body: vec![], implements: vec![] })
    };
    let constructor = dart::ir::DartIR::DefaultConstructor(dart::ir::DefaultConstructorIR {
        id: String::from("A"),
        is_const: true,
        fields: None,
    });
    let name = dart::ir::DartIR::Id(String::from("A"));
    assert!(dart::ir::needs_gap(&class("A"), &class("B")));
    assert_eq!(dart::ir::needs_gap(&constructor, &class("A")), dart::ir::needs_gap(&class("A"), &constructor));
    assert_eq!(dart::ir::needs_gap(&name, &constructor), dart::ir::needs_gap(&constructor, &name));

    let fun = kotlin::ir::KotlinIR::Fun {
        id: String::from("f"),
        arguments: None,
        return_type_id: None,
        is_override: false,
        body: None,
    };
    let companion = kotlin::ir::KotlinIR::CompanionObject { body: vec![] };
    assert!(kotlin::ir::needs_gap(&companion, &fun));
    assert!(kotlin::ir::needs_gap(&fun, &companion));

    let statements = swift::ir::SwiftIR::Statements { items: vec![] };
    let ret = swift::ir::SwiftIR::ReturnStatement { body: Box::new(swift::ir::SwiftIR::Id(String::from("x"))) };
    assert!(swift::ir::needs_gap(&statements, &ret));
    assert!(swift::ir::needs_gap(&ret, &statements));
}

#[test]
fn writing_tokens_keeps_what_was_written() {
    let mut writer = Writer::new(2);
    writer.writeln("// header");
    let before = writer.show().to_string();
    let class = dart::ir::DartIR::Class(dart::ir::ClassDartIR {
        id: String::from("A"),
        body: vec![],
        implements: vec![],
    });
    dart::ir::write_tokens(&mut writer, &[class]);
    assert!(writer.show().starts_with(&before));
    assert_eq!(writer.show(), "// header\nclass A {\n}\n");

    let mut writer = Writer::default();
    writer.write("x = ");
    kotlin::ir::write_tokens(&mut writer, &[kotlin::ir::KotlinIR::Id(String::from("1"))]);
    assert_eq!(writer.show(), "x = 1");
}

#[test]
fn writer_indentation_round_trips() {
    let mut writer = Writer::new(3);
    writer.push_tab();
    writer.push_tab();
    writer.pop_tab();
    writer.write_tabs();
    writer.write_tabs();
    writer.write("a");
    assert_eq!(writer.show(), "   a");
}

#[test]
fn enum_read_and_write_arms_share_positions_and_types() {
    let node = EnumASTNode {
        id: String::from("MyEnum"),
        items: vec![
            EnumItemASTNode::Empty { position: 1, id: String::from("Idle") },
            EnumItemASTNode::Tuple {
                position: 3,
                id: String::from("Update"),
                values: vec![
                    TupleFieldASTNode { position: 1, type_id: TypeIDASTNode::Number { id: String::from("f64"), size: 8 } },
                    TupleFieldASTNode { position: 2, type_id: TypeIDASTNode::Other { id: String::from("String") } },
                ],
            },
        ],
    };
    let read = generate_enum_buffers_read_from_buffers(&node);
    let write = generate_enum_buffers_write_to_buffers(&node);
    assert!(read.contains("1 => return MyEnum::Idle,"));
    assert!(read.contains("3 => return MyEnum::Update("));
    assert!(write.contains("bytes_writer.write_u32(1);"));
    assert!(write.contains("bytes_writer.write_u32(3);"));
    let read_f64 = read.find("bytes_reader.read_f64()").unwrap();
    let read_string = read.find("String::read_from_buffers(bytes_reader)").unwrap();
    assert!(read_f64 < read_string);
    let write_f64 = write.find("bytes_writer.write_f64(*v0);").unwrap();
    let write_string = write.find("v1.write_to_buffers(bytes_writer);").unwrap();
    assert!(write_f64 < write_string);
}
