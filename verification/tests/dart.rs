use tpbuffers::ast::{ConstValueASTNode, EnumASTNode, EnumItemASTNode, TupleFieldASTNode, TypeIDASTNode};
use tpbuffers::dart::enum_into_buffers::generate_enum_into_buffers;
use tpbuffers::dart;
use tpbuffers::dart::ir::{
    generate_const_value, generate_copy_type_id, generate_default_copy_const_value,
    generate_default_emplace_const_value, generate_emplace_type_id, stringify_ir, write_list,
    ArgumentDeclarationIR, AssignIR, CallIR, ClassDartIR, DartIR, DefaultConstructorIR, ListIR,
    NamedConstructorIR, ShortFuncIR, VarDeclarationIR,
};
use tpbuffers::lexer::Literal;
use tpbuffers::writer::Writer;

fn integer(id: &str, size: usize, signed: bool) -> TypeIDASTNode {
    TypeIDASTNode::Integer { id: String::from(id), size, signed }
}

fn number(id: &str, size: usize) -> TypeIDASTNode {
    TypeIDASTNode::Number { id: String::from(id), size }
}

fn other(id: &str) -> TypeIDASTNode {
    TypeIDASTNode::Other { id: String::from(id) }
}

fn generic(id: &str, generics: Vec<TypeIDASTNode>) -> TypeIDASTNode {
    TypeIDASTNode::Generic { id: String::from(id), generics }
}

fn id(text: &str) -> DartIR {
    DartIR::Id(String::from(text))
}

fn field_argument(name: &str) -> DartIR {
    DartIR::ArgumentDeclaration(ArgumentDeclarationIR {
        id: String::from(name),
        is_required: true,
        is_this: true,
        type_id: None,
        assign: None,
    })
}

fn point_model() -> Vec<DartIR> {
    let x = integer("i32", 32, true);
    let y = generic("Option", vec![number("f64", 64)]);
    let model = DartIR::Class(ClassDartIR {
        id: String::from("Point"),
        implements: vec![],
        body: vec![
            DartIR::DefaultConstructor(DefaultConstructorIR {
                id: String::from("Point"),
                is_const: true,
                fields: Some(Box::new(DartIR::List(ListIR {
                    items: vec![field_argument("x"), field_argument("y")],
                    separator: ",",
                    new_line: true,
                }))),
            }),
            DartIR::NamedConstructor(NamedConstructorIR {
                id: String::from("Point"),
                name: String::from("createDefault"),
                is_const: true,
                fields: None,
                assigns: vec![
                    DartIR::Assign(AssignIR {
                        left: Box::new(id("x")),
                        right: Box::new(DartIR::DefaultCopyValueForTypeID(x.clone())),
                    }),
                    DartIR::Assign(AssignIR {
                        left: Box::new(id("y")),
                        right: Box::new(DartIR::DefaultCopyValueForTypeID(y.clone())),
                    }),
                ],
            }),
            DartIR::VarDeclaration(VarDeclarationIR {
                id: String::from("x"),
                type_id: Box::new(DartIR::CopyTypeId(x)),
                is_final: true,
                assign: None,
            }),
            DartIR::VarDeclaration(VarDeclarationIR {
                id: String::from("y"),
                type_id: Box::new(DartIR::CopyTypeId(y)),
                is_final: true,
                assign: None,
            }),
        ],
    });
    let factory = DartIR::Class(ClassDartIR {
        id: String::from("PointBuffersFactory"),
        implements: vec![id("BuffersFactory<Point>")],
        body: vec![
            DartIR::DefaultConstructor(DefaultConstructorIR {
                id: String::from("PointBuffersFactory"),
                is_const: true,
                fields: None,
            }),
            DartIR::ShortFunc(ShortFuncIR {
                id: String::from("createDefault"),
                args: None,
                return_type_id: Some(Box::new(id("Point"))),
                is_override: true,
                body: Box::new(DartIR::Call(CallIR {
                    path: vec![id("Point"), id("createDefault")],
                    is_const: true,
                    args: None,
                })),
            }),
        ],
    });
    vec![model, factory]
}

#[test]
fn dart_model_classes_are_written() {
    let expected = "class Point {
  const Point({
    required this.x,
    required this.y,
  });

  const Point.createDefault()
      : x = 0,
        y = null;

  final int x;
  final double? y;
}

class PointBuffersFactory implements BuffersFactory<Point> {
  const PointBuffersFactory();

  @override
  Point createDefault() => const Point.createDefault();
}
";
    assert_eq!(stringify_ir(&point_model()), expected);
}

#[test]
fn dart_list_on_one_line_has_no_separator() {
    let mut writer = Writer::new(2);
    let list = ListIR { items: vec![id("a"), id("b")], separator: ",", new_line: false };
    write_list(&mut writer, &list);
    assert_eq!(writer.show(), "ab");
}

#[test]
fn dart_copy_type_names() {
    assert_eq!(generate_copy_type_id(&integer("u8", 8, false)), "int");
    assert_eq!(generate_copy_type_id(&number("f32", 32)), "double");
    assert_eq!(generate_copy_type_id(&TypeIDASTNode::Bool { id: String::from("bool") }), "bool");
    assert_eq!(generate_copy_type_id(&other("GroupAddress")), "int");
    assert_eq!(generate_copy_type_id(&other("Point")), "Point");
    assert_eq!(generate_copy_type_id(&generic("Vec", vec![integer("i64", 64, true)])), "List<int>");
    assert_eq!(generate_copy_type_id(&generic("Option", vec![other("Point")])), "Point?");
    assert_eq!(
        generate_copy_type_id(&generic("Map", vec![other("String"), number("f64", 64)])),
        "Map<String, double>"
    );
}

#[test]
fn dart_emplace_type_names() {
    assert_eq!(generate_emplace_type_id(&generic("Option", vec![other("Point")])), "EmplaceOption<Point>");
    assert_eq!(generate_emplace_type_id(&generic("Vec", vec![integer("i32", 32, true)])), "EmplaceList<int>");
    assert_eq!(generate_emplace_type_id(&integer("i32", 32, true)), "int");
}

#[test]
fn dart_default_values() {
    assert_eq!(generate_default_copy_const_value(&other("String")), "\"\"");
    assert_eq!(generate_default_copy_const_value(&other("Point")), "const Point.createDefault()");
    assert_eq!(
        generate_default_copy_const_value(&generic("Vec", vec![integer("u8", 8, false)])),
        "const <int>[]"
    );
    assert_eq!(generate_default_emplace_const_value(&other("Point")), "Point.createDefault()");
    assert_eq!(
        generate_default_emplace_const_value(&generic("Vec", vec![integer("u8", 8, false)])),
        "<int>[]"
    );
    assert_eq!(generate_default_emplace_const_value(&generic("Option", vec![other("Point")])), "null");
    assert_eq!(generate_default_copy_const_value(&number("f32", 32)), "0.0");
}

#[test]
fn dart_const_values() {
    let value = ConstValueASTNode::Literal {
        literal: Literal::IntLiteral(13),
        type_id: integer("i32", 32, true),
    };
    assert_eq!(generate_const_value(&value, &integer("i32", 32, true)), "13");
    let text = ConstValueASTNode::Literal {
        literal: Literal::StringLiteral(String::from("Hello")),
        type_id: other("String"),
    };
    assert_eq!(generate_const_value(&text, &other("String")), "\"Hello\"");
}

#[test]
fn dart_file_has_only_the_header() {
    assert_eq!(dart::generate(&[]), "// GENERATED, DO NOT EDIT\n\n");
}

#[test]
fn dart_enum_into_buffers_class() {
    let node = EnumASTNode {
        id: String::from("Test"),
        items: vec![
            EnumItemASTNode::Empty { position: 0, id: String::from("Idle") },
            EnumItemASTNode::Tuple {
                position: 1,
                id: String::from("Move"),
                values: vec![TupleFieldASTNode { position: 0, type_id: integer("i32", 32, true) }],
            },
        ],
    };
    let expected = "class TestIntoBuffers implements IntoBuffers<Test> {
  const TestIntoBuffers();

  @override
  Test read(BytesReader reader) {
    final value = reader.readInt32();

    switch (value) {
      case 0:
        final model = Test();
        model.value = TestValue.idle;
        const TestIdleEmplaceToBuffers().read(reader, model.idle);
        return model;

      case 1:
        final model = Test();
        model.value = TestValue.move;
        const TestMoveEmplaceToBuffers().read(reader, model.move);
        return model;

      default:
        throw StateError('Unsupported enum value: $value');
    }
  }

  @override
  void write(BytesWriter writer, Test model) {
    switch (model.value) {
      case TestValue.idle:
        writer.writeInt32(0);
        const TestIdleEmplaceToBuffers().write(writer, model.idle);
        return;

      case TestValue.move:
        writer.writeInt32(1);
        const TestMoveEmplaceToBuffers().write(writer, model.move);
        return;
    }
  }

  @override
  void skip(BytesReader reader, int count) {
    for (int i = 0; i < count; i += 1) {
      final value = reader.readInt32();

      switch (value) {
        case 0:
          const TestIdleEmplaceToBuffers().skip(reader, 1);
          break;

        case 1:
          const TestMoveEmplaceToBuffers().skip(reader, 1);
          break;

        default:
          throw StateError('Unsupported enum value: $value');
      }
    }
  }
}
";
    assert_eq!(generate_enum_into_buffers(&node), expected);
}

fn model_struct(id: &str, fields: Vec<(&str, tpbuffers::ast::TypeIDASTNode)>) -> tpbuffers::ast::StructASTNode {
    tpbuffers::ast::StructASTNode {
        id: String::from(id),
        fields: fields
            .into_iter()
            .enumerate()
            .map(|(i, (name, type_id))| tpbuffers::ast::StructFieldASTNode { position: i as u32, name: String::from(name), type_id })
            .collect(),
        emplace_buffers: true,
        into_buffers: true,
    }
}

fn basic_fields() -> Vec<(&'static str, tpbuffers::ast::TypeIDASTNode)> {
    vec![
        ("some_value", tpbuffers::ast::TypeIDASTNode::Integer { id: String::from("i32"), size: 4, signed: true }),
        ("name", tpbuffers::ast::TypeIDASTNode::Other { id: String::from("String") }),
    ]
}

#[test]
fn dart_copy_struct_model() {
    let node = model_struct("Test", basic_fields());
    let ir = tpbuffers::dart::generator::generate_copy_struct(&node);
    let text = tpbuffers::dart::ir::stringify_ir(&ir);
    let expected = "class Test {
  const Test({
    required this.someValue,
    required this.name,
  });

  const Test.createDefault()
      : someValue = 0,
        name = \"\";

  final int someValue;
  final String name;
}

class TestBuffersFactory implements BuffersFactory<Test> {
  const TestBuffersFactory();

  @override
  Test createDefault() => const Test.createDefault();
}
";
    assert_eq!(text, expected);
}

#[test]
fn dart_emplace_struct_model() {
    let node = model_struct("Test", basic_fields());
    let ir = tpbuffers::dart::generator::generate_emplace_struct(&node);
    let text = tpbuffers::dart::ir::stringify_ir(&ir);
    let expected = "class EmplaceTest {
  EmplaceTest({
    required this.someValue,
    required this.name,
  });

  EmplaceTest.createDefault()
      : someValue = 0,
        name = \"\";

  int someValue;
  String name;
}

class EmplaceTestBuffersFactory implements BuffersFactory<EmplaceTest> {
  const EmplaceTestBuffersFactory();

  @override
  EmplaceTest createDefault() => const EmplaceTest.createDefault();
}
";
    assert_eq!(text, expected);
}

#[test]
fn dart_empty_struct_model() {
    let node = model_struct("Empty", vec![]);
    let ir = tpbuffers::dart::generator::generate_empty_struct(&node);
    let text = tpbuffers::dart::ir::stringify_ir(&ir);
    let expected = "class Empty {
  const Empty();
}

class EmptyBuffersFactory implements BuffersFactory<Empty> {
  const EmptyBuffersFactory();

  @override
  Empty createDefault() => const Empty();
}
";
    assert_eq!(text, expected);
}

#[test]
fn dart_models_follow_memory_kinds() {
    let ast = vec![
        tpbuffers::ast::ASTNode::Struct(model_struct("Position2D", basic_fields())),
        tpbuffers::ast::ASTNode::Struct(model_struct("Empty", vec![])),
    ];
    let both = vec![String::from("emplace"), String::from("copy")];
    assert_eq!(tpbuffers::dart::generator::generate_models(&ast, &both).len(), 6);
    let text = tpbuffers::dart::ir::stringify_ir(&tpbuffers::dart::generator::generate_models(&ast, &both));
    let copy_at = text.find("class Position2D {").unwrap();
    let emplace_at = text.find("class EmplacePosition2D {").unwrap();
    let empty_at = text.find("class Empty {").unwrap();
    assert!(copy_at < emplace_at && emplace_at < empty_at);
    let none: Vec<String> = vec![];
    let plain = tpbuffers::dart::ir::stringify_ir(&tpbuffers::dart::generator::generate_models(&ast, &none));
    assert!(plain.contains("class Position2D {"));
    assert!(!plain.contains("Emplace"));
    let emplace_only = vec![String::from("emplace")];
    let pooled = tpbuffers::dart::ir::stringify_ir(&tpbuffers::dart::generator::generate_models(&ast, &emplace_only));
    assert!(pooled.contains("class EmplacePosition2D {"));
    assert!(!pooled.contains("class Position2D {"));
}
