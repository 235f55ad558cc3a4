use tpbuffers::ast::{
    ASTNode, ConstASTNode, ConstItemASTNode, ConstValueASTNode, EnumASTNode, EnumItemASTNode, StructASTNode,
    StructFieldASTNode, TupleFieldASTNode, TypeIDASTNode,
};
use tpbuffers::lexer::{Decimal, Literal};
use tpbuffers::rust_generator::{generate_consts, generate_models};

fn assert_same_text(actual: &str, expected: &str) {
    let a: Vec<&str> = actual.split('\n').collect();
    let e: Vec<&str> = expected.split('\n').collect();
    for (i, (x, y)) in a.iter().zip(e.iter()).enumerate() {
        assert_eq!(x, y, "line {}", i + 1);
    }
    assert_eq!(a.len(), e.len());
}

fn other(id: &str) -> TypeIDASTNode {
    TypeIDASTNode::Other { id: String::from(id) }
}

fn float(id: &str, size: usize) -> TypeIDASTNode {
    TypeIDASTNode::Number { id: String::from(id), size }
}

fn unsigned(id: &str, size: usize) -> TypeIDASTNode {
    TypeIDASTNode::Integer { id: String::from(id), size, signed: false }
}

fn generic(id: &str, generics: Vec<TypeIDASTNode>) -> TypeIDASTNode {
    TypeIDASTNode::Generic { id: String::from(id), generics }
}

fn field(position: u32, name: &str, type_id: TypeIDASTNode) -> StructFieldASTNode {
    StructFieldASTNode { position, name: String::from(name), type_id }
}

fn model(id: &str, fields: Vec<StructFieldASTNode>) -> ASTNode {
    ASTNode::Struct(StructASTNode { id: String::from(id), fields, emplace_buffers: false, into_buffers: true })
}

fn constant(id: &str, type_id: TypeIDASTNode, literal: Literal) -> ConstItemASTNode {
    ConstItemASTNode::Value {
        id: String::from(id),
        type_id: type_id.clone(),
        value: ConstValueASTNode::Literal { literal, type_id },
    }
}

fn block(id: &str, items: Vec<ConstItemASTNode>) -> ConstASTNode {
    ConstASTNode { id: String::from(id), items }
}

#[test]
fn rust_struct_models_match_reference_output() {
    let view_fields = [
        "delta_time",
        "view_width",
        "view_height",
        "touch_start_x",
        "touch_start_y",
        "last_touch_x",
        "last_touch_y",
        "touch_x",
        "touch_y",
    ];
    let ast = vec![
        model("Empty", vec![]),
        model(
            "ViewData",
            view_fields.iter().enumerate().map(|(i, name)| field(i as u32 + 1, name, float("f32", 4))).collect(),
        ),
        model(
            "Test",
            vec![
                field(1, "touch_x", float("f32", 4)),
                field(2, "touch_y", float("f32", 4)),
                field(3, "touch_status", other("TouchStatus")),
            ],
        ),
        model(
            "GenericType",
            vec![
                field(1, "items", generic("Vec", vec![other("Test")])),
                field(2, "table", generic("LinearTable", vec![float("f32", 4), other("Test")])),
            ],
        ),
    ];
    let expected = "#[derive(Debug, Clone, PartialEq)]
pub struct Empty;

impl Default for Empty {
    fn default() -> Self {
        Self
    }
}

#[derive(Debug, Clone, PartialEq)]
pub struct ViewData {
    pub delta_time: f32,
    pub view_width: f32,
    pub view_height: f32,
    pub touch_start_x: f32,
    pub touch_start_y: f32,
    pub last_touch_x: f32,
    pub last_touch_y: f32,
    pub touch_x: f32,
    pub touch_y: f32,
}

impl Default for ViewData {
    fn default() -> Self {
        Self {
            delta_time: 0.0,
            view_width: 0.0,
            view_height: 0.0,
            touch_start_x: 0.0,
            touch_start_y: 0.0,
            last_touch_x: 0.0,
            last_touch_y: 0.0,
            touch_x: 0.0,
            touch_y: 0.0,
        }
    }
}

#[derive(Debug, Clone, PartialEq)]
pub struct Test {
    pub touch_x: f32,
    pub touch_y: f32,
    pub touch_status: TouchStatus,
}

impl Default for Test {
    fn default() -> Self {
        Self {
            touch_x: 0.0,
            touch_y: 0.0,
            touch_status: TouchStatus::default(),
        }
    }
}

#[derive(Debug, Clone, PartialEq)]
pub struct GenericType {
    pub items: Vec<Test>,
    pub table: LinearTable<f32, Test>,
}

impl Default for GenericType {
    fn default() -> Self {
        Self {
            items: Vec::<Test>::default(),
            table: LinearTable::<f32, Test>::default(),
        }
    }
}
";
    assert_same_text(&generate_models(&ast), expected);
}

#[test]
fn rust_enum_models_match_reference_output() {
    let f64_type = float("f64", 8);
    let my_enum = EnumASTNode {
        id: String::from("MyEnum"),
        items: vec![
            EnumItemASTNode::Empty { position: 1, id: String::from("Idle") },
            EnumItemASTNode::Struct {
                position: 2,
                id: String::from("Move"),
                fields: vec![field(1, "x", f64_type.clone()), field(2, "y", f64_type.clone())],
            },
            EnumItemASTNode::Tuple {
                position: 3,
                id: String::from("Update"),
                values: vec![
                    TupleFieldASTNode { position: 1, type_id: f64_type.clone() },
                    TupleFieldASTNode { position: 2, type_id: f64_type.clone() },
                    TupleFieldASTNode { position: 4, type_id: other("String") },
                ],
            },
        ],
    };
    let plain = EnumASTNode {
        id: String::from("MyEnumWithoutPositions"),
        items: (1..=4).map(|i| EnumItemASTNode::Empty { position: i, id: format!("Option{}", i) }).collect(),
    };
    let ast = vec![ASTNode::Enum(my_enum), ASTNode::Enum(plain)];
    let expected = "#[derive(Debug, Clone, PartialEq)]
pub enum MyEnum {
    Idle,
    Move {
        x: f64,
        y: f64,
    },
    Update(
        f64,
        f64,
        String,
    ),
}

impl Default for MyEnum {
    fn default() -> Self {
        Self::Idle
    }
}

#[derive(Debug, Clone, PartialEq)]
pub enum MyEnumWithoutPositions {
    Option1,
    Option2,
    Option3,
    Option4,
}

impl Default for MyEnumWithoutPositions {
    fn default() -> Self {
        Self::Option1
    }
}
";
    assert_same_text(&generate_models(&ast), expected);
}

#[test]
fn rust_consts_match_reference_output() {
    let u64_type = unsigned("u64", 8);
    let commands = [
        ("DRAW_LINES", 131073),
        ("DRAW_PATH", 131074),
        ("DRAW_QUADS", 131075),
        ("DRAW_CENTERED_QUADS", 131076),
        ("DRAW_TEXTS", 131077),
        ("SET_COLOR_PIPELINE", 131078),
        ("SET_TEXTURE_PIPELINE", 131079),
        ("DRAW_CIRCLES", 131080),
        ("DRAW_HOLLOW_CIRCLES", 131081),
    ];
    let groups = ["MAIN", "MAIN_RENDER", "RPC", "RPC_SYNC", "RPC_READ"];
    let ast = vec![
        ASTNode::Const(block(
            "commands",
            commands.iter().map(|(id, v)| constant(id, u64_type.clone(), Literal::IntLiteral(*v))).collect(),
        )),
        ASTNode::Const(block(
            "addr",
            vec![
                constant("SOME_VALUE", other("String"), Literal::StringLiteral(String::from("Hello World!"))),
                ConstItemASTNode::ConstNode {
                    node: block(
                        "groups",
                        groups
                            .iter()
                            .enumerate()
                            .map(|(i, id)| constant(id, other("GroupAddress"), Literal::IntLiteral(i as i64)))
                            .collect(),
                    ),
                },
                constant(
                    "DELTA_TIME",
                    float("f64", 8),
                    Literal::NumberLiteral(Decimal {
                        negative: false,
                        integer: String::from("16"),
                        fraction: String::from("6"),
                    }),
                ),
                constant("FLAG", TypeIDASTNode::Bool { id: String::from("bool") }, Literal::BoolLiteral(true)),
                ConstItemASTNode::ConstNode {
                    node: block(
                        "commands_buffers",
                        vec![constant("WIN1_MAIN_RENDER", other("CommandsBufferAddress"), Literal::IntLiteral(0))],
                    ),
                },
            ],
        )),
    ];
    let expected = "pub mod commands {
    pub const DRAW_LINES: u64 = 131073;
    pub const DRAW_PATH: u64 = 131074;
    pub const DRAW_QUADS: u64 = 131075;
    pub const DRAW_CENTERED_QUADS: u64 = 131076;
    pub const DRAW_TEXTS: u64 = 131077;
    pub const SET_COLOR_PIPELINE: u64 = 131078;
    pub const SET_TEXTURE_PIPELINE: u64 = 131079;
    pub const DRAW_CIRCLES: u64 = 131080;
    pub const DRAW_HOLLOW_CIRCLES: u64 = 131081;
}

pub mod addr {
    pub const SOME_VALUE: &'static str = \"Hello World!\";

    pub mod groups {
        pub const MAIN: tech_paws_runtime::GroupAddress = tech_paws_runtime::GroupAddress(0);
        pub const MAIN_RENDER: tech_paws_runtime::GroupAddress = tech_paws_runtime::GroupAddress(1);
        pub const RPC: tech_paws_runtime::GroupAddress = tech_paws_runtime::GroupAddress(2);
        pub const RPC_SYNC: tech_paws_runtime::GroupAddress = tech_paws_runtime::GroupAddress(3);
        pub const RPC_READ: tech_paws_runtime::GroupAddress = tech_paws_runtime::GroupAddress(4);
    }

    pub const DELTA_TIME: f64 = 16.6;
    pub const FLAG: bool = true;

    pub mod commands_buffers {
        pub const WIN1_MAIN_RENDER: tech_paws_runtime::CommandsBufferAddress = tech_paws_runtime::CommandsBufferAddress(0);
    }
}
";
    assert_same_text(&generate_consts(&ast), expected);
}
