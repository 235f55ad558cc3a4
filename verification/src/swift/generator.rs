use vstd::prelude::*;
use crate::ast::{ASTNode, FnASTNode, FnArgASTNode, ConstValueASTNode, fn_nodes, find_fn_nodes, directive_value, find_directive_value, ConstASTNode, ConstItemASTNode, TypeId, TypeIDASTNode, StructASTNode, StructFieldASTNode, EnumASTNode, EnumItemASTNode, TupleFieldASTNode};
use crate::swift::ir::{SwiftIR, SwiftNode, sw_view, sw_views, sw_view_opt, lemma_sw_views, lemma_sw_views_eq, lemma_sw_views_push, generate_type_id, swift_type_supported, swift_type_text, generate_default_const_value, swift_default_supported, swift_default_text, sw_write};
use crate::writer::WriterState;
use crate::lexer::Literal;
use crate::text::{cat, cat3, copy_str, nat_text, nat_to_text, to_case, case_converted, TextCase};

verus! {

/// The Swift form of a block of constants: a struct named after the block
/// in Pascal case, extending nothing, holding one member for each of the
/// block's items, in order.
pub open spec fn const_block_node(node: ConstASTNode) -> SwiftNode
    decreases node, 2nat,
{
    SwiftNode::Struct {
        id: case_converted(node.id@, TextCase::Pascal),
        extends: Seq::empty(),
        body: const_items_nodes(node.items@),
    }
}

/// The Swift forms of the items, in order.
pub open spec fn const_items_nodes(items: Seq<ConstItemASTNode>) -> Seq<SwiftNode>
    decreases items, 0nat,
{
    if items.len() == 0 {
        Seq::empty()
    } else {
        const_items_nodes(items.drop_last()).push(const_item_node(items.last()))
    }
}

/// The Swift form of an item of a block of constants: a `static let` field
/// with the constant's name, type and value, or the form of the nested
/// block.
pub open spec fn const_item_node(item: ConstItemASTNode) -> SwiftNode
    decreases item, 1nat,
{
    match item {
        ConstItemASTNode::Value { id, type_id, value } => SwiftNode::StructConstField {
            id: id@,
            type_id: type_id@,
            value: value@,
        },
        ConstItemASTNode::ConstNode { node } => const_block_node(node),
    }
}

/// The Swift forms of the blocks of constants among the nodes, in order.
pub open spec fn consts_nodes(ast: Seq<ASTNode>) -> Seq<SwiftNode>
    decreases ast.len(),
{
    if ast.len() == 0 {
        Seq::empty()
    } else {
        let rest = consts_nodes(ast.drop_last());
        match ast.last() {
            ASTNode::Const(node) => rest.push(const_block_node(node)),
            _ => rest,
        }
    }
}

/// The Swift form of each block of constants among the nodes, in order.
pub fn generate_consts(ast: &[ASTNode]) -> (res: Vec<SwiftIR>)
    ensures
        sw_views(res@) == consts_nodes(ast@),
{
    let mut tokens: Vec<SwiftIR> = Vec::new();
    let mut i: usize = 0;
    while i < ast.len()
        invariant
            i <= ast@.len(),
            sw_views(tokens@) == consts_nodes(ast@.take(i as int)),
        decreases ast@.len() - i,
    {
        assert(ast@.take(i + 1).drop_last() =~= ast@.take(i as int));
        if let ASTNode::Const(node) = &ast[i] {
            let ir = generate_const_block(node);
            proof { lemma_sw_views_push(tokens@, ir); }
            tokens.push(ir);
        }
        i = i + 1;
    }
    assert(ast@.take(ast@.len() as int) =~= ast@);
    tokens
}

fn generate_const_block(const_node: &ConstASTNode) -> (res: SwiftIR)
    ensures
        res@ == const_block_node(*const_node),
    decreases const_node,
{
    let mut body: Vec<SwiftIR> = Vec::new();
    let mut i: usize = 0;
    while i < const_node.items.len()
        invariant
            i <= const_node.items@.len(),
            sw_views(body@) == const_items_nodes(const_node.items@.take(i as int)),
        decreases const_node.items@.len() - i,
    {
        proof { assert(decreases_to!(const_node.items@ => const_node.items@[i as int])); }
        let item = const_item(&const_node.items[i]);
        proof {
            lemma_sw_views_push(body@, item);
            assert(const_node.items@.take(i + 1).drop_last() =~= const_node.items@.take(i as int));
        }
        body.push(item);
        i = i + 1;
    }
    assert(const_node.items@.take(const_node.items@.len() as int) =~= const_node.items@);
    let extends: Vec<SwiftIR> = Vec::new();
    assert(sw_views(extends@) =~= Seq::empty());
    SwiftIR::Struct { id: to_case(const_node.id.as_str(), TextCase::Pascal), extends, body }
}

fn const_item(item: &ConstItemASTNode) -> (res: SwiftIR)
    ensures
        res@ == const_item_node(*item),
    decreases item,
{
    match item {
        ConstItemASTNode::Value { id, type_id, value } => SwiftIR::StructConstField {
            id: id.clone(),
            type_id: type_id.clone(),
            value: value.clone(),
        },
        ConstItemASTNode::ConstNode { node } => generate_const_block(node),
    }
}

/// An identifier or any text written as it stands.
pub open spec fn id_node(t: Seq<char>) -> SwiftNode {
    SwiftNode::Id(t)
}

/// A name in camel case.
pub open spec fn camel(t: Seq<char>) -> Seq<char> {
    case_converted(t, TextCase::Camel)
}

/// The type of enum discriminants on the wire.
pub open spec fn u32_type() -> TypeId {
    TypeId::Integer { id: "u32"@, size: 4, signed: false }
}

/// Whether a value of the type can be read and written: other types need
/// no Swift name of their own, the rest do.
pub open spec fn read_supported(t: TypeId) -> bool {
    t is Other || swift_type_supported(t)
}

/// The call that reads a value of the type from `bytesReader`.
pub open spec fn read_node(t: TypeId) -> SwiftNode {
    match t {
        TypeId::Generic { .. } => SwiftNode::Call {
            id: swift_type_text(t) + ".readFromBuffers"@,
            arguments: Some(Box::new(id_node("bytesReader"@))),
        },
        TypeId::Other { id } => SwiftNode::Call {
            id: id + ".readFromBuffers"@,
            arguments: Some(Box::new(id_node("bytesReader"@))),
        },
        _ => SwiftNode::Call { id: "bytesReader.read"@ + swift_type_text(t), arguments: None },
    }
}

/// The call that writes `accessor`, a value of the type, to `bytesWriter`.
pub open spec fn write_node(t: TypeId, accessor: Seq<char>) -> SwiftNode {
    match t {
        TypeId::Generic { .. } => SwiftNode::Call {
            id: accessor + ".writeToBuffers"@,
            arguments: Some(Box::new(id_node("bytesWriter"@))),
        },
        TypeId::Other { .. } => SwiftNode::Call {
            id: accessor + ".writeToBuffers"@,
            arguments: Some(Box::new(id_node("bytesWriter"@))),
        },
        _ => SwiftNode::Call {
            id: "bytesWriter.write"@ + swift_type_text(t),
            arguments: Some(Box::new(id_node(accessor))),
        },
    }
}

/// An unnamed function argument of the given type.
pub open spec fn argument_node(id: Seq<char>, kind: Seq<char>) -> SwiftNode {
    SwiftNode::FunctionArgument { id, named: false, type_id: Box::new(id_node(kind)) }
}

/// Items separated by commas, one per line.
pub open spec fn lines_node(items: Seq<SwiftNode>) -> SwiftNode {
    SwiftNode::List { items, separator: ","@, new_line: true }
}

/// A block of statements.
pub open spec fn statements_node(items: Seq<SwiftNode>) -> Option<Box<SwiftNode>> {
    Some(Box::new(SwiftNode::Statements { items }))
}

pub open spec fn struct_field_node(f: StructFieldASTNode) -> SwiftNode {
    SwiftNode::StructField { id: f.name@, type_id: f.type_id@ }
}

pub open spec fn default_argument_node(f: StructFieldASTNode) -> SwiftNode {
    SwiftNode::AssignStructNamedArgument { id: f.name@, default_value_type_id: Some(f.type_id@), value: None }
}

pub open spec fn read_field_node(f: StructFieldASTNode) -> SwiftNode {
    SwiftNode::VarDeclaration {
        id: camel(f.name@),
        is_const: true,
        type_id: None,
        value: Some(Box::new(read_node(f.type_id@))),
    }
}

pub open spec fn named_argument_node(f: StructFieldASTNode) -> SwiftNode {
    SwiftNode::AssignStructNamedArgument {
        id: f.name@,
        default_value_type_id: Some(f.type_id@),
        value: Some(Box::new(id_node(camel(f.name@)))),
    }
}

pub open spec fn skip_field_node(f: StructFieldASTNode) -> SwiftNode {
    SwiftNode::VarDeclaration { id: "_"@, is_const: true, type_id: None, value: Some(Box::new(read_node(f.type_id@))) }
}

pub open spec fn write_field_node(f: StructFieldASTNode) -> SwiftNode {
    write_node(f.type_id@, camel(f.name@))
}

/// Whether every field of the struct can be read and written.
pub open spec fn struct_supported(node: StructASTNode) -> bool {
    forall|k: int| 0 <= k < node.fields@.len() ==> #[trigger] read_supported(node.fields@[k].type_id@)
}

/// `static func createBuffersDefault() -> Self`, building the struct from
/// the defaults of its fields.
pub open spec fn struct_create_default_node(node: StructASTNode) -> SwiftNode {
    SwiftNode::Func {
        id: "createBuffersDefault"@,
        is_static: true,
        return_type_id: Some(Box::new(id_node("Self"@))),
        arguments: None,
        body: statements_node(seq![SwiftNode::ReturnStatement {
            body: Box::new(SwiftNode::Call {
                id: node.id@,
                arguments: Some(Box::new(lines_node(node.fields@.map_values(|f: StructFieldASTNode| default_argument_node(f))))),
            }),
        }]),
    }
}

/// `static func readFromBuffers(_ bytesReader:) -> Self`: reads each field
/// in order, then builds the struct from them.
pub open spec fn struct_read_node(node: StructASTNode) -> SwiftNode {
    let reads = node.fields@.map_values(|f: StructFieldASTNode| read_field_node(f));
    let statements = (if node.fields@.len() > 0 {
        seq![SwiftNode::Statements { items: reads }, SwiftNode::Gap]
    } else {
        Seq::empty()
    }).push(SwiftNode::ReturnStatement {
        body: Box::new(SwiftNode::Call {
            id: node.id@,
            arguments: Some(Box::new(lines_node(node.fields@.map_values(|f: StructFieldASTNode| named_argument_node(f))))),
        }),
    });
    SwiftNode::Func {
        id: "readFromBuffers"@,
        is_static: true,
        return_type_id: Some(Box::new(id_node("Self"@))),
        arguments: Some(Box::new(lines_node(seq![argument_node("bytesReader"@, "TechPawsBuffersBytesReader"@)]))),
        body: statements_node(statements),
    }
}

/// `static func skipInBuffers(_ bytesReader:, _ count:)`: reads the fields
/// `count` times over.
pub open spec fn struct_skip_node(node: StructASTNode) -> SwiftNode {
    let statements = if node.fields@.len() > 0 {
        seq![SwiftNode::ForLoop {
            item: None,
            collection_expr: Box::new(SwiftNode::Range {
                from: Box::new(id_node("1"@)),
                to: Box::new(id_node("count"@)),
            }),
            body: Box::new(SwiftNode::Statements {
                items: node.fields@.map_values(|f: StructFieldASTNode| skip_field_node(f)),
            }),
        }]
    } else {
        Seq::empty()
    };
    SwiftNode::Func {
        id: "skipInBuffers"@,
        is_static: true,
        return_type_id: None,
        arguments: Some(Box::new(lines_node(seq![
            argument_node("bytesReader"@, "TechPawsBuffersBytesReader"@),
            argument_node("count"@, "UInt64"@),
        ]))),
        body: statements_node(statements),
    }
}

/// `func writeToBuffers(_ bytesWriter:)`: writes each field in order.
pub open spec fn struct_write_node(node: StructASTNode) -> SwiftNode {
    SwiftNode::Func {
        id: "writeToBuffers"@,
        is_static: false,
        return_type_id: None,
        arguments: Some(Box::new(lines_node(seq![argument_node("bytesWriter"@, "TechPawsBuffersBytesWriter"@)]))),
        body: statements_node(node.fields@.map_values(|f: StructFieldASTNode| write_field_node(f))),
    }
}

/// The Swift model of a struct: its fields, then the default constructor
/// and the methods that read, skip and write it.
pub open spec fn struct_model_node(node: StructASTNode) -> SwiftNode {
    SwiftNode::Struct {
        id: node.id@,
        extends: seq![id_node("TechPawsBuffersModel"@)],
        body: node.fields@.map_values(|f: StructFieldASTNode| struct_field_node(f)) + seq![
            struct_create_default_node(node),
            struct_read_node(node),
            struct_skip_node(node),
            struct_write_node(node),
        ],
    }
}
/// The fields of a struct.
fn struct_fields_ir(items: &Vec<StructFieldASTNode>) -> (res: Vec<SwiftIR>)
    ensures
        sw_views(res@) == items@.map_values(|x: StructFieldASTNode| struct_field_node(x)),
{
    let mut res: Vec<SwiftIR> = Vec::new();
    let mut i: usize = 0;
    while i < items.len()
        invariant
            i <= items@.len(),
            
            sw_views(res@) == items@.take(i as int).map_values(|x: StructFieldASTNode| struct_field_node(x)),
        decreases items@.len() - i,
    {
        let item = &items[i];
        let node = SwiftIR::StructField { id: item.name.clone(), type_id: item.type_id.clone() };
        proof {
            lemma_sw_views_push(res@, node);
            assert(items@.take(i + 1).map_values(|x: StructFieldASTNode| struct_field_node(x))
                =~= items@.take(i as int).map_values(|x: StructFieldASTNode| struct_field_node(x)).push(struct_field_node(items@[i as int])));
        }
        res.push(node);
        i = i + 1;
    }
    assert(items@.take(items@.len() as int) =~= items@);
    res
}

/// The arguments that build a struct from defaults.
fn default_arguments_ir(items: &Vec<StructFieldASTNode>) -> (res: Vec<SwiftIR>)
    ensures
        sw_views(res@) == items@.map_values(|x: StructFieldASTNode| default_argument_node(x)),
{
    let mut res: Vec<SwiftIR> = Vec::new();
    let mut i: usize = 0;
    while i < items.len()
        invariant
            i <= items@.len(),
            
            sw_views(res@) == items@.take(i as int).map_values(|x: StructFieldASTNode| default_argument_node(x)),
        decreases items@.len() - i,
    {
        let item = &items[i];
        let node = SwiftIR::AssignStructNamedArgument {
            id: item.name.clone(),
            default_value_type_id: Some(item.type_id.clone()),
            value: None,
        };
        proof {
            lemma_sw_views_push(res@, node);
            assert(items@.take(i + 1).map_values(|x: StructFieldASTNode| default_argument_node(x))
                =~= items@.take(i as int).map_values(|x: StructFieldASTNode| default_argument_node(x)).push(default_argument_node(items@[i as int])));
        }
        res.push(node);
        i = i + 1;
    }
    assert(items@.take(items@.len() as int) =~= items@);
    res
}

/// The reads of the fields, each into a constant.
fn read_fields_ir(items: &Vec<StructFieldASTNode>) -> (res: Vec<SwiftIR>)
    requires
        forall|k: int| 0 <= k < items@.len() ==> #[trigger] read_supported(items@[k].type_id@),
    ensures
        sw_views(res@) == items@.map_values(|x: StructFieldASTNode| read_field_node(x)),
{
    let mut res: Vec<SwiftIR> = Vec::new();
    let mut i: usize = 0;
    while i < items.len()
        invariant
            i <= items@.len(),
            forall|k: int| 0 <= k < items@.len() ==> #[trigger] read_supported(items@[k].type_id@),
            sw_views(res@) == items@.take(i as int).map_values(|x: StructFieldASTNode| read_field_node(x)),
        decreases items@.len() - i,
    {
        let item = &items[i];
        let value = generate_read(&item.type_id);
        let node = SwiftIR::VarDeclaration {
            id: to_case(item.name.as_str(), TextCase::Camel),
            is_const: true,
            type_id: None,
            value: Some(Box::new(value)),
        };
        proof {
            lemma_sw_views_push(res@, node);
            assert(items@.take(i + 1).map_values(|x: StructFieldASTNode| read_field_node(x))
                =~= items@.take(i as int).map_values(|x: StructFieldASTNode| read_field_node(x)).push(read_field_node(items@[i as int])));
        }
        res.push(node);
        i = i + 1;
    }
    assert(items@.take(items@.len() as int) =~= items@);
    res
}

/// The arguments that build a struct from the constants read.
fn named_arguments_ir(items: &Vec<StructFieldASTNode>) -> (res: Vec<SwiftIR>)
    ensures
        sw_views(res@) == items@.map_values(|x: StructFieldASTNode| named_argument_node(x)),
{
    let mut res: Vec<SwiftIR> = Vec::new();
    let mut i: usize = 0;
    while i < items.len()
        invariant
            i <= items@.len(),
            
            sw_views(res@) == items@.take(i as int).map_values(|x: StructFieldASTNode| named_argument_node(x)),
        decreases items@.len() - i,
    {
        let item = &items[i];
        let value = id_ir(to_case(item.name.as_str(), TextCase::Camel).as_str());
        let node = SwiftIR::AssignStructNamedArgument {
            id: item.name.clone(),
            default_value_type_id: Some(item.type_id.clone()),
            value: Some(Box::new(value)),
        };
        proof {
            lemma_sw_views_push(res@, node);
            assert(items@.take(i + 1).map_values(|x: StructFieldASTNode| named_argument_node(x))
                =~= items@.take(i as int).map_values(|x: StructFieldASTNode| named_argument_node(x)).push(named_argument_node(items@[i as int])));
        }
        res.push(node);
        i = i + 1;
    }
    assert(items@.take(items@.len() as int) =~= items@);
    res
}

/// The reads that skip the fields.
fn skip_fields_ir(items: &Vec<StructFieldASTNode>) -> (res: Vec<SwiftIR>)
    requires
        forall|k: int| 0 <= k < items@.len() ==> #[trigger] read_supported(items@[k].type_id@),
    ensures
        sw_views(res@) == items@.map_values(|x: StructFieldASTNode| skip_field_node(x)),
{
    let mut res: Vec<SwiftIR> = Vec::new();
    let mut i: usize = 0;
    while i < items.len()
        invariant
            i <= items@.len(),
            forall|k: int| 0 <= k < items@.len() ==> #[trigger] read_supported(items@[k].type_id@),
            sw_views(res@) == items@.take(i as int).map_values(|x: StructFieldASTNode| skip_field_node(x)),
        decreases items@.len() - i,
    {
        let item = &items[i];
        let value = generate_read(&item.type_id);
        let node = SwiftIR::VarDeclaration {
            id: String::from_str("_"),
            is_const: true,
            type_id: None,
            value: Some(Box::new(value)),
        };
        proof {
            lemma_sw_views_push(res@, node);
            assert(items@.take(i + 1).map_values(|x: StructFieldASTNode| skip_field_node(x))
                =~= items@.take(i as int).map_values(|x: StructFieldASTNode| skip_field_node(x)).push(skip_field_node(items@[i as int])));
        }
        res.push(node);
        i = i + 1;
    }
    assert(items@.take(items@.len() as int) =~= items@);
    res
}

/// The writes of the fields.
fn write_fields_ir(items: &Vec<StructFieldASTNode>) -> (res: Vec<SwiftIR>)
    requires
        forall|k: int| 0 <= k < items@.len() ==> #[trigger] read_supported(items@[k].type_id@),
    ensures
        sw_views(res@) == items@.map_values(|x: StructFieldASTNode| write_field_node(x)),
{
    let mut res: Vec<SwiftIR> = Vec::new();
    let mut i: usize = 0;
    while i < items.len()
        invariant
            i <= items@.len(),
            forall|k: int| 0 <= k < items@.len() ==> #[trigger] read_supported(items@[k].type_id@),
            sw_views(res@) == items@.take(i as int).map_values(|x: StructFieldASTNode| write_field_node(x)),
        decreases items@.len() - i,
    {
        let item = &items[i];
        let node = generate_write(&item.type_id, to_case(item.name.as_str(), TextCase::Camel).as_str());
        proof {
            lemma_sw_views_push(res@, node);
            assert(items@.take(i + 1).map_values(|x: StructFieldASTNode| write_field_node(x))
                =~= items@.take(i as int).map_values(|x: StructFieldASTNode| write_field_node(x)).push(write_field_node(items@[i as int])));
        }
        res.push(node);
        i = i + 1;
    }
    assert(items@.take(items@.len() as int) =~= items@);
    res
}


/// The call that reads a value of the type.
fn generate_read(type_id: &TypeIDASTNode) -> (res: SwiftIR)
    requires
        read_supported(type_id@),
    ensures
        res@ == read_node(type_id@),
{
    proof { reveal_with_fuel(sw_view, 4); }
    match type_id {
        TypeIDASTNode::Generic { .. } => {
            let arguments = SwiftIR::Id(String::from_str("bytesReader"));
            SwiftIR::Call {
                id: cat(generate_type_id(type_id).as_str(), ".readFromBuffers"),
                arguments: Some(Box::new(arguments)),
            }
        },
        TypeIDASTNode::Other { id } => {
            let arguments = SwiftIR::Id(String::from_str("bytesReader"));
            SwiftIR::Call { id: cat(id.as_str(), ".readFromBuffers"), arguments: Some(Box::new(arguments)) }
        },
        _ => SwiftIR::Call { id: cat("bytesReader.read", generate_type_id(type_id).as_str()), arguments: None },
    }
}

/// The call that writes `accessor`, a value of the type.
fn generate_write(type_id: &TypeIDASTNode, accessor: &str) -> (res: SwiftIR)
    requires
        read_supported(type_id@),
    ensures
        res@ == write_node(type_id@, accessor@),
{
    proof { reveal_with_fuel(sw_view, 4); }
    match type_id {
        TypeIDASTNode::Generic { .. } => {
            let arguments = SwiftIR::Id(String::from_str("bytesWriter"));
            SwiftIR::Call { id: cat(accessor, ".writeToBuffers"), arguments: Some(Box::new(arguments)) }
        },
        TypeIDASTNode::Other { .. } => {
            let arguments = SwiftIR::Id(String::from_str("bytesWriter"));
            SwiftIR::Call { id: cat(accessor, ".writeToBuffers"), arguments: Some(Box::new(arguments)) }
        },
        _ => {
            let arguments = SwiftIR::Id(copy_str(accessor));
            SwiftIR::Call {
                id: cat("bytesWriter.write", generate_type_id(type_id).as_str()),
                arguments: Some(Box::new(arguments)),
            }
        },
    }
}

/// An identifier or any text written as it stands.
fn id_ir(t: &str) -> (res: SwiftIR)
    ensures
        res@ == id_node(t@),
{
    SwiftIR::Id(copy_str(t))
}

/// An unnamed function argument of the given type.
fn argument_ir(id: &str, kind: &str) -> (res: SwiftIR)
    ensures
        res@ == argument_node(id@, kind@),
{
    proof { reveal_with_fuel(sw_view, 4); }
    let type_id = SwiftIR::Id(copy_str(kind));
    SwiftIR::FunctionArgument { id: copy_str(id), named: false, type_id: Box::new(type_id) }
}

/// Items separated by commas, one per line.
fn lines_ir(items: Vec<SwiftIR>) -> (res: SwiftIR)
    ensures
        res@ == lines_node(sw_views(items@)),
{
    proof { reveal_with_fuel(sw_view, 4); }
    SwiftIR::List { items, separator: ",", new_line: true }
}

/// A block of statements.
fn statements_ir(items: Vec<SwiftIR>) -> (res: Option<Box<SwiftIR>>)
    ensures
        sw_view_opt(res) == statements_node(sw_views(items@)),
{
    proof { reveal_with_fuel(sw_view, 4); }
    Some(Box::new(SwiftIR::Statements { items }))
}

fn one(a: SwiftIR) -> (res: Vec<SwiftIR>)
    ensures
        sw_views(res@) == seq![a@],
{
    proof { reveal_with_fuel(sw_view, 4); }
    let res = vec![a];
    proof { lemma_sw_views_eq(res@, seq![a@]); }
    res
}

fn two(a: SwiftIR, b: SwiftIR) -> (res: Vec<SwiftIR>)
    ensures
        sw_views(res@) == seq![a@, b@],
{
    proof { reveal_with_fuel(sw_view, 4); }
    let res = vec![a, b];
    proof { lemma_sw_views_eq(res@, seq![a@, b@]); }
    res
}

fn create_struct_default_ir(node: &StructASTNode) -> (res: SwiftIR)
    ensures
        res@ == struct_create_default_node(*node),
{
    proof { reveal_with_fuel(sw_view, 4); }
    let arguments = lines_ir(default_arguments_ir(&node.fields));
    let call = SwiftIR::Call { id: node.id.clone(), arguments: Some(Box::new(arguments)) };
    let ret = SwiftIR::ReturnStatement { body: Box::new(call) };
    let self_id = SwiftIR::Id(String::from_str("Self"));
    SwiftIR::Func {
        id: String::from_str("createBuffersDefault"),
        is_static: true,
        return_type_id: Some(Box::new(self_id)),
        body: statements_ir(one(ret)),
        arguments: None,
    }
}

fn struct_read_statements(node: &StructASTNode) -> (res: Vec<SwiftIR>)
    requires
        struct_supported(*node),
    ensures
        sw_views(res@) == struct_read_node(*node)->Func_body.unwrap()->Statements_items,
{
    proof { reveal_with_fuel(sw_view, 3); }
    let mut method_statements: Vec<SwiftIR> = Vec::new();
    let read_body = read_fields_ir(&node.fields);
    if node.fields.len() > 0 {
        method_statements = two(SwiftIR::Statements { items: read_body }, SwiftIR::Gap);
    }
    let arguments = lines_ir(named_arguments_ir(&node.fields));
    let call = SwiftIR::Call { id: node.id.clone(), arguments: Some(Box::new(arguments)) };
    let ret = SwiftIR::ReturnStatement { body: Box::new(call) };
    proof { lemma_sw_views_push(method_statements@, ret); }
    method_statements.push(ret);
    method_statements
}

fn generate_struct_read_from_buffers_method(node: &StructASTNode) -> (res: SwiftIR)
    requires
        struct_supported(*node),
    ensures
        res@ == struct_read_node(*node),
{
    proof { reveal_with_fuel(sw_view, 3); }
    let method_statements = struct_read_statements(node);
    let self_id = id_ir("Self");
    let arguments = lines_ir(one(argument_ir("bytesReader", "TechPawsBuffersBytesReader")));
    SwiftIR::Func {
        id: String::from_str("readFromBuffers"),
        is_static: true,
        return_type_id: Some(Box::new(self_id)),
        arguments: Some(Box::new(arguments)),
        body: statements_ir(method_statements),
    }
}

fn generate_struct_skip_in_buffers_method(node: &StructASTNode) -> (res: SwiftIR)
    requires
        struct_supported(*node),
    ensures
        res@ == struct_skip_node(*node),
{
    proof { reveal_with_fuel(sw_view, 4); }
    let mut method_statements: Vec<SwiftIR> = Vec::new();
    let read_body = skip_fields_ir(&node.fields);
    if node.fields.len() > 0 {
        let from = SwiftIR::Id(String::from_str("1"));
        let to = SwiftIR::Id(String::from_str("count"));
        let range = SwiftIR::Range { from: Box::new(from), to: Box::new(to) };
        let body = SwiftIR::Statements { items: read_body };
        method_statements = one(SwiftIR::ForLoop { item: None, collection_expr: Box::new(range), body: Box::new(body) });
    }
    let arguments = lines_ir(two(argument_ir("bytesReader", "TechPawsBuffersBytesReader"), argument_ir("count", "UInt64")));
    SwiftIR::Func {
        id: String::from_str("skipInBuffers"),
        is_static: true,
        return_type_id: None,
        arguments: Some(Box::new(arguments)),
        body: statements_ir(method_statements),
    }
}

fn generate_struct_write_to_buffers_method(node: &StructASTNode) -> (res: SwiftIR)
    requires
        struct_supported(*node),
    ensures
        res@ == struct_write_node(*node),
{
    proof { reveal_with_fuel(sw_view, 4); }
    let method_statements = write_fields_ir(&node.fields);
    let arguments = lines_ir(one(argument_ir("bytesWriter", "TechPawsBuffersBytesWriter")));
    SwiftIR::Func {
        id: String::from_str("writeToBuffers"),
        is_static: false,
        return_type_id: None,
        arguments: Some(Box::new(arguments)),
        body: statements_ir(method_statements),
    }
}

/// The Swift model of a struct.
pub fn generate_struct_model(node: &StructASTNode) -> (res: SwiftIR)
    requires
        struct_supported(*node),
    ensures
        res@ == struct_model_node(*node),
{
    proof { reveal_with_fuel(sw_view, 4); }
    let mut body = struct_fields_ir(&node.fields);
    let ghost fields = sw_views(body@);
    let create = create_struct_default_ir(node);
    let read = generate_struct_read_from_buffers_method(node);
    let skip = generate_struct_skip_in_buffers_method(node);
    let write = generate_struct_write_to_buffers_method(node);
    proof {
        lemma_sw_views_push(body@, create);
        lemma_sw_views_push(body@.push(create), read);
        lemma_sw_views_push(body@.push(create).push(read), skip);
        lemma_sw_views_push(body@.push(create).push(read).push(skip), write);
    }
    body.push(create);
    body.push(read);
    body.push(skip);
    body.push(write);
    assert(sw_views(body@) =~= fields + seq![create@, read@, skip@, write@]);
    let model = SwiftIR::Id(String::from_str("TechPawsBuffersModel"));
    SwiftIR::Struct { id: node.id.clone(), extends: one(model), body }
}


/// The name that a tuple value at a position is bound to: `p0`, `p1`, ..
pub open spec fn p_name(v: TupleFieldASTNode) -> Seq<char> {
    "p"@ + nat_text(v.position as nat)
}

/// A case of the enum as it is written in an expression: `.caseName`.
pub open spec fn dot_case(c: EnumItemASTNode) -> Seq<char> {
    "."@ + camel(c.spec_id())
}

/// The discriminant of a case, as written.
pub open spec fn position_text(c: EnumItemASTNode) -> Seq<char> {
    nat_text(c.spec_position() as nat)
}

pub open spec fn tuple_param_node(v: TupleFieldASTNode) -> SwiftNode {
    SwiftNode::EnumCaseType { id: None, type_id: v.type_id@ }
}

pub open spec fn field_param_node(f: StructFieldASTNode) -> SwiftNode {
    SwiftNode::EnumCaseType { id: Some(f.name@), type_id: f.type_id@ }
}

pub open spec fn tuple_default_arg_node(v: TupleFieldASTNode) -> SwiftNode {
    SwiftNode::AssignArgument { id: None, value: None, default_value_type_id: v.type_id@ }
}

pub open spec fn field_default_arg_node(f: StructFieldASTNode) -> SwiftNode {
    SwiftNode::AssignArgument { id: Some(camel(f.name@)), value: None, default_value_type_id: f.type_id@ }
}

pub open spec fn tuple_read_node(v: TupleFieldASTNode) -> SwiftNode {
    SwiftNode::VarDeclaration { id: p_name(v), is_const: true, type_id: None, value: Some(Box::new(read_node(v.type_id@))) }
}

pub open spec fn tuple_read_arg_node(v: TupleFieldASTNode) -> SwiftNode {
    SwiftNode::AssignArgument { id: None, value: Some(Box::new(id_node(p_name(v)))), default_value_type_id: v.type_id@ }
}

pub open spec fn field_read_arg_node(f: StructFieldASTNode) -> SwiftNode {
    SwiftNode::AssignArgument {
        id: None,
        value: Some(Box::new(id_node(camel(f.name@)))),
        default_value_type_id: f.type_id@,
    }
}

pub open spec fn tuple_skip_node(v: TupleFieldASTNode) -> SwiftNode {
    SwiftNode::VarDeclaration { id: "_"@, is_const: true, type_id: None, value: Some(Box::new(read_node(v.type_id@))) }
}

pub open spec fn tuple_pattern_node(v: TupleFieldASTNode) -> SwiftNode {
    SwiftNode::VarDeclaration { id: p_name(v), is_const: true, type_id: None, value: None }
}

pub open spec fn field_pattern_node(f: StructFieldASTNode) -> SwiftNode {
    SwiftNode::VarDeclaration { id: camel(f.name@), is_const: true, type_id: None, value: None }
}

pub open spec fn tuple_write_node(v: TupleFieldASTNode) -> SwiftNode {
    write_node(v.type_id@, p_name(v))
}

/// Whether every value of the case can be read and written.
pub open spec fn item_supported(c: EnumItemASTNode) -> bool {
    match c {
        EnumItemASTNode::Empty { .. } => true,
        EnumItemASTNode::Tuple { values, .. } => {
            forall|k: int| 0 <= k < values@.len() ==> #[trigger] read_supported(values@[k].type_id@)
        },
        EnumItemASTNode::Struct { fields, .. } => {
            forall|k: int| 0 <= k < fields@.len() ==> #[trigger] read_supported(fields@[k].type_id@)
        },
    }
}

/// Whether the enum has a case, and every value of its cases can be read
/// and written.
pub open spec fn enum_supported(node: EnumASTNode) -> bool {
    &&& node.items@.len() > 0
    &&& forall|k: int| 0 <= k < node.items@.len() ==> #[trigger] item_supported(node.items@[k])
}

/// A case of the Swift enum, with the types of its values.
pub open spec fn enum_case_node(c: EnumItemASTNode) -> SwiftNode {
    SwiftNode::EnumCase {
        id: c.spec_id(),
        parameters: match c {
            EnumItemASTNode::Empty { .. } => Seq::empty(),
            EnumItemASTNode::Tuple { values, .. } => values@.map_values(|v: TupleFieldASTNode| tuple_param_node(v)),
            EnumItemASTNode::Struct { fields, .. } => fields@.map_values(|f: StructFieldASTNode| field_param_node(f)),
        },
    }
}

/// The default value of an enum: its first case, built from defaults.
pub open spec fn enum_default_value_node(c: EnumItemASTNode) -> SwiftNode {
    match c {
        EnumItemASTNode::Empty { .. } => SwiftNode::FieldAccess { instance: None, field: c.spec_id() },
        EnumItemASTNode::Tuple { values, .. } => SwiftNode::Call {
            id: dot_case(c),
            arguments: Some(Box::new(lines_node(values@.map_values(|v: TupleFieldASTNode| tuple_default_arg_node(v))))),
        },
        EnumItemASTNode::Struct { fields, .. } => SwiftNode::Call {
            id: dot_case(c),
            arguments: Some(Box::new(lines_node(fields@.map_values(|f: StructFieldASTNode| field_default_arg_node(f))))),
        },
    }
}

/// `static func createBuffersDefault() -> Id`, giving the first case.
pub open spec fn enum_create_default_node(node: EnumASTNode) -> SwiftNode {
    SwiftNode::Func {
        id: "createBuffersDefault"@,
        is_static: true,
        return_type_id: Some(Box::new(id_node(node.id@))),
        arguments: None,
        body: statements_node(seq![SwiftNode::ReturnStatement { body: Box::new(enum_default_value_node(node.items@[0])) }]),
    }
}

/// The statements that read the values of a case and return it.
pub open spec fn read_case_body(c: EnumItemASTNode) -> Seq<SwiftNode> {
    match c {
        EnumItemASTNode::Empty { .. } => seq![SwiftNode::ReturnStatement { body: Box::new(id_node(dot_case(c))) }],
        EnumItemASTNode::Tuple { values, .. } => values@.map_values(|v: TupleFieldASTNode| tuple_read_node(v)) + seq![
            SwiftNode::Gap,
            SwiftNode::ReturnStatement {
                body: Box::new(SwiftNode::Call {
                    id: dot_case(c),
                    arguments: Some(Box::new(lines_node(values@.map_values(|v: TupleFieldASTNode| tuple_read_arg_node(v))))),
                }),
            },
        ],
        EnumItemASTNode::Struct { fields, .. } => fields@.map_values(|f: StructFieldASTNode| read_field_node(f)) + seq![
            SwiftNode::Gap,
            SwiftNode::ReturnStatement {
                body: Box::new(SwiftNode::Call {
                    id: dot_case(c),
                    arguments: Some(Box::new(lines_node(fields@.map_values(|f: StructFieldASTNode| field_read_arg_node(f))))),
                }),
            },
        ],
    }
}

/// `case n:` followed by the statements that read the case.
pub open spec fn read_case_node(c: EnumItemASTNode) -> SwiftNode {
    SwiftNode::Case {
        item: Box::new(id_node(position_text(c))),
        body: Box::new(SwiftNode::Statements { items: read_case_body(c) }),
    }
}

/// `default:` ending in a fatal error on an unknown discriminant.
pub open spec fn invalid_case_node() -> SwiftNode {
    SwiftNode::DefaultCase {
        body: Box::new(SwiftNode::Statements {
            items: seq![SwiftNode::Call {
                id: "fatalError"@,
                arguments: Some(Box::new(id_node("\"Invalid value: \\(caseValue)\""@))),
            }],
        }),
    }
}

/// `let caseValue = ..`, the discriminant read.
pub open spec fn case_value_node() -> SwiftNode {
    SwiftNode::VarDeclaration {
        id: "caseValue"@,
        is_const: true,
        type_id: None,
        value: Some(Box::new(read_node(u32_type()))),
    }
}

/// `static func readFromBuffers(_ bytesReader:) -> Self`: reads the
/// discriminant, then the values of that case.
pub open spec fn enum_read_node(node: EnumASTNode) -> SwiftNode {
    SwiftNode::Func {
        id: "readFromBuffers"@,
        is_static: true,
        return_type_id: Some(Box::new(id_node("Self"@))),
        arguments: Some(Box::new(lines_node(seq![argument_node("bytesReader"@, "TechPawsBuffersBytesReader"@)]))),
        body: statements_node(seq![
            case_value_node(),
            SwiftNode::Gap,
            SwiftNode::Switch {
                item: Box::new(id_node("caseValue"@)),
                body: Box::new(SwiftNode::Statements {
                    items: node.items@.map_values(|c: EnumItemASTNode| read_case_node(c)).push(invalid_case_node()),
                }),
            },
        ]),
    }
}

/// The reads that skip the values of a case; `continue` where it has none.
pub open spec fn skip_case_body(c: EnumItemASTNode) -> Seq<SwiftNode> {
    match c {
        EnumItemASTNode::Empty { .. } => seq![SwiftNode::Continue],
        EnumItemASTNode::Tuple { values, .. } => values@.map_values(|v: TupleFieldASTNode| tuple_skip_node(v)),
        EnumItemASTNode::Struct { fields, .. } => fields@.map_values(|f: StructFieldASTNode| skip_field_node(f)),
    }
}

pub open spec fn skip_case_node(c: EnumItemASTNode) -> SwiftNode {
    SwiftNode::Case {
        item: Box::new(id_node(position_text(c))),
        body: Box::new(SwiftNode::Statements { items: skip_case_body(c) }),
    }
}

/// `static func skipInBuffers(_ bytesReader:, _ count:)`: `count` times,
/// reads a discriminant and skips the values of that case.
pub open spec fn enum_skip_node(node: EnumASTNode) -> SwiftNode {
    SwiftNode::Func {
        id: "skipInBuffers"@,
        is_static: true,
        return_type_id: None,
        arguments: Some(Box::new(lines_node(seq![
            argument_node("bytesReader"@, "TechPawsBuffersBytesReader"@),
            argument_node("count"@, "UInt64"@),
        ]))),
        body: statements_node(seq![SwiftNode::ForLoop {
            item: None,
            collection_expr: Box::new(SwiftNode::Range { from: Box::new(id_node("1"@)), to: Box::new(id_node("count"@)) }),
            body: Box::new(SwiftNode::Statements {
                items: seq![
                    case_value_node(),
                    SwiftNode::Gap,
                    SwiftNode::Switch {
                        item: Box::new(id_node("caseValue"@)),
                        body: Box::new(SwiftNode::Statements {
                            items: node.items@.map_values(|c: EnumItemASTNode| skip_case_node(c)).push(invalid_case_node()),
                        }),
                    },
                ],
            }),
        }]),
    }
}

/// The pattern that a case is matched by, binding its values.
pub open spec fn write_case_item(c: EnumItemASTNode) -> SwiftNode {
    match c {
        EnumItemASTNode::Empty { .. } => id_node(dot_case(c)),
        EnumItemASTNode::Tuple { values, .. } => SwiftNode::Call {
            id: dot_case(c),
            arguments: Some(Box::new(lines_node(values@.map_values(|v: TupleFieldASTNode| tuple_pattern_node(v))))),
        },
        EnumItemASTNode::Struct { fields, .. } => SwiftNode::Call {
            id: dot_case(c),
            arguments: Some(Box::new(lines_node(fields@.map_values(|f: StructFieldASTNode| field_pattern_node(f))))),
        },
    }
}

/// The writes of a case: its discriminant, then its values.
pub open spec fn write_case_body(c: EnumItemASTNode) -> Seq<SwiftNode> {
    seq![write_node(u32_type(), position_text(c))] + match c {
        EnumItemASTNode::Empty { .. } => Seq::empty(),
        EnumItemASTNode::Tuple { values, .. } => values@.map_values(|v: TupleFieldASTNode| tuple_write_node(v)),
        EnumItemASTNode::Struct { fields, .. } => fields@.map_values(|f: StructFieldASTNode| write_field_node(f)),
    }
}

pub open spec fn write_case_node(c: EnumItemASTNode) -> SwiftNode {
    SwiftNode::Case {
        item: Box::new(write_case_item(c)),
        body: Box::new(SwiftNode::Statements { items: write_case_body(c) }),
    }
}

/// `func writeToBuffers(_ bytesWriter:)`: switches over `self` and writes
/// the case.
pub open spec fn enum_write_node(node: EnumASTNode) -> SwiftNode {
    SwiftNode::Func {
        id: "writeToBuffers"@,
        is_static: false,
        return_type_id: None,
        arguments: Some(Box::new(lines_node(seq![argument_node("bytesWriter"@, "TechPawsBuffersBytesWriter"@)]))),
        body: statements_node(seq![
            SwiftNode::Gap,
            SwiftNode::Switch {
                item: Box::new(id_node("self"@)),
                body: Box::new(SwiftNode::Statements {
                    items: node.items@.map_values(|c: EnumItemASTNode| write_case_node(c)),
                }),
            },
        ]),
    }
}

/// The Swift model of an enum: its cases, then the default constructor and
/// the methods that read, skip and write it.
pub open spec fn enum_model_node(node: EnumASTNode) -> SwiftNode {
    SwiftNode::Enum {
        id: node.id@,
        extends: seq![id_node("TechPawsBuffersModel"@)],
        body: node.items@.map_values(|c: EnumItemASTNode| enum_case_node(c)) + seq![
            enum_create_default_node(node),
            enum_read_node(node),
            enum_skip_node(node),
            enum_write_node(node),
        ],
    }
}
/// The types of a tuple case.
fn tuple_params_ir(items: &Vec<TupleFieldASTNode>) -> (res: Vec<SwiftIR>)
    ensures
        sw_views(res@) == items@.map_values(|x: TupleFieldASTNode| tuple_param_node(x)),
{
    let mut res: Vec<SwiftIR> = Vec::new();
    let mut i: usize = 0;
    while i < items.len()
        invariant
            i <= items@.len(),
            sw_views(res@) == items@.take(i as int).map_values(|x: TupleFieldASTNode| tuple_param_node(x)),
        decreases items@.len() - i,
    {
        let item = &items[i];
        let node = SwiftIR::EnumCaseType { id: None, type_id: item.type_id.clone() };
        proof {
            lemma_sw_views_push(res@, node);
            assert(items@.take(i + 1).map_values(|x: TupleFieldASTNode| tuple_param_node(x))
                =~= items@.take(i as int).map_values(|x: TupleFieldASTNode| tuple_param_node(x)).push(tuple_param_node(items@[i as int])));
        }
        res.push(node);
        i = i + 1;
    }
    assert(items@.take(items@.len() as int) =~= items@);
    res
}

/// The named types of a struct case.
fn field_params_ir(items: &Vec<StructFieldASTNode>) -> (res: Vec<SwiftIR>)
    ensures
        sw_views(res@) == items@.map_values(|x: StructFieldASTNode| field_param_node(x)),
{
    let mut res: Vec<SwiftIR> = Vec::new();
    let mut i: usize = 0;
    while i < items.len()
        invariant
            i <= items@.len(),
            sw_views(res@) == items@.take(i as int).map_values(|x: StructFieldASTNode| field_param_node(x)),
        decreases items@.len() - i,
    {
        let item = &items[i];
        let node = SwiftIR::EnumCaseType { id: Some(item.name.clone()), type_id: item.type_id.clone() };
        proof {
            lemma_sw_views_push(res@, node);
            assert(items@.take(i + 1).map_values(|x: StructFieldASTNode| field_param_node(x))
                =~= items@.take(i as int).map_values(|x: StructFieldASTNode| field_param_node(x)).push(field_param_node(items@[i as int])));
        }
        res.push(node);
        i = i + 1;
    }
    assert(items@.take(items@.len() as int) =~= items@);
    res
}

/// The default arguments of a tuple case.
fn tuple_default_args_ir(items: &Vec<TupleFieldASTNode>) -> (res: Vec<SwiftIR>)
    ensures
        sw_views(res@) == items@.map_values(|x: TupleFieldASTNode| tuple_default_arg_node(x)),
{
    let mut res: Vec<SwiftIR> = Vec::new();
    let mut i: usize = 0;
    while i < items.len()
        invariant
            i <= items@.len(),
            sw_views(res@) == items@.take(i as int).map_values(|x: TupleFieldASTNode| tuple_default_arg_node(x)),
        decreases items@.len() - i,
    {
        let item = &items[i];
        let node = SwiftIR::AssignArgument { id: None, value: None, default_value_type_id: item.type_id.clone() };
        proof {
            lemma_sw_views_push(res@, node);
            assert(items@.take(i + 1).map_values(|x: TupleFieldASTNode| tuple_default_arg_node(x))
                =~= items@.take(i as int).map_values(|x: TupleFieldASTNode| tuple_default_arg_node(x)).push(tuple_default_arg_node(items@[i as int])));
        }
        res.push(node);
        i = i + 1;
    }
    assert(items@.take(items@.len() as int) =~= items@);
    res
}

/// The default arguments of a struct case.
fn field_default_args_ir(items: &Vec<StructFieldASTNode>) -> (res: Vec<SwiftIR>)
    ensures
        sw_views(res@) == items@.map_values(|x: StructFieldASTNode| field_default_arg_node(x)),
{
    let mut res: Vec<SwiftIR> = Vec::new();
    let mut i: usize = 0;
    while i < items.len()
        invariant
            i <= items@.len(),
            sw_views(res@) == items@.take(i as int).map_values(|x: StructFieldASTNode| field_default_arg_node(x)),
        decreases items@.len() - i,
    {
        let item = &items[i];
        let node = SwiftIR::AssignArgument {
            id: Some(to_case(item.name.as_str(), TextCase::Camel)),
            value: None,
            default_value_type_id: item.type_id.clone(),
        };
        proof {
            lemma_sw_views_push(res@, node);
            assert(items@.take(i + 1).map_values(|x: StructFieldASTNode| field_default_arg_node(x))
                =~= items@.take(i as int).map_values(|x: StructFieldASTNode| field_default_arg_node(x)).push(field_default_arg_node(items@[i as int])));
        }
        res.push(node);
        i = i + 1;
    }
    assert(items@.take(items@.len() as int) =~= items@);
    res
}

/// The reads of the values of a tuple case, each into a constant.
fn tuple_reads_ir(items: &Vec<TupleFieldASTNode>) -> (res: Vec<SwiftIR>)
    requires
        forall|k: int| 0 <= k < items@.len() ==> #[trigger] read_supported(items@[k].type_id@),
    ensures
        sw_views(res@) == items@.map_values(|x: TupleFieldASTNode| tuple_read_node(x)),
{
    let mut res: Vec<SwiftIR> = Vec::new();
    let mut i: usize = 0;
    while i < items.len()
        invariant
            i <= items@.len(),
            forall|k: int| 0 <= k < items@.len() ==> #[trigger] read_supported(items@[k].type_id@),
            sw_views(res@) == items@.take(i as int).map_values(|x: TupleFieldASTNode| tuple_read_node(x)),
        decreases items@.len() - i,
    {
        let item = &items[i];
        let value = generate_read(&item.type_id);
        let node = SwiftIR::VarDeclaration {
            id: positional_name(item.position),
            is_const: true,
            type_id: None,
            value: Some(Box::new(value)),
        };
        proof {
            reveal_with_fuel(sw_view, 3);
            lemma_sw_views_push(res@, node);
            assert(items@.take(i + 1).map_values(|x: TupleFieldASTNode| tuple_read_node(x))
                =~= items@.take(i as int).map_values(|x: TupleFieldASTNode| tuple_read_node(x)).push(tuple_read_node(items@[i as int])));
        }
        res.push(node);
        i = i + 1;
    }
    assert(items@.take(items@.len() as int) =~= items@);
    res
}

/// The arguments that build a tuple case from the constants read.
fn tuple_read_args_ir(items: &Vec<TupleFieldASTNode>) -> (res: Vec<SwiftIR>)
    ensures
        sw_views(res@) == items@.map_values(|x: TupleFieldASTNode| tuple_read_arg_node(x)),
{
    let mut res: Vec<SwiftIR> = Vec::new();
    let mut i: usize = 0;
    while i < items.len()
        invariant
            i <= items@.len(),
            sw_views(res@) == items@.take(i as int).map_values(|x: TupleFieldASTNode| tuple_read_arg_node(x)),
        decreases items@.len() - i,
    {
        let item = &items[i];
        let value = id_ir(positional_name(item.position).as_str());
        let node = SwiftIR::AssignArgument {
            id: None,
            value: Some(Box::new(value)),
            default_value_type_id: item.type_id.clone(),
        };
        proof {
            reveal_with_fuel(sw_view, 3);
            lemma_sw_views_push(res@, node);
            assert(items@.take(i + 1).map_values(|x: TupleFieldASTNode| tuple_read_arg_node(x))
                =~= items@.take(i as int).map_values(|x: TupleFieldASTNode| tuple_read_arg_node(x)).push(tuple_read_arg_node(items@[i as int])));
        }
        res.push(node);
        i = i + 1;
    }
    assert(items@.take(items@.len() as int) =~= items@);
    res
}

/// The arguments that build a struct case from the constants read.
fn field_read_args_ir(items: &Vec<StructFieldASTNode>) -> (res: Vec<SwiftIR>)
    ensures
        sw_views(res@) == items@.map_values(|x: StructFieldASTNode| field_read_arg_node(x)),
{
    let mut res: Vec<SwiftIR> = Vec::new();
    let mut i: usize = 0;
    while i < items.len()
        invariant
            i <= items@.len(),
            sw_views(res@) == items@.take(i as int).map_values(|x: StructFieldASTNode| field_read_arg_node(x)),
        decreases items@.len() - i,
    {
        let item = &items[i];
        let value = id_ir(to_case(item.name.as_str(), TextCase::Camel).as_str());
        let node = SwiftIR::AssignArgument {
            id: None,
            value: Some(Box::new(value)),
            default_value_type_id: item.type_id.clone(),
        };
        proof {
            reveal_with_fuel(sw_view, 3);
            lemma_sw_views_push(res@, node);
            assert(items@.take(i + 1).map_values(|x: StructFieldASTNode| field_read_arg_node(x))
                =~= items@.take(i as int).map_values(|x: StructFieldASTNode| field_read_arg_node(x)).push(field_read_arg_node(items@[i as int])));
        }
        res.push(node);
        i = i + 1;
    }
    assert(items@.take(items@.len() as int) =~= items@);
    res
}

/// The reads that skip the values of a tuple case.
fn tuple_skips_ir(items: &Vec<TupleFieldASTNode>) -> (res: Vec<SwiftIR>)
    requires
        forall|k: int| 0 <= k < items@.len() ==> #[trigger] read_supported(items@[k].type_id@),
    ensures
        sw_views(res@) == items@.map_values(|x: TupleFieldASTNode| tuple_skip_node(x)),
{
    let mut res: Vec<SwiftIR> = Vec::new();
    let mut i: usize = 0;
    while i < items.len()
        invariant
            i <= items@.len(),
            forall|k: int| 0 <= k < items@.len() ==> #[trigger] read_supported(items@[k].type_id@),
            sw_views(res@) == items@.take(i as int).map_values(|x: TupleFieldASTNode| tuple_skip_node(x)),
        decreases items@.len() - i,
    {
        let item = &items[i];
        let value = generate_read(&item.type_id);
        let node = SwiftIR::VarDeclaration {
            id: String::from_str("_"),
            is_const: true,
            type_id: None,
            value: Some(Box::new(value)),
        };
        proof {
            reveal_with_fuel(sw_view, 3);
            lemma_sw_views_push(res@, node);
            assert(items@.take(i + 1).map_values(|x: TupleFieldASTNode| tuple_skip_node(x))
                =~= items@.take(i as int).map_values(|x: TupleFieldASTNode| tuple_skip_node(x)).push(tuple_skip_node(items@[i as int])));
        }
        res.push(node);
        i = i + 1;
    }
    assert(items@.take(items@.len() as int) =~= items@);
    res
}

/// The bindings of the values of a tuple case.
fn tuple_patterns_ir(items: &Vec<TupleFieldASTNode>) -> (res: Vec<SwiftIR>)
    ensures
        sw_views(res@) == items@.map_values(|x: TupleFieldASTNode| tuple_pattern_node(x)),
{
    let mut res: Vec<SwiftIR> = Vec::new();
    let mut i: usize = 0;
    while i < items.len()
        invariant
            i <= items@.len(),
            sw_views(res@) == items@.take(i as int).map_values(|x: TupleFieldASTNode| tuple_pattern_node(x)),
        decreases items@.len() - i,
    {
        let item = &items[i];
        let node = SwiftIR::VarDeclaration { id: positional_name(item.position), is_const: true, type_id: None, value: None };
        proof {
            lemma_sw_views_push(res@, node);
            assert(items@.take(i + 1).map_values(|x: TupleFieldASTNode| tuple_pattern_node(x))
                =~= items@.take(i as int).map_values(|x: TupleFieldASTNode| tuple_pattern_node(x)).push(tuple_pattern_node(items@[i as int])));
        }
        res.push(node);
        i = i + 1;
    }
    assert(items@.take(items@.len() as int) =~= items@);
    res
}

/// The bindings of the fields of a struct case.
fn field_patterns_ir(items: &Vec<StructFieldASTNode>) -> (res: Vec<SwiftIR>)
    ensures
        sw_views(res@) == items@.map_values(|x: StructFieldASTNode| field_pattern_node(x)),
{
    let mut res: Vec<SwiftIR> = Vec::new();
    let mut i: usize = 0;
    while i < items.len()
        invariant
            i <= items@.len(),
            sw_views(res@) == items@.take(i as int).map_values(|x: StructFieldASTNode| field_pattern_node(x)),
        decreases items@.len() - i,
    {
        let item = &items[i];
        let node = SwiftIR::VarDeclaration {
            id: to_case(item.name.as_str(), TextCase::Camel),
            is_const: true,
            type_id: None,
            value: None,
        };
        proof {
            lemma_sw_views_push(res@, node);
            assert(items@.take(i + 1).map_values(|x: StructFieldASTNode| field_pattern_node(x))
                =~= items@.take(i as int).map_values(|x: StructFieldASTNode| field_pattern_node(x)).push(field_pattern_node(items@[i as int])));
        }
        res.push(node);
        i = i + 1;
    }
    assert(items@.take(items@.len() as int) =~= items@);
    res
}

/// The writes of the values of a tuple case.
fn tuple_writes_ir(items: &Vec<TupleFieldASTNode>) -> (res: Vec<SwiftIR>)
    requires
        forall|k: int| 0 <= k < items@.len() ==> #[trigger] read_supported(items@[k].type_id@),
    ensures
        sw_views(res@) == items@.map_values(|x: TupleFieldASTNode| tuple_write_node(x)),
{
    let mut res: Vec<SwiftIR> = Vec::new();
    let mut i: usize = 0;
    while i < items.len()
        invariant
            i <= items@.len(),
            forall|k: int| 0 <= k < items@.len() ==> #[trigger] read_supported(items@[k].type_id@),
            sw_views(res@) == items@.take(i as int).map_values(|x: TupleFieldASTNode| tuple_write_node(x)),
        decreases items@.len() - i,
    {
        let item = &items[i];
        let node = generate_write(&item.type_id, positional_name(item.position).as_str());
        proof {
            lemma_sw_views_push(res@, node);
            assert(items@.take(i + 1).map_values(|x: TupleFieldASTNode| tuple_write_node(x))
                =~= items@.take(i as int).map_values(|x: TupleFieldASTNode| tuple_write_node(x)).push(tuple_write_node(items@[i as int])));
        }
        res.push(node);
        i = i + 1;
    }
    assert(items@.take(items@.len() as int) =~= items@);
    res
}

/// The cases of an enum.
fn enum_cases_ir(items: &Vec<EnumItemASTNode>) -> (res: Vec<SwiftIR>)
    ensures
        sw_views(res@) == items@.map_values(|x: EnumItemASTNode| enum_case_node(x)),
{
    let mut res: Vec<SwiftIR> = Vec::new();
    let mut i: usize = 0;
    while i < items.len()
        invariant
            i <= items@.len(),
            sw_views(res@) == items@.take(i as int).map_values(|x: EnumItemASTNode| enum_case_node(x)),
        decreases items@.len() - i,
    {
        let item = &items[i];
        let node = enum_case_ir(item);
        proof {
            lemma_sw_views_push(res@, node);
            assert(items@.take(i + 1).map_values(|x: EnumItemASTNode| enum_case_node(x))
                =~= items@.take(i as int).map_values(|x: EnumItemASTNode| enum_case_node(x)).push(enum_case_node(items@[i as int])));
        }
        res.push(node);
        i = i + 1;
    }
    assert(items@.take(items@.len() as int) =~= items@);
    res
}

/// The switch cases that read each case of an enum.
fn read_cases_ir(items: &Vec<EnumItemASTNode>) -> (res: Vec<SwiftIR>)
    requires
        forall|k: int| 0 <= k < items@.len() ==> #[trigger] item_supported(items@[k]),
    ensures
        sw_views(res@) == items@.map_values(|x: EnumItemASTNode| read_case_node(x)),
{
    let mut res: Vec<SwiftIR> = Vec::new();
    let mut i: usize = 0;
    while i < items.len()
        invariant
            i <= items@.len(),
            forall|k: int| 0 <= k < items@.len() ==> #[trigger] item_supported(items@[k]),
            sw_views(res@) == items@.take(i as int).map_values(|x: EnumItemASTNode| read_case_node(x)),
        decreases items@.len() - i,
    {
        let item = &items[i];
        let node = read_case_ir(item);
        proof {
            lemma_sw_views_push(res@, node);
            assert(items@.take(i + 1).map_values(|x: EnumItemASTNode| read_case_node(x))
                =~= items@.take(i as int).map_values(|x: EnumItemASTNode| read_case_node(x)).push(read_case_node(items@[i as int])));
        }
        res.push(node);
        i = i + 1;
    }
    assert(items@.take(items@.len() as int) =~= items@);
    res
}

/// The switch cases that skip each case of an enum.
fn skip_cases_ir(items: &Vec<EnumItemASTNode>) -> (res: Vec<SwiftIR>)
    requires
        forall|k: int| 0 <= k < items@.len() ==> #[trigger] item_supported(items@[k]),
    ensures
        sw_views(res@) == items@.map_values(|x: EnumItemASTNode| skip_case_node(x)),
{
    let mut res: Vec<SwiftIR> = Vec::new();
    let mut i: usize = 0;
    while i < items.len()
        invariant
            i <= items@.len(),
            forall|k: int| 0 <= k < items@.len() ==> #[trigger] item_supported(items@[k]),
            sw_views(res@) == items@.take(i as int).map_values(|x: EnumItemASTNode| skip_case_node(x)),
        decreases items@.len() - i,
    {
        let item = &items[i];
        let node = skip_case_ir(item);
        proof {
            lemma_sw_views_push(res@, node);
            assert(items@.take(i + 1).map_values(|x: EnumItemASTNode| skip_case_node(x))
                =~= items@.take(i as int).map_values(|x: EnumItemASTNode| skip_case_node(x)).push(skip_case_node(items@[i as int])));
        }
        res.push(node);
        i = i + 1;
    }
    assert(items@.take(items@.len() as int) =~= items@);
    res
}

/// The switch cases that write each case of an enum.
fn write_cases_ir(items: &Vec<EnumItemASTNode>) -> (res: Vec<SwiftIR>)
    requires
        forall|k: int| 0 <= k < items@.len() ==> #[trigger] item_supported(items@[k]),
    ensures
        sw_views(res@) == items@.map_values(|x: EnumItemASTNode| write_case_node(x)),
{
    let mut res: Vec<SwiftIR> = Vec::new();
    let mut i: usize = 0;
    while i < items.len()
        invariant
            i <= items@.len(),
            forall|k: int| 0 <= k < items@.len() ==> #[trigger] item_supported(items@[k]),
            sw_views(res@) == items@.take(i as int).map_values(|x: EnumItemASTNode| write_case_node(x)),
        decreases items@.len() - i,
    {
        let item = &items[i];
        let node = write_case_ir(item);
        proof {
            lemma_sw_views_push(res@, node);
            assert(items@.take(i + 1).map_values(|x: EnumItemASTNode| write_case_node(x))
                =~= items@.take(i as int).map_values(|x: EnumItemASTNode| write_case_node(x)).push(write_case_node(items@[i as int])));
        }
        res.push(node);
        i = i + 1;
    }
    assert(items@.take(items@.len() as int) =~= items@);
    res
}


/// `p` and the position, the name a tuple value is bound to.
fn positional_name(position: u32) -> (res: String)
    ensures
        res@ == "p"@ + nat_text(position as nat),
{
    cat("p", nat_to_text(position as u64).as_str())
}

/// `.caseName`.
fn dot_case_ir(c: &EnumItemASTNode) -> (res: String)
    ensures
        res@ == dot_case(*c),
{
    cat(".", to_case(c.id(), TextCase::Camel).as_str())
}

fn enum_case_ir(c: &EnumItemASTNode) -> (res: SwiftIR)
    ensures
        res@ == enum_case_node(*c),
{
    let parameters = match c {
        EnumItemASTNode::Empty { .. } => {
            let v: Vec<SwiftIR> = Vec::new();
            assert(sw_views(v@) =~= Seq::empty());
            v
        },
        EnumItemASTNode::Tuple { values, .. } => tuple_params_ir(values),
        EnumItemASTNode::Struct { fields, .. } => field_params_ir(fields),
    };
    let res = SwiftIR::EnumCase { id: copy_str(c.id()), parameters };
    assert(res@ == SwiftNode::EnumCase { id: c.spec_id(), parameters: sw_views(parameters@) });
    res
}

fn enum_default_value_ir(c: &EnumItemASTNode) -> (res: SwiftIR)
    ensures
        res@ == enum_default_value_node(*c),
{
    proof { reveal_with_fuel(sw_view, 3); }
    match c {
        EnumItemASTNode::Empty { .. } => SwiftIR::FieldAccess { instance: None, field: copy_str(c.id()) },
        EnumItemASTNode::Tuple { values, .. } => {
            let arguments = lines_ir(tuple_default_args_ir(values));
            SwiftIR::Call { id: dot_case_ir(c), arguments: Some(Box::new(arguments)) }
        },
        EnumItemASTNode::Struct { fields, .. } => {
            let arguments = lines_ir(field_default_args_ir(fields));
            SwiftIR::Call { id: dot_case_ir(c), arguments: Some(Box::new(arguments)) }
        },
    }
}

fn create_enum_default_ir(node: &EnumASTNode) -> (res: SwiftIR)
    requires
        node.items@.len() > 0,
    ensures
        res@ == enum_create_default_node(*node),
{
    proof { reveal_with_fuel(sw_view, 3); }
    let value = enum_default_value_ir(&node.items[0]);
    let ret = SwiftIR::ReturnStatement { body: Box::new(value) };
    let enum_id = id_ir(node.id.as_str());
    SwiftIR::Func {
        id: String::from_str("createBuffersDefault"),
        is_static: true,
        return_type_id: Some(Box::new(enum_id)),
        body: statements_ir(one(ret)),
        arguments: None,
    }
}

fn read_tuple_case_body_ir(c: &EnumItemASTNode) -> (res: Vec<SwiftIR>)
    requires
        c is Tuple,
        item_supported(*c),
    ensures
        sw_views(res@) == read_case_body(*c),
{
    proof { reveal_with_fuel(sw_view, 3); }
    if let EnumItemASTNode::Tuple { values, .. } = c {
        let mut body = tuple_reads_ir(values);
        let arguments = lines_ir(tuple_read_args_ir(values));
        let call = SwiftIR::Call { id: dot_case_ir(c), arguments: Some(Box::new(arguments)) };
        let ret = SwiftIR::ReturnStatement { body: Box::new(call) };
        proof {
            lemma_sw_views_push(body@, SwiftIR::Gap);
            lemma_sw_views_push(body@.push(SwiftIR::Gap), ret);
        }
        body.push(SwiftIR::Gap);
        body.push(ret);
        assert(sw_views(body@) =~= read_case_body(*c));
        body
    } else {
        Vec::new()
    }
}

fn read_struct_case_body_ir(c: &EnumItemASTNode) -> (res: Vec<SwiftIR>)
    requires
        c is Struct,
        item_supported(*c),
    ensures
        sw_views(res@) == read_case_body(*c),
{
    proof { reveal_with_fuel(sw_view, 3); }
    if let EnumItemASTNode::Struct { fields, .. } = c {
        let mut body = read_fields_ir(fields);
        let arguments = lines_ir(field_read_args_ir(fields));
        let call = SwiftIR::Call { id: dot_case_ir(c), arguments: Some(Box::new(arguments)) };
        let ret = SwiftIR::ReturnStatement { body: Box::new(call) };
        proof {
            lemma_sw_views_push(body@, SwiftIR::Gap);
            lemma_sw_views_push(body@.push(SwiftIR::Gap), ret);
        }
        body.push(SwiftIR::Gap);
        body.push(ret);
        assert(sw_views(body@) =~= read_case_body(*c));
        body
    } else {
        Vec::new()
    }
}

fn read_case_body_ir(c: &EnumItemASTNode) -> (res: Vec<SwiftIR>)
    requires
        item_supported(*c),
    ensures
        sw_views(res@) == read_case_body(*c),
{
    proof { reveal_with_fuel(sw_view, 3); }
    match c {
        EnumItemASTNode::Empty { .. } => {
            let ret = SwiftIR::ReturnStatement { body: Box::new(id_ir(dot_case_ir(c).as_str())) };
            one(ret)
        },
        EnumItemASTNode::Tuple { .. } => read_tuple_case_body_ir(c),
        EnumItemASTNode::Struct { .. } => read_struct_case_body_ir(c),
    }
}

fn read_case_ir(c: &EnumItemASTNode) -> (res: SwiftIR)
    requires
        item_supported(*c),
    ensures
        res@ == read_case_node(*c),
{
    proof { reveal_with_fuel(sw_view, 3); }
    let item = id_ir(nat_to_text(c.position() as u64).as_str());
    let body = SwiftIR::Statements { items: read_case_body_ir(c) };
    SwiftIR::Case { item: Box::new(item), body: Box::new(body) }
}

fn invalid_case_ir() -> (res: SwiftIR)
    ensures
        res@ == invalid_case_node(),
{
    proof { reveal_with_fuel(sw_view, 4); }
    let message = id_ir("\"Invalid value: \\(caseValue)\"");
    let call = SwiftIR::Call { id: String::from_str("fatalError"), arguments: Some(Box::new(message)) };
    SwiftIR::DefaultCase { body: Box::new(SwiftIR::Statements { items: one(call) }) }
}

fn case_value_ir() -> (res: SwiftIR)
    ensures
        res@ == case_value_node(),
{
    proof { reveal_with_fuel(sw_view, 3); }
    let value = generate_read(&u32_type_ir());
    SwiftIR::VarDeclaration { id: String::from_str("caseValue"), is_const: true, type_id: None, value: Some(Box::new(value)) }
}

fn generate_enum_read_from_buffers_method(node: &EnumASTNode) -> (res: SwiftIR)
    requires
        enum_supported(*node),
    ensures
        res@ == enum_read_node(*node),
{
    proof { reveal_with_fuel(sw_view, 4); }
    let mut cases = read_cases_ir(&node.items);
    let invalid = invalid_case_ir();
    proof { lemma_sw_views_push(cases@, invalid); }
    cases.push(invalid);
    let switch = SwiftIR::Switch {
        item: Box::new(id_ir("caseValue")),
        body: Box::new(SwiftIR::Statements { items: cases }),
    };
    let statements = three(case_value_ir(), SwiftIR::Gap, switch);
    let self_id = id_ir("Self");
    let arguments = lines_ir(one(argument_ir("bytesReader", "TechPawsBuffersBytesReader")));
    SwiftIR::Func {
        id: String::from_str("readFromBuffers"),
        is_static: true,
        return_type_id: Some(Box::new(self_id)),
        arguments: Some(Box::new(arguments)),
        body: statements_ir(statements),
    }
}

fn skip_case_ir(c: &EnumItemASTNode) -> (res: SwiftIR)
    requires
        item_supported(*c),
    ensures
        res@ == skip_case_node(*c),
{
    proof { reveal_with_fuel(sw_view, 3); }
    let items = match c {
        EnumItemASTNode::Empty { .. } => one(SwiftIR::Continue),
        EnumItemASTNode::Tuple { values, .. } => tuple_skips_ir(values),
        EnumItemASTNode::Struct { fields, .. } => skip_fields_ir(fields),
    };
    let item = id_ir(nat_to_text(c.position() as u64).as_str());
    SwiftIR::Case { item: Box::new(item), body: Box::new(SwiftIR::Statements { items }) }
}

fn generate_enum_skip_in_buffers_method(node: &EnumASTNode) -> (res: SwiftIR)
    requires
        enum_supported(*node),
    ensures
        res@ == enum_skip_node(*node),
{
    proof { reveal_with_fuel(sw_view, 4); }
    let mut cases = skip_cases_ir(&node.items);
    let invalid = invalid_case_ir();
    proof { lemma_sw_views_push(cases@, invalid); }
    cases.push(invalid);
    let switch = SwiftIR::Switch {
        item: Box::new(id_ir("caseValue")),
        body: Box::new(SwiftIR::Statements { items: cases }),
    };
    let loop_body = SwiftIR::Statements { items: three(case_value_ir(), SwiftIR::Gap, switch) };
    let range = SwiftIR::Range { from: Box::new(id_ir("1")), to: Box::new(id_ir("count")) };
    let for_loop = SwiftIR::ForLoop { item: None, collection_expr: Box::new(range), body: Box::new(loop_body) };
    let arguments = lines_ir(two(argument_ir("bytesReader", "TechPawsBuffersBytesReader"), argument_ir("count", "UInt64")));
    SwiftIR::Func {
        id: String::from_str("skipInBuffers"),
        is_static: true,
        return_type_id: None,
        arguments: Some(Box::new(arguments)),
        body: statements_ir(one(for_loop)),
    }
}

fn write_case_ir(c: &EnumItemASTNode) -> (res: SwiftIR)
    requires
        item_supported(*c),
    ensures
        res@ == write_case_node(*c),
{
    proof { reveal_with_fuel(sw_view, 3); }
    let position = nat_to_text(c.position() as u64);
    let write_type = generate_write(&u32_type_ir(), position.as_str());
    let mut body = one(write_type);
    let ghost head = sw_views(body@);
    let (item, rest) = match c {
        EnumItemASTNode::Empty { .. } => (id_ir(dot_case_ir(c).as_str()), Vec::new()),
        EnumItemASTNode::Tuple { values, .. } => {
            let arguments = lines_ir(tuple_patterns_ir(values));
            (SwiftIR::Call { id: dot_case_ir(c), arguments: Some(Box::new(arguments)) }, tuple_writes_ir(values))
        },
        EnumItemASTNode::Struct { fields, .. } => {
            let arguments = lines_ir(field_patterns_ir(fields));
            (SwiftIR::Call { id: dot_case_ir(c), arguments: Some(Box::new(arguments)) }, write_fields_ir(fields))
        },
    };
    let mut rest = rest;
    let ghost tail = sw_views(rest@);
    append_all(&mut body, &mut rest);
    assert(sw_views(body@) =~= write_case_body(*c));
    SwiftIR::Case { item: Box::new(item), body: Box::new(SwiftIR::Statements { items: body }) }
}

fn generate_enum_write_to_buffers_method(node: &EnumASTNode) -> (res: SwiftIR)
    requires
        enum_supported(*node),
    ensures
        res@ == enum_write_node(*node),
{
    proof { reveal_with_fuel(sw_view, 4); }
    let cases = write_cases_ir(&node.items);
    let switch = SwiftIR::Switch {
        item: Box::new(id_ir("self")),
        body: Box::new(SwiftIR::Statements { items: cases }),
    };
    let arguments = lines_ir(one(argument_ir("bytesWriter", "TechPawsBuffersBytesWriter")));
    SwiftIR::Func {
        id: String::from_str("writeToBuffers"),
        is_static: false,
        return_type_id: None,
        arguments: Some(Box::new(arguments)),
        body: statements_ir(two(SwiftIR::Gap, switch)),
    }
}

/// The Swift model of an enum.
pub fn generate_enum_model(node: &EnumASTNode) -> (res: SwiftIR)
    requires
        enum_supported(*node),
    ensures
        res@ == enum_model_node(*node),
{
    let mut body = enum_cases_ir(&node.items);
    let ghost cases = sw_views(body@);
    let create = create_enum_default_ir(node);
    let read = generate_enum_read_from_buffers_method(node);
    let skip = generate_enum_skip_in_buffers_method(node);
    let write = generate_enum_write_to_buffers_method(node);
    proof {
        lemma_sw_views_push(body@, create);
        lemma_sw_views_push(body@.push(create), read);
        lemma_sw_views_push(body@.push(create).push(read), skip);
        lemma_sw_views_push(body@.push(create).push(read).push(skip), write);
    }
    body.push(create);
    body.push(read);
    body.push(skip);
    body.push(write);
    assert(sw_views(body@) =~= cases + seq![create@, read@, skip@, write@]);
    let model = id_ir("TechPawsBuffersModel");
    SwiftIR::Enum { id: node.id.clone(), extends: one(model), body }
}

/// The type of enum discriminants on the wire.
fn u32_type_ir() -> (res: TypeIDASTNode)
    ensures
        res@ == u32_type(),
{
    TypeIDASTNode::Integer { id: String::from_str("u32"), size: 4, signed: false }
}

fn three(a: SwiftIR, b: SwiftIR, c: SwiftIR) -> (res: Vec<SwiftIR>)
    ensures
        sw_views(res@) == seq![a@, b@, c@],
{
    let res = vec![a, b, c];
    proof { lemma_sw_views_eq(res@, seq![a@, b@, c@]); }
    res
}

fn append_all(body: &mut Vec<SwiftIR>, rest: &mut Vec<SwiftIR>)
    ensures
        sw_views(final(body)@) == sw_views(old(body)@) + sw_views(old(rest)@),
        final(rest)@.len() == 0,
{
    proof {
        lemma_sw_views(old(body)@);
        lemma_sw_views(old(rest)@);
    }
    body.append(rest);
    proof {
        lemma_sw_views(body@);
        assert(sw_views(body@) =~= sw_views(old(body)@) + sw_views(old(rest)@));
    }
}


/// Whether every struct and enum among the nodes has a Swift model.
pub open spec fn models_supported(ast: Seq<ASTNode>) -> bool {
    forall|i: int| 0 <= i < ast.len() ==> match #[trigger] ast[i] {
        ASTNode::Struct(node) => struct_supported(node),
        ASTNode::Enum(node) => enum_supported(node),
        _ => true,
    }
}

/// The Swift models of the structs and enums among the nodes, in order.
pub open spec fn models_nodes(ast: Seq<ASTNode>) -> Seq<SwiftNode>
    decreases ast.len(),
{
    if ast.len() == 0 {
        Seq::empty()
    } else {
        let rest = models_nodes(ast.drop_last());
        match ast.last() {
            ASTNode::Struct(node) => rest.push(struct_model_node(node)),
            ASTNode::Enum(node) => rest.push(enum_model_node(node)),
            _ => rest,
        }
    }
}

/// The Swift models of the structs and enums among the nodes.
pub fn generate_models(ast: &[ASTNode]) -> (res: Vec<SwiftIR>)
    requires
        models_supported(ast@),
    ensures
        sw_views(res@) == models_nodes(ast@),
{
    let mut tokens: Vec<SwiftIR> = Vec::new();
    let mut i: usize = 0;
    while i < ast.len()
        invariant
            i <= ast@.len(),
            models_supported(ast@),
            sw_views(tokens@) == models_nodes(ast@.take(i as int)),
        decreases ast@.len() - i,
    {
        assert(ast@.take(i + 1).drop_last() =~= ast@.take(i as int));
        let ghost node_i = ast@[i as int];
        match &ast[i] {
            ASTNode::Struct(node) => {
                assert(struct_supported(*node));
                let model = generate_struct_model(node);
                proof { lemma_sw_views_push(tokens@, model); }
                tokens.push(model);
            },
            ASTNode::Enum(node) => {
                assert(enum_supported(*node));
                let model = generate_enum_model(node);
                proof { lemma_sw_views_push(tokens@, model); }
                tokens.push(model);
            },
            _ => {},
        }
        i = i + 1;
    }
    assert(ast@.take(ast@.len() as int) =~= ast@);
    tokens
}

/// Moves the tokens of `rest` to the end of `body`.
pub fn append_tokens(body: &mut Vec<SwiftIR>, rest: &mut Vec<SwiftIR>)
    ensures
        sw_views(final(body)@) == sw_views(old(body)@) + sw_views(old(rest)@),
        final(rest)@.len() == 0,
{
    append_all(body, rest);
}

/// An argument named `id` with the given value.
pub open spec fn named_arg_node(id: Seq<char>, value: SwiftNode) -> SwiftNode {
    SwiftNode::AssignStructNamedArgument { id, default_value_type_id: None, value: Some(Box::new(value)) }
}

/// The scope and the method that a call addresses.
pub open spec fn address_node(position: u32) -> SwiftNode {
    lines_node(seq![
        named_arg_node("scopeId"@, id_node("scopeId"@)),
        named_arg_node("methodId"@, id_node(nat_text(position as nat))),
    ])
}

/// The Swift name of a method's result type: `Void` where it has none.
pub open spec fn result_type_name(n: FnASTNode) -> Seq<char> {
    match n.return_type_id {
        Some(t) => swift_type_text(t@),
        None => "Void"@,
    }
}

/// `private static let scopeId = "<id>"`.
pub open spec fn scope_node(scope: Seq<char>) -> SwiftNode {
    SwiftNode::StaticVarDeclaration {
        id: "scopeId"@,
        is_const: true,
        is_private: true,
        is_private_set: false,
        type_id: None,
        value: Some(Box::new(id_node("\""@ + scope + "\""@))),
    }
}

/// The last value of a signal, starting from the default of its type.
pub open spec fn current_node(n: FnASTNode, t: TypeId) -> SwiftNode {
    SwiftNode::StaticVarDeclaration {
        id: camel(n.id@) + "Current"@,
        is_const: false,
        is_private: true,
        is_private_set: true,
        type_id: Some(Box::new(SwiftNode::TypeId(t))),
        value: Some(Box::new(id_node(swift_default_text(t)))),
    }
}

/// The subject that passes a signal's values on.
pub open spec fn subject_node(n: FnASTNode) -> SwiftNode {
    SwiftNode::StaticVarDeclaration {
        id: camel(n.id@) + "Subject"@,
        is_const: true,
        is_private: true,
        is_private_set: false,
        type_id: None,
        value: Some(Box::new(SwiftNode::Call {
            id: "PassthroughSubject<"@ + result_type_name(n) + ", Never>"@,
            arguments: None,
        })),
    }
}

/// The stored declarations of a signal: its last value, where it has a
/// result, and its subject.
pub open spec fn signal_subjects(n: FnASTNode) -> Seq<SwiftNode> {
    (match n.return_type_id {
        Some(t) => seq![current_node(n, t@)],
        None => Seq::empty(),
    }).push(subject_node(n))
}

/// The publisher of a signal, delivering on the main queue.
pub open spec fn publisher_node(n: FnASTNode) -> SwiftNode {
    SwiftNode::TopLevelDeclarations {
        items: seq![SwiftNode::StaticVarDeclaration {
            id: camel(n.id@),
            is_const: false,
            is_private: false,
            is_private_set: false,
            type_id: Some(Box::new(SwiftNode::NamedBlock {
                id: "AnyPublisher<"@ + result_type_name(n) + ", Never>"@,
                body: Box::new(SwiftNode::Statements {
                    items: seq![SwiftNode::ReturnStatement {
                        body: Box::new(SwiftNode::ChainCalls {
                            items: seq![
                                id_node(camel(n.id@) + "Subject"@),
                                SwiftNode::Call {
                                    id: ".receive"@,
                                    arguments: Some(Box::new(named_arg_node("on"@, id_node("DispatchQueue.main"@)))),
                                },
                                SwiftNode::Call { id: ".eraseToAnyPublisher"@, arguments: None },
                            ],
                        }),
                    }],
                }),
            })),
            value: None,
        }],
    }
}

/// The consumption of a signal's result: reads the value, keeps it and
/// sends it to the subject.
pub open spec fn consume_node(n: FnASTNode) -> SwiftNode {
    let read = match n.return_type_id {
        Some(t) => seq![SwiftNode::VarDeclaration {
            id: "value"@,
            is_const: true,
            type_id: None,
            value: Some(Box::new(read_node(t@))),
        }],
        None => Seq::empty(),
    };
    let value_id = if n.return_type_id is Some { "value"@ } else { "()"@ };
    SwiftNode::TrailingCall {
        id: "runtime.consumeResult"@,
        arguments: Some(Box::new(address_node(n.position))),
        input: Some(Box::new(id_node("bytesReader"@))),
        body: Box::new(SwiftNode::Statements {
            items: read + seq![
                SwiftNode::SetVar { id: camel(n.id@) + "Current"@, value: Box::new(id_node("value"@)) },
                SwiftNode::Call {
                    id: camel(n.id@) + "Subject.send"@,
                    arguments: Some(Box::new(id_node(value_id))),
                },
            ],
        }),
    }
}

pub open spec fn rpc_argument_node(a: FnArgASTNode) -> SwiftNode {
    SwiftNode::FunctionArgument { id: camel(a.id@), named: true, type_id: Box::new(SwiftNode::TypeId(a.type_id@)) }
}

pub open spec fn rpc_write_node(a: FnArgASTNode) -> SwiftNode {
    write_node(a.type_id@, camel(a.id@))
}

/// The arguments of a call, written into the runtime's buffer.
pub open spec fn write_args_node(n: FnASTNode) -> SwiftNode {
    SwiftNode::TrailingCall {
        id: "runtime.writeArgs"@,
        arguments: None,
        input: Some(Box::new(id_node("bytesWriter"@))),
        body: Box::new(SwiftNode::Statements { items: n.args@.map_values(|a: FnArgASTNode| rpc_write_node(a)) }),
    }
}

/// The result of a call, read back from the runtime's buffer.
pub open spec fn read_result_node(t: TypeId) -> SwiftNode {
    SwiftNode::ReturnStatement {
        body: Box::new(SwiftNode::TrailingCall {
            id: "runtime.readResult"@,
            arguments: None,
            input: Some(Box::new(id_node("bytesReader"@))),
            body: Box::new(SwiftNode::Statements {
                items: seq![SwiftNode::ReturnStatement { body: Box::new(read_node(t)) }],
            }),
        }),
    }
}

/// The body of a call: the arguments written, the call, and the result
/// read back where there is one.
pub open spec fn rpc_call_statements(n: FnASTNode) -> Seq<SwiftNode> {
    (if n.args@.len() > 0 { seq![write_args_node(n)] } else { Seq::empty() })
        + seq![SwiftNode::Call { id: "runtime.callRpc"@, arguments: None }]
        + (match n.return_type_id {
            Some(t) => seq![SwiftNode::Gap, read_result_node(t@)],
            None => Seq::empty(),
        })
}

/// The methods by value.
pub open spec fn fn_values(fns: Seq<&FnASTNode>) -> Seq<FnASTNode> {
    fns.map_values(|f: &FnASTNode| *f)
}

/// The static function that calls a method through the runtime.
pub open spec fn sync_func_node(n: FnASTNode) -> SwiftNode {
    SwiftNode::Func {
        id: camel(n.id@),
        is_static: true,
        return_type_id: match n.return_type_id {
            Some(t) => Some(Box::new(SwiftNode::TypeId(t@))),
            None => None,
        },
        arguments: Some(Box::new(lines_node(n.args@.map_values(|a: FnArgASTNode| rpc_argument_node(a))))),
        body: statements_node(seq![SwiftNode::TrailingCall {
            id: "TechPawsBuffersRpc.rpc"@,
            arguments: Some(Box::new(address_node(n.position))),
            input: Some(Box::new(id_node("runtime"@))),
            body: Box::new(SwiftNode::Statements { items: rpc_call_statements(n) }),
        }]),
    }
}

pub open spec fn subjects_nodes(fns: Seq<FnASTNode>) -> Seq<SwiftNode>
    decreases fns.len(),
{
    if fns.len() == 0 {
        Seq::empty()
    } else {
        subjects_nodes(fns.drop_last()) + (if fns.last().is_signal { signal_subjects(fns.last()) } else { Seq::empty() })
    }
}

pub open spec fn publishers_nodes(fns: Seq<FnASTNode>) -> Seq<SwiftNode>
    decreases fns.len(),
{
    if fns.len() == 0 {
        Seq::empty()
    } else {
        publishers_nodes(fns.drop_last()) + (if fns.last().is_signal { seq![publisher_node(fns.last())] } else { Seq::empty() })
    }
}

pub open spec fn consume_nodes(fns: Seq<FnASTNode>) -> Seq<SwiftNode>
    decreases fns.len(),
{
    if fns.len() == 0 {
        Seq::empty()
    } else {
        consume_nodes(fns.drop_last()) + (if fns.last().is_signal { seq![consume_node(fns.last())] } else { Seq::empty() })
    }
}

pub open spec fn sync_nodes(fns: Seq<FnASTNode>) -> Seq<SwiftNode>
    decreases fns.len(),
{
    if fns.len() == 0 {
        Seq::empty()
    } else {
        sync_nodes(fns.drop_last()) + (if !fns.last().is_signal { seq![sync_func_node(fns.last())] } else { Seq::empty() })
    }
}

/// `static func consumeStreams(_ runtime:)`: consumes each signal's result.
pub open spec fn consume_func_node(fns: Seq<FnASTNode>) -> SwiftNode {
    SwiftNode::Func {
        id: "consumeStreams"@,
        is_static: true,
        return_type_id: None,
        arguments: Some(Box::new(SwiftNode::FunctionArgument {
            id: "runtime"@,
            named: false,
            type_id: Box::new(id_node("TechPawsBuffersStream"@)),
        })),
        body: statements_node(consume_nodes(fns)),
    }
}

/// The text of a string directive's value.
pub open spec fn directive_string(ast: Seq<ASTNode>, target: Seq<char>) -> Seq<char> {
    match directive_value(ast, target) {
        Some(v) => match v.literal {
            Literal::StringLiteral(s) => s@,
            _ => Seq::empty(),
        },
        None => Seq::empty(),
    }
}

/// The members of the RPC struct: the scope, then, where there are
/// signals, their subjects, publishers and the function that consumes
/// them, then a function for each other method.
pub open spec fn rpc_statements(ast: Seq<ASTNode>) -> Seq<SwiftNode> {
    let fns = fn_nodes(ast);
    let subjects = subjects_nodes(fns);
    seq![SwiftNode::TopLevelDeclarations { items: seq![scope_node(directive_string(ast, "id"@))] }]
        + (if subjects.len() > 0 {
            seq![SwiftNode::TopLevelDeclarations { items: subjects }] + publishers_nodes(fns) + seq![consume_func_node(fns)]
        } else {
            Seq::empty()
        })
        + sync_nodes(fns)
}

/// The RPC struct, named after the namespace, where there are methods.
pub open spec fn rpc_nodes(ast: Seq<ASTNode>) -> Seq<SwiftNode> {
    if fn_nodes(ast).len() == 0 {
        Seq::empty()
    } else {
        seq![SwiftNode::Struct {
            id: case_converted(directive_string(ast, "namespace"@), TextCase::Pascal) + "Rpc"@,
            body: rpc_statements(ast),
            extends: Seq::empty(),
        }]
    }
}

/// Whether a method has a Swift form: a signal's result has a name, a
/// default and a reader; a call's arguments and result can be written and
/// read.
pub open spec fn swift_fn_supported(n: FnASTNode) -> bool {
    if n.is_signal {
        n.return_type_id matches Some(t) ==> swift_type_supported(t@) && swift_default_supported(t@) && read_supported(t@)
    } else {
        &&& forall|k: int| 0 <= k < n.args@.len() ==> read_supported(#[trigger] n.args@[k].type_id@)
        &&& (n.return_type_id matches Some(t) ==> read_supported(t@))
    }
}

/// Whether the nodes name their namespace and scope with strings, and
/// every method has a Swift form.
pub open spec fn swift_rpc_supported(ast: Seq<ASTNode>) -> bool {
    &&& directive_value(ast, "namespace"@) matches Some(v) && v.literal is StringLiteral
    &&& directive_value(ast, "id"@) matches Some(v) && v.literal is StringLiteral
    &&& forall|i: int| 0 <= i < fn_nodes(ast).len() ==> swift_fn_supported(#[trigger] fn_nodes(ast)[i])
}

fn named_arg_ir(id: &str, value: SwiftIR) -> (res: SwiftIR)
    ensures
        res@ == named_arg_node(id@, value@),
{
    proof { reveal_with_fuel(sw_view, 2); }
    SwiftIR::AssignStructNamedArgument { id: copy_str(id), default_value_type_id: None, value: Some(Box::new(value)) }
}

fn address_ir(position: u32) -> (res: SwiftIR)
    ensures
        res@ == address_node(position),
{
    let scope = named_arg_ir("scopeId", id_ir("scopeId"));
    let method = named_arg_ir("methodId", SwiftIR::Id(nat_to_text(position as u64)));
    lines_ir(two(scope, method))
}

fn result_type_name_ir(n: &FnASTNode) -> (res: String)
    requires
        n.return_type_id matches Some(t) ==> swift_type_supported(t@),
    ensures
        res@ == result_type_name(*n),
{
    match &n.return_type_id {
        Some(t) => generate_type_id(t),
        None => String::from_str("Void"),
    }
}

/// Appends the stored declarations of a signal.
fn push_signal_subjects(n: &FnASTNode, out: &mut Vec<SwiftIR>)
    requires
        n.return_type_id matches Some(t) ==> swift_type_supported(t@) && swift_default_supported(t@),
    ensures
        sw_views(final(out)@) == sw_views(old(out)@) + signal_subjects(*n),
{
    proof { reveal_with_fuel(sw_view, 3); }
    let name = to_case(n.id.as_str(), TextCase::Camel);
    let ghost start = sw_views(out@);
    if let Some(t) = &n.return_type_id {
        let value = SwiftIR::Id(generate_default_const_value(t));
        let current = SwiftIR::StaticVarDeclaration {
            id: cat(name.as_str(), "Current"),
            is_const: false,
            is_private: true,
            is_private_set: true,
            type_id: Some(Box::new(SwiftIR::TypeId(t.clone()))),
            value: Some(Box::new(value)),
        };
        proof { lemma_sw_views_push(out@, current); }
        out.push(current);
    }
    let ghost mid = sw_views(out@);
    let kind = cat3("PassthroughSubject<", result_type_name_ir(n).as_str(), ", Never>");
    let call = SwiftIR::Call { id: kind, arguments: None };
    let subject = SwiftIR::StaticVarDeclaration {
        id: cat(name.as_str(), "Subject"),
        is_const: true,
        is_private: true,
        is_private_set: false,
        type_id: None,
        value: Some(Box::new(call)),
    };
    proof { lemma_sw_views_push(out@, subject); }
    out.push(subject);
    proof {
        assert(mid =~= start + (match n.return_type_id {
            Some(t) => seq![current_node(*n, t@)],
            None => Seq::<SwiftNode>::empty(),
        }));
        assert(sw_views(out@) =~= start + signal_subjects(*n));
    }
}

fn publisher_ir(n: &FnASTNode) -> (res: SwiftIR)
    requires
        n.return_type_id matches Some(t) ==> swift_type_supported(t@),
    ensures
        res@ == publisher_node(*n),
{
    proof { reveal_with_fuel(sw_view, 5); }
    let name = to_case(n.id.as_str(), TextCase::Camel);
    let receive = SwiftIR::Call {
        id: String::from_str(".receive"),
        arguments: Some(Box::new(named_arg_ir("on", id_ir("DispatchQueue.main")))),
    };
    let erase = SwiftIR::Call { id: String::from_str(".eraseToAnyPublisher"), arguments: None };
    let chain_items = three(SwiftIR::Id(cat(name.as_str(), "Subject")), receive, erase);
    let chain = SwiftIR::ChainCalls { items: chain_items };
    let ret = SwiftIR::ReturnStatement { body: Box::new(chain) };
    let body = SwiftIR::Statements { items: one(ret) };
    let kind = cat3("AnyPublisher<", result_type_name_ir(n).as_str(), ", Never>");
    let block = SwiftIR::NamedBlock { id: kind, body: Box::new(body) };
    let decl = SwiftIR::StaticVarDeclaration {
        id: name,
        is_const: false,
        is_private: false,
        is_private_set: false,
        type_id: Some(Box::new(block)),
        value: None,
    };
    SwiftIR::TopLevelDeclarations { items: one(decl) }
}

fn consume_ir(n: &FnASTNode) -> (res: SwiftIR)
    requires
        n.return_type_id matches Some(t) ==> read_supported(t@),
    ensures
        res@ == consume_node(*n),
{
    proof { reveal_with_fuel(sw_view, 4); }
    let name = to_case(n.id.as_str(), TextCase::Camel);
    let mut items: Vec<SwiftIR> = Vec::new();
    if let Some(t) = &n.return_type_id {
        let read = generate_read(t);
        let decl = SwiftIR::VarDeclaration {
            id: String::from_str("value"),
            is_const: true,
            type_id: None,
            value: Some(Box::new(read)),
        };
        items = one(decl);
    }
    let ghost first = sw_views(items@);
    let value_id = if n.return_type_id.is_some() { "value" } else { "()" };
    let set = SwiftIR::SetVar { id: cat(name.as_str(), "Current"), value: Box::new(id_ir("value")) };
    let send = SwiftIR::Call { id: cat(name.as_str(), "Subject.send"), arguments: Some(Box::new(id_ir(value_id))) };
    proof { lemma_sw_views_push(items@, set); }
    items.push(set);
    proof { lemma_sw_views_push(items@, send); }
    items.push(send);
    proof {
        assert(first =~= (match n.return_type_id {
            Some(t) => seq![SwiftNode::VarDeclaration {
                id: "value"@,
                is_const: true,
                type_id: None,
                value: Some(Box::new(read_node(t@))),
            }],
            None => Seq::<SwiftNode>::empty(),
        }));
    }
    let body = SwiftIR::Statements { items };
    let res = SwiftIR::TrailingCall {
        id: String::from_str("runtime.consumeResult"),
        arguments: Some(Box::new(address_ir(n.position))),
        input: Some(Box::new(id_ir("bytesReader"))),
        body: Box::new(body),
    };
    proof {
        let value_node = if n.return_type_id is Some { "value"@ } else { "()"@ };
        assert(sw_views(items@) =~= first + seq![
            SwiftNode::SetVar { id: camel(n.id@) + "Current"@, value: Box::new(id_node("value"@)) },
            SwiftNode::Call { id: camel(n.id@) + "Subject.send"@, arguments: Some(Box::new(id_node(value_node))) },
        ]);
    }
    res
}

fn rpc_argument_ir(a: &FnArgASTNode) -> (res: SwiftIR)
    ensures
        res@ == rpc_argument_node(*a),
{
    proof { reveal_with_fuel(sw_view, 2); }
    SwiftIR::FunctionArgument {
        id: to_case(a.id.as_str(), TextCase::Camel),
        named: true,
        type_id: Box::new(SwiftIR::TypeId(a.type_id.clone())),
    }
}

fn rpc_arguments_ir(args: &Vec<FnArgASTNode>) -> (res: Vec<SwiftIR>)
    ensures
        sw_views(res@) == args@.map_values(|a: FnArgASTNode| rpc_argument_node(a)),
{
    let mut res: Vec<SwiftIR> = Vec::new();
    let mut i: usize = 0;
    while i < args.len()
        invariant
            i <= args@.len(),
            sw_views(res@) == args@.take(i as int).map_values(|a: FnArgASTNode| rpc_argument_node(a)),
        decreases args@.len() - i,
    {
        let node = rpc_argument_ir(&args[i]);
        proof {
            lemma_sw_views_push(res@, node);
            assert(args@.take(i + 1).map_values(|a: FnArgASTNode| rpc_argument_node(a))
                =~= args@.take(i as int).map_values(|a: FnArgASTNode| rpc_argument_node(a)).push(rpc_argument_node(args@[i as int])));
        }
        res.push(node);
        i = i + 1;
    }
    assert(args@.take(args@.len() as int) =~= args@);
    res
}

fn rpc_writes_ir(args: &Vec<FnArgASTNode>) -> (res: Vec<SwiftIR>)
    requires
        forall|k: int| 0 <= k < args@.len() ==> read_supported(#[trigger] args@[k].type_id@),
    ensures
        sw_views(res@) == args@.map_values(|a: FnArgASTNode| rpc_write_node(a)),
{
    let mut res: Vec<SwiftIR> = Vec::new();
    let mut i: usize = 0;
    while i < args.len()
        invariant
            i <= args@.len(),
            forall|k: int| 0 <= k < args@.len() ==> read_supported(#[trigger] args@[k].type_id@),
            sw_views(res@) == args@.take(i as int).map_values(|a: FnArgASTNode| rpc_write_node(a)),
        decreases args@.len() - i,
    {
        let a = &args[i];
        let name = to_case(a.id.as_str(), TextCase::Camel);
        let node = generate_write(&a.type_id, name.as_str());
        proof {
            lemma_sw_views_push(res@, node);
            assert(args@.take(i + 1).map_values(|a: FnArgASTNode| rpc_write_node(a))
                =~= args@.take(i as int).map_values(|a: FnArgASTNode| rpc_write_node(a)).push(rpc_write_node(args@[i as int])));
        }
        res.push(node);
        i = i + 1;
    }
    assert(args@.take(args@.len() as int) =~= args@);
    res
}

fn write_args_ir(n: &FnASTNode) -> (res: SwiftIR)
    requires
        forall|k: int| 0 <= k < n.args@.len() ==> read_supported(#[trigger] n.args@[k].type_id@),
    ensures
        res@ == write_args_node(*n),
{
    proof { reveal_with_fuel(sw_view, 2); }
    let writes = SwiftIR::Statements { items: rpc_writes_ir(&n.args) };
    SwiftIR::TrailingCall {
        id: String::from_str("runtime.writeArgs"),
        arguments: None,
        input: Some(Box::new(id_ir("bytesWriter"))),
        body: Box::new(writes),
    }
}

fn read_result_ir(t: &TypeIDASTNode) -> (res: SwiftIR)
    requires
        read_supported(t@),
    ensures
        res@ == read_result_node(t@),
{
    proof { reveal_with_fuel(sw_view, 4); }
    let read_ret = SwiftIR::ReturnStatement { body: Box::new(generate_read(t)) };
    let read_call = SwiftIR::TrailingCall {
        id: String::from_str("runtime.readResult"),
        arguments: None,
        input: Some(Box::new(id_ir("bytesReader"))),
        body: Box::new(SwiftIR::Statements { items: one(read_ret) }),
    };
    SwiftIR::ReturnStatement { body: Box::new(read_call) }
}

fn rpc_call_statements_ir(n: &FnASTNode) -> (res: Vec<SwiftIR>)
    requires
        !n.is_signal,
        swift_fn_supported(*n),
    ensures
        sw_views(res@) == rpc_call_statements(*n),
{
    proof { reveal_with_fuel(sw_view, 2); }
    let mut statements: Vec<SwiftIR> = Vec::new();
    if n.args.len() > 0 {
        statements = one(write_args_ir(n));
    }
    let ghost first = sw_views(statements@);
    let call = SwiftIR::Call { id: String::from_str("runtime.callRpc"), arguments: None };
    proof { lemma_sw_views_push(statements@, call); }
    statements.push(call);
    if let Some(t) = &n.return_type_id {
        let ret = read_result_ir(t);
        proof { lemma_sw_views_push(statements@, SwiftIR::Gap); }
        statements.push(SwiftIR::Gap);
        proof { lemma_sw_views_push(statements@, ret); }
        statements.push(ret);
    }
    proof {
        assert(sw_views(statements@) =~= rpc_call_statements(*n));
    }
    statements
}

fn sync_func_ir(n: &FnASTNode) -> (res: SwiftIR)
    requires
        !n.is_signal,
        swift_fn_supported(*n),
    ensures
        res@ == sync_func_node(*n),
{
    proof { reveal_with_fuel(sw_view, 4); }
    let body = SwiftIR::Statements { items: rpc_call_statements_ir(n) };
    let rpc = SwiftIR::TrailingCall {
        id: String::from_str("TechPawsBuffersRpc.rpc"),
        arguments: Some(Box::new(address_ir(n.position))),
        input: Some(Box::new(id_ir("runtime"))),
        body: Box::new(body),
    };
    let return_type_id = match &n.return_type_id {
        Some(t) => Some(Box::new(SwiftIR::TypeId(t.clone()))),
        None => None,
    };
    SwiftIR::Func {
        id: to_case(n.id.as_str(), TextCase::Camel),
        is_static: true,
        return_type_id,
        arguments: Some(Box::new(lines_ir(rpc_arguments_ir(&n.args)))),
        body: statements_ir(one(rpc)),
    }
}

fn subjects_ir(fns: &Vec<&FnASTNode>) -> (res: Vec<SwiftIR>)
    requires
        forall|k: int| 0 <= k < fns@.len() ==> swift_fn_supported(*#[trigger] fns@[k]),
    ensures
        sw_views(res@) == subjects_nodes(fn_values(fns@)),
{
    let ghost all = fn_values(fns@);
    let mut res: Vec<SwiftIR> = Vec::new();
    let mut i: usize = 0;
    while i < fns.len()
        invariant
            i <= fns@.len(),
            all == fn_values(fns@),
            forall|k: int| 0 <= k < fns@.len() ==> swift_fn_supported(*#[trigger] fns@[k]),
            sw_views(res@) == subjects_nodes(all.take(i as int)),
        decreases fns@.len() - i,
    {
        let n: &FnASTNode = fns[i];
        assert(swift_fn_supported(*fns@[i as int]));
        if n.is_signal {
            push_signal_subjects(n, &mut res);
        }
        assert(all.take(i + 1).drop_last() =~= all.take(i as int));
        i = i + 1;
    }
    assert(all.take(all.len() as int) =~= all);
    res
}

fn publishers_ir(fns: &Vec<&FnASTNode>) -> (res: Vec<SwiftIR>)
    requires
        forall|k: int| 0 <= k < fns@.len() ==> swift_fn_supported(*#[trigger] fns@[k]),
    ensures
        sw_views(res@) == publishers_nodes(fn_values(fns@)),
{
    let ghost all = fn_values(fns@);
    let mut res: Vec<SwiftIR> = Vec::new();
    let mut i: usize = 0;
    while i < fns.len()
        invariant
            i <= fns@.len(),
            all == fn_values(fns@),
            forall|k: int| 0 <= k < fns@.len() ==> swift_fn_supported(*#[trigger] fns@[k]),
            sw_views(res@) == publishers_nodes(all.take(i as int)),
        decreases fns@.len() - i,
    {
        let n: &FnASTNode = fns[i];
        assert(swift_fn_supported(*fns@[i as int]));
        if n.is_signal {
            let p = publisher_ir(n);
            proof { lemma_sw_views_push(res@, p); }
            res.push(p);
        }
        assert(all.take(i + 1).drop_last() =~= all.take(i as int));
        i = i + 1;
    }
    assert(all.take(all.len() as int) =~= all);
    res
}

fn consume_func_ir(fns: &Vec<&FnASTNode>) -> (res: SwiftIR)
    requires
        forall|k: int| 0 <= k < fns@.len() ==> swift_fn_supported(*#[trigger] fns@[k]),
    ensures
        res@ == consume_func_node(fn_values(fns@)),
{
    let ghost all = fn_values(fns@);
    let mut consumes: Vec<SwiftIR> = Vec::new();
    let mut i: usize = 0;
    while i < fns.len()
        invariant
            i <= fns@.len(),
            all == fn_values(fns@),
            forall|k: int| 0 <= k < fns@.len() ==> swift_fn_supported(*#[trigger] fns@[k]),
            sw_views(consumes@) == consume_nodes(all.take(i as int)),
        decreases fns@.len() - i,
    {
        let n: &FnASTNode = fns[i];
        assert(swift_fn_supported(*fns@[i as int]));
        if n.is_signal {
            let c = consume_ir(n);
            proof { lemma_sw_views_push(consumes@, c); }
            consumes.push(c);
        }
        assert(all.take(i + 1).drop_last() =~= all.take(i as int));
        i = i + 1;
    }
    assert(all.take(all.len() as int) =~= all);
    proof { reveal_with_fuel(sw_view, 3); }
    let runtime_arg = SwiftIR::FunctionArgument {
        id: String::from_str("runtime"),
        named: false,
        type_id: Box::new(id_ir("TechPawsBuffersStream")),
    };
    SwiftIR::Func {
        id: String::from_str("consumeStreams"),
        is_static: true,
        return_type_id: None,
        arguments: Some(Box::new(runtime_arg)),
        body: statements_ir(consumes),
    }
}

fn sync_funcs_ir(fns: &Vec<&FnASTNode>) -> (res: Vec<SwiftIR>)
    requires
        forall|k: int| 0 <= k < fns@.len() ==> swift_fn_supported(*#[trigger] fns@[k]),
    ensures
        sw_views(res@) == sync_nodes(fn_values(fns@)),
{
    let ghost all = fn_values(fns@);
    let mut res: Vec<SwiftIR> = Vec::new();
    let mut i: usize = 0;
    while i < fns.len()
        invariant
            i <= fns@.len(),
            all == fn_values(fns@),
            forall|k: int| 0 <= k < fns@.len() ==> swift_fn_supported(*#[trigger] fns@[k]),
            sw_views(res@) == sync_nodes(all.take(i as int)),
        decreases fns@.len() - i,
    {
        let n: &FnASTNode = fns[i];
        assert(swift_fn_supported(*fns@[i as int]));
        if !n.is_signal {
            let f = sync_func_ir(n);
            proof { lemma_sw_views_push(res@, f); }
            res.push(f);
        }
        assert(all.take(i + 1).drop_last() =~= all.take(i as int));
        i = i + 1;
    }
    assert(all.take(all.len() as int) =~= all);
    res
}

fn directive_string_ir(ast: &[ASTNode], target: &str) -> (res: String)
    requires
        directive_value(ast@, target@) matches Some(v) && v.literal is StringLiteral,
    ensures
        res@ == directive_string(ast@, target@),
{
    match find_directive_value(ast, target) {
        Some(ConstValueASTNode::Literal { literal: Literal::StringLiteral(s), .. }) => s,
        _ => String::new(),
    }
}

/// The Swift RPC struct, named after the `#[namespace = ".."]` directive,
/// where the nodes hold methods: the scope, the subjects and publishers of
/// the signals with the function that consumes them, and a function for
/// each other method.
pub fn generate_rpc(ast: &[ASTNode]) -> (res: Vec<SwiftIR>)
    requires
        swift_rpc_supported(ast@),
    ensures
        sw_views(res@) == rpc_nodes(ast@),
{
    proof { reveal_with_fuel(sw_view, 3); }
    let namespace = directive_string_ir(ast, "namespace");
    let scope = directive_string_ir(ast, "id");
    let fns = find_fn_nodes(ast);
    proof {
        assert(fn_values(fns@) =~= fn_nodes(ast@));
        assert forall|k: int| 0 <= k < fns@.len() implies swift_fn_supported(*#[trigger] fns@[k]) by {
            assert(swift_fn_supported(fn_nodes(ast@)[k]));
        }
    }
    let scope_value = SwiftIR::Id(cat3("\"", scope.as_str(), "\""));
    let scope_decl = SwiftIR::StaticVarDeclaration {
        id: String::from_str("scopeId"),
        is_const: true,
        is_private: true,
        is_private_set: false,
        type_id: None,
        value: Some(Box::new(scope_value)),
    };
    let mut statements = one(SwiftIR::TopLevelDeclarations { items: one(scope_decl) });
    let ghost head = sw_views(statements@);
    let subjects = subjects_ir(&fns);
    if subjects.len() > 0 {
        let decl = SwiftIR::TopLevelDeclarations { items: subjects };
        proof { lemma_sw_views_push(statements@, decl); }
        statements.push(decl);
        let mut publishers = publishers_ir(&fns);
        append_tokens(&mut statements, &mut publishers);
        let consume = consume_func_ir(&fns);
        proof { lemma_sw_views_push(statements@, consume); }
        statements.push(consume);
    }
    let mut syncs = sync_funcs_ir(&fns);
    append_tokens(&mut statements, &mut syncs);
    proof {
        assert(sw_views(statements@) =~= rpc_statements(ast@));
    }
    if fns.len() > 0 {
        let id = cat(to_case(namespace.as_str(), TextCase::Pascal).as_str(), "Rpc");
        let rpc = SwiftIR::Struct { id, body: statements, extends: Vec::new() };
        one(rpc)
    } else {
        Vec::new()
    }
}


/// The discriminant that `writeToBuffers` writes for each case is the very
/// label that `readFromBuffers` switches on for that case, and both are the
/// case's position: the `k`-th case of the write switch first writes, as a
/// `UInt32`, the value that labels the `k`-th case of the read switch, so
/// reading back what was written selects the same case.
pub proof fn lemma_swift_enum_discriminants_agree(node: EnumASTNode)
    ensures
        forall|k: int| #![trigger node.items@[k]] 0 <= k < node.items@.len() ==> {
            let c = node.items@[k];
            &&& enum_read_node(node) matches SwiftNode::Func { body: Some(rb), .. }
            &&& enum_write_node(node) matches SwiftNode::Func { body: Some(wb), .. }
            &&& match (*rb, *wb) {
                (SwiftNode::Statements { items: ri }, SwiftNode::Statements { items: wi }) => {
                    &&& ri.len() == 3
                    &&& wi.len() == 2
                    &&& match (ri[2], wi[1]) {
                        (SwiftNode::Switch { body: rs, .. }, SwiftNode::Switch { body: ws, .. }) => match (*rs, *ws) {
                            (SwiftNode::Statements { items: rcases }, SwiftNode::Statements { items: wcases }) => {
                                &&& rcases.len() == node.items@.len() + 1
                                &&& wcases.len() == node.items@.len()
                                &&& match (rcases[k], wcases[k]) {
                                    (SwiftNode::Case { item: label, .. }, SwiftNode::Case { body: wbody, .. }) => {
                                        &&& *label == SwiftNode::Id(nat_text(c.spec_position() as nat))
                                        &&& match *wbody {
                                            SwiftNode::Statements { items: writes } => {
                                                &&& writes.len() > 0
                                                &&& writes[0] == (SwiftNode::Call {
                                                    id: "bytesWriter.write"@ + swift_type_text(u32_type()),
                                                    arguments: Some(Box::new(*label)),
                                                })
                                            },
                                            _ => false,
                                        }
                                    },
                                    _ => false,
                                }
                            },
                            _ => false,
                        },
                        _ => false,
                    }
                },
                _ => false,
            }
        },
{
    let items = node.items@;
    let reads = items.map_values(|c: EnumItemASTNode| read_case_node(c)).push(invalid_case_node());
    let writes = items.map_values(|c: EnumItemASTNode| write_case_node(c));
    assert forall|k: int| #![trigger node.items@[k]] 0 <= k < items.len() implies reads[k] == read_case_node(items[k])
        && writes[k] == write_case_node(items[k]) by {}
}


/// The range of a loop, if the node is one.
pub open spec fn loop_range(t: SwiftNode) -> Option<SwiftNode> {
    match t {
        SwiftNode::ForLoop { collection_expr, .. } => Some(*collection_expr),
        _ => None,
    }
}

/// The statements of a function's body, if it has one.
pub open spec fn func_statements(t: SwiftNode) -> Seq<SwiftNode> {
    match t {
        SwiftNode::Func { body: Some(b), .. } => match *b {
            SwiftNode::Statements { items } => items,
            _ => Seq::empty(),
        },
        _ => Seq::empty(),
    }
}

/// The skip methods of Swift models run their body exactly `count` times:
/// the one statement of `skipInBuffers`, for a struct with fields and for
/// an enum, is a loop over the range written `1...count`, Swift's closed
/// range from 1 through `count`.
pub proof fn lemma_swift_skip_runs_count_times(snode: StructASTNode, enode: EnumASTNode, s: WriterState)
    requires
        snode.fields@.len() > 0,
    ensures
        func_statements(struct_skip_node(snode)).len() == 1,
        loop_range(func_statements(struct_skip_node(snode))[0]) matches Some(r)
            && sw_write(s, r).text == s.text + "1...count"@,
        func_statements(enum_skip_node(enode)).len() == 1,
        loop_range(func_statements(enum_skip_node(enode))[0]) matches Some(r)
            && sw_write(s, r).text == s.text + "1...count"@,
{
    reveal_strlit("1");
    reveal_strlit("...");
    reveal_strlit("count");
    reveal_strlit("1...count");
    reveal_with_fuel(sw_write, 2);
    let r = SwiftNode::Range { from: Box::new(id_node("1"@)), to: Box::new(id_node("count"@)) };
    assert(sw_write(s, r).text =~= s.text + "1...count"@);
}

} // verus!
