use vstd::prelude::*;
use crate::ast::{ASTNode, FnASTNode, FnArgASTNode, ConstASTNode, ConstItemASTNode, TypeId, TypeIDASTNode, StructASTNode, StructFieldASTNode, EnumASTNode, EnumItemASTNode, TupleFieldASTNode, lemma_type_ids_view};
use crate::kotlin::ir::{KotlinIR, KotlinNode, kt_view, kt_views, kt_view_opt, lemma_kt_views, lemma_kt_views_eq, lemma_kt_views_push, generate_type_id, kotlin_type_supported, kotlin_type_text, kt_write};
use crate::writer::WriterState;
use crate::text::{cat, copy_str, nat_text, nat_to_text, str_eq, to_case, case_converted, TextCase};

verus! {

/// The Kotlin form of a block of constants: an object named after the
/// block in Pascal case, holding one item for each of the block's items, in
/// order.
pub open spec fn const_block_node(node: ConstASTNode) -> KotlinNode
    decreases node, 2nat,
{
    KotlinNode::Object {
        id: case_converted(node.id@, TextCase::Pascal),
        is_data_object: false,
        extends: Seq::empty(),
        body: const_items_nodes(node.items@),
    }
}

/// The Kotlin forms of the items, in order.
pub open spec fn const_items_nodes(items: Seq<ConstItemASTNode>) -> Seq<KotlinNode>
    decreases items, 0nat,
{
    if items.len() == 0 {
        Seq::empty()
    } else {
        const_items_nodes(items.drop_last()).push(const_item_node(items.last()))
    }
}

/// The Kotlin form of an item of a block of constants: `const val id: T =
/// v`, or the form of the nested block.
pub open spec fn const_item_node(item: ConstItemASTNode) -> KotlinNode
    decreases item, 1nat,
{
    match item {
        ConstItemASTNode::Value { id, type_id, value } => KotlinNode::Declaration {
            separator: None,
            body: Box::new(KotlinNode::ValDeclaration {
                id: id@,
                is_const: true,
                is_private: false,
                is_private_set: false,
                type_id: Some(Box::new(KotlinNode::TypeId(type_id@))),
                value: Some(Box::new(KotlinNode::ConstValueExpr { type_id: type_id@, value: value@ })),
            }),
        },
        ConstItemASTNode::ConstNode { node } => const_block_node(node),
    }
}

/// The Kotlin forms of the blocks of constants among the nodes, in order.
pub open spec fn consts_nodes(ast: Seq<ASTNode>) -> Seq<KotlinNode>
    decreases ast.len(),
{
    if ast.len() == 0 {
        Seq::empty()
    } else {
        let rest = consts_nodes(ast.drop_last());
        match ast.last() {
            ASTNode::Const(node) => rest.push(const_block_node(node)),
            _ => rest,
        }
    }
}

/// The Kotlin form of each block of constants among the nodes, in order.
pub fn generate_consts(ast: &[ASTNode]) -> (res: Vec<KotlinIR>)
    ensures
        kt_views(res@) == consts_nodes(ast@),
{
    let mut tokens: Vec<KotlinIR> = Vec::new();
    let mut i: usize = 0;
    while i < ast.len()
        invariant
            i <= ast@.len(),
            kt_views(tokens@) == consts_nodes(ast@.take(i as int)),
        decreases ast@.len() - i,
    {
        assert(ast@.take(i + 1).drop_last() =~= ast@.take(i as int));
        if let ASTNode::Const(node) = &ast[i] {
            let ir = generate_const_block(node);
            proof { lemma_kt_views_push(tokens@, ir); }
            tokens.push(ir);
        }
        i = i + 1;
    }
    assert(ast@.take(ast@.len() as int) =~= ast@);
    tokens
}

/// The Kotlin form of a block of constants.
pub fn generate_const_block(const_node: &ConstASTNode) -> (res: KotlinIR)
    ensures
        res@ == const_block_node(*const_node),
    decreases const_node,
{
    let mut body: Vec<KotlinIR> = Vec::new();
    let mut i: usize = 0;
    while i < const_node.items.len()
        invariant
            i <= const_node.items@.len(),
            kt_views(body@) == const_items_nodes(const_node.items@.take(i as int)),
        decreases const_node.items@.len() - i,
    {
        proof { assert(decreases_to!(const_node.items@ => const_node.items@[i as int])); }
        let item = const_item(&const_node.items[i]);
        proof {
            lemma_kt_views_push(body@, item);
            assert(const_node.items@.take(i + 1).drop_last() =~= const_node.items@.take(i as int));
        }
        body.push(item);
        i = i + 1;
    }
    assert(const_node.items@.take(const_node.items@.len() as int) =~= const_node.items@);
    let extends: Vec<KotlinIR> = Vec::new();
    assert(kt_views(extends@) =~= Seq::empty());
    KotlinIR::Object {
        id: to_case(const_node.id.as_str(), TextCase::Pascal),
        is_data_object: false,
        extends,
        body,
    }
}

fn const_item(item: &ConstItemASTNode) -> (res: KotlinIR)
    ensures
        res@ == const_item_node(*item),
    decreases item,
{
    proof { reveal_with_fuel(kt_view, 3); }
    match item {
        ConstItemASTNode::Value { id, type_id, value } => {
            let t = KotlinIR::TypeId(type_id.clone());
            let v = KotlinIR::ConstValueExpr { type_id: type_id.clone(), value: value.clone() };
            let decl = KotlinIR::ValDeclaration {
                id: id.clone(),
                is_const: true,
                is_private: false,
                is_private_set: false,
                type_id: Some(Box::new(t)),
                value: Some(Box::new(v)),
            };
            KotlinIR::Declaration { separator: None, body: Box::new(decl) }
        },
        ConstItemASTNode::ConstNode { node } => generate_const_block(node),
    }
}

/// An identifier or any text written as it stands.
pub open spec fn id_node(t: Seq<char>) -> KotlinNode {
    KotlinNode::Id(t)
}

/// A name in camel case.
pub open spec fn camel(t: Seq<char>) -> Seq<char> {
    case_converted(t, TextCase::Camel)
}

/// Items separated by commas on one line.
pub open spec fn inline_list_node(items: Seq<KotlinNode>) -> KotlinNode {
    KotlinNode::List { items, separator: ","@, new_line: false }
}

/// Items separated by commas, one per line.
pub open spec fn lines_node(items: Seq<KotlinNode>) -> KotlinNode {
    KotlinNode::List { items, separator: ","@, new_line: true }
}

/// A function argument of the given type.
pub open spec fn argument_node(id: Seq<char>, kind: Seq<char>) -> KotlinNode {
    KotlinNode::FunctionArgument { id, type_id: Box::new(id_node(kind)) }
}

/// A block of statements.
pub open spec fn statements_node(items: Seq<KotlinNode>) -> Option<Box<KotlinNode>> {
    Some(Box::new(KotlinNode::Statements { items }))
}

/// Whether a value of the type can be read: an optional value or a list
/// needs its item type, which must be readable too; other generic and
/// plain types need a Kotlin name.
pub open spec fn read_supported(t: TypeId) -> bool
    decreases t,
{
    match t {
        TypeId::Generic { id, generics } => {
            if id == "Option"@ || id == "Vec"@ {
                generics.len() > 0 && read_supported(generics[0])
            } else {
                kotlin_type_supported(t)
            }
        },
        TypeId::Other { .. } => true,
        _ => kotlin_type_supported(t),
    }
}

/// Whether a value of the type can be written: an optional value or a
/// list needs its item type, which must be writable too.
pub open spec fn write_supported(t: TypeId) -> bool
    decreases t,
{
    match t {
        TypeId::Generic { id, generics } => {
            (id == "Option"@ || id == "Vec"@) ==> generics.len() > 0 && write_supported(generics[0])
        },
        _ => true,
    }
}

/// The expression that reads a value of the type from `reader`.
pub open spec fn read_node(t: TypeId) -> KotlinNode
    decreases t,
{
    match t {
        TypeId::Generic { id, generics } => {
            if (id == "Option"@ || id == "Vec"@) && generics.len() > 0 {
                KotlinNode::TrailingBlock {
                    call: Box::new(KotlinNode::Call {
                        id: if id == "Option"@ { "readFromBuffersOptional"@ } else { "readFromBuffersList"@ },
                        arguments: Some(Box::new(inline_list_node(seq![id_node("reader"@)]))),
                    }),
                    arguments: None,
                    body: Box::new(KotlinNode::Statements { items: seq![read_node(generics[0])] }),
                }
            } else {
                KotlinNode::Call {
                    id: kotlin_type_text(t) + ".readFromBuffers"@,
                    arguments: Some(Box::new(id_node("reader"@))),
                }
            }
        },
        TypeId::Other { id } => KotlinNode::Call { id: id + ".readFromBuffers"@, arguments: Some(Box::new(id_node("reader"@))) },
        _ => KotlinNode::Call {
            id: kotlin_type_text(t) + ".readFromBuffers"@,
            arguments: Some(Box::new(id_node("reader"@))),
        },
    }
}

/// The statement that writes `accessor`, a value of the type, to `writer`.
pub open spec fn write_node(t: TypeId, accessor: Seq<char>) -> KotlinNode
    decreases t,
{
    match t {
        TypeId::Generic { id, generics } => {
            if (id == "Option"@ || id == "Vec"@) && generics.len() > 0 {
                KotlinNode::TrailingBlock {
                    call: Box::new(KotlinNode::Call {
                        id: if id == "Option"@ { "writeToBuffersOptional"@ } else { "writeToBuffersList"@ },
                        arguments: Some(Box::new(inline_list_node(seq![id_node("writer"@), id_node(accessor)]))),
                    }),
                    arguments: Some(Box::new(id_node(accessor + "Item"@))),
                    body: Box::new(KotlinNode::Statements { items: seq![write_node(generics[0], accessor + "Item"@)] }),
                }
            } else {
                KotlinNode::Call { id: accessor + ".writeToBuffers"@, arguments: Some(Box::new(id_node("writer"@))) }
            }
        },
        _ => KotlinNode::Call { id: accessor + ".writeToBuffers"@, arguments: Some(Box::new(id_node("writer"@))) },
    }
}

pub open spec fn struct_field_node(f: StructFieldASTNode) -> KotlinNode {
    KotlinNode::Declaration {
        separator: Some(","@),
        body: Box::new(KotlinNode::ValDeclaration {
            id: camel(f.name@),
            is_const: false,
            is_private: false,
            is_private_set: false,
            type_id: Some(Box::new(KotlinNode::TypeId(f.type_id@))),
            value: None,
        }),
    }
}

pub open spec fn default_assign_node(f: StructFieldASTNode) -> KotlinNode {
    KotlinNode::Assign { id: f.name@, value: Box::new(KotlinNode::DefaultConstValueExpr(f.type_id@)) }
}

pub open spec fn read_field_node(f: StructFieldASTNode) -> KotlinNode {
    KotlinNode::ValDeclaration {
        id: camel(f.name@),
        is_const: false,
        is_private: false,
        is_private_set: false,
        type_id: None,
        value: Some(Box::new(read_node(f.type_id@))),
    }
}

pub open spec fn named_assign_node(f: StructFieldASTNode) -> KotlinNode {
    KotlinNode::Assign { id: f.name@, value: Box::new(id_node(camel(f.name@))) }
}

pub open spec fn skip_field_node(f: StructFieldASTNode) -> KotlinNode {
    read_node(f.type_id@)
}

pub open spec fn write_field_node(f: StructFieldASTNode) -> KotlinNode {
    write_node(f.type_id@, camel(f.name@))
}

/// Whether every field of the struct can be read and written.
pub open spec fn struct_supported(node: StructASTNode) -> bool {
    &&& forall|k: int| 0 <= k < node.fields@.len() ==> #[trigger] read_supported(node.fields@[k].type_id@)
    &&& forall|k: int| 0 <= k < node.fields@.len() ==> #[trigger] write_supported(node.fields@[k].type_id@)
}

/// `fun createDefault(): Id = Id(..)`, building the struct from defaults.
pub open spec fn struct_create_default_node(node: StructASTNode) -> KotlinNode {
    KotlinNode::FunInline {
        id: "createDefault"@,
        arguments: Seq::empty(),
        return_type_id: Box::new(KotlinNode::TypeId(TypeId::Other { id: node.id@ })),
        body: Box::new(KotlinNode::Call {
            id: node.id@,
            arguments: Some(Box::new(lines_node(node.fields@.map_values(|f: StructFieldASTNode| default_assign_node(f))))),
        }),
    }
}

/// `fun readFromBuffers(reader: Long): Id`: reads each field in order,
/// then builds the struct from them.
pub open spec fn struct_read_node(node: StructASTNode) -> KotlinNode {
    let reads = node.fields@.map_values(|f: StructFieldASTNode| read_field_node(f));
    let statements = (if node.fields@.len() > 0 {
        seq![KotlinNode::Statements { items: reads }, KotlinNode::Gap]
    } else {
        Seq::empty()
    }).push(KotlinNode::ReturnStatement {
        body: Box::new(KotlinNode::Call {
            id: node.id@,
            arguments: Some(Box::new(lines_node(node.fields@.map_values(|f: StructFieldASTNode| named_assign_node(f))))),
        }),
    });
    KotlinNode::Fun {
        id: "readFromBuffers"@,
        is_override: false,
        return_type_id: Some(Box::new(id_node(node.id@))),
        arguments: Some(Box::new(inline_list_node(seq![argument_node("reader"@, "Long"@)]))),
        body: statements_node(statements),
    }
}

/// The loop `for (i in 0..<count)` over the given statements.
pub open spec fn count_loop_node(items: Seq<KotlinNode>) -> KotlinNode {
    KotlinNode::ForLoop {
        item: None,
        collection_expr: Box::new(KotlinNode::Range {
            inclusive: false,
            from: Box::new(id_node("0"@)),
            to: Box::new(id_node("count"@)),
        }),
        body: Box::new(KotlinNode::Statements { items }),
    }
}

/// `fun skipInBuffers(reader: Long, count: Int)`: reads the fields `count`
/// times over.
pub open spec fn struct_skip_node(node: StructASTNode) -> KotlinNode {
    KotlinNode::Fun {
        id: "skipInBuffers"@,
        is_override: false,
        return_type_id: None,
        arguments: Some(Box::new(inline_list_node(seq![argument_node("reader"@, "Long"@), argument_node("count"@, "Int"@)]))),
        body: statements_node(if node.fields@.len() > 0 {
            seq![count_loop_node(node.fields@.map_values(|f: StructFieldASTNode| skip_field_node(f)))]
        } else {
            Seq::empty()
        }),
    }
}

/// `fun writeToBuffers(writer: Long)`: writes each field in order.
pub open spec fn struct_write_node(node: StructASTNode) -> KotlinNode {
    KotlinNode::Fun {
        id: "writeToBuffers"@,
        is_override: false,
        return_type_id: None,
        arguments: Some(Box::new(inline_list_node(seq![argument_node("writer"@, "Long"@)]))),
        body: statements_node(node.fields@.map_values(|f: StructFieldASTNode| write_field_node(f))),
    }
}

/// The Kotlin model of a struct: a class with the fields, a companion
/// object with the default constructor and the read and skip methods where
/// defaults are asked for, and the write method. It is a data class where
/// it has fields.
pub open spec fn struct_model_node(node: StructASTNode, generate_default: bool) -> KotlinNode {
    let fields = node.fields@.map_values(|f: StructFieldASTNode| struct_field_node(f));
    let companion = if generate_default {
        seq![KotlinNode::CompanionObject {
            body: seq![struct_create_default_node(node), struct_read_node(node), struct_skip_node(node)],
        }]
    } else {
        Seq::empty()
    };
    KotlinNode::Class {
        id: node.id@,
        is_data_class: fields.len() > 0,
        extends: Seq::empty(),
        fields,
        body: companion.push(struct_write_node(node)),
    }
}

/// The name that a tuple value at a position is bound to: `p0`, `p1`, ..
pub open spec fn p_name(v: TupleFieldASTNode) -> Seq<char> {
    "p"@ + nat_text(v.position as nat)
}

pub open spec fn tuple_field_node(v: TupleFieldASTNode) -> KotlinNode {
    KotlinNode::Declaration {
        separator: Some(","@),
        body: Box::new(KotlinNode::ValDeclaration {
            id: p_name(v),
            is_const: false,
            is_private: false,
            is_private_set: false,
            type_id: Some(Box::new(KotlinNode::TypeId(v.type_id@))),
            value: None,
        }),
    }
}

pub open spec fn case_field_node(f: StructFieldASTNode) -> KotlinNode {
    KotlinNode::Declaration {
        separator: Some(","@),
        body: Box::new(KotlinNode::ValDeclaration {
            id: f.name@,
            is_const: false,
            is_private: false,
            is_private_set: false,
            type_id: Some(Box::new(KotlinNode::TypeId(f.type_id@))),
            value: None,
        }),
    }
}

/// A case of an enum as Kotlin: a data object for a case without values, a
/// data class with the values as fields otherwise; each extends the enum's
/// interface.
pub open spec fn enum_case_node(enum_node: EnumASTNode, c: EnumItemASTNode) -> KotlinNode {
    match c {
        EnumItemASTNode::Empty { .. } => KotlinNode::Object {
            id: c.spec_id(),
            is_data_object: true,
            body: Seq::empty(),
            extends: seq![id_node(enum_node.id@)],
        },
        EnumItemASTNode::Tuple { values, .. } => KotlinNode::Class {
            id: c.spec_id(),
            is_data_class: true,
            extends: seq![id_node(enum_node.id@)],
            fields: values@.map_values(|v: TupleFieldASTNode| tuple_field_node(v)),
            body: Seq::empty(),
        },
        EnumItemASTNode::Struct { fields, .. } => KotlinNode::Class {
            id: c.spec_id(),
            is_data_class: true,
            extends: seq![id_node(enum_node.id@)],
            fields: fields@.map_values(|f: StructFieldASTNode| case_field_node(f)),
            body: Seq::empty(),
        },
    }
}

/// `fun skipInBuffers(reader: Long, count: Int)` of an enum: reads a value
/// `count` times over.
pub open spec fn enum_skip_node() -> KotlinNode {
    KotlinNode::Fun {
        id: "skipInBuffers"@,
        is_override: false,
        return_type_id: None,
        arguments: Some(Box::new(inline_list_node(seq![argument_node("reader"@, "Long"@), argument_node("count"@, "Int"@)]))),
        body: statements_node(seq![count_loop_node(seq![KotlinNode::Call {
            id: "readFromBuffers"@,
            arguments: Some(Box::new(id_node("reader"@))),
        }])]),
    }
}
/// The fields of a data class, each a `val` followed by a comma.
fn struct_fields_ir(items: &Vec<StructFieldASTNode>) -> (res: Vec<KotlinIR>)
    ensures
        kt_views(res@) == items@.map_values(|x: StructFieldASTNode| struct_field_node(x)),
{
    let mut res: Vec<KotlinIR> = Vec::new();
    let mut i: usize = 0;
    while i < items.len()
        invariant
            i <= items@.len(),
            kt_views(res@) == items@.take(i as int).map_values(|x: StructFieldASTNode| struct_field_node(x)),
        decreases items@.len() - i,
    {
        let item = &items[i];
        let type_id = KotlinIR::TypeId(item.type_id.clone());
        let decl = KotlinIR::ValDeclaration {
            id: to_case(item.name.as_str(), TextCase::Camel),
            is_const: false,
            is_private: false,
            is_private_set: false,
            type_id: Some(Box::new(type_id)),
            value: None,
        };
        let node = KotlinIR::Declaration { separator: Some(","), body: Box::new(decl) };
        proof {
            reveal_with_fuel(kt_view, 3);
            lemma_kt_views_push(res@, node);
            assert(items@.take(i + 1).map_values(|x: StructFieldASTNode| struct_field_node(x))
                =~= items@.take(i as int).map_values(|x: StructFieldASTNode| struct_field_node(x)).push(struct_field_node(items@[i as int])));
        }
        res.push(node);
        i = i + 1;
    }
    assert(items@.take(items@.len() as int) =~= items@);
    res
}

/// The arguments that build a struct from defaults.
fn default_assigns_ir(items: &Vec<StructFieldASTNode>) -> (res: Vec<KotlinIR>)
    ensures
        kt_views(res@) == items@.map_values(|x: StructFieldASTNode| default_assign_node(x)),
{
    let mut res: Vec<KotlinIR> = Vec::new();
    let mut i: usize = 0;
    while i < items.len()
        invariant
            i <= items@.len(),
            kt_views(res@) == items@.take(i as int).map_values(|x: StructFieldASTNode| default_assign_node(x)),
        decreases items@.len() - i,
    {
        let item = &items[i];
        let value = KotlinIR::DefaultConstValueExpr(item.type_id.clone());
        let node = KotlinIR::Assign { id: item.name.clone(), value: Box::new(value) };
        proof {
            reveal_with_fuel(kt_view, 3);
            lemma_kt_views_push(res@, node);
            assert(items@.take(i + 1).map_values(|x: StructFieldASTNode| default_assign_node(x))
                =~= items@.take(i as int).map_values(|x: StructFieldASTNode| default_assign_node(x)).push(default_assign_node(items@[i as int])));
        }
        res.push(node);
        i = i + 1;
    }
    assert(items@.take(items@.len() as int) =~= items@);
    res
}

/// The reads of the fields, each into a value.
fn read_fields_ir(items: &Vec<StructFieldASTNode>) -> (res: Vec<KotlinIR>)
    requires
        forall|k: int| 0 <= k < items@.len() ==> #[trigger] read_supported(items@[k].type_id@),
    ensures
        kt_views(res@) == items@.map_values(|x: StructFieldASTNode| read_field_node(x)),
{
    let mut res: Vec<KotlinIR> = Vec::new();
    let mut i: usize = 0;
    while i < items.len()
        invariant
            i <= items@.len(),
            forall|k: int| 0 <= k < items@.len() ==> #[trigger] read_supported(items@[k].type_id@),
            kt_views(res@) == items@.take(i as int).map_values(|x: StructFieldASTNode| read_field_node(x)),
        decreases items@.len() - i,
    {
        let item = &items[i];
        let value = generate_read(&item.type_id);
        let node = KotlinIR::ValDeclaration {
            id: to_case(item.name.as_str(), TextCase::Camel),
            is_const: false,
            is_private: false,
            is_private_set: false,
            type_id: None,
            value: Some(Box::new(value)),
        };
        proof {
            reveal_with_fuel(kt_view, 3);
            lemma_kt_views_push(res@, node);
            assert(items@.take(i + 1).map_values(|x: StructFieldASTNode| read_field_node(x))
                =~= items@.take(i as int).map_values(|x: StructFieldASTNode| read_field_node(x)).push(read_field_node(items@[i as int])));
        }
        res.push(node);
        i = i + 1;
    }
    assert(items@.take(items@.len() as int) =~= items@);
    res
}

/// The arguments that build a struct from the values read.
fn named_assigns_ir(items: &Vec<StructFieldASTNode>) -> (res: Vec<KotlinIR>)
    ensures
        kt_views(res@) == items@.map_values(|x: StructFieldASTNode| named_assign_node(x)),
{
    let mut res: Vec<KotlinIR> = Vec::new();
    let mut i: usize = 0;
    while i < items.len()
        invariant
            i <= items@.len(),
            kt_views(res@) == items@.take(i as int).map_values(|x: StructFieldASTNode| named_assign_node(x)),
        decreases items@.len() - i,
    {
        let item = &items[i];
        let value = KotlinIR::Id(to_case(item.name.as_str(), TextCase::Camel));
        let node = KotlinIR::Assign { id: item.name.clone(), value: Box::new(value) };
        proof {
            reveal_with_fuel(kt_view, 3);
            lemma_kt_views_push(res@, node);
            assert(items@.take(i + 1).map_values(|x: StructFieldASTNode| named_assign_node(x))
                =~= items@.take(i as int).map_values(|x: StructFieldASTNode| named_assign_node(x)).push(named_assign_node(items@[i as int])));
        }
        res.push(node);
        i = i + 1;
    }
    assert(items@.take(items@.len() as int) =~= items@);
    res
}

/// The reads that skip the fields.
fn skip_fields_ir(items: &Vec<StructFieldASTNode>) -> (res: Vec<KotlinIR>)
    requires
        forall|k: int| 0 <= k < items@.len() ==> #[trigger] read_supported(items@[k].type_id@),
    ensures
        kt_views(res@) == items@.map_values(|x: StructFieldASTNode| skip_field_node(x)),
{
    let mut res: Vec<KotlinIR> = Vec::new();
    let mut i: usize = 0;
    while i < items.len()
        invariant
            i <= items@.len(),
            forall|k: int| 0 <= k < items@.len() ==> #[trigger] read_supported(items@[k].type_id@),
            kt_views(res@) == items@.take(i as int).map_values(|x: StructFieldASTNode| skip_field_node(x)),
        decreases items@.len() - i,
    {
        let item = &items[i];
        let node = generate_read(&item.type_id);
        proof {
            lemma_kt_views_push(res@, node);
            assert(items@.take(i + 1).map_values(|x: StructFieldASTNode| skip_field_node(x))
                =~= items@.take(i as int).map_values(|x: StructFieldASTNode| skip_field_node(x)).push(skip_field_node(items@[i as int])));
        }
        res.push(node);
        i = i + 1;
    }
    assert(items@.take(items@.len() as int) =~= items@);
    res
}

/// The writes of the fields.
fn write_fields_ir(items: &Vec<StructFieldASTNode>) -> (res: Vec<KotlinIR>)
    requires
        forall|k: int| 0 <= k < items@.len() ==> #[trigger] write_supported(items@[k].type_id@),
    ensures
        kt_views(res@) == items@.map_values(|x: StructFieldASTNode| write_field_node(x)),
{
    let mut res: Vec<KotlinIR> = Vec::new();
    let mut i: usize = 0;
    while i < items.len()
        invariant
            i <= items@.len(),
            forall|k: int| 0 <= k < items@.len() ==> #[trigger] write_supported(items@[k].type_id@),
            kt_views(res@) == items@.take(i as int).map_values(|x: StructFieldASTNode| write_field_node(x)),
        decreases items@.len() - i,
    {
        let item = &items[i];
        let node = generate_write(&item.type_id, to_case(item.name.as_str(), TextCase::Camel).as_str());
        proof {
            lemma_kt_views_push(res@, node);
            assert(items@.take(i + 1).map_values(|x: StructFieldASTNode| write_field_node(x))
                =~= items@.take(i as int).map_values(|x: StructFieldASTNode| write_field_node(x)).push(write_field_node(items@[i as int])));
        }
        res.push(node);
        i = i + 1;
    }
    assert(items@.take(items@.len() as int) =~= items@);
    res
}

/// The values of a tuple case, each a `val pN` followed by a comma.
fn tuple_fields_ir(items: &Vec<TupleFieldASTNode>) -> (res: Vec<KotlinIR>)
    ensures
        kt_views(res@) == items@.map_values(|x: TupleFieldASTNode| tuple_field_node(x)),
{
    let mut res: Vec<KotlinIR> = Vec::new();
    let mut i: usize = 0;
    while i < items.len()
        invariant
            i <= items@.len(),
            kt_views(res@) == items@.take(i as int).map_values(|x: TupleFieldASTNode| tuple_field_node(x)),
        decreases items@.len() - i,
    {
        let item = &items[i];
        let type_id = KotlinIR::TypeId(item.type_id.clone());
        let decl = KotlinIR::ValDeclaration {
            id: positional_name(item.position),
            is_const: false,
            is_private: false,
            is_private_set: false,
            type_id: Some(Box::new(type_id)),
            value: None,
        };
        let node = KotlinIR::Declaration { separator: Some(","), body: Box::new(decl) };
        proof {
            reveal_with_fuel(kt_view, 3);
            lemma_kt_views_push(res@, node);
            assert(items@.take(i + 1).map_values(|x: TupleFieldASTNode| tuple_field_node(x))
                =~= items@.take(i as int).map_values(|x: TupleFieldASTNode| tuple_field_node(x)).push(tuple_field_node(items@[i as int])));
        }
        res.push(node);
        i = i + 1;
    }
    assert(items@.take(items@.len() as int) =~= items@);
    res
}

/// The fields of a struct case, each a `val` followed by a comma.
fn case_fields_ir(items: &Vec<StructFieldASTNode>) -> (res: Vec<KotlinIR>)
    ensures
        kt_views(res@) == items@.map_values(|x: StructFieldASTNode| case_field_node(x)),
{
    let mut res: Vec<KotlinIR> = Vec::new();
    let mut i: usize = 0;
    while i < items.len()
        invariant
            i <= items@.len(),
            kt_views(res@) == items@.take(i as int).map_values(|x: StructFieldASTNode| case_field_node(x)),
        decreases items@.len() - i,
    {
        let item = &items[i];
        let type_id = KotlinIR::TypeId(item.type_id.clone());
        let decl = KotlinIR::ValDeclaration {
            id: item.name.clone(),
            is_const: false,
            is_private: false,
            is_private_set: false,
            type_id: Some(Box::new(type_id)),
            value: None,
        };
        let node = KotlinIR::Declaration { separator: Some(","), body: Box::new(decl) };
        proof {
            reveal_with_fuel(kt_view, 3);
            lemma_kt_views_push(res@, node);
            assert(items@.take(i + 1).map_values(|x: StructFieldASTNode| case_field_node(x))
                =~= items@.take(i as int).map_values(|x: StructFieldASTNode| case_field_node(x)).push(case_field_node(items@[i as int])));
        }
        res.push(node);
        i = i + 1;
    }
    assert(items@.take(items@.len() as int) =~= items@);
    res
}


/// An identifier or any text written as it stands.
fn id_ir(t: &str) -> (res: KotlinIR)
    ensures
        res@ == id_node(t@),
{
    KotlinIR::Id(copy_str(t))
}

/// A function argument of the given type.
fn argument_ir(id: &str, kind: &str) -> (res: KotlinIR)
    ensures
        res@ == argument_node(id@, kind@),
{
    let type_id = id_ir(kind);
    KotlinIR::FunctionArgument { id: copy_str(id), type_id: Box::new(type_id) }
}

fn inline_list_ir(items: Vec<KotlinIR>) -> (res: KotlinIR)
    ensures
        res@ == inline_list_node(kt_views(items@)),
{
    KotlinIR::List { items, separator: ",", new_line: false }
}

fn lines_ir(items: Vec<KotlinIR>) -> (res: KotlinIR)
    ensures
        res@ == lines_node(kt_views(items@)),
{
    KotlinIR::List { items, separator: ",", new_line: true }
}

fn statements_ir(items: Vec<KotlinIR>) -> (res: Option<Box<KotlinIR>>)
    ensures
        kt_view_opt(res) == statements_node(kt_views(items@)),
{
    Some(Box::new(KotlinIR::Statements { items }))
}

fn one(a: KotlinIR) -> (res: Vec<KotlinIR>)
    ensures
        kt_views(res@) == seq![a@],
{
    let res = vec![a];
    proof { lemma_kt_views_eq(res@, seq![a@]); }
    res
}

fn two(a: KotlinIR, b: KotlinIR) -> (res: Vec<KotlinIR>)
    ensures
        kt_views(res@) == seq![a@, b@],
{
    let res = vec![a, b];
    proof { lemma_kt_views_eq(res@, seq![a@, b@]); }
    res
}

fn three(a: KotlinIR, b: KotlinIR, c: KotlinIR) -> (res: Vec<KotlinIR>)
    ensures
        kt_views(res@) == seq![a@, b@, c@],
{
    let res = vec![a, b, c];
    proof { lemma_kt_views_eq(res@, seq![a@, b@, c@]); }
    res
}

fn none() -> (res: Vec<KotlinIR>)
    ensures
        kt_views(res@) == Seq::<KotlinNode>::empty(),
{
    let res: Vec<KotlinIR> = Vec::new();
    assert(kt_views(res@) =~= Seq::empty());
    res
}

/// The expression that reads a value of the type.
fn generate_read(type_id: &TypeIDASTNode) -> (res: KotlinIR)
    requires
        read_supported(type_id@),
    ensures
        res@ == read_node(type_id@),
    decreases type_id,
{
    proof { reveal_with_fuel(kt_view, 4); }
    match type_id {
        TypeIDASTNode::Generic { id, generics } => {
            let is_option = str_eq(id.as_str(), "Option");
            if (is_option || str_eq(id.as_str(), "Vec")) && generics.len() > 0 {
                proof {
                    lemma_type_ids_view(generics@);
                    assert(decreases_to!(*type_id => *generics));
                    assert(decreases_to!(*generics => generics[0]));
                }
                let inner = generate_read(&generics[0]);
                let call = KotlinIR::Call {
                    id: String::from_str(if is_option { "readFromBuffersOptional" } else { "readFromBuffersList" }),
                    arguments: Some(Box::new(inline_list_ir(one(id_ir("reader"))))),
                };
                KotlinIR::TrailingBlock {
                    call: Box::new(call),
                    arguments: None,
                    body: Box::new(KotlinIR::Statements { items: one(inner) }),
                }
            } else {
                let arguments = id_ir("reader");
                KotlinIR::Call {
                    id: cat(generate_type_id(type_id).as_str(), ".readFromBuffers"),
                    arguments: Some(Box::new(arguments)),
                }
            }
        },
        TypeIDASTNode::Other { id } => {
            let arguments = id_ir("reader");
            KotlinIR::Call { id: cat(id.as_str(), ".readFromBuffers"), arguments: Some(Box::new(arguments)) }
        },
        _ => {
            let arguments = id_ir("reader");
            KotlinIR::Call {
                id: cat(generate_type_id(type_id).as_str(), ".readFromBuffers"),
                arguments: Some(Box::new(arguments)),
            }
        },
    }
}

/// The statement that writes `accessor`, a value of the type.
fn generate_write(type_id: &TypeIDASTNode, accessor: &str) -> (res: KotlinIR)
    requires
        write_supported(type_id@),
    ensures
        res@ == write_node(type_id@, accessor@),
    decreases type_id,
{
    proof { reveal_with_fuel(kt_view, 4); }
    if let TypeIDASTNode::Generic { id, generics } = type_id {
        let is_option = str_eq(id.as_str(), "Option");
        if (is_option || str_eq(id.as_str(), "Vec")) && generics.len() > 0 {
            proof {
                lemma_type_ids_view(generics@);
                assert(decreases_to!(*type_id => *generics));
                assert(decreases_to!(*generics => generics[0]));
            }
            let item = cat(accessor, "Item");
            let inner = generate_write(&generics[0], item.as_str());
            let call = KotlinIR::Call {
                id: String::from_str(if is_option { "writeToBuffersOptional" } else { "writeToBuffersList" }),
                arguments: Some(Box::new(inline_list_ir(two(id_ir("writer"), id_ir(accessor))))),
            };
            let binding = id_ir(item.as_str());
            return KotlinIR::TrailingBlock {
                call: Box::new(call),
                arguments: Some(Box::new(binding)),
                body: Box::new(KotlinIR::Statements { items: one(inner) }),
            };
        }
    }
    let arguments = id_ir("writer");
    KotlinIR::Call { id: cat(accessor, ".writeToBuffers"), arguments: Some(Box::new(arguments)) }
}

/// `p` and the position, the name a tuple value is bound to.
fn positional_name(position: u32) -> (res: String)
    ensures
        res@ == "p"@ + nat_text(position as nat),
{
    cat("p", nat_to_text(position as u64).as_str())
}

fn create_struct_default_ir(node: &StructASTNode) -> (res: KotlinIR)
    ensures
        res@ == struct_create_default_node(*node),
{
    proof { reveal_with_fuel(kt_view, 3); }
    let arguments = lines_ir(default_assigns_ir(&node.fields));
    let call = KotlinIR::Call { id: node.id.clone(), arguments: Some(Box::new(arguments)) };
    let struct_type = KotlinIR::TypeId(TypeIDASTNode::Other { id: node.id.clone() });
    KotlinIR::FunInline { id: String::from_str("createDefault"), arguments: none(), return_type_id: Box::new(struct_type), body: Box::new(call) }
}

fn struct_read_statements(node: &StructASTNode) -> (res: Vec<KotlinIR>)
    requires
        struct_supported(*node),
    ensures
        kt_views(res@) == struct_read_node(*node)->Fun_body.unwrap()->Statements_items,
{
    proof { reveal_with_fuel(kt_view, 3); }
    let mut method_statements = none();
    let read_body = read_fields_ir(&node.fields);
    if node.fields.len() > 0 {
        method_statements = two(KotlinIR::Statements { items: read_body }, KotlinIR::Gap);
    }
    let arguments = lines_ir(named_assigns_ir(&node.fields));
    let call = KotlinIR::Call { id: node.id.clone(), arguments: Some(Box::new(arguments)) };
    let ret = KotlinIR::ReturnStatement { body: Box::new(call) };
    proof { lemma_kt_views_push(method_statements@, ret); }
    method_statements.push(ret);
    method_statements
}

fn generate_struct_read_from_buffers_method(node: &StructASTNode) -> (res: KotlinIR)
    requires
        struct_supported(*node),
    ensures
        res@ == struct_read_node(*node),
{
    let method_statements = struct_read_statements(node);
    let struct_id = id_ir(node.id.as_str());
    let arguments = inline_list_ir(one(argument_ir("reader", "Long")));
    KotlinIR::Fun {
        id: String::from_str("readFromBuffers"),
        is_override: false,
        return_type_id: Some(Box::new(struct_id)),
        arguments: Some(Box::new(arguments)),
        body: statements_ir(method_statements),
    }
}

fn count_loop_ir(items: Vec<KotlinIR>) -> (res: KotlinIR)
    ensures
        res@ == count_loop_node(kt_views(items@)),
{
    proof { reveal_with_fuel(kt_view, 3); }
    let range = KotlinIR::Range { inclusive: false, from: Box::new(id_ir("0")), to: Box::new(id_ir("count")) };
    KotlinIR::ForLoop { item: None, collection_expr: Box::new(range), body: Box::new(KotlinIR::Statements { items }) }
}

fn generate_struct_skip_in_buffers_method(node: &StructASTNode) -> (res: KotlinIR)
    requires
        struct_supported(*node),
    ensures
        res@ == struct_skip_node(*node),
{
    let read_body = skip_fields_ir(&node.fields);
    let method_statements = if node.fields.len() > 0 { one(count_loop_ir(read_body)) } else { none() };
    let arguments = inline_list_ir(two(argument_ir("reader", "Long"), argument_ir("count", "Int")));
    KotlinIR::Fun {
        id: String::from_str("skipInBuffers"),
        is_override: false,
        return_type_id: None,
        arguments: Some(Box::new(arguments)),
        body: statements_ir(method_statements),
    }
}

fn generate_struct_write_to_buffers_method(node: &StructASTNode) -> (res: KotlinIR)
    requires
        struct_supported(*node),
    ensures
        res@ == struct_write_node(*node),
{
    let method_statements = write_fields_ir(&node.fields);
    let arguments = inline_list_ir(one(argument_ir("writer", "Long")));
    KotlinIR::Fun {
        id: String::from_str("writeToBuffers"),
        is_override: false,
        return_type_id: None,
        arguments: Some(Box::new(arguments)),
        body: statements_ir(method_statements),
    }
}

pub fn generate_struct_model(node: &StructASTNode, generate_default: bool) -> (res: KotlinIR)
    requires
        struct_supported(*node),
    ensures
        res@ == struct_model_node(*node, generate_default),
{
    let fields = struct_fields_ir(&node.fields);
    let mut body = none();
    if generate_default {
        let create = create_struct_default_ir(node);
        let read = generate_struct_read_from_buffers_method(node);
        let skip = generate_struct_skip_in_buffers_method(node);
        body = one(KotlinIR::CompanionObject { body: three(create, read, skip) });
    }
    let write = generate_struct_write_to_buffers_method(node);
    proof { lemma_kt_views_push(body@, write); }
    body.push(write);
    proof { lemma_kt_views(fields@); }
    let is_data_class = fields.len() > 0;
    KotlinIR::Class { id: node.id.clone(), is_data_class, extends: none(), fields, body }
}

pub fn generate_enum_case(enum_node: &EnumASTNode, case_node: &EnumItemASTNode) -> (res: KotlinIR)
    ensures
        res@ == enum_case_node(*enum_node, *case_node),
{
    let case_id = copy_str(case_node.id());
    let extends = one(id_ir(enum_node.id.as_str()));
    match case_node {
        EnumItemASTNode::Empty { .. } => {
            KotlinIR::Object { id: case_id, is_data_object: true, body: none(), extends }
        },
        EnumItemASTNode::Tuple { values, .. } => {
            KotlinIR::Class { id: case_id, is_data_class: true, extends, fields: tuple_fields_ir(values), body: none() }
        },
        EnumItemASTNode::Struct { fields, .. } => {
            KotlinIR::Class { id: case_id, is_data_class: true, extends, fields: case_fields_ir(fields), body: none() }
        },
    }
}

fn generate_enum_skip_in_buffers_method() -> (res: KotlinIR)
    ensures
        res@ == enum_skip_node(),
{
    let read = KotlinIR::Call { id: String::from_str("readFromBuffers"), arguments: Some(Box::new(id_ir("reader"))) };
    let arguments = inline_list_ir(two(argument_ir("reader", "Long"), argument_ir("count", "Int")));
    KotlinIR::Fun {
        id: String::from_str("skipInBuffers"),
        is_override: false,
        return_type_id: None,
        arguments: Some(Box::new(arguments)),
        body: statements_ir(one(count_loop_ir(one(read)))),
    }
}


/// An argument of a method: its name in camel case and its type.
pub open spec fn rpc_argument_node(a: FnArgASTNode) -> KotlinNode {
    KotlinNode::FunctionArgument { id: case_converted(a.id@, TextCase::Camel), type_id: Box::new(KotlinNode::TypeId(a.type_id@)) }
}

/// The statement that writes an argument of a method.
pub open spec fn rpc_write_node(a: FnArgASTNode) -> KotlinNode {
    write_node(a.type_id@, case_converted(a.id@, TextCase::Camel))
}

/// The arguments written through `runtime.writeArgs`.
pub open spec fn write_args_node(n: FnASTNode) -> KotlinNode {
    KotlinNode::TrailingBlock {
        call: Box::new(id_node("runtime.writeArgs"@)),
        arguments: Some(Box::new(id_node("writer"@))),
        body: Box::new(KotlinNode::Statements { items: n.args@.map_values(|a: FnArgASTNode| rpc_write_node(a)) }),
    }
}

/// The result read through `runtime.readResult`.
pub open spec fn read_result_node(t: TypeId) -> KotlinNode {
    KotlinNode::TrailingBlock {
        call: Box::new(id_node("runtime.readResult"@)),
        arguments: Some(Box::new(id_node("reader"@))),
        body: Box::new(KotlinNode::Statements { items: seq![read_node(t)] }),
    }
}

/// The body of a call: the arguments written where there are any, the
/// call, and the result read back where there is one.
pub open spec fn rpc_body_nodes(n: FnASTNode) -> Seq<KotlinNode> {
    (if n.args@.len() > 0 { seq![write_args_node(n)] } else { Seq::empty() })
        + seq![KotlinNode::Call { id: "runtime.callRpc"@, arguments: None }]
        + (match n.return_type_id {
            Some(t) => seq![KotlinNode::Gap, read_result_node(t@)],
            None => Seq::empty(),
        })
}

/// `TechPawsBuffersRpcRuntime.rpc(scopeId = SCOPE_ID, methodId = <n>U)`,
/// returned where the method has a result.
pub open spec fn rpc_call_node(n: FnASTNode) -> KotlinNode {
    let call = KotlinNode::Call {
        id: "TechPawsBuffersRpcRuntime.rpc"@,
        arguments: Some(Box::new(lines_node(seq![
            KotlinNode::Assign { id: "scopeId"@, value: Box::new(id_node("SCOPE_ID"@)) },
            KotlinNode::Assign { id: "methodId"@, value: Box::new(id_node(nat_text(n.position as nat) + "U"@)) },
        ]))),
    };
    if n.return_type_id is Some { KotlinNode::ReturnStatement { body: Box::new(call) } } else { call }
}

/// The function that calls a method through the runtime.
pub open spec fn sync_rpc_method_node(n: FnASTNode) -> KotlinNode {
    KotlinNode::Fun {
        id: case_converted(n.id@, TextCase::Camel),
        is_override: false,
        return_type_id: match n.return_type_id {
            Some(t) => Some(Box::new(KotlinNode::TypeId(t@))),
            None => None,
        },
        arguments: Some(Box::new(lines_node(n.args@.map_values(|a: FnArgASTNode| rpc_argument_node(a))))),
        body: statements_node(seq![KotlinNode::TrailingBlock {
            call: Box::new(rpc_call_node(n)),
            arguments: Some(Box::new(id_node("runtime"@))),
            body: Box::new(KotlinNode::Statements { items: rpc_body_nodes(n) }),
        }]),
    }
}

/// Whether a method's arguments can be written and its result read.
pub open spec fn rpc_method_supported(n: FnASTNode) -> bool {
    &&& forall|k: int| 0 <= k < n.args@.len() ==> write_supported(#[trigger] n.args@[k].type_id@)
    &&& (n.return_type_id matches Some(t) ==> read_supported(t@))
}

fn rpc_argument_ir(a: &FnArgASTNode) -> (res: KotlinIR)
    ensures
        res@ == rpc_argument_node(*a),
{
    proof { reveal_with_fuel(kt_view, 2); }
    KotlinIR::FunctionArgument {
        id: to_case(a.id.as_str(), TextCase::Camel),
        type_id: Box::new(KotlinIR::TypeId(a.type_id.clone())),
    }
}

fn rpc_arguments_ir(args: &Vec<FnArgASTNode>) -> (res: Vec<KotlinIR>)
    ensures
        kt_views(res@) == args@.map_values(|a: FnArgASTNode| rpc_argument_node(a)),
{
    let mut res: Vec<KotlinIR> = Vec::new();
    let mut i: usize = 0;
    proof { assert(kt_views(res@) =~= Seq::<KotlinNode>::empty()); }
    while i < args.len()
        invariant
            i <= args@.len(),
            kt_views(res@) == args@.take(i as int).map_values(|a: FnArgASTNode| rpc_argument_node(a)),
        decreases args@.len() - i,
    {
        let node = rpc_argument_ir(&args[i]);
        proof {
            lemma_kt_views_push(res@, node);
            assert(args@.take(i + 1).map_values(|a: FnArgASTNode| rpc_argument_node(a))
                =~= args@.take(i as int).map_values(|a: FnArgASTNode| rpc_argument_node(a)).push(rpc_argument_node(args@[i as int])));
        }
        res.push(node);
        i = i + 1;
    }
    assert(args@.take(args@.len() as int) =~= args@);
    res
}

fn rpc_writes_ir(args: &Vec<FnArgASTNode>) -> (res: Vec<KotlinIR>)
    requires
        forall|k: int| 0 <= k < args@.len() ==> write_supported(#[trigger] args@[k].type_id@),
    ensures
        kt_views(res@) == args@.map_values(|a: FnArgASTNode| rpc_write_node(a)),
{
    let mut res: Vec<KotlinIR> = Vec::new();
    let mut i: usize = 0;
    proof { assert(kt_views(res@) =~= Seq::<KotlinNode>::empty()); }
    while i < args.len()
        invariant
            i <= args@.len(),
            forall|k: int| 0 <= k < args@.len() ==> write_supported(#[trigger] args@[k].type_id@),
            kt_views(res@) == args@.take(i as int).map_values(|a: FnArgASTNode| rpc_write_node(a)),
        decreases args@.len() - i,
    {
        let a = &args[i];
        let name = to_case(a.id.as_str(), TextCase::Camel);
        let node = generate_write(&a.type_id, name.as_str());
        proof {
            lemma_kt_views_push(res@, node);
            assert(args@.take(i + 1).map_values(|a: FnArgASTNode| rpc_write_node(a))
                =~= args@.take(i as int).map_values(|a: FnArgASTNode| rpc_write_node(a)).push(rpc_write_node(args@[i as int])));
        }
        res.push(node);
        i = i + 1;
    }
    assert(args@.take(args@.len() as int) =~= args@);
    res
}

fn rpc_body_ir(n: &FnASTNode) -> (res: Vec<KotlinIR>)
    requires
        rpc_method_supported(*n),
    ensures
        kt_views(res@) == rpc_body_nodes(*n),
{
    proof { reveal_with_fuel(kt_view, 3); }
    let mut statements = none();
    if n.args.len() > 0 {
        let writes = KotlinIR::Statements { items: rpc_writes_ir(&n.args) };
        let block = KotlinIR::TrailingBlock {
            call: Box::new(id_ir("runtime.writeArgs")),
            arguments: Some(Box::new(id_ir("writer"))),
            body: Box::new(writes),
        };
        statements = one(block);
    }
    let call = KotlinIR::Call { id: String::from_str("runtime.callRpc"), arguments: None };
    proof { lemma_kt_views_push(statements@, call); }
    statements.push(call);
    if let Some(t) = &n.return_type_id {
        let read = KotlinIR::TrailingBlock {
            call: Box::new(id_ir("runtime.readResult")),
            arguments: Some(Box::new(id_ir("reader"))),
            body: Box::new(KotlinIR::Statements { items: one(generate_read(t)) }),
        };
        proof { lemma_kt_views_push(statements@, KotlinIR::Gap); }
        statements.push(KotlinIR::Gap);
        proof { lemma_kt_views_push(statements@, read); }
        statements.push(read);
    }
    proof { assert(kt_views(statements@) =~= rpc_body_nodes(*n)); }
    statements
}

fn rpc_call_ir(n: &FnASTNode) -> (res: KotlinIR)
    ensures
        res@ == rpc_call_node(*n),
{
    proof { reveal_with_fuel(kt_view, 4); }
    let scope = KotlinIR::Assign { id: String::from_str("scopeId"), value: Box::new(id_ir("SCOPE_ID")) };
    let method = KotlinIR::Assign {
        id: String::from_str("methodId"),
        value: Box::new(KotlinIR::Id(cat(nat_to_text(n.position as u64).as_str(), "U"))),
    };
    let call = KotlinIR::Call {
        id: String::from_str("TechPawsBuffersRpcRuntime.rpc"),
        arguments: Some(Box::new(lines_ir(two(scope, method)))),
    };
    if n.return_type_id.is_some() {
        KotlinIR::ReturnStatement { body: Box::new(call) }
    } else {
        call
    }
}

/// The Kotlin function that calls a method through the runtime: its
/// arguments in camel case are written, the call is made, and its result,
/// where it has one, is read back and returned.
pub fn generate_sync_rpc_method(node: &FnASTNode) -> (res: KotlinIR)
    requires
        rpc_method_supported(*node),
    ensures
        res@ == sync_rpc_method_node(*node),
{
    proof { reveal_with_fuel(kt_view, 3); }
    let body = KotlinIR::Statements { items: rpc_body_ir(node) };
    let block = KotlinIR::TrailingBlock {
        call: Box::new(rpc_call_ir(node)),
        arguments: Some(Box::new(id_ir("runtime"))),
        body: Box::new(body),
    };
    let return_type_id = match &node.return_type_id {
        Some(t) => Some(Box::new(KotlinIR::TypeId(t.clone()))),
        None => None,
    };
    KotlinIR::Fun {
        id: to_case(node.id.as_str(), TextCase::Camel),
        is_override: false,
        return_type_id,
        arguments: Some(Box::new(lines_ir(rpc_arguments_ir(&node.args)))),
        body: statements_ir(one(block)),
    }
}


/// The range of a loop, if the node is one.
pub open spec fn loop_range(t: KotlinNode) -> Option<KotlinNode> {
    match t {
        KotlinNode::ForLoop { collection_expr, .. } => Some(*collection_expr),
        _ => None,
    }
}

/// The statements of a function's body, if it has one.
pub open spec fn fun_statements(t: KotlinNode) -> Seq<KotlinNode> {
    match t {
        KotlinNode::Fun { body: Some(b), .. } => match *b {
            KotlinNode::Statements { items } => items,
            _ => Seq::empty(),
        },
        _ => Seq::empty(),
    }
}

/// The skip methods of Kotlin models run their body exactly `count` times:
/// the one statement of `skipInBuffers`, for a struct with fields and for
/// an enum, is a loop whose range is written `0..<count`, Kotlin's range
/// from 0 up to but not including `count`.
pub proof fn lemma_kotlin_skip_runs_count_times(node: StructASTNode, s: WriterState)
    requires
        node.fields@.len() > 0,
    ensures
        fun_statements(struct_skip_node(node)).len() == 1,
        loop_range(fun_statements(struct_skip_node(node))[0]) matches Some(r)
            && kt_write(s, r).text == s.text + "0..<count"@,
        fun_statements(enum_skip_node()).len() == 1,
        loop_range(fun_statements(enum_skip_node())[0]) matches Some(r)
            && kt_write(s, r).text == s.text + "0..<count"@,
{
    reveal_strlit("0");
    reveal_strlit("..<");
    reveal_strlit("count");
    reveal_strlit("0..<count");
    reveal_with_fuel(kt_write, 2);
    let r = KotlinNode::Range { inclusive: false, from: Box::new(id_node("0"@)), to: Box::new(id_node("count"@)) };
    assert(kt_write(s, r).text =~= s.text + "0..<count"@);
}

} // verus!
