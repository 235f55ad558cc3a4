use vstd::prelude::*;
use crate::ast::{
    ASTNode, ConstValueASTNode, EnumItemASTNode, FnASTNode, FnArgASTNode, StructFieldASTNode, TupleFieldASTNode,
    TypeIDASTNode, type_ids_view, lemma_type_ids_view, fn_nodes, find_fn_nodes, directive_value, find_directive_value,
};
use crate::swift::generator::{read_supported, struct_supported, enum_supported, item_supported, models_supported, swift_fn_supported, swift_rpc_supported};
use crate::lexer::Literal;
use crate::swift::ir::{
    SwiftIR, sw_view, sw_views, lemma_sw_views, sw_fits, sw_fits_all, swift_type_supported, swift_types_supported,
    swift_const_supported, swift_default_supported,
};
use crate::text::str_eq;

verus! {

/// Whether Swift has a name for the type.
pub fn type_supported(t: &TypeIDASTNode) -> (res: bool)
    ensures
        res == swift_type_supported(t@),
    decreases t, 1nat,
{
    match t {
        TypeIDASTNode::Integer { size, .. } => *size == 1 || *size == 4 || *size == 8,
        TypeIDASTNode::Number { size, .. } => *size == 4 || *size == 8,
        TypeIDASTNode::Generic { id, generics } => {
            proof { assert(decreases_to!(*t => *generics)); }
            let all = types_supported(generics);
            all && (!str_eq(id.as_str(), "Option") || generics.len() > 0)
        },
        _ => true,
    }
}

/// Whether Swift has a name for each of the types.
pub fn types_supported(ts: &Vec<TypeIDASTNode>) -> (res: bool)
    ensures
        res == swift_types_supported(type_ids_view(ts@)),
    decreases ts, 0nat,
{
    let mut i: usize = 0;
    proof { assert(type_ids_view(ts@.take(0)) =~= Seq::empty()); }
    while i < ts.len()
        invariant
            i <= ts@.len(),
            swift_types_supported(type_ids_view(ts@.take(i as int))),
        decreases ts@.len() - i,
    {
        proof {
            assert(decreases_to!(*ts => ts[i as int]));
            assert(ts@.take(i + 1).drop_last() =~= ts@.take(i as int));
            assert(type_ids_view(ts@.take(i + 1)) == type_ids_view(ts@.take(i as int)).push(ts@[i as int]@));
            assert(type_ids_view(ts@.take(i + 1)).drop_last() =~= type_ids_view(ts@.take(i as int)));
        }
        if !type_supported(&ts[i]) {
            proof {
                lemma_types_prefix(ts@, i as int);
            }
            return false;
        }
        i = i + 1;
    }
    proof { assert(ts@.take(ts@.len() as int) =~= ts@); }
    true
}

/// Where the types are all supported, so is each of them.
proof fn lemma_types_prefix(ts: Seq<TypeIDASTNode>, i: int)
    requires
        0 <= i < ts.len(),
        !swift_type_supported(ts[i]@),
    ensures
        !swift_types_supported(type_ids_view(ts)),
    decreases ts.len(),
{
    let v = type_ids_view(ts);
    assert(v == type_ids_view(ts.drop_last()).push(ts.last()@));
    assert(v.drop_last() =~= type_ids_view(ts.drop_last()));
    if i < ts.len() - 1 {
        lemma_types_prefix(ts.drop_last(), i);
    } else {
        assert(v.last() == ts[i]@);
    }
}

/// Whether the type has a Swift default value.
pub fn default_supported(t: &TypeIDASTNode) -> (res: bool)
    ensures
        res == swift_default_supported(t@),
{
    match t {
        TypeIDASTNode::Generic { id, generics } => {
            str_eq(id.as_str(), "Option") || str_eq(id.as_str(), "Vec") || types_supported(generics)
        },
        _ => true,
    }
}

/// Whether the literal can stand for a constant of the type.
pub fn const_supported(t: &TypeIDASTNode, v: &ConstValueASTNode) -> (res: bool)
    ensures
        res == swift_const_supported(t@, v@.literal),
{
    let ConstValueASTNode::Literal { literal, .. } = v;
    match literal {
        Literal::IntLiteral(_) => match t {
            TypeIDASTNode::Other { id } => str_eq(id.as_str(), "GroupAddress") || str_eq(id.as_str(), "CommandsBufferAddress"),
            TypeIDASTNode::Integer { .. } => true,
            _ => false,
        },
        Literal::NumberLiteral(_) => match t {
            TypeIDASTNode::Number { size, .. } => *size == 4 || *size == 8,
            _ => false,
        },
        _ => true,
    }
}

fn fits_opt(t: &Option<Box<SwiftIR>>, room: usize) -> (res: bool)
    ensures
        res == (match t { Some(b) => sw_fits(sw_view(**b), room as nat), None => true }),
    decreases t, 3nat,
{
    match t {
        Some(b) => {
            proof { assert(decreases_to!(*t => **b)); }
            fits(b, room)
        },
        None => true,
    }
}

/// Whether the token can be written with `room` levels of indentation to
/// spare (see `sw_fits`).
#[verifier::rlimit(100)]
#[verifier::spinoff_prover]
pub fn fits(t: &SwiftIR, room: usize) -> (res: bool)
    ensures
        res == sw_fits(t@, room as nat),
    decreases t, 2nat,
{
    match t {
        SwiftIR::Id(_) => true,
        SwiftIR::Gap => true,
        SwiftIR::Continue => true,
        SwiftIR::TypeId(type_id) => type_supported(type_id),
        SwiftIR::List { items, new_line, .. } => {
            proof { lemma_sw_views(items@); }
            if *new_line && items.len() > 0 {
                room >= 1 && fits_all(items, room - 1)
            } else {
                fits_all(items, room)
            }
        },
        SwiftIR::TopLevelDeclarations { items } => fits_all(items, room),
        SwiftIR::Statements { items } => fits_all(items, room),
        SwiftIR::Range { from, to } => fits(from, room) && fits(to, room),
        SwiftIR::ForLoop { item, collection_expr, body } => {
            fits_opt(item, room) && fits(collection_expr, room) && room >= 1 && fits(body, room - 1)
        },
        SwiftIR::Switch { item, body } => fits(item, room) && fits(body, room),
        SwiftIR::Case { item, body } => fits(item, room) && room >= 1 && fits(body, room - 1),
        SwiftIR::DefaultCase { body } => room >= 1 && fits(body, room - 1),
        SwiftIR::VarDeclaration { type_id, value, .. } => fits_opt(type_id, room) && fits_opt(value, room),
        SwiftIR::StaticVarDeclaration { type_id, value, .. } => fits_opt(type_id, room) && fits_opt(value, room),
        SwiftIR::Struct { body, extends, .. } => fits_all(extends, room) && room >= 1 && fits_all(body, room - 1),
        SwiftIR::StructConstField { type_id, value, .. } => type_supported(type_id) && const_supported(type_id, value),
        SwiftIR::StructField { type_id, .. } => type_supported(type_id),
        SwiftIR::Func { return_type_id, arguments, body, .. } => {
            fits_opt(arguments, room) && fits_opt(return_type_id, room) && match body {
                Some(b) => room >= 1 && fits(b, room - 1),
                None => true,
            }
        },
        SwiftIR::FunctionArgument { type_id, .. } => fits(type_id, room),
        SwiftIR::ReturnStatement { body } => fits(body, room),
        SwiftIR::AssignStructNamedArgument { default_value_type_id, value, .. } => match value {
            Some(v) => fits(v, room),
            None => match default_value_type_id {
                Some(d) => default_supported(d),
                None => false,
            },
        },
        SwiftIR::SetVar { value, .. } => fits(value, room),
        SwiftIR::AssignArgument { default_value_type_id, value, .. } => match value {
            Some(v) => fits(v, room),
            None => default_supported(default_value_type_id),
        },
        SwiftIR::Call { arguments, .. } => fits_opt(arguments, room),
        SwiftIR::ChainCalls { items } => room >= 1 && fits_all(items, room - 1),
        SwiftIR::NamedBlock { body, .. } => room >= 1 && fits(body, room - 1),
        SwiftIR::TrailingCall { arguments, input, body, .. } => {
            fits_opt(arguments, room) && fits_opt(input, room) && room >= 1 && fits(body, room - 1)
        },
        SwiftIR::Enum { body, extends, .. } => fits_all(extends, room) && room >= 1 && fits_all(body, room - 1),
        SwiftIR::EnumCase { parameters, .. } => {
            proof { lemma_sw_views(parameters@); }
            parameters.len() == 0 || (room >= 1 && fits_all(parameters, room - 1))
        },
        SwiftIR::EnumCaseType { type_id, .. } => type_supported(type_id),
        SwiftIR::FieldAccess { instance, .. } => fits_opt(instance, room),
    }
}

/// Whether every token fits (see `sw_fits_all`).
pub fn fits_all(ts: &Vec<SwiftIR>, room: usize) -> (res: bool)
    ensures
        res == sw_fits_all(sw_views(ts@), room as nat),
    decreases ts, 1nat,
{
    proof { lemma_sw_views(ts@); }
    let mut i: usize = 0;
    while i < ts.len()
        invariant
            i <= ts@.len(),
            sw_views(ts@).len() == ts@.len(),
            forall|k: int| 0 <= k < ts@.len() ==> #[trigger] sw_views(ts@)[k] == ts@[k]@,
            forall|k: int| 0 <= k < i ==> sw_fits(#[trigger] sw_views(ts@)[k], room as nat),
        decreases ts@.len() - i,
    {
        proof { assert(decreases_to!(*ts => ts[i as int])); }
        if !fits(&ts[i], room) {
            assert(!sw_fits(sw_views(ts@)[i as int], room as nat));
            return false;
        }
        i = i + 1;
    }
    true
}


/// Whether a value of the type can be read and written.
pub fn read_ok(t: &TypeIDASTNode) -> (res: bool)
    ensures
        res == read_supported(t@),
{
    match t {
        TypeIDASTNode::Other { .. } => true,
        _ => type_supported(t),
    }
}

fn fields_read_ok(fields: &Vec<StructFieldASTNode>) -> (res: bool)
    ensures
        res == forall|k: int| 0 <= k < fields@.len() ==> #[trigger] read_supported(fields@[k].type_id@),
{
    let mut i: usize = 0;
    while i < fields.len()
        invariant
            i <= fields@.len(),
            forall|k: int| 0 <= k < i ==> #[trigger] read_supported(fields@[k].type_id@),
        decreases fields@.len() - i,
    {
        if !read_ok(&fields[i].type_id) {
            return false;
        }
        i = i + 1;
    }
    true
}

fn values_read_ok(values: &Vec<TupleFieldASTNode>) -> (res: bool)
    ensures
        res == forall|k: int| 0 <= k < values@.len() ==> #[trigger] read_supported(values@[k].type_id@),
{
    let mut i: usize = 0;
    while i < values.len()
        invariant
            i <= values@.len(),
            forall|k: int| 0 <= k < i ==> #[trigger] read_supported(values@[k].type_id@),
        decreases values@.len() - i,
    {
        if !read_ok(&values[i].type_id) {
            return false;
        }
        i = i + 1;
    }
    true
}

fn args_read_ok(args: &Vec<FnArgASTNode>) -> (res: bool)
    ensures
        res == forall|k: int| 0 <= k < args@.len() ==> #[trigger] read_supported(args@[k].type_id@),
{
    let mut i: usize = 0;
    while i < args.len()
        invariant
            i <= args@.len(),
            forall|k: int| 0 <= k < i ==> #[trigger] read_supported(args@[k].type_id@),
        decreases args@.len() - i,
    {
        if !read_ok(&args[i].type_id) {
            return false;
        }
        i = i + 1;
    }
    true
}

fn item_ok(item: &EnumItemASTNode) -> (res: bool)
    ensures
        res == item_supported(*item),
{
    match item {
        EnumItemASTNode::Empty { .. } => true,
        EnumItemASTNode::Tuple { values, .. } => values_read_ok(values),
        EnumItemASTNode::Struct { fields, .. } => fields_read_ok(fields),
    }
}

fn items_ok(items: &Vec<EnumItemASTNode>) -> (res: bool)
    ensures
        res == forall|k: int| 0 <= k < items@.len() ==> #[trigger] item_supported(items@[k]),
{
    let mut i: usize = 0;
    while i < items.len()
        invariant
            i <= items@.len(),
            forall|k: int| 0 <= k < i ==> #[trigger] item_supported(items@[k]),
        decreases items@.len() - i,
    {
        if !item_ok(&items[i]) {
            return false;
        }
        i = i + 1;
    }
    true
}

/// Whether every struct and enum among the nodes has a Swift model.
pub fn models_ok(ast: &[ASTNode]) -> (res: bool)
    ensures
        res == models_supported(ast@),
{
    let mut i: usize = 0;
    while i < ast.len()
        invariant
            i <= ast@.len(),
            forall|k: int| 0 <= k < i ==> match #[trigger] ast@[k] {
                ASTNode::Struct(node) => struct_supported(node),
                ASTNode::Enum(node) => enum_supported(node),
                _ => true,
            },
        decreases ast@.len() - i,
    {
        let ok = match &ast[i] {
            ASTNode::Struct(node) => fields_read_ok(&node.fields),
            ASTNode::Enum(node) => node.items.len() > 0 && items_ok(&node.items),
            _ => true,
        };
        if !ok {
            return false;
        }
        i = i + 1;
    }
    true
}

/// Whether a method has a Swift form.
pub fn fn_ok(n: &FnASTNode) -> (res: bool)
    ensures
        res == swift_fn_supported(*n),
{
    if n.is_signal {
        match &n.return_type_id {
            Some(t) => type_supported(t) && default_supported(t) && read_ok(t),
            None => true,
        }
    } else {
        args_read_ok(&n.args) && match &n.return_type_id {
            Some(t) => read_ok(t),
            None => true,
        }
    }
}

fn string_directive_ok(ast: &[ASTNode], name: &str) -> (res: bool)
    ensures
        res == (directive_value(ast@, name@) matches Some(v) && v.literal is StringLiteral),
{
    match find_directive_value(ast, name) {
        Some(ConstValueASTNode::Literal { literal, .. }) => match literal {
            Literal::StringLiteral(_) => true,
            _ => false,
        },
        None => false,
    }
}

/// Whether the nodes name their namespace and scope with strings, and
/// every method has a Swift form.
pub fn rpc_ok(ast: &[ASTNode]) -> (res: bool)
    ensures
        res == swift_rpc_supported(ast@),
{
    if !string_directive_ok(ast, "namespace") || !string_directive_ok(ast, "id") {
        return false;
    }
    let fns = find_fn_nodes(ast);
    let mut i: usize = 0;
    while i < fns.len()
        invariant
            i <= fns@.len(),
            fns@.len() == fn_nodes(ast@).len(),
            forall|k: int| 0 <= k < fns@.len() ==> *fns@[k] == fn_nodes(ast@)[k],
            forall|k: int| 0 <= k < i ==> swift_fn_supported(#[trigger] fn_nodes(ast@)[k]),
        decreases fns@.len() - i,
    {
        if !fn_ok(fns[i]) {
            assert(!swift_fn_supported(fn_nodes(ast@)[i as int]));
            return false;
        }
        i = i + 1;
    }
    true
}

} // verus!
