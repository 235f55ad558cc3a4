use vstd::prelude::*;
use crate::ast::{ASTNode, ConstASTNode, ConstItemASTNode, ConstValue, TypeId, const_nodes};
use crate::swift::generator_tokens::SwiftGeneratorToken;

verus! {

/// Whether `token` is the struct of a block of constants: named as the
/// block, holding one member for each of the block's items, in order.
pub open spec fn const_block_token(node: ConstASTNode, token: SwiftGeneratorToken) -> bool
    decreases node, 2nat,
{
    &&& token matches SwiftGeneratorToken::Struct { id, body }
    &&& id@ == node.id@
    &&& const_items_tokens(node.items@, body@)
}

/// Whether there is one member for each item, each the form of the item at
/// the same place.
pub open spec fn const_items_tokens(items: Seq<ConstItemASTNode>, tokens: Seq<SwiftGeneratorToken>) -> bool
    decreases items, 0nat,
{
    if items.len() == 0 {
        tokens.len() == 0
    } else {
        &&& tokens.len() == items.len()
        &&& const_items_tokens(items.drop_last(), tokens.drop_last())
        &&& const_item_token(items.last(), tokens.last())
    }
}

/// Whether `token` is the form of an item: a constant field with the
/// constant's name, type and value, or the struct of the nested block.
pub open spec fn const_item_token(item: ConstItemASTNode, token: SwiftGeneratorToken) -> bool
    decreases item, 1nat,
{
    match item {
        ConstItemASTNode::Value { id, type_id, value } => const_field_token(id@, type_id@, value@, token),
        ConstItemASTNode::ConstNode { node } => const_block_token(node, token),
    }
}

/// Whether `token` is the constant field `id: type_id = value`.
pub open spec fn const_field_token(id: Seq<char>, type_id: TypeId, value: ConstValue, token: SwiftGeneratorToken) -> bool {
    match token {
        SwiftGeneratorToken::StructConstField { id: name, type_id: t, value: v } => {
            name@ == id && t@ == type_id && v@ == value
        },
        _ => false,
    }
}

/// The struct of each block of constants among the nodes, in order.
pub fn generate_consts(ast: &[ASTNode]) -> (res: Vec<SwiftGeneratorToken>)
    ensures
        res@.len() == const_nodes(ast@).len(),
        forall|i: int| 0 <= i < res@.len() ==> #[trigger] const_block_token(const_nodes(ast@)[i], res@[i]),
{
    let mut tokens: Vec<SwiftGeneratorToken> = Vec::new();
    let mut i: usize = 0;
    while i < ast.len()
        invariant
            i <= ast@.len(),
            tokens@.len() == const_nodes(ast@.take(i as int)).len(),
            forall|k: int| 0 <= k < tokens@.len() ==> #[trigger] const_block_token(const_nodes(ast@.take(i as int))[k], tokens@[k]),
        decreases ast@.len() - i,
    {
        assert(ast@.take(i + 1).drop_last() =~= ast@.take(i as int));
        if let ASTNode::Const(node) = &ast[i] {
            let token = generate_const_block(node);
            tokens.push(token);
        }
        i = i + 1;
    }
    assert(ast@.take(ast@.len() as int) =~= ast@);
    tokens
}

/// The struct of a block of constants.
pub fn generate_const_block(const_node: &ConstASTNode) -> (res: SwiftGeneratorToken)
    ensures
        const_block_token(*const_node, res),
    decreases const_node,
{
    let mut body: Vec<SwiftGeneratorToken> = Vec::new();
    let mut i: usize = 0;
    while i < const_node.items.len()
        invariant
            i <= const_node.items@.len(),
            const_items_tokens(const_node.items@.take(i as int), body@),
        decreases const_node.items@.len() - i,
    {
        proof { assert(decreases_to!(const_node.items@ => const_node.items@[i as int])); }
        let token = const_item(&const_node.items[i]);
        let ghost prev = body@;
        body.push(token);
        proof {
            assert(const_node.items@.take(i + 1).drop_last() =~= const_node.items@.take(i as int));
            assert(body@.drop_last() =~= prev);
        }
        i = i + 1;
    }
    assert(const_node.items@.take(const_node.items@.len() as int) =~= const_node.items@);
    SwiftGeneratorToken::Struct { id: const_node.id.clone(), body }
}

fn const_item(item: &ConstItemASTNode) -> (res: SwiftGeneratorToken)
    ensures
        const_item_token(*item, res),
    decreases item,
{
    match item {
        ConstItemASTNode::Value { id, type_id, value } => SwiftGeneratorToken::StructConstField {
            id: id.clone(),
            type_id: type_id.clone(),
            value: value.clone(),
        },
        ConstItemASTNode::ConstNode { node } => generate_const_block(node),
    }
}

} // verus!
