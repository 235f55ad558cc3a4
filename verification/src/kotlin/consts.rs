use vstd::prelude::*;
use crate::ast::{ASTNode, ConstASTNode, ConstItemASTNode, ConstValueASTNode, TypeIDASTNode, TypeId, const_block_depth, const_items_depth, const_item_depth, lemma_const_items_depth};
use crate::kotlin::ir::{generate_type_id, kotlin_type_supported, kotlin_type_text};
use crate::lexer::Literal;
use crate::text::{cat, cat3, copy_str, int_text, int_to_text, bool_text, bool_to_text, quoted, quote, str_eq, to_case, case_converted, TextCase, trim_blank_line, trim_blank_line_end};
use crate::writer::{Writer, line, tab4, concat_map};

verus! {

/// Whether a literal can be written as a Kotlin constant of the given type:
/// strings and booleans always; integers for integer types of 1, 4 or 8
/// bytes and for the address types; numbers for floats of 4 or 8 bytes.
pub open spec fn const_value_supported(type_id: TypeId, literal: Literal) -> bool {
    match literal {
        Literal::IntLiteral(_) => match type_id {
            TypeId::Other { id } => id == "GroupAddress"@ || id == "CommandsBufferAddress"@,
            TypeId::Integer { size, .. } => size == 1 || size == 4 || size == 8,
            _ => false,
        },
        Literal::NumberLiteral(_) => match type_id {
            TypeId::Number { size, .. } => size == 4 || size == 8,
            _ => false,
        },
        _ => true,
    }
}

/// A literal as the value of a Kotlin `const val`: unsigned integers take a
/// `U` suffix, 8-byte integers an `L`, and floats of 4 bytes an `f`.
pub open spec fn const_value_text(type_id: TypeId, literal: Literal) -> Seq<char> {
    match literal {
        Literal::StringLiteral(value) => quoted(value@),
        Literal::IntLiteral(value) => {
            let v = int_text(value as int);
            match type_id {
                TypeId::Integer { size, signed, .. } => {
                    if size == 8 {
                        if signed { v + "L"@ } else { v + "UL"@ }
                    } else {
                        if signed { v } else { v + "U"@ }
                    }
                },
                _ => v,
            }
        },
        Literal::NumberLiteral(value) => {
            let v = value.spec_text();
            match type_id {
                TypeId::Number { size, .. } => {
                    if size == 4 {
                        if value.spec_is_integral() { v + ".0f"@ } else { v + "f"@ }
                    } else {
                        if value.spec_is_integral() { v + ".0"@ } else { v }
                    }
                },
                _ => v,
            }
        },
        Literal::BoolLiteral(value) => bool_text(value),
    }
}

/// The constant `node` written as the value of a Kotlin `const val` of
/// type `type_id`.
pub fn generate_const_value(node: &ConstValueASTNode, type_id: &TypeIDASTNode) -> (res: String)
    requires
        const_value_supported(type_id@, node@.literal),
    ensures
        res@ == const_value_text(type_id@, node@.literal),
{
    match node {
        ConstValueASTNode::Literal { literal, .. } => match literal {
            Literal::StringLiteral(value) => quote(value.as_str()),
            Literal::IntLiteral(value) => {
                let v = int_to_text(*value);
                match type_id {
                    TypeIDASTNode::Integer { size, signed, .. } => {
                        if *size == 8 {
                            if *signed { cat(v.as_str(), "L") } else { cat(v.as_str(), "UL") }
                        } else {
                            if *signed { v } else { cat(v.as_str(), "U") }
                        }
                    },
                    _ => v,
                }
            },
            Literal::NumberLiteral(value) => {
                let v = value.text();
                match type_id {
                    TypeIDASTNode::Number { size, .. } => {
                        if *size == 4 {
                            if value.is_integral() { cat(v.as_str(), ".0f") } else { cat(v.as_str(), "f") }
                        } else {
                            if value.is_integral() { cat(v.as_str(), ".0") } else { v }
                        }
                    },
                    _ => v,
                }
            },
            Literal::BoolLiteral(value) => bool_to_text(*value),
        },
    }
}

/// The type and the value written for a constant: the address types are
/// unsigned longs.
pub open spec fn kotlin_const_parts(type_id: TypeId, value: Seq<char>) -> (Seq<char>, Seq<char>) {
    match type_id {
        TypeId::Other { id } => {
            if id == "GroupAddress"@ || id == "CommandsBufferAddress"@ {
                ("ULong"@, value + "UL"@)
            } else {
                (kotlin_type_text(type_id), value)
            }
        },
        _ => (kotlin_type_text(type_id), value),
    }
}

/// Whether every constant in the block has a Kotlin type and value.
pub open spec fn const_block_supported(node: ConstASTNode) -> bool
    decreases node, 2nat,
{
    const_items_supported(node.items@)
}

pub open spec fn const_items_supported(items: Seq<ConstItemASTNode>) -> bool
    decreases items, 1nat,
{
    forall|i: int| 0 <= i < items.len() ==> const_item_supported(#[trigger] items[i])
}

pub open spec fn const_item_supported(item: ConstItemASTNode) -> bool
    decreases item, 0nat,
{
    match item {
        ConstItemASTNode::Value { type_id, value, .. } => {
            kotlin_type_supported(type_id@) && const_value_supported(type_id@, value@.literal)
        },
        ConstItemASTNode::ConstNode { node } => const_block_supported(node),
    }
}

/// `object Id { .. }` holding the block's constants and nested objects,
/// with a blank line wherever a constant and an object meet.
pub open spec fn const_block_text(tab: nat, node: ConstASTNode) -> Seq<char>
    decreases node, 2nat,
{
    line(tab, "object "@ + case_converted(node.id@, TextCase::Pascal) + " {"@)
        + const_items_text(tab, node.items@) + line(tab, "}"@)
}

pub open spec fn const_items_text(tab: nat, items: Seq<ConstItemASTNode>) -> Seq<char>
    decreases items, 1nat,
{
    if items.len() == 0 {
        Seq::empty()
    } else {
        let i = items.len() - 1;
        const_items_text(tab, items.drop_last())
            + (if i > 0 && (items[i - 1] is Value) != (items[i] is Value) { line(0, ""@) } else { Seq::empty() })
            + const_item_text(tab, items[i])
    }
}

pub open spec fn const_item_text(tab: nat, item: ConstItemASTNode) -> Seq<char>
    decreases item, 0nat,
{
    match item {
        ConstItemASTNode::Value { id, type_id, value } => {
            let parts = kotlin_const_parts(type_id@, const_value_text(type_id@, value@.literal));
            line(tab + 1, "const val "@ + id@ + ": "@ + parts.0 + " = "@ + parts.1)
        },
        ConstItemASTNode::ConstNode { node } => const_block_text(tab + 1, node),
    }
}

/// The line of a constant inside a block indented by `tab`.
fn const_value_line(tab: usize, item: &ConstItemASTNode) -> (res: String)
    requires
        item is Value,
        tab + 1 <= usize::MAX,
        const_item_supported(*item),
    ensures
        res@ == const_item_text(tab as nat, *item),
{
    let mut writer = Writer::default();
    if let ConstItemASTNode::Value { id, type_id, value } = item {
        let const_value = generate_const_value(value, type_id);
        let generated_type_id = generate_type_id(type_id);
        let mut parts: (String, String) = (generated_type_id, const_value);
        if let TypeIDASTNode::Other { id: other_id } = type_id {
            if str_eq(other_id.as_str(), "GroupAddress") || str_eq(other_id.as_str(), "CommandsBufferAddress") {
                let v = cat(parts.1.as_str(), "UL");
                parts = (String::from_str("ULong"), v);
            }
        }
        let text = cat3("const val ", id.as_str(), ": ");
        let text = cat3(text.as_str(), parts.0.as_str(), " = ");
        let text = cat(text.as_str(), parts.1.as_str());
        writer.writeln_tab(tab + 1, text.as_str());
        assert(parts.0@ == kotlin_const_parts(type_id@, const_value_text(type_id@, value@.literal)).0);
        assert(parts.1@ == kotlin_const_parts(type_id@, const_value_text(type_id@, value@.literal)).1);
    }
    copy_str(writer.show())
}

/// A block of constants as a Kotlin object, indented by `tab`.
#[verifier::loop_isolation(false)]
pub fn generate_const_block(tab: usize, const_node: &ConstASTNode) -> (res: String)
    requires
        tab + const_block_depth(*const_node) <= usize::MAX,
        const_block_supported(*const_node),
    ensures
        res@ == const_block_text(tab as nat, *const_node),
    decreases const_node,
{
    proof { lemma_const_items_depth(const_node.items@); }
    let mut writer = Writer::default();
    let name = to_case(const_node.id.as_str(), TextCase::Pascal);
    writer.writeln_tab(tab, cat3("object ", name.as_str(), " {").as_str());
    let ghost head = writer@.text;
    let mut is_first = true;
    let mut is_value = false;
    let mut i: usize = 0;
    while i < const_node.items.len()
        invariant
            i <= const_node.items@.len(),
            writer@.tab == tab4(),
            writer@.level == 0,
            is_first == (i == 0),
            i > 0 ==> is_value == (const_node.items@[i - 1] is Value),
            writer@.text == head + const_items_text(tab as nat, const_node.items@.take(i as int)),
        decreases const_node.items@.len() - i,
    {
        proof {
            assert(const_node.items@.take(i + 1).drop_last() =~= const_node.items@.take(i as int));
            assert(const_node.items@.take(i + 1)[i as int] == const_node.items@[i as int]);
            if i > 0 {
                assert(const_node.items@.take(i + 1)[i - 1] == const_node.items@[i - 1]);
            }
            assert(const_item_supported(const_node.items@[i as int]));
        }
        let ghost before = writer@.text;
        match &const_node.items[i] {
            ConstItemASTNode::Value { .. } => {
                if !is_value && !is_first {
                    writer.writeln("");
                }
                is_value = true;
                writer.write(const_value_line(tab, &const_node.items[i]).as_str());
            },
            ConstItemASTNode::ConstNode { node } => {
                if is_value && !is_first {
                    writer.writeln("");
                }
                proof {
                    assert(const_item_depth(const_node.items@[i as int]) <= const_items_depth(const_node.items@));
                }
                writer.write(generate_const_block(tab + 1, node).as_str());
                is_value = false;
            },
        }
        assert(writer@.text == before
            + (if i > 0 && (const_node.items@[i - 1] is Value) != (const_node.items@[i as int] is Value) { line(0, ""@) } else { Seq::empty() })
            + const_item_text(tab as nat, const_node.items@[i as int]));
        is_first = false;
        i = i + 1;
    }
    assert(const_node.items@.take(const_node.items@.len() as int) =~= const_node.items@);
    writer.writeln_tab(tab, "}");
    copy_str(writer.show())
}

/// Whether every block of constants nests within the machine's limit and
/// has Kotlin types and values.
pub open spec fn consts_writable(ast: Seq<ASTNode>) -> bool {
    forall|i: int| 0 <= i < ast.len() ==> (#[trigger] ast[i] matches ASTNode::Const(node)
        ==> const_block_depth(node) <= usize::MAX && const_block_supported(node))
}

pub open spec fn const_node_text(node: ASTNode) -> Seq<char> {
    match node {
        ASTNode::Const(node) => line(0, const_block_text(0, node)),
        _ => Seq::empty(),
    }
}

/// The constant blocks as Kotlin objects, in their order.
pub open spec fn consts_text(ast: Seq<ASTNode>) -> Seq<char> {
    trim_blank_line(concat_map(ast, |n: ASTNode| const_node_text(n)))
}

/// The constant blocks of the nodes as Kotlin objects.
pub fn generate_consts(ast: &[ASTNode]) -> (res: String)
    requires
        consts_writable(ast@),
    ensures
        res@ == consts_text(ast@),
{
    let mut writer = Writer::default();
    let mut i: usize = 0;
    while i < ast.len()
        invariant
            i <= ast@.len(),
            consts_writable(ast@),
            writer@.tab == tab4(),
            writer@.level == 0,
            writer@.text == concat_map(ast@.take(i as int), |n: ASTNode| const_node_text(n)),
        decreases ast@.len() - i,
    {
        if let ASTNode::Const(node) = &ast[i] {
            assert(ast@[i as int] matches ASTNode::Const(node)
                ==> const_block_depth(node) <= usize::MAX && const_block_supported(node));
            writer.writeln(generate_const_block(0, node).as_str());
        }
        assert(ast@.take(i + 1).drop_last() =~= ast@.take(i as int));
        i = i + 1;
    }
    assert(ast@.take(ast@.len() as int) =~= ast@);
    trim_blank_line_end(writer.show())
}

} // verus!
