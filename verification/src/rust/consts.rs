use vstd::prelude::*;
use crate::ast::{ConstASTNode, ConstItemASTNode, TypeIDASTNode, TypeId, const_block_depth, const_items_depth, const_item_depth, lemma_const_items_depth};
use crate::rust_generator::{generate_const_value, generate_type_id, rust_const_text, rust_type_text};
use crate::text::{cat3, copy_str, str_eq};
use crate::writer::{Writer, line, tab4};

verus! {

/// The type and the value written for a constant: a string constant is a
/// `&'static str`, and the address types are wrapped in their
/// `tech_paws_runtime` types.
pub open spec fn rust_const_parts(type_id: TypeId, value: Seq<char>) -> (Seq<char>, Seq<char>) {
    match type_id {
        TypeId::Other { id } => {
            if id == "String"@ {
                ("&'static str"@, value)
            } else if id == "GroupAddress"@ {
                ("tech_paws_runtime::GroupAddress"@, "tech_paws_runtime::GroupAddress("@ + value + ")"@)
            } else if id == "CommandsBufferAddress"@ {
                ("tech_paws_runtime::CommandsBufferAddress"@, "tech_paws_runtime::CommandsBufferAddress("@ + value + ")"@)
            } else {
                (rust_type_text(type_id), value)
            }
        },
        _ => (rust_type_text(type_id), value),
    }
}

/// `pub mod id { .. }` holding the block's constants and nested blocks, with a
/// blank line wherever a constant and a block meet.
pub open spec fn const_block_text(tab: nat, node: ConstASTNode) -> Seq<char>
    decreases node, 2nat,
{
    line(tab, "pub mod "@ + node.id@ + " {"@) + const_items_text(tab, node.items@) + line(tab, "}"@)
}

pub open spec fn const_items_text(tab: nat, items: Seq<ConstItemASTNode>) -> Seq<char>
    decreases items, 1nat,
{
    if items.len() == 0 {
        Seq::empty()
    } else {
        let i = items.len() - 1;
        const_items_text(tab, items.drop_last())
            + (if i > 0 && (items[i - 1] is Value) != (items[i] is Value) { line(0, ""@) } else { Seq::empty() })
            + const_item_text(tab, items[i])
    }
}

pub open spec fn const_item_text(tab: nat, item: ConstItemASTNode) -> Seq<char>
    decreases item, 0nat,
{
    match item {
        ConstItemASTNode::Value { id, type_id, value } => {
            let parts = rust_const_parts(type_id@, rust_const_text(value@.literal));
            line(tab + 1, "pub const "@ + id@ + ": "@ + parts.0 + " = "@ + parts.1 + ";"@)
        },
        ConstItemASTNode::ConstNode { node } => const_block_text(tab + 1, node),
    }
}

/// The line of a constant inside a block indented by `tab`.
fn const_value_line(tab: usize, item: &ConstItemASTNode) -> (res: String)
    requires
        item is Value,
        tab + 1 <= usize::MAX,
    ensures
        res@ == const_item_text(tab as nat, *item),
{
    let mut writer = Writer::default();
    if let ConstItemASTNode::Value { id, type_id, value } = item {
        let const_value = generate_const_value(value);
        let generated_type_id = generate_type_id(type_id);
        let mut parts: (String, String) = (generated_type_id, const_value);
        if let TypeIDASTNode::Other { id: other_id } = type_id {
            if str_eq(other_id.as_str(), "String") {
                parts = (String::from_str("&'static str"), parts.1);
            } else if str_eq(other_id.as_str(), "GroupAddress") {
                let v = cat3("tech_paws_runtime::GroupAddress(", parts.1.as_str(), ")");
                parts = (String::from_str("tech_paws_runtime::GroupAddress"), v);
            } else if str_eq(other_id.as_str(), "CommandsBufferAddress") {
                let v = cat3("tech_paws_runtime::CommandsBufferAddress(", parts.1.as_str(), ")");
                parts = (String::from_str("tech_paws_runtime::CommandsBufferAddress"), v);
            }
        }
        let text = cat3("pub const ", id.as_str(), ": ");
        let text = cat3(text.as_str(), parts.0.as_str(), " = ");
        let text = cat3(text.as_str(), parts.1.as_str(), ";");
        writer.writeln_tab(tab + 1, text.as_str());
        assert(parts.0@ == rust_const_parts(type_id@, rust_const_text(value@.literal)).0);
        assert(parts.1@ == rust_const_parts(type_id@, rust_const_text(value@.literal)).1);
    }
    copy_str(writer.show())
}

/// A block of constants as a Rust module, indented by `tab`.
#[verifier::loop_isolation(false)]
pub fn generate_const_block(tab: usize, const_node: &ConstASTNode) -> (res: String)
    requires
        tab + const_block_depth(*const_node) <= usize::MAX,
    ensures
        res@ == const_block_text(tab as nat, *const_node),
    decreases const_node,
{
    proof { lemma_const_items_depth(const_node.items@); }
    let mut writer = Writer::default();
    writer.writeln_tab(tab, cat3("pub mod ", const_node.id.as_str(), " {").as_str());
    let ghost head = writer@.text;
    let mut is_first = true;
    let mut is_value = false;
    let mut i: usize = 0;
    while i < const_node.items.len()
        invariant
            i <= const_node.items@.len(),
            writer@.tab == tab4(),
            writer@.level == 0,
            is_first == (i == 0),
            i > 0 ==> is_value == (const_node.items@[i - 1] is Value),
            writer@.text == head + const_items_text(tab as nat, const_node.items@.take(i as int)),
        decreases const_node.items@.len() - i,
    {
        proof {
            assert(const_node.items@.take(i + 1).drop_last() =~= const_node.items@.take(i as int));
            assert(const_node.items@.take(i + 1)[i as int] == const_node.items@[i as int]);
            if i > 0 {
                assert(const_node.items@.take(i + 1)[i - 1] == const_node.items@[i - 1]);
            }
        }
        let ghost before = writer@.text;
        match &const_node.items[i] {
            ConstItemASTNode::Value { .. } => {
                if !is_value && !is_first {
                    writer.writeln("");
                }
                is_value = true;
                writer.write(const_value_line(tab, &const_node.items[i]).as_str());
            },
            ConstItemASTNode::ConstNode { node } => {
                if is_value && !is_first {
                    writer.writeln("");
                }
                proof {
                    assert(const_item_depth(const_node.items@[i as int]) <= const_items_depth(const_node.items@));
                }
                writer.write(generate_const_block(tab + 1, node).as_str());
                is_value = false;
            },
        }
        assert(writer@.text == before
            + (if i > 0 && (const_node.items@[i - 1] is Value) != (const_node.items@[i as int] is Value) { line(0, ""@) } else { Seq::empty() })
            + const_item_text(tab as nat, const_node.items@[i as int]));
        is_first = false;
        i = i + 1;
    }
    assert(const_node.items@.take(const_node.items@.len() as int) =~= const_node.items@);
    writer.writeln_tab(tab, "}");
    copy_str(writer.show())
}

} // verus!
