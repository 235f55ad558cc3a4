use vstd::prelude::*;
use crate::ast::{EnumASTNode, EnumItemASTNode, TupleFieldASTNode, StructFieldASTNode};
use crate::rust_generator::{generate_default_const, generate_type_id, rust_default_text, rust_type_text};
use crate::rust::struct_models::{generate_struct_parameters, parameters_text, default_field_line};
use crate::text::{cat, cat3, copy_str};
use crate::writer::{Writer, line, concat_map};

verus! {

pub open spec fn tuple_parameter_line(tab: nat, param: TupleFieldASTNode) -> Seq<char> {
    line(tab, rust_type_text(param.type_id@) + ","@)
}

/// The types of a tuple variant, one line each, indented by `tab`.
pub open spec fn tuple_parameters_text(tab: nat, params: Seq<TupleFieldASTNode>) -> Seq<char> {
    concat_map(params, |p: TupleFieldASTNode| tuple_parameter_line(tab, p))
}

pub fn generate_tuple_parameters(tab: usize, params: &[TupleFieldASTNode]) -> (res: String)
    ensures
        res@ == tuple_parameters_text(tab as nat, params@),
{
    let mut writer = Writer::default();
    let mut i: usize = 0;
    while i < params.len()
        invariant
            i <= params@.len(),
            writer@.tab == crate::writer::tab4(),
            writer@.level == 0,
            writer@.text == tuple_parameters_text(tab as nat, params@.take(i as int)),
        decreases params@.len() - i,
    {
        let type_id = generate_type_id(&params[i].type_id);
        writer.writeln_tab(tab, cat(type_id.as_str(), ",").as_str());
        assert(params@.take(i + 1).drop_last() =~= params@.take(i as int));
        i = i + 1;
    }
    assert(params@.take(params@.len() as int) =~= params@);
    copy_str(writer.show())
}

/// The declaration of one variant.
pub open spec fn variant_text(item: EnumItemASTNode) -> Seq<char> {
    match item {
        EnumItemASTNode::Empty { id, .. } => line(1, id@ + ","@),
        EnumItemASTNode::Tuple { id, values, .. } =>
            line(1, id@ + "("@) + tuple_parameters_text(2, values@) + line(1, "),"@),
        EnumItemASTNode::Struct { id, fields, .. } =>
            line(1, id@ + " {"@) + parameters_text(2, false, fields@) + line(1, "},"@),
    }
}

pub open spec fn default_value_line(value: TupleFieldASTNode) -> Seq<char> {
    line(3, rust_default_text(value.type_id@) + ","@)
}

/// The body of `default()`: the first variant with default values.
pub open spec fn default_variant_text(item: EnumItemASTNode) -> Seq<char> {
    match item {
        EnumItemASTNode::Empty { id, .. } => line(2, "Self::"@ + id@),
        EnumItemASTNode::Tuple { id, values, .. } =>
            line(2, "Self::"@ + id@ + "("@)
                + concat_map(values@, |v: TupleFieldASTNode| default_value_line(v))
                + line(2, ")"@),
        EnumItemASTNode::Struct { id, fields, .. } =>
            line(2, "Self::"@ + id@ + " {"@)
                + concat_map(fields@, |f: StructFieldASTNode| default_field_line(f))
                + line(2, "}"@),
    }
}

/// The Rust model of an enum: its declaration and an `impl Default` that
/// gives its first variant.
pub open spec fn enum_model_text(node: EnumASTNode) -> Seq<char> {
    line(0, "#[derive(Debug, Clone, PartialEq)]"@)
        + line(0, "pub enum "@ + node.id@ + " {"@)
        + concat_map(node.items@, |item: EnumItemASTNode| variant_text(item))
        + line(0, "}"@)
        + line(0, ""@)
        + line(0, "impl Default for "@ + node.id@ + " {"@)
        + line(1, "fn default() -> Self {"@)
        + default_variant_text(node.items@[0])
        + line(1, "}"@)
        + line(0, "}"@)
}

/// The Rust model of an enum. The enum must have a variant: its first one
/// is the default value.
pub fn generate_enum_model(node: &EnumASTNode) -> (res: String)
    requires
        node.items@.len() > 0,
    ensures
        res@ == enum_model_text(*node),
{
    let mut writer = Writer::default();
    writer.writeln("#[derive(Debug, Clone, PartialEq)]");
    writer.writeln(cat3("pub enum ", node.id.as_str(), " {").as_str());
    let ghost head = writer@.text;
    let mut i: usize = 0;
    while i < node.items.len()
        invariant
            i <= node.items@.len(),
            writer@.tab == crate::writer::tab4(),
            writer@.level == 0,
            writer@.text == head + concat_map(node.items@.take(i as int), |item: EnumItemASTNode| variant_text(item)),
        decreases node.items@.len() - i,
    {
        match &node.items[i] {
            EnumItemASTNode::Empty { position: _, id } => {
                writer.writeln_tab(1, cat(id.as_str(), ",").as_str());
            },
            EnumItemASTNode::Tuple { position: _, id, values } => {
                writer.writeln_tab(1, cat(id.as_str(), "(").as_str());
                writer.write(generate_tuple_parameters(2, values.as_slice()).as_str());
                writer.writeln_tab(1, "),");
            },
            EnumItemASTNode::Struct { position: _, id, fields } => {
                writer.writeln_tab(1, cat(id.as_str(), " {").as_str());
                writer.write(generate_struct_parameters(2, false, fields.as_slice()).as_str());
                writer.writeln_tab(1, "},");
            },
        }
        assert(node.items@.take(i + 1).drop_last() =~= node.items@.take(i as int));
        i = i + 1;
    }
    assert(node.items@.take(node.items@.len() as int) =~= node.items@);
    writer.writeln("}");
    writer.writeln("");
    writer.writeln(cat3("impl Default for ", node.id.as_str(), " {").as_str());
    writer.writeln_tab(1, "fn default() -> Self {");
    let ghost before_default = writer@.text;
    match &node.items[0] {
        EnumItemASTNode::Empty { position: _, id } => {
            writer.writeln_tab(2, cat("Self::", id.as_str()).as_str());
        },
        EnumItemASTNode::Tuple { position: _, id, values } => {
            writer.writeln_tab(2, cat3("Self::", id.as_str(), "(").as_str());
            let ghost inner = writer@.text;
            let mut j: usize = 0;
            while j < values.len()
                invariant
                    j <= values@.len(),
                    writer@.tab == crate::writer::tab4(),
                    writer@.level == 0,
                    writer@.text == inner + concat_map(values@.take(j as int), |v: TupleFieldASTNode| default_value_line(v)),
                decreases values@.len() - j,
            {
                let value = generate_default_const(&values[j].type_id);
                writer.writeln_tab(3, cat(value.as_str(), ",").as_str());
                assert(values@.take(j + 1).drop_last() =~= values@.take(j as int));
                j = j + 1;
            }
            assert(values@.take(values@.len() as int) =~= values@);
            writer.writeln_tab(2, ")");
        },
        EnumItemASTNode::Struct { position: _, id, fields } => {
            writer.writeln_tab(2, cat3("Self::", id.as_str(), " {").as_str());
            let ghost inner = writer@.text;
            let mut j: usize = 0;
            while j < fields.len()
                invariant
                    j <= fields@.len(),
                    writer@.tab == crate::writer::tab4(),
                    writer@.level == 0,
                    writer@.text == inner + concat_map(fields@.take(j as int), |f: StructFieldASTNode| default_field_line(f)),
                decreases fields@.len() - j,
            {
                let field = &fields[j];
                let value = generate_default_const(&field.type_id);
                let text = cat3(field.name.as_str(), ": ", value.as_str());
                writer.writeln_tab(3, cat(text.as_str(), ",").as_str());
                assert(fields@.take(j + 1).drop_last() =~= fields@.take(j as int));
                j = j + 1;
            }
            assert(fields@.take(fields@.len() as int) =~= fields@);
            writer.writeln_tab(2, "}");
        },
    }
    assert(writer@.text == before_default + default_variant_text(node.items@[0]));
    writer.writeln_tab(1, "}");
    writer.writeln("}");
    copy_str(writer.show())
}

} // verus!
