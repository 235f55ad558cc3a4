use vstd::prelude::*;
use crate::ast::{StructASTNode, StructFieldASTNode};
use crate::rust_generator::{generate_default_const, generate_type_id, rust_default_text, rust_type_text};
use crate::text::{cat, cat3, copy_str};
use crate::writer::{Writer, line, concat_map};

verus! {

/// The line declaring one field: `pub name: Type,` (without `pub ` where
/// `is_pub` is unset).
pub open spec fn parameter_line(tab: nat, is_pub: bool, param: StructFieldASTNode) -> Seq<char> {
    let decl = param.name@ + ": "@ + rust_type_text(param.type_id@) + ","@;
    line(tab, if is_pub { "pub "@ + decl } else { decl })
}

/// The lines declaring the fields, indented by `tab`.
pub open spec fn parameters_text(tab: nat, is_pub: bool, params: Seq<StructFieldASTNode>) -> Seq<char> {
    concat_map(params, |p: StructFieldASTNode| parameter_line(tab, is_pub, p))
}

/// The field declarations of a struct, one line each, indented by `tab`.
pub fn generate_struct_parameters(tab: usize, is_pub: bool, params: &[StructFieldASTNode]) -> (res: String)
    ensures
        res@ == parameters_text(tab as nat, is_pub, params@),
{
    let mut writer = Writer::default();
    let mut i: usize = 0;
    while i < params.len()
        invariant
            i <= params@.len(),
            writer@.tab == crate::writer::tab4(),
            writer@.level == 0,
            writer@.text == parameters_text(tab as nat, is_pub, params@.take(i as int)),
        decreases params@.len() - i,
    {
        let param = &params[i];
        let type_id = generate_type_id(&param.type_id);
        let decl = cat3(param.name.as_str(), ": ", type_id.as_str());
        let decl = cat(decl.as_str(), ",");
        if is_pub {
            writer.writeln_tab(tab, cat("pub ", decl.as_str()).as_str());
        } else {
            writer.writeln_tab(tab, decl.as_str());
        }
        assert(params@.take(i + 1).drop_last() =~= params@.take(i as int));
        i = i + 1;
    }
    assert(params@.take(params@.len() as int) =~= params@);
    copy_str(writer.show())
}


/// The line giving one field its default value.
pub open spec fn default_field_line(field: StructFieldASTNode) -> Seq<char> {
    line(3, field.name@ + ": "@ + rust_default_text(field.type_id@) + ","@)
}

/// `impl Default` for a struct with fields, without a final line break.
pub open spec fn struct_default_text(node: StructASTNode) -> Seq<char> {
    line(0, "impl Default for "@ + node.id@ + " {"@)
        + line(1, "fn default() -> Self {"@)
        + line(2, "Self {"@)
        + concat_map(node.fields@, |f: StructFieldASTNode| default_field_line(f))
        + line(2, "}"@)
        + line(1, "}"@)
        + "}"@
}

fn generate_struct_default(node: &StructASTNode) -> (res: String)
    ensures
        res@ == struct_default_text(*node),
{
    let mut writer = Writer::default();
    writer.writeln(cat3("impl Default for ", node.id.as_str(), " {").as_str());
    writer.writeln_tab(1, "fn default() -> Self {");
    writer.writeln_tab(2, "Self {");
    let ghost head = writer@.text;
    let mut i: usize = 0;
    while i < node.fields.len()
        invariant
            i <= node.fields@.len(),
            writer@.tab == crate::writer::tab4(),
            writer@.level == 0,
            writer@.text == head + concat_map(node.fields@.take(i as int), |f: StructFieldASTNode| default_field_line(f)),
        decreases node.fields@.len() - i,
    {
        let field = &node.fields[i];
        let value = generate_default_const(&field.type_id);
        let text = cat3(field.name.as_str(), ": ", value.as_str());
        writer.writeln_tab(3, cat(text.as_str(), ",").as_str());
        assert(node.fields@.take(i + 1).drop_last() =~= node.fields@.take(i as int));
        i = i + 1;
    }
    assert(node.fields@.take(node.fields@.len() as int) =~= node.fields@);
    writer.writeln_tab(2, "}");
    writer.writeln_tab(1, "}");
    writer.write("}");
    copy_str(writer.show())
}

/// The model of a struct: its declaration and, where `generate_default`
/// is set, its `impl Default`.
pub open spec fn struct_model_text(node: StructASTNode, generate_default: bool) -> Seq<char> {
    let derive = line(0, "#[derive(Debug, Clone, PartialEq)]"@);
    if node.fields@.len() == 0 {
        let decl = derive + line(0, "pub struct "@ + node.id@ + ";"@);
        if generate_default {
            decl + line(0, ""@)
                + line(0, "impl Default for "@ + node.id@ + " {"@)
                + line(1, "fn default() -> Self {"@)
                + line(2, "Self"@)
                + line(1, "}"@)
                + line(0, "}"@)
        } else {
            decl
        }
    } else {
        let decl = derive
            + line(0, "pub struct "@ + node.id@ + " {"@)
            + parameters_text(1, true, node.fields@)
            + line(0, "}"@);
        if generate_default {
            decl + line(0, ""@) + line(0, struct_default_text(node))
        } else {
            decl
        }
    }
}

/// The Rust model of a struct.
pub fn generate_struct_model(node: &StructASTNode, generate_default: bool) -> (res: String)
    ensures
        res@ == struct_model_text(*node, generate_default),
{
    let mut writer = Writer::default();
    if node.fields.len() == 0 {
        writer.writeln("#[derive(Debug, Clone, PartialEq)]");
        writer.writeln(cat3("pub struct ", node.id.as_str(), ";").as_str());
        if generate_default {
            writer.writeln("");
            writer.writeln(cat3("impl Default for ", node.id.as_str(), " {").as_str());
            writer.writeln_tab(1, "fn default() -> Self {");
            writer.writeln_tab(2, "Self");
            writer.writeln_tab(1, "}");
            writer.writeln("}");
        }
    } else {
        writer.writeln("#[derive(Debug, Clone, PartialEq)]");
        writer.writeln(cat3("pub struct ", node.id.as_str(), " {").as_str());
        writer.write(generate_struct_parameters(1, true, node.fields.as_slice()).as_str());
        writer.writeln("}");
        if generate_default {
            writer.writeln("");
            writer.writeln(generate_struct_default(node).as_str());
        }
    }
    copy_str(writer.show())
}

} // verus!
