use vstd::prelude::*;
use crate::ast::{ASTNode, FnASTNode, find_directive_value, directive_value, const_block_depth_of, fn_nodes, find_fn_nodes, contains_fn_nodes, ConstValue, directive_group_values, const_values_view, find_directive_group_values, contains_consts_nodes, contains_buffers_nodes, const_block_depth, ConstValueASTNode, TypeIDASTNode, TypeId, type_ids_view, lemma_type_ids_view};
use crate::lexer::Literal;
use crate::text::{ends_with_blank_line, lemma_trim_blank_lines, trim_blank_lines, trim_blank_lines_end, trim_blank_line, trim_blank_line_end, cat, cat3, int_text, int_to_text, bool_text, bool_to_text, quoted, quote};

use crate::writer::{Writer, line, concat_map, tab4};
use crate::rust::struct_models::{generate_struct_model, struct_model_text};
use crate::rust::enum_models::{generate_enum_model, enum_model_text};
use crate::rust::struct_buffers::{generate_struct_buffers, struct_buffers_text};
use crate::rust::enum_buffers::{generate_enum_buffers, enum_buffers_text};
use crate::rust::consts::{generate_const_block, const_block_text};
use crate::rust::rpc::{rpc_supported, rpc_text, rpc_method_text, rpc_method_supported, generate_register_fn, generate_rpc_method};

verus! {

/// The Rust name of a type.
pub open spec fn rust_type_text(t: TypeId) -> Seq<char>
    decreases t, 1nat,
{
    match t {
        TypeId::Integer { id, .. } => id,
        TypeId::Number { id, .. } => id,
        TypeId::Bool { id } => id,
        TypeId::Char { id } => id,
        TypeId::Other { id } => id,
        TypeId::Generic { id, generics } => id + "<"@ + rust_types_text(generics) + ">"@,
    }
}

/// The Rust names of the types, separated by ", ".
pub open spec fn rust_types_text(ts: Seq<TypeId>) -> Seq<char>
    decreases ts, 0nat,
{
    if ts.len() == 0 {
        Seq::empty()
    } else if ts.len() == 1 {
        rust_type_text(ts[0])
    } else {
        rust_types_text(ts.drop_last()) + ", "@ + rust_type_text(ts.last())
    }
}

/// The names of the types `generics`, joined by ", ".
#[verifier::loop_isolation(false)]
pub fn generics_text(generics: &Vec<TypeIDASTNode>) -> (res: String)
    ensures
        res@ == rust_types_text(type_ids_view(generics@)),
    decreases generics@, 0nat,
{
    proof {
        lemma_type_ids_view(generics@);
    }
    let mut res = String::new();
    let mut i: usize = 0;
    while i < generics.len()
        invariant
            i <= generics.len(),
            res@ == rust_types_text(type_ids_view(generics@.take(i as int))),
        decreases generics.len() - i,
    {
        proof {
            assert(decreases_to!(generics@ => generics@[i as int]));
            assert(generics@.take(i + 1).drop_last() =~= generics@.take(i as int));
            lemma_type_ids_view(generics@.take(i as int));
            lemma_type_ids_view(generics@.take(i + 1));
            assert(type_ids_view(generics@.take(i + 1)).drop_last() =~= type_ids_view(generics@.take(i as int)));
        }
        let g = generate_type_id(&generics[i]);
        if i > 0 {
            res.append(", ");
        }
        res.append(g.as_str());
        i = i + 1;
    }
    assert(generics@.take(generics.len() as int) =~= generics@);
    res
}

/// The Rust name of a type.
pub fn generate_type_id(type_id: &TypeIDASTNode) -> (res: String)
    ensures
        res@ == rust_type_text(type_id@),
    decreases type_id, 1nat,
{
    match type_id {
        TypeIDASTNode::Integer { id, .. } => id.clone(),
        TypeIDASTNode::Number { id, .. } => id.clone(),
        TypeIDASTNode::Bool { id } => id.clone(),
        TypeIDASTNode::Char { id } => id.clone(),
        TypeIDASTNode::Other { id } => id.clone(),
        TypeIDASTNode::Generic { id, generics } => {
            proof { assert(decreases_to!(*type_id => *generics)); }
            let inner = generics_text(generics);
            let mut res = cat(id.as_str(), "<");
            res.append(inner.as_str());
            res.append(">");
            res
        },
    }
}

/// A literal written as a Rust constant.
pub open spec fn rust_const_text(literal: Literal) -> Seq<char> {
    match literal {
        Literal::StringLiteral(value) => quoted(value@),
        Literal::IntLiteral(value) => int_text(value as int),
        Literal::NumberLiteral(value) => value.spec_text(),
        Literal::BoolLiteral(value) => bool_text(value),
    }
}

/// The constant `node` written in Rust.
pub fn generate_const_value(node: &ConstValueASTNode) -> (res: String)
    ensures
        res@ == rust_const_text(node@.literal),
{
    match node {
        ConstValueASTNode::Literal { literal, type_id: _ } => match literal {
            Literal::StringLiteral(value) => quote(value.as_str()),
            Literal::IntLiteral(value) => int_to_text(*value),
            Literal::NumberLiteral(value) => value.text(),
            Literal::BoolLiteral(value) => bool_to_text(*value),
        },
    }
}

/// The Rust expression that reads a value of the type from `bytes_reader`.
pub open spec fn rust_read_text(t: TypeId) -> Seq<char> {
    match t {
        TypeId::Integer { id, .. } => "bytes_reader.read_"@ + id + "()"@,
        TypeId::Number { id, .. } => "bytes_reader.read_"@ + id + "()"@,
        TypeId::Bool { id } => "bytes_reader.read_"@ + id + "()"@,
        TypeId::Char { id } => "bytes_reader.read_"@ + id + "()"@,
        TypeId::Other { id } => id + "::read_from_buffers(bytes_reader)"@,
        TypeId::Generic { id, generics } =>
            id + "::<"@ + rust_types_text(generics) + ">::read_from_buffers(bytes_reader)"@,
    }
}

/// The Rust expression that reads a value of the type from `bytes_reader`.
pub fn generate_read(type_id: &TypeIDASTNode) -> (res: String)
    ensures
        res@ == rust_read_text(type_id@),
{
    match type_id {
        TypeIDASTNode::Integer { id, .. } => cat3("bytes_reader.read_", id.as_str(), "()"),
        TypeIDASTNode::Number { id, .. } => cat3("bytes_reader.read_", id.as_str(), "()"),
        TypeIDASTNode::Bool { id } => cat3("bytes_reader.read_", id.as_str(), "()"),
        TypeIDASTNode::Char { id } => cat3("bytes_reader.read_", id.as_str(), "()"),
        TypeIDASTNode::Other { id } => cat(id.as_str(), "::read_from_buffers(bytes_reader)"),
        TypeIDASTNode::Generic { id, generics } => {
            let inner = generics_text(generics);
            let mut res = cat(id.as_str(), "::<");
            res.append(inner.as_str());
            res.append(">::read_from_buffers(bytes_reader)");
            res
        },
    }
}

/// The Rust statement that writes the value at `accessor` to `bytes_writer`;
/// numbers, booleans and characters are read through `*accessor` where
/// `deref` is set.
pub open spec fn rust_write_text(t: TypeId, accessor: Seq<char>, deref: bool) -> Seq<char> {
    let primitive = if deref { "*"@ + accessor } else { accessor };
    match t {
        TypeId::Integer { id, .. } => "bytes_writer.write_"@ + id + "("@ + primitive + ");"@,
        TypeId::Number { id, .. } => "bytes_writer.write_"@ + id + "("@ + primitive + ");"@,
        TypeId::Bool { id } => "bytes_writer.write_"@ + id + "("@ + primitive + ");"@,
        TypeId::Char { id } => "bytes_writer.write_"@ + id + "("@ + primitive + ");"@,
        _ => accessor + ".write_to_buffers(bytes_writer);"@,
    }
}

fn write_primitive(id: &str, accessor: &str) -> (res: String)
    ensures
        res@ == "bytes_writer.write_"@ + id@ + "("@ + accessor@ + ");"@,
{
    let mut res = cat3("bytes_writer.write_", id, "(");
    res.append(accessor);
    res.append(");");
    res
}

/// The Rust statement that writes the value at `accessor` to `bytes_writer`.
pub fn generate_write(type_id: &TypeIDASTNode, accessor: &str, deref: bool) -> (res: String)
    ensures
        res@ == rust_write_text(type_id@, accessor@, deref),
{
    let deref_accessor = cat("*", accessor);
    let primitive_accessor: &str = if deref { deref_accessor.as_str() } else { accessor };
    match type_id {
        TypeIDASTNode::Integer { id, .. } => write_primitive(id.as_str(), primitive_accessor),
        TypeIDASTNode::Number { id, .. } => write_primitive(id.as_str(), primitive_accessor),
        TypeIDASTNode::Bool { id } => write_primitive(id.as_str(), primitive_accessor),
        TypeIDASTNode::Char { id } => write_primitive(id.as_str(), primitive_accessor),
        TypeIDASTNode::Other { .. } => cat(accessor, ".write_to_buffers(bytes_writer);"),
        TypeIDASTNode::Generic { .. } => cat(accessor, ".write_to_buffers(bytes_writer);"),
    }
}

/// The Rust default value of a type.
pub open spec fn rust_default_text(t: TypeId) -> Seq<char> {
    match t {
        TypeId::Integer { .. } => "0"@,
        TypeId::Number { .. } => "0.0"@,
        TypeId::Bool { .. } => "false"@,
        TypeId::Char { .. } => "0"@,
        TypeId::Other { id } => id + "::default()"@,
        TypeId::Generic { id, generics } => id + "::<"@ + rust_types_text(generics) + ">::default()"@,
    }
}

/// The Rust default value of a type.
pub fn generate_default_const(type_id: &TypeIDASTNode) -> (res: String)
    ensures
        res@ == rust_default_text(type_id@),
{
    match type_id {
        TypeIDASTNode::Integer { .. } => String::from_str("0"),
        TypeIDASTNode::Number { .. } => String::from_str("0.0"),
        TypeIDASTNode::Bool { .. } => String::from_str("false"),
        TypeIDASTNode::Char { .. } => String::from_str("0"),
        TypeIDASTNode::Other { id } => cat(id.as_str(), "::default()"),
        TypeIDASTNode::Generic { id, generics } => {
            let inner = generics_text(generics);
            let mut res = cat(id.as_str(), "::<");
            res.append(inner.as_str());
            res.append(">::default()");
            res
        },
    }
}


/// Every enum has a variant.
pub open spec fn enums_not_empty(ast: Seq<ASTNode>) -> bool {
    forall|i: int| 0 <= i < ast.len() ==> (#[trigger] ast[i] matches ASTNode::Enum(node) ==> node.items@.len() > 0)
}

pub open spec fn model_text(node: ASTNode) -> Seq<char> {
    match node {
        ASTNode::Struct(node) => line(0, struct_model_text(node, true)),
        ASTNode::Enum(node) => line(0, enum_model_text(node)),
        _ => Seq::empty(),
    }
}

/// The models of the structs and enums, in their order.
pub open spec fn models_text(ast: Seq<ASTNode>) -> Seq<char> {
    trim_blank_line(concat_map(ast, |n: ASTNode| model_text(n)))
}

/// A node that is neither a struct nor an enum adds nothing to the models,
/// and one that is adds its model after those of the nodes before it.
pub proof fn lemma_models_of_one_more(ast: Seq<ASTNode>, n: ASTNode)
    ensures
        concat_map(ast.push(n), |m: ASTNode| model_text(m))
            == concat_map(ast, |m: ASTNode| model_text(m)) + model_text(n),
        !(n is Struct || n is Enum) ==> concat_map(ast.push(n), |m: ASTNode| model_text(m))
            == concat_map(ast, |m: ASTNode| model_text(m)),
{
    assert(ast.push(n).drop_last() =~= ast);
    assert(concat_map(ast, |m: ASTNode| model_text(m)) + Seq::<char>::empty() =~= concat_map(ast, |m: ASTNode| model_text(m)));
}

/// The models of the nodes: for each struct and each enum, in the order of
/// the nodes, its model followed by a line break, so that one blank line
/// separates them; the other nodes give nothing, and one final blank line
/// is dropped.
pub fn generate_models(ast: &[ASTNode]) -> (res: String)
    requires
        enums_not_empty(ast@),
    ensures
        res@ == models_text(ast@),
{
    let mut writer = Writer::default();
    let mut i: usize = 0;
    while i < ast.len()
        invariant
            i <= ast@.len(),
            enums_not_empty(ast@),
            writer@.tab == tab4(),
            writer@.level == 0,
            writer@.text == concat_map(ast@.take(i as int), |n: ASTNode| model_text(n)),
        decreases ast@.len() - i,
    {
        match &ast[i] {
            ASTNode::Struct(node) => writer.writeln(generate_struct_model(node, true).as_str()),
            ASTNode::Enum(node) => {
                assert(ast@[i as int] matches ASTNode::Enum(node) ==> node.items@.len() > 0);
                writer.writeln(generate_enum_model(node).as_str());
            },
            _ => {},
        }
        assert(ast@.take(i + 1).drop_last() =~= ast@.take(i as int));
        i = i + 1;
    }
    assert(ast@.take(ast@.len() as int) =~= ast@);
    trim_blank_line_end(writer.show())
}

pub open spec fn buffers_text(node: ASTNode) -> Seq<char> {
    match node {
        ASTNode::Struct(node) => line(0, struct_buffers_text(node)),
        ASTNode::Enum(node) => line(0, enum_buffers_text(node)),
        _ => Seq::empty(),
    }
}

/// `impl IntoVMBuffers` of the structs and enums, in their order.
pub open spec fn all_buffers_text(ast: Seq<ASTNode>) -> Seq<char> {
    trim_blank_line(concat_map(ast, |n: ASTNode| buffers_text(n)))
}

pub fn generate_buffers(ast: &[ASTNode]) -> (res: String)
    ensures
        res@ == all_buffers_text(ast@),
{
    let mut writer = Writer::default();
    let mut i: usize = 0;
    while i < ast.len()
        invariant
            i <= ast@.len(),
            writer@.tab == tab4(),
            writer@.level == 0,
            writer@.text == concat_map(ast@.take(i as int), |n: ASTNode| buffers_text(n)),
        decreases ast@.len() - i,
    {
        match &ast[i] {
            ASTNode::Struct(node) => writer.writeln(generate_struct_buffers(node).as_str()),
            ASTNode::Enum(node) => writer.writeln(generate_enum_buffers(node).as_str()),
            _ => {},
        }
        assert(ast@.take(i + 1).drop_last() =~= ast@.take(i as int));
        i = i + 1;
    }
    assert(ast@.take(ast@.len() as int) =~= ast@);
    trim_blank_line_end(writer.show())
}

/// Constant blocks nest no deeper than a `usize` counts.
pub open spec fn consts_depth_fits(ast: Seq<ASTNode>) -> bool {
    forall|i: int| 0 <= i < ast.len() ==> (#[trigger] ast[i] matches ASTNode::Const(node) ==> const_block_depth(node) <= usize::MAX)
}

pub open spec fn const_node_text(node: ASTNode) -> Seq<char> {
    match node {
        ASTNode::Const(node) => line(0, const_block_text(0, node)),
        _ => Seq::empty(),
    }
}

/// The constant blocks as Rust modules, in their order.
pub open spec fn consts_text(ast: Seq<ASTNode>) -> Seq<char> {
    trim_blank_line(concat_map(ast, |n: ASTNode| const_node_text(n)))
}

/// A node that is no constant block adds nothing to the constants, and one
/// that is adds its module after those of the nodes before it.
pub proof fn lemma_consts_of_one_more(ast: Seq<ASTNode>, n: ASTNode)
    ensures
        concat_map(ast.push(n), |m: ASTNode| const_node_text(m))
            == concat_map(ast, |m: ASTNode| const_node_text(m)) + const_node_text(n),
        !(n is Const) ==> concat_map(ast.push(n), |m: ASTNode| const_node_text(m))
            == concat_map(ast, |m: ASTNode| const_node_text(m)),
{
    assert(ast.push(n).drop_last() =~= ast);
    assert(concat_map(ast, |m: ASTNode| const_node_text(m)) + Seq::<char>::empty() =~= concat_map(ast, |m: ASTNode| const_node_text(m)));
}

/// The constant blocks of the nodes as Rust modules: for each constant
/// node, in the order of the nodes, its block followed by a line break, so
/// that one blank line separates them; the other nodes give nothing, and
/// one final blank line is dropped.
pub fn generate_consts(ast: &[ASTNode]) -> (res: String)
    requires
        consts_depth_fits(ast@),
    ensures
        res@ == consts_text(ast@),
{
    let mut writer = Writer::default();
    let mut i: usize = 0;
    while i < ast.len()
        invariant
            i <= ast@.len(),
            consts_depth_fits(ast@),
            writer@.tab == tab4(),
            writer@.level == 0,
            writer@.text == concat_map(ast@.take(i as int), |n: ASTNode| const_node_text(n)),
        decreases ast@.len() - i,
    {
        if let ASTNode::Const(node) = &ast[i] {
            assert(ast@[i as int] matches ASTNode::Const(node) ==> const_block_depth(node) <= usize::MAX);
            writer.writeln(generate_const_block(0, node).as_str());
        }
        assert(ast@.take(i + 1).drop_last() =~= ast@.take(i as int));
        i = i + 1;
    }
    assert(ast@.take(ast@.len() as int) =~= ast@);
    trim_blank_line_end(writer.show())
}


/// The text of a string literal (empty for other literals).
pub open spec fn string_of(value: ConstValue) -> Seq<char> {
    match value.literal {
        Literal::StringLiteral(s) => s@,
        _ => Seq::empty(),
    }
}

pub open spec fn import_line(value: ConstValue) -> Seq<char> {
    line(0, "use "@ + string_of(value) + ";"@)
}

/// The imports that `#[rust(use = "..")]` directives ask for must be strings.
pub open spec fn imports_are_strings(ast: Seq<ASTNode>) -> bool {
    forall|i: int| 0 <= i < directive_group_values(ast, "rust"@, "use"@).len()
        ==> #[trigger] directive_group_values(ast, "rust"@, "use"@)[i].literal is StringLiteral
}

/// The lines that open every generated Rust file.
pub open spec fn rust_header_text() -> Seq<char> {
    line(0, "// GENERATED, DO NOT EDIT"@)
        + line(0, ""@)
        + line(0, "#![allow(warnings)]"@)
        + line(0, "#![allow(clippy)]"@)
        + line(0, "#![allow(unknown_lints)]"@)
        + line(0, ""@)
}

/// Whether the nodes hold a struct or an enum.
pub open spec fn has_buffers_nodes(ast: Seq<ASTNode>) -> bool {
    exists|i: int| 0 <= i < ast.len() && (ast[i] is Struct || ast[i] is Enum)
}

/// Whether the nodes hold a constant block.
pub open spec fn has_consts_nodes(ast: Seq<ASTNode>) -> bool {
    exists|i: int| 0 <= i < ast.len() && ast[i] is Const
}

/// Whether the nodes hold a method.
pub open spec fn has_fn_nodes(ast: Seq<ASTNode>) -> bool {
    exists|i: int| 0 <= i < ast.len() && ast[i] is Fn
}

/// The import of the buffer traits, where there are models or methods,
/// and of the runtime, where there are methods.
pub open spec fn buffers_import_text(ast: Seq<ASTNode>) -> Seq<char> {
    (if has_buffers_nodes(ast) || has_fn_nodes(ast) {
        line(0, "use tech_paws_buffers::memory::{BytesReader, BytesWriter, TechPawsBuffersModel};"@)
    } else {
        Seq::empty()
    }) + (if has_fn_nodes(ast) {
        line(0, "use tech_paws_buffers::runtime_memory::{"@)
            + line(0, "    RpcMethodAddress, TechPawsRuntimeMemory, TechPawsRuntimeRpcMethodBuffer,"@)
            + line(0, "    TechPawsRuntimeRpcMethodPayloadSize, TechPawsScopeId,"@)
            + line(0, "};"@)
            + line(0, "use tech_paws_buffers::{RpcMethodHandler, TechPawsBuffersRuntime, TechPawsRpcMethod, TechPawsSignalRpcResult};"@)
            + line(0, "use uuid::uuid;"@)
    } else {
        Seq::empty()
    })
}

/// The `use` lines that `#[rust(use = "..")]` directives ask for.
pub open spec fn imports_text(ast: Seq<ASTNode>) -> Seq<char> {
    concat_map(directive_group_values(ast, "rust"@, "use"@), |v: ConstValue| import_line(v))
}

/// The constants section, where there are constants.
pub open spec fn consts_section_text(ast: Seq<ASTNode>) -> Seq<char> {
    if has_consts_nodes(ast) { line(0, ""@) + consts_text(ast) } else { Seq::empty() }
}

/// The models and buffers sections, where there are models.
pub open spec fn models_section_text(ast: Seq<ASTNode>) -> Seq<char> {
    if has_buffers_nodes(ast) {
        line(0, ""@) + models_text(ast) + line(0, ""@) + all_buffers_text(ast)
    } else {
        Seq::empty()
    }
}

/// The RPC section, where there are methods.
pub open spec fn rpc_section_text(ast: Seq<ASTNode>) -> Seq<char> {
    if has_fn_nodes(ast) { line(0, ""@) + rpc_text(ast) } else { Seq::empty() }
}

/// A whole Rust file: the header, the imports, the constants, the models
/// and their buffers, the RPC handlers, with final blank lines removed.
pub open spec fn rust_file_text(ast: Seq<ASTNode>) -> Seq<char> {
    trim_blank_lines(
        rust_header_text() + buffers_import_text(ast) + imports_text(ast)
            + consts_section_text(ast) + models_section_text(ast) + rpc_section_text(ast),
    )
}

/// The RPC section of the Rust file: nothing without methods; otherwise the
/// registration function and each method's handler, separated by blank
/// lines.
pub fn generate_rpc(ast: &[ASTNode]) -> (res: String)
    requires
        rpc_supported(ast@),
    ensures
        res@ == rpc_text(ast@),
{
    let fns = find_fn_nodes(ast);
    if fns.len() == 0 {
        return String::new();
    }
    assert(fn_nodes(ast@).len() > 0);
    let mut writer = Writer::default();
    writer.writeln(generate_register_fn(ast).as_str());
    let ghost head = writer@.text;
    let mut i: usize = 0;
    while i < fns.len()
        invariant
            i <= fns@.len(),
            fns@.len() == fn_nodes(ast@).len(),
            forall|k: int| 0 <= k < fns@.len() ==> *fns@[k] == fn_nodes(ast@)[k],
            rpc_supported(ast@),
            writer@.tab == tab4(),
            writer@.level == 0,
            writer@.text == head + concat_map(fn_nodes(ast@).take(i as int), |n: FnASTNode| line(0, rpc_method_text(n))),
        decreases fns@.len() - i,
    {
        assert(rpc_method_supported(fn_nodes(ast@)[i as int]));
        writer.writeln(generate_rpc_method(fns[i]).as_str());
        assert(fn_nodes(ast@).take(i + 1).drop_last() =~= fn_nodes(ast@).take(i as int));
        i = i + 1;
    }
    assert(fn_nodes(ast@).take(fn_nodes(ast@).len() as int) =~= fn_nodes(ast@));
    trim_blank_line_end(writer.show())
}

/// Appends the imports of the buffer traits and of the runtime.
fn write_runtime_uses(writer: &mut Writer, ast: &[ASTNode], has_buffers: bool, has_rpc: bool)
    requires
        old(writer)@.tab == tab4(),
        old(writer)@.level == 0,
        has_buffers == has_buffers_nodes(ast@),
        has_rpc == has_fn_nodes(ast@),
    ensures
        final(writer)@.tab == tab4(),
        final(writer)@.level == 0,
        final(writer)@.text == old(writer)@.text + buffers_import_text(ast@),
{
    if has_buffers || has_rpc {
        writer.writeln("use tech_paws_buffers::memory::{BytesReader, BytesWriter, TechPawsBuffersModel};");
    }
    if has_rpc {
        writer.writeln("use tech_paws_buffers::runtime_memory::{");
        writer.writeln("    RpcMethodAddress, TechPawsRuntimeMemory, TechPawsRuntimeRpcMethodBuffer,");
        writer.writeln("    TechPawsRuntimeRpcMethodPayloadSize, TechPawsScopeId,");
        writer.writeln("};");
        writer.writeln("use tech_paws_buffers::{RpcMethodHandler, TechPawsBuffersRuntime, TechPawsRpcMethod, TechPawsSignalRpcResult};");
        writer.writeln("use uuid::uuid;");
    }
    proof {
        assert(writer@.text =~= old(writer)@.text + buffers_import_text(ast@));
    }
}

/// A whole Rust file for the nodes.
pub fn generate(ast: &[ASTNode]) -> (res: String)
    requires
        rpc_supported(ast@),
        enums_not_empty(ast@),
        consts_depth_fits(ast@),
        imports_are_strings(ast@),
    ensures
        res@ == rust_file_text(ast@),
        !ends_with_blank_line(res@),
{
    let mut writer = Writer::default();
    writer.writeln("// GENERATED, DO NOT EDIT");
    writer.writeln("");
    writer.writeln("#![allow(warnings)]");
    writer.writeln("#![allow(clippy)]");
    writer.writeln("#![allow(unknown_lints)]");
    writer.writeln("");
    assert(writer@.text =~= rust_header_text());
    let has_rpc = contains_fn_nodes(ast);
    let has_buffers = contains_buffers_nodes(ast);
    let has_consts = contains_consts_nodes(ast);
    write_runtime_uses(&mut writer, ast, has_buffers, has_rpc);
    assert(writer@.text =~= rust_header_text() + buffers_import_text(ast@));
    let imports = find_directive_group_values(ast, "rust", "use");
    let ghost head = writer@.text;
    let ghost values = directive_group_values(ast@, "rust"@, "use"@);
    let mut i: usize = 0;
    while i < imports.len()
        invariant
            i <= imports@.len(),
            values == directive_group_values(ast@, "rust"@, "use"@),
            const_values_view(imports@) == values,
            imports_are_strings(ast@),
            writer@.tab == tab4(),
            writer@.level == 0,
            writer@.text == head + concat_map(values.take(i as int), |v: ConstValue| import_line(v)),
        decreases imports@.len() - i,
    {
        assert(values[i as int] == imports@[i as int]@);
        assert(values[i as int].literal is StringLiteral);
        match &imports[i] {
            ConstValueASTNode::Literal { literal, type_id: _ } => {
                if let Literal::StringLiteral(value) = literal {
                    writer.writeln(cat3("use ", value.as_str(), ";").as_str());
                }
            },
        }
        assert(values.take(i + 1).drop_last() =~= values.take(i as int));
        i = i + 1;
    }
    assert(values.take(values.len() as int) =~= values);
    let ghost mid = writer@.text;
    assert(mid =~= rust_header_text() + buffers_import_text(ast@) + imports_text(ast@));
    if has_consts {
        writer.writeln("");
        writer.write(generate_consts(ast).as_str());
    }
    assert(writer@.text =~= mid + consts_section_text(ast@));
    let ghost mid2 = writer@.text;
    if has_buffers {
        writer.writeln("");
        writer.write(generate_models(ast).as_str());
        writer.writeln("");
        writer.write(generate_buffers(ast).as_str());
    }
    assert(writer@.text =~= mid2 + models_section_text(ast@));
    let ghost mid3 = writer@.text;
    if has_rpc {
        writer.writeln("");
        writer.write(generate_rpc(ast).as_str());
    }
    assert(writer@.text =~= mid3 + rpc_section_text(ast@));
    proof {
        lemma_trim_blank_lines(rust_header_text() + buffers_import_text(ast@) + imports_text(ast@)
            + consts_section_text(ast@) + models_section_text(ast@) + rpc_section_text(ast@));
    }
    trim_blank_lines_end(writer.show())
}


/// Whether the nodes meet what `generate` asks of them: methods only with
/// a string `id` directive and never async unless signals, enums with at
/// least one variant, constant blocks whose nesting fits in `usize`, and
/// `#[rust(use = ..)]` values that are strings.
pub fn rust_inputs_supported(ast: &[ASTNode]) -> (res: bool)
    ensures
        res == (rpc_supported(ast@) && enums_not_empty(ast@) && consts_depth_fits(ast@) && imports_are_strings(ast@)),
{
    let mut i: usize = 0;
    while i < ast.len()
        invariant
            i <= ast@.len(),
            forall|k: int| 0 <= k < i ==> (#[trigger] ast@[k] matches ASTNode::Enum(node) ==> node.items@.len() > 0),
            forall|k: int| 0 <= k < i ==> (#[trigger] ast@[k] matches ASTNode::Const(node) ==> const_block_depth(node) <= usize::MAX),
        decreases ast@.len() - i,
    {
        match &ast[i] {
            ASTNode::Enum(node) => {
                if node.items.len() == 0 {
                    return false;
                }
            },
            ASTNode::Const(node) => {
                if const_block_depth_of(node).is_none() {
                    return false;
                }
            },
            _ => {},
        }
        i = i + 1;
    }
    let uses = find_directive_group_values(ast, "rust", "use");
    let ghost values = directive_group_values(ast@, "rust"@, "use"@);
    let mut j: usize = 0;
    while j < uses.len()
        invariant
            j <= uses@.len(),
            const_values_view(uses@) == values,
            values == directive_group_values(ast@, "rust"@, "use"@),
            forall|k: int| 0 <= k < j ==> #[trigger] values[k].literal is StringLiteral,
        decreases uses@.len() - j,
    {
        assert(values[j as int] == uses@[j as int]@);
        let is_string = match &uses[j] {
            ConstValueASTNode::Literal { literal, .. } => match literal {
                Literal::StringLiteral(_) => true,
                _ => false,
            },
        };
        if !is_string {
            assert(!(values[j as int].literal is StringLiteral));
            return false;
        }
        j = j + 1;
    }
    let fns = find_fn_nodes(ast);
    if fns.len() == 0 {
        return true;
    }
    match find_directive_value(ast, "id") {
        Some(ConstValueASTNode::Literal { literal: Literal::StringLiteral(_), .. }) => {},
        _ => { return false; },
    }
    let mut m: usize = 0;
    while m < fns.len()
        invariant
            m <= fns@.len(),
            fns@.len() == fn_nodes(ast@).len(),
            forall|k: int| 0 <= k < fns@.len() ==> *fns@[k] == fn_nodes(ast@)[k],
            forall|k: int| 0 <= k < m ==> rpc_method_supported(#[trigger] fn_nodes(ast@)[k]),
        decreases fns@.len() - m,
    {
        let f: &FnASTNode = fns[m];
        if !f.is_signal && f.is_async {
            assert(!rpc_method_supported(fn_nodes(ast@)[m as int]));
            return false;
        }
        m = m + 1;
    }
    true
}

} // verus!
