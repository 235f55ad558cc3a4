pub mod types;
pub mod ir;
pub mod generator_tokens;
pub mod generator;
pub mod consts;
pub mod checks;

use vstd::prelude::*;
use crate::ast::{ASTNode, ConstValue, ConstValueASTNode, directive_group_values, find_directive_group_values, fn_nodes, find_fn_nodes};
use crate::lexer::Literal;
use crate::rust_generator::string_of;
use crate::swift::generator::{generate_consts, generate_models, generate_rpc, append_tokens, consts_nodes, models_nodes, models_supported, rpc_nodes, swift_rpc_supported};
use crate::swift::ir::{stringify_ir, sw_fits_all, sw_write_all, sw_views};
use crate::swift::checks::{models_ok, rpc_ok, fits_all};
use crate::text::cat;
use crate::writer::{Writer, line, tab4, concat_map, default_writer_state};

verus! {

/// The imports that `#[swift(import = "..")]` directives ask for must be
/// strings.
pub open spec fn swift_imports_are_strings(ast: Seq<ASTNode>) -> bool {
    forall|i: int| 0 <= i < directive_group_values(ast, "swift"@, "import"@).len()
        ==> #[trigger] directive_group_values(ast, "swift"@, "import"@)[i].literal is StringLiteral
}

pub open spec fn swift_import_line(value: ConstValue) -> Seq<char> {
    line(0, "import "@ + string_of(value))
}

/// The lines that open every generated Swift file.
pub open spec fn swift_header_text() -> Seq<char> {
    line(0, "// GENERATED, DO NOT EDIT"@)
        + line(0, ""@)
        + line(0, "import Foundation"@)
        + line(0, "import Combine"@)
        + line(0, ""@)
}

/// The declarations of a Swift file: the constants, the models, then the
/// RPC struct where there are methods.
pub open spec fn swift_declarations(ast: Seq<ASTNode>) -> Seq<crate::swift::ir::SwiftNode> {
    consts_nodes(ast) + models_nodes(ast) + rpc_nodes(ast)
}

/// A whole Swift file: the header, the imports, then the declarations.
pub open spec fn swift_file_text(ast: Seq<ASTNode>) -> Seq<char> {
    swift_header_text()
        + concat_map(directive_group_values(ast, "swift"@, "import"@), |v: ConstValue| swift_import_line(v))
        + sw_write_all(default_writer_state(), swift_declarations(ast)).text
}

/// A whole Swift file for the nodes: the header, the imports, the
/// constants, the models and, where there are methods, the RPC struct.
pub fn generate(ast: &[ASTNode]) -> (res: String)
    requires
        fn_nodes(ast@).len() > 0 ==> swift_rpc_supported(ast@),
        models_supported(ast@),
        sw_fits_all(swift_declarations(ast@), usize::MAX as nat),
        swift_imports_are_strings(ast@),
    ensures
        res@ == swift_file_text(ast@),
{
    let mut ir = generate_consts(ast);
    let mut models = generate_models(ast);
    append_tokens(&mut ir, &mut models);
    if find_fn_nodes(ast).len() > 0 {
        let mut rpc = generate_rpc(ast);
        append_tokens(&mut ir, &mut rpc);
    }
    let mut writer = Writer::default();
    writer.writeln("// GENERATED, DO NOT EDIT");
    writer.writeln("");
    writer.writeln("import Foundation");
    writer.writeln("import Combine");
    writer.writeln("");
    assert(writer@.text =~= swift_header_text());
    let imports = find_directive_group_values(ast, "swift", "import");
    let ghost head = writer@.text;
    let ghost values = directive_group_values(ast@, "swift"@, "import"@);
    let mut i: usize = 0;
    while i < imports.len()
        invariant
            i <= imports@.len(),
            values == directive_group_values(ast@, "swift"@, "import"@),
            crate::ast::const_values_view(imports@) == values,
            swift_imports_are_strings(ast@),
            writer@.tab == tab4(),
            writer@.level == 0,
            writer@.text == head + concat_map(values.take(i as int), |v: ConstValue| swift_import_line(v)),
        decreases imports@.len() - i,
    {
        assert(values[i as int] == imports@[i as int]@);
        assert(values[i as int].literal is StringLiteral);
        match &imports[i] {
            ConstValueASTNode::Literal { literal, type_id: _ } => {
                if let Literal::StringLiteral(value) = literal {
                    writer.writeln(cat("import ", value.as_str()).as_str());
                }
            },
        }
        assert(values.take(i + 1).drop_last() =~= values.take(i as int));
        i = i + 1;
    }
    assert(values.take(values.len() as int) =~= values);
    writer.write(stringify_ir(ir.as_slice()).as_str());
    crate::text::copy_str(writer.show())
}


/// Whether the nodes meet what `generate` asks of them: a Swift form for
/// every model and, where there are methods, for the RPC struct; string
/// imports; and declarations that nest no deeper than the writer can
/// indent.
pub fn swift_inputs_supported(ast: &[ASTNode]) -> (res: bool)
    ensures
        res == ((fn_nodes(ast@).len() > 0 ==> swift_rpc_supported(ast@))
            && models_supported(ast@)
            && sw_fits_all(swift_declarations(ast@), usize::MAX as nat)
            && swift_imports_are_strings(ast@)),
{
    let has_fns = find_fn_nodes(ast).len() > 0;
    if has_fns && !rpc_ok(ast) {
        return false;
    }
    if !models_ok(ast) {
        return false;
    }
    let imports = find_directive_group_values(ast, "swift", "import");
    let ghost values = directive_group_values(ast@, "swift"@, "import"@);
    let mut j: usize = 0;
    while j < imports.len()
        invariant
            j <= imports@.len(),
            crate::ast::const_values_view(imports@) == values,
            values == directive_group_values(ast@, "swift"@, "import"@),
            forall|k: int| 0 <= k < j ==> #[trigger] values[k].literal is StringLiteral,
        decreases imports@.len() - j,
    {
        assert(values[j as int] == imports@[j as int]@);
        let is_string = match &imports[j] {
            ConstValueASTNode::Literal { literal, .. } => match literal {
                Literal::StringLiteral(_) => true,
                _ => false,
            },
        };
        if !is_string {
            assert(!(values[j as int].literal is StringLiteral));
            return false;
        }
        j = j + 1;
    }
    let mut ir = generate_consts(ast);
    let mut models = generate_models(ast);
    append_tokens(&mut ir, &mut models);
    if has_fns {
        let mut rpc = generate_rpc(ast);
        append_tokens(&mut ir, &mut rpc);
    }
    fits_all(&ir, usize::MAX)
}

} // verus!
