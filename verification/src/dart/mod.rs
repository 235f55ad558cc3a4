pub mod ir;
pub mod enum_into_buffers;
pub mod generator;

use vstd::prelude::*;
use crate::ast::ASTNode;
use crate::dart::ir::{stringify_ir, DartIR, dt_write_all, dart_writer_state};
use crate::writer::{Writer, line};

verus! {

/// The lines that open every generated Dart file.
pub open spec fn dart_header_text() -> Seq<char> {
    line(0, "// GENERATED, DO NOT EDIT"@) + line(0, ""@)
}

/// The Dart file for the nodes: the header, and no declaration after it;
/// the nodes are not written out.
pub fn generate(_ast: &[ASTNode]) -> (res: String)
    ensures
        res@ == dart_header_text(),
{
    let ir: Vec<DartIR> = Vec::new();
    let mut writer = Writer::new(2);
    writer.writeln("// GENERATED, DO NOT EDIT");
    writer.writeln("");
    let body = stringify_ir(ir.as_slice());
    proof {
        assert(ir@ =~= Seq::<DartIR>::empty());
        assert(body@ == dt_write_all(dart_writer_state(), ir@).text);
    }
    writer.write(body.as_str());
    let res = crate::text::copy_str(writer.show());
    proof {
        assert(res@ =~= dart_header_text());
    }
    res
}

} // verus!
