use vstd::prelude::*;
use crate::ast::{StructASTNode, StructFieldASTNode};
use crate::rust_generator::{generate_read, generate_write, rust_read_text, rust_write_text};
use crate::text::{cat, cat3, copy_str};
use crate::writer::{Writer, line, concat_map, concat_indexed, lemma_concat_map_indexed};

verus! {

/// `impl IntoVMBuffers` for a struct: reading, writing and skipping it.
pub open spec fn struct_buffers_text(node: StructASTNode) -> Seq<char> {
    line(0, "impl IntoVMBuffers for "@ + node.id@ + " {"@)
        + struct_read_text(node)
        + line(0, ""@)
        + struct_write_text(node)
        + line(0, ""@)
        + struct_skip_text(node)
        + line(0, "}"@)
}

pub fn generate_struct_buffers(node: &StructASTNode) -> (res: String)
    ensures
        res@ == struct_buffers_text(*node),
{
    let mut writer = Writer::default();
    writer.writeln(cat3("impl IntoVMBuffers for ", node.id.as_str(), " {").as_str());
    writer.write(generate_struct_buffers_read_from_buffers(node).as_str());
    writer.writeln("");
    writer.write(generate_struct_buffers_write_to_buffers(node).as_str());
    writer.writeln("");
    writer.write(generate_struct_buffers_skip(node).as_str());
    writer.writeln("}");
    copy_str(writer.show())
}

pub open spec fn read_field_line(field: StructFieldASTNode) -> Seq<char> {
    line(3, field.name@ + ": "@ + rust_read_text(field.type_id@) + ","@)
}

/// `read_from_buffers`: builds the struct from the fields read in order.
pub open spec fn struct_read_text(node: StructASTNode) -> Seq<char> {
    if node.fields@.len() == 0 {
        line(1, "fn read_from_buffers(_: &mut BytesReader) -> Self {"@)
            + line(2, node.id@)
            + line(1, "}"@)
    } else {
        line(1, "fn read_from_buffers(bytes_reader: &mut BytesReader) -> Self {"@)
            + line(2, "Self {"@)
            + concat_map(node.fields@, |f: StructFieldASTNode| read_field_line(f))
            + line(2, "}"@)
            + line(1, "}"@)
    }
}

pub fn generate_struct_buffers_read_from_buffers(node: &StructASTNode) -> (res: String)
    ensures
        res@ == struct_read_text(*node),
{
    let mut writer = Writer::default();
    if node.fields.len() == 0 {
        writer.writeln_tab(1, "fn read_from_buffers(_: &mut BytesReader) -> Self {");
        writer.writeln_tab(2, node.id.as_str());
        writer.writeln_tab(1, "}");
    } else {
        writer.writeln_tab(1, "fn read_from_buffers(bytes_reader: &mut BytesReader) -> Self {");
        writer.writeln_tab(2, "Self {");
        let ghost head = writer@.text;
        let mut i: usize = 0;
        while i < node.fields.len()
            invariant
                i <= node.fields@.len(),
                writer@.tab == crate::writer::tab4(),
                writer@.level == 0,
                writer@.text == head + concat_map(node.fields@.take(i as int), |f: StructFieldASTNode| read_field_line(f)),
            decreases node.fields@.len() - i,
        {
            let field = &node.fields[i];
            let read = generate_read(&field.type_id);
            let text = cat3(field.name.as_str(), ": ", read.as_str());
            writer.writeln_tab(3, cat(text.as_str(), ",").as_str());
            assert(node.fields@.take(i + 1).drop_last() =~= node.fields@.take(i as int));
            i = i + 1;
        }
        assert(node.fields@.take(node.fields@.len() as int) =~= node.fields@);
        writer.writeln_tab(2, "}");
        writer.writeln_tab(1, "}");
    }
    copy_str(writer.show())
}

pub open spec fn write_field_line(field: StructFieldASTNode) -> Seq<char> {
    line(2, rust_write_text(field.type_id@, "self."@ + field.name@, false))
}

/// `write_to_buffers`: writes the fields in order.
pub open spec fn struct_write_text(node: StructASTNode) -> Seq<char> {
    if node.fields@.len() == 0 {
        line(1, "fn write_to_buffers(&self, _: &mut BytesWriter) {}"@)
    } else {
        line(1, "fn write_to_buffers(&self, bytes_writer: &mut BytesWriter) {"@)
            + concat_map(node.fields@, |f: StructFieldASTNode| write_field_line(f))
            + line(1, "}"@)
    }
}

pub fn generate_struct_buffers_write_to_buffers(node: &StructASTNode) -> (res: String)
    ensures
        res@ == struct_write_text(*node),
{
    let mut writer = Writer::default();
    if node.fields.len() == 0 {
        writer.writeln_tab(1, "fn write_to_buffers(&self, _: &mut BytesWriter) {}");
    } else {
        writer.writeln_tab(1, "fn write_to_buffers(&self, bytes_writer: &mut BytesWriter) {");
        let ghost head = writer@.text;
        let mut i: usize = 0;
        while i < node.fields.len()
            invariant
                i <= node.fields@.len(),
                writer@.tab == crate::writer::tab4(),
                writer@.level == 0,
                writer@.text == head + concat_map(node.fields@.take(i as int), |f: StructFieldASTNode| write_field_line(f)),
            decreases node.fields@.len() - i,
        {
            let field = &node.fields[i];
            let accessor = cat("self.", field.name.as_str());
            writer.writeln_tab(2, generate_write(&field.type_id, accessor.as_str(), false).as_str());
            assert(node.fields@.take(i + 1).drop_last() =~= node.fields@.take(i as int));
            i = i + 1;
        }
        assert(node.fields@.take(node.fields@.len() as int) =~= node.fields@);
        writer.writeln_tab(1, "}");
    }
    copy_str(writer.show())
}

pub open spec fn skip_field_line(field: StructFieldASTNode) -> Seq<char> {
    line(3, rust_read_text(field.type_id@) + ";"@)
}

/// `skip_in_buffers`: reads and drops the fields, `count` times.
pub open spec fn struct_skip_text(node: StructASTNode) -> Seq<char> {
    if node.fields@.len() == 0 {
        line(1, "fn skip_in_buffers(_: &mut BytesReader, _: u64) {}"@)
    } else {
        line(1, "fn skip_in_buffers(bytes_reader: &mut BytesReader, count: u64) {"@)
            + line(2, "for _ in 0..count {"@)
            + concat_map(node.fields@, |f: StructFieldASTNode| skip_field_line(f))
            + line(2, "}"@)
            + line(1, "}"@)
    }
}

pub fn generate_struct_buffers_skip(node: &StructASTNode) -> (res: String)
    ensures
        res@ == struct_skip_text(*node),
{
    let mut writer = Writer::default();
    if node.fields.len() == 0 {
        writer.writeln_tab(1, "fn skip_in_buffers(_: &mut BytesReader, _: u64) {}");
    } else {
        writer.writeln_tab(1, "fn skip_in_buffers(bytes_reader: &mut BytesReader, count: u64) {");
        writer.writeln_tab(2, "for _ in 0..count {");
        let ghost head = writer@.text;
        let mut i: usize = 0;
        while i < node.fields.len()
            invariant
                i <= node.fields@.len(),
                writer@.tab == crate::writer::tab4(),
                writer@.level == 0,
                writer@.text == head + concat_map(node.fields@.take(i as int), |f: StructFieldASTNode| skip_field_line(f)),
            decreases node.fields@.len() - i,
        {
            let field = &node.fields[i];
            writer.writeln_tab(3, cat(generate_read(&field.type_id).as_str(), ";").as_str());
            assert(node.fields@.take(i + 1).drop_last() =~= node.fields@.take(i as int));
            i = i + 1;
        }
        assert(node.fields@.take(node.fields@.len() as int) =~= node.fields@);
        writer.writeln_tab(2, "}");
        writer.writeln_tab(1, "}");
    }
    copy_str(writer.show())
}


/// Skipping records reads what reading them reads, `count` times: for a
/// struct with fields, `skip_in_buffers` takes `count`, loops over
/// `0..count` (so its body runs exactly `count` times), and its body reads,
/// one line each and in order, the `k`-th field with the very read
/// expression that `read_from_buffers` uses for the `k`-th field.
pub proof fn lemma_struct_skip_reads_count_records(node: StructASTNode)
    requires
        node.fields@.len() > 0,
    ensures
        struct_skip_text(node) == line(1, "fn skip_in_buffers(bytes_reader: &mut BytesReader, count: u64) {"@)
            + line(2, "for _ in "@ + "0"@ + ".."@ + "count"@ + " {"@)
            + concat_indexed(node.fields@.len(), |k: nat| line(3, rust_read_text(node.fields@[k as int].type_id@) + ";"@))
            + line(2, "}"@)
            + line(1, "}"@),
        struct_read_text(node) == line(1, "fn read_from_buffers(bytes_reader: &mut BytesReader) -> Self {"@)
            + line(2, "Self {"@)
            + concat_indexed(node.fields@.len(), |k: nat| line(3, node.fields@[k as int].name@ + ": "@ + rust_read_text(node.fields@[k as int].type_id@) + ","@))
            + line(2, "}"@)
            + line(1, "}"@),
{
    reveal_strlit("for _ in ");
    reveal_strlit("0");
    reveal_strlit("..");
    reveal_strlit("count");
    reveal_strlit(" {");
    reveal_strlit("for _ in 0..count {");
    assert("for _ in "@ + "0"@ + ".."@ + "count"@ + " {"@ =~= "for _ in 0..count {"@);
    let fs = node.fields@;
    lemma_concat_map_indexed(fs, |f: StructFieldASTNode| skip_field_line(f), |k: nat| line(3, rust_read_text(fs[k as int].type_id@) + ";"@));
    lemma_concat_map_indexed(fs, |f: StructFieldASTNode| read_field_line(f), |k: nat| line(3, fs[k as int].name@ + ": "@ + rust_read_text(fs[k as int].type_id@) + ","@));
}

} // verus!
