use vstd::prelude::*;
use crate::ast::{EnumASTNode, EnumItemASTNode, TupleFieldASTNode, StructFieldASTNode, TypeIDASTNode, TypeId};
use crate::rust_generator::{generate_read, generate_write, rust_read_text, rust_write_text};
use crate::text::{cat, cat3, copy_str, nat_text, nat_to_text};
use crate::writer::{Writer, line, concat_map, concat_indexed, tab4, lemma_concat_map_indexed};

verus! {

/// The type of enum discriminants.
pub open spec fn u32_type() -> TypeId {
    TypeId::Integer { id: "u32"@, size: 8, signed: false }
}

/// `impl IntoVMBuffers` for an enum: reading, writing and skipping it.
pub open spec fn enum_buffers_text(node: EnumASTNode) -> Seq<char> {
    line(0, "impl IntoVMBuffers for "@ + node.id@ + " {"@)
        + enum_read_text(node)
        + line(0, ""@)
        + enum_write_text(node)
        + line(0, ""@)
        + enum_skip_text(node)
        + line(0, "}"@)
}

pub fn generate_enum_buffers(node: &EnumASTNode) -> (res: String)
    ensures
        res@ == enum_buffers_text(*node),
{
    let mut writer = Writer::default();
    writer.writeln(cat3("impl IntoVMBuffers for ", node.id.as_str(), " {").as_str());
    writer.write(generate_enum_buffers_read_from_buffers(node).as_str());
    writer.writeln("");
    writer.write(generate_enum_buffers_write_to_buffers(node).as_str());
    writer.writeln("");
    writer.write(generate_enum_buffers_skip(node).as_str());
    writer.writeln("}");
    copy_str(writer.show())
}

pub open spec fn read_value_line(value: TupleFieldASTNode) -> Seq<char> {
    line(4, rust_read_text(value.type_id@) + ","@)
}

pub open spec fn read_field_line(field: StructFieldASTNode) -> Seq<char> {
    line(4, field.name@ + ": "@ + rust_read_text(field.type_id@) + ","@)
}

/// The arm of `match value` that builds the variant with the given position.
pub open spec fn read_case_text(enum_id: Seq<char>, item: EnumItemASTNode) -> Seq<char> {
    match item {
        EnumItemASTNode::Empty { position, id } =>
            line(3, nat_text(position as nat) + " => return "@ + enum_id + "::"@ + id@ + ","@),
        EnumItemASTNode::Tuple { position, id, values } =>
            line(3, nat_text(position as nat) + " => return "@ + enum_id + "::"@ + id@ + "("@)
                + concat_map(values@, |v: TupleFieldASTNode| read_value_line(v))
                + line(3, "),"@),
        EnumItemASTNode::Struct { position, id, fields } =>
            line(3, nat_text(position as nat) + " => return "@ + enum_id + "::"@ + id@ + " {"@)
                + concat_map(fields@, |f: StructFieldASTNode| read_field_line(f))
                + line(3, "},"@),
    }
}

/// `read_from_buffers`: reads the discriminant, then the variant's values.
pub open spec fn enum_read_text(node: EnumASTNode) -> Seq<char> {
    line(1, "fn read_from_buffers(bytes_reader: &mut BytesReader) -> Self {"@)
        + line(2, "let value = "@ + rust_read_text(u32_type()) + ";"@)
        + line(0, ""@)
        + line(2, "match value {"@)
        + concat_map(node.items@, |item: EnumItemASTNode| read_case_text(node.id@, item))
        + line(3, "_ => panic!(\"Unsupported enum value: {}\", value),"@)
        + line(2, "}"@)
        + line(1, "}"@)
}

fn write_read_case(writer: &mut Writer, enum_id: &str, item: &EnumItemASTNode)
    requires
        old(writer)@.tab == tab4(),
        old(writer)@.level == 0,
    ensures
        final(writer)@.tab == tab4(),
        final(writer)@.level == 0,
        final(writer)@.text == old(writer)@.text + read_case_text(enum_id@, *item),
{
    match item {
        EnumItemASTNode::Empty { position, id } => {
            let head = cat(nat_to_text(*position as u64).as_str(), " => return ");
            let head = cat3(head.as_str(), enum_id, "::");
            writer.writeln_tab(3, cat3(head.as_str(), id.as_str(), ",").as_str());
        },
        EnumItemASTNode::Tuple { position, id, values } => {
            let head = cat(nat_to_text(*position as u64).as_str(), " => return ");
            let head = cat3(head.as_str(), enum_id, "::");
            writer.writeln_tab(3, cat3(head.as_str(), id.as_str(), "(").as_str());
            let ghost inner = writer@.text;
            let mut j: usize = 0;
            while j < values.len()
                invariant
                    j <= values@.len(),
                    writer@.tab == tab4(),
                    writer@.level == 0,
                    writer@.text == inner + concat_map(values@.take(j as int), |v: TupleFieldASTNode| read_value_line(v)),
                decreases values@.len() - j,
            {
                writer.writeln_tab(4, cat(generate_read(&values[j].type_id).as_str(), ",").as_str());
                assert(values@.take(j + 1).drop_last() =~= values@.take(j as int));
                j = j + 1;
            }
            assert(values@.take(values@.len() as int) =~= values@);
            writer.writeln_tab(3, "),");
        },
        EnumItemASTNode::Struct { position, id, fields } => {
            let head = cat(nat_to_text(*position as u64).as_str(), " => return ");
            let head = cat3(head.as_str(), enum_id, "::");
            writer.writeln_tab(3, cat3(head.as_str(), id.as_str(), " {").as_str());
            let ghost inner = writer@.text;
            let mut j: usize = 0;
            while j < fields.len()
                invariant
                    j <= fields@.len(),
                    writer@.tab == tab4(),
                    writer@.level == 0,
                    writer@.text == inner + concat_map(fields@.take(j as int), |f: StructFieldASTNode| read_field_line(f)),
                decreases fields@.len() - j,
            {
                let field = &fields[j];
                let text = cat3(field.name.as_str(), ": ", generate_read(&field.type_id).as_str());
                writer.writeln_tab(4, cat(text.as_str(), ",").as_str());
                assert(fields@.take(j + 1).drop_last() =~= fields@.take(j as int));
                j = j + 1;
            }
            assert(fields@.take(fields@.len() as int) =~= fields@);
            writer.writeln_tab(3, "},");
        },
    }
}

pub fn generate_enum_buffers_read_from_buffers(node: &EnumASTNode) -> (res: String)
    ensures
        res@ == enum_read_text(*node),
{
    let mut writer = Writer::default();
    writer.writeln_tab(1, "fn read_from_buffers(bytes_reader: &mut BytesReader) -> Self {");
    let read = generate_read(&TypeIDASTNode::u32_type_id());
    writer.writeln_tab(2, cat3("let value = ", read.as_str(), ";").as_str());
    writer.writeln("");
    writer.writeln_tab(2, "match value {");
    let ghost head = writer@.text;
    let mut i: usize = 0;
    while i < node.items.len()
        invariant
            i <= node.items@.len(),
            writer@.tab == tab4(),
            writer@.level == 0,
            writer@.text == head + concat_map(node.items@.take(i as int), |item: EnumItemASTNode| read_case_text(node.id@, item)),
        decreases node.items@.len() - i,
    {
        write_read_case(&mut writer, node.id.as_str(), &node.items[i]);
        assert(node.items@.take(i + 1).drop_last() =~= node.items@.take(i as int));
        i = i + 1;
    }
    assert(node.items@.take(node.items@.len() as int) =~= node.items@);
    writer.writeln_tab(3, "_ => panic!(\"Unsupported enum value: {}\", value),");
    writer.writeln_tab(2, "}");
    writer.writeln_tab(1, "}");
    copy_str(writer.show())
}

pub open spec fn binding_line(i: nat) -> Seq<char> {
    line(4, "v"@ + nat_text(i) + ","@)
}

pub open spec fn write_value_line(values: Seq<TupleFieldASTNode>, i: nat) -> Seq<char> {
    line(4, rust_write_text(values[i as int].type_id@, "v"@ + nat_text(i), true))
}

pub open spec fn field_binding_line(field: StructFieldASTNode) -> Seq<char> {
    line(4, field.name@ + ","@)
}

pub open spec fn write_field_line(field: StructFieldASTNode) -> Seq<char> {
    line(4, rust_write_text(field.type_id@, field.name@, true))
}

/// The arm of `match self` that writes the variant's position and values.
pub open spec fn write_case_text(enum_id: Seq<char>, item: EnumItemASTNode) -> Seq<char> {
    match item {
        EnumItemASTNode::Empty { position, id } =>
            line(3, enum_id + "::"@ + id@ + " => {"@)
                + line(4, rust_write_text(u32_type(), nat_text(position as nat), false))
                + line(3, "},"@),
        EnumItemASTNode::Tuple { position, id, values } =>
            line(3, enum_id + "::"@ + id@ + "("@)
                + concat_indexed(values@.len(), |i: nat| binding_line(i))
                + line(3, ") => {"@)
                + line(4, rust_write_text(u32_type(), nat_text(position as nat), false))
                + concat_indexed(values@.len(), |i: nat| write_value_line(values@, i))
                + line(3, "},"@),
        EnumItemASTNode::Struct { position, id, fields } =>
            line(3, enum_id + "::"@ + id@ + " {"@)
                + concat_map(fields@, |f: StructFieldASTNode| field_binding_line(f))
                + line(3, "} => {"@)
                + line(4, rust_write_text(u32_type(), nat_text(position as nat), false))
                + concat_map(fields@, |f: StructFieldASTNode| write_field_line(f))
                + line(3, "},"@),
    }
}

/// `write_to_buffers`: writes the discriminant, then the variant's values.
pub open spec fn enum_write_text(node: EnumASTNode) -> Seq<char> {
    line(1, "fn write_to_buffers(&self, bytes_writer: &mut BytesWriter) {"@)
        + line(2, "match self {"@)
        + concat_map(node.items@, |item: EnumItemASTNode| write_case_text(node.id@, item))
        + line(2, "}"@)
        + line(1, "}"@)
}

fn write_tuple_write_case(writer: &mut Writer, enum_id: &str, item: &EnumItemASTNode)
    requires
        old(writer)@.tab == tab4(),
        old(writer)@.level == 0,
        item is Tuple,
    ensures
        final(writer)@.tab == tab4(),
        final(writer)@.level == 0,
        final(writer)@.text == old(writer)@.text + write_case_text(enum_id@, *item),
{
    if let EnumItemASTNode::Tuple { position, id, values } = item {
        let u32_type_id = TypeIDASTNode::u32_type_id();
        writer.writeln_tab(3, cat3(cat(enum_id, "::").as_str(), id.as_str(), "(").as_str());
        let ghost inner = writer@.text;
        let mut j: usize = 0;
        while j < values.len()
            invariant
                j <= values@.len(),
                writer@.tab == tab4(),
                writer@.level == 0,
                writer@.text == inner + concat_indexed(j as nat, |i: nat| binding_line(i)),
            decreases values@.len() - j,
        {
            writer.writeln_tab(4, cat3("v", nat_to_text(j as u64).as_str(), ",").as_str());
            j = j + 1;
        }
        writer.writeln_tab(3, ") => {");
        let pos = nat_to_text(*position as u64);
        writer.writeln_tab(4, generate_write(&u32_type_id, pos.as_str(), false).as_str());
        let ghost inner2 = writer@.text;
        let mut j: usize = 0;
        while j < values.len()
            invariant
                j <= values@.len(),
                writer@.tab == tab4(),
                writer@.level == 0,
                writer@.text == inner2 + concat_indexed(j as nat, |i: nat| write_value_line(values@, i)),
            decreases values@.len() - j,
        {
            let accessor = cat("v", nat_to_text(j as u64).as_str());
            writer.writeln_tab(4, generate_write(&values[j].type_id, accessor.as_str(), true).as_str());
            j = j + 1;
        }
        writer.writeln_tab(3, "},");
    }
}

fn write_struct_write_case(writer: &mut Writer, enum_id: &str, item: &EnumItemASTNode)
    requires
        old(writer)@.tab == tab4(),
        old(writer)@.level == 0,
        item is Struct,
    ensures
        final(writer)@.tab == tab4(),
        final(writer)@.level == 0,
        final(writer)@.text == old(writer)@.text + write_case_text(enum_id@, *item),
{
    if let EnumItemASTNode::Struct { position, id, fields } = item {
        let u32_type_id = TypeIDASTNode::u32_type_id();
        writer.writeln_tab(3, cat3(cat(enum_id, "::").as_str(), id.as_str(), " {").as_str());
        let ghost inner = writer@.text;
        let mut j: usize = 0;
        while j < fields.len()
            invariant
                j <= fields@.len(),
                writer@.tab == tab4(),
                writer@.level == 0,
                writer@.text == inner + concat_map(fields@.take(j as int), |f: StructFieldASTNode| field_binding_line(f)),
            decreases fields@.len() - j,
        {
            writer.writeln_tab(4, cat(fields[j].name.as_str(), ",").as_str());
            assert(fields@.take(j + 1).drop_last() =~= fields@.take(j as int));
            j = j + 1;
        }
        assert(fields@.take(fields@.len() as int) =~= fields@);
        writer.writeln_tab(3, "} => {");
        let pos = nat_to_text(*position as u64);
        writer.writeln_tab(4, generate_write(&u32_type_id, pos.as_str(), false).as_str());
        let ghost inner2 = writer@.text;
        let mut j: usize = 0;
        while j < fields.len()
            invariant
                j <= fields@.len(),
                writer@.tab == tab4(),
                writer@.level == 0,
                writer@.text == inner2 + concat_map(fields@.take(j as int), |f: StructFieldASTNode| write_field_line(f)),
            decreases fields@.len() - j,
        {
            writer.writeln_tab(4, generate_write(&fields[j].type_id, fields[j].name.as_str(), true).as_str());
            assert(fields@.take(j + 1).drop_last() =~= fields@.take(j as int));
            j = j + 1;
        }
        assert(fields@.take(fields@.len() as int) =~= fields@);
        writer.writeln_tab(3, "},");
    }
}

fn write_write_case(writer: &mut Writer, enum_id: &str, item: &EnumItemASTNode)
    requires
        old(writer)@.tab == tab4(),
        old(writer)@.level == 0,
    ensures
        final(writer)@.tab == tab4(),
        final(writer)@.level == 0,
        final(writer)@.text == old(writer)@.text + write_case_text(enum_id@, *item),
{
    match item {
        EnumItemASTNode::Empty { position, id } => {
            let u32_type_id = TypeIDASTNode::u32_type_id();
            writer.writeln_tab(3, cat3(cat(enum_id, "::").as_str(), id.as_str(), " => {").as_str());
            let pos = nat_to_text(*position as u64);
            writer.writeln_tab(4, generate_write(&u32_type_id, pos.as_str(), false).as_str());
            writer.writeln_tab(3, "},");
        },
        EnumItemASTNode::Tuple { .. } => write_tuple_write_case(writer, enum_id, item),
        EnumItemASTNode::Struct { .. } => write_struct_write_case(writer, enum_id, item),
    }
}

pub fn generate_enum_buffers_write_to_buffers(node: &EnumASTNode) -> (res: String)
    ensures
        res@ == enum_write_text(*node),
{
    let mut writer = Writer::default();
    writer.writeln_tab(1, "fn write_to_buffers(&self, bytes_writer: &mut BytesWriter) {");
    writer.writeln_tab(2, "match self {");
    let ghost head = writer@.text;
    let mut i: usize = 0;
    while i < node.items.len()
        invariant
            i <= node.items@.len(),
            writer@.tab == tab4(),
            writer@.level == 0,
            writer@.text == head + concat_map(node.items@.take(i as int), |item: EnumItemASTNode| write_case_text(node.id@, item)),
        decreases node.items@.len() - i,
    {
        write_write_case(&mut writer, node.id.as_str(), &node.items[i]);
        assert(node.items@.take(i + 1).drop_last() =~= node.items@.take(i as int));
        i = i + 1;
    }
    assert(node.items@.take(node.items@.len() as int) =~= node.items@);
    writer.writeln_tab(2, "}");
    writer.writeln_tab(1, "}");
    copy_str(writer.show())
}

pub open spec fn skip_value_line(value: TupleFieldASTNode) -> Seq<char> {
    line(5, rust_read_text(value.type_id@) + ";"@)
}

pub open spec fn skip_field_line(field: StructFieldASTNode) -> Seq<char> {
    line(5, rust_read_text(field.type_id@) + ";"@)
}

/// The arm of `match value` that reads and drops the variant's values.
pub open spec fn skip_case_text(item: EnumItemASTNode) -> Seq<char> {
    match item {
        EnumItemASTNode::Empty { position, .. } => line(4, nat_text(position as nat) + " => (),"@),
        EnumItemASTNode::Tuple { position, values, .. } =>
            line(4, nat_text(position as nat) + " => {"@)
                + concat_map(values@, |v: TupleFieldASTNode| skip_value_line(v))
                + line(4, "},"@),
        EnumItemASTNode::Struct { position, fields, .. } =>
            line(4, nat_text(position as nat) + " => {"@)
                + concat_map(fields@, |f: StructFieldASTNode| skip_field_line(f))
                + line(4, "},"@),
    }
}

/// `skip_in_buffers`: reads and drops `count` values.
pub open spec fn enum_skip_text(node: EnumASTNode) -> Seq<char> {
    line(1, "fn skip_in_buffers(bytes_reader: &mut BytesReader, count: u64) {"@)
        + line(2, "for _ in 0..count {"@)
        + line(3, "let value = "@ + rust_read_text(u32_type()) + ";"@)
        + line(0, ""@)
        + line(3, "match value {"@)
        + concat_map(node.items@, |item: EnumItemASTNode| skip_case_text(item))
        + line(4, "_ => panic!(\"Unsupported enum value: {}\", value),"@)
        + line(3, "}"@)
        + line(2, "}"@)
        + line(1, "}"@)
}

fn write_skip_case(writer: &mut Writer, item: &EnumItemASTNode)
    requires
        old(writer)@.tab == tab4(),
        old(writer)@.level == 0,
    ensures
        final(writer)@.tab == tab4(),
        final(writer)@.level == 0,
        final(writer)@.text == old(writer)@.text + skip_case_text(*item),
{
    match item {
        EnumItemASTNode::Empty { position, id: _ } => {
            writer.writeln_tab(4, cat(nat_to_text(*position as u64).as_str(), " => (),").as_str());
        },
        EnumItemASTNode::Tuple { position, id: _, values } => {
            writer.writeln_tab(4, cat(nat_to_text(*position as u64).as_str(), " => {").as_str());
            let ghost inner = writer@.text;
            let mut j: usize = 0;
            while j < values.len()
                invariant
                    j <= values@.len(),
                    writer@.tab == tab4(),
                    writer@.level == 0,
                    writer@.text == inner + concat_map(values@.take(j as int), |v: TupleFieldASTNode| skip_value_line(v)),
                decreases values@.len() - j,
            {
                writer.writeln_tab(5, cat(generate_read(&values[j].type_id).as_str(), ";").as_str());
                assert(values@.take(j + 1).drop_last() =~= values@.take(j as int));
                j = j + 1;
            }
            assert(values@.take(values@.len() as int) =~= values@);
            writer.writeln_tab(4, "},");
        },
        EnumItemASTNode::Struct { position, id: _, fields } => {
            writer.writeln_tab(4, cat(nat_to_text(*position as u64).as_str(), " => {").as_str());
            let ghost inner = writer@.text;
            let mut j: usize = 0;
            while j < fields.len()
                invariant
                    j <= fields@.len(),
                    writer@.tab == tab4(),
                    writer@.level == 0,
                    writer@.text == inner + concat_map(fields@.take(j as int), |f: StructFieldASTNode| skip_field_line(f)),
                decreases fields@.len() - j,
            {
                writer.writeln_tab(5, cat(generate_read(&fields[j].type_id).as_str(), ";").as_str());
                assert(fields@.take(j + 1).drop_last() =~= fields@.take(j as int));
                j = j + 1;
            }
            assert(fields@.take(fields@.len() as int) =~= fields@);
            writer.writeln_tab(4, "},");
        },
    }
}

pub fn generate_enum_buffers_skip(node: &EnumASTNode) -> (res: String)
    ensures
        res@ == enum_skip_text(*node),
{
    let mut writer = Writer::default();
    writer.writeln_tab(1, "fn skip_in_buffers(bytes_reader: &mut BytesReader, count: u64) {");
    writer.writeln_tab(2, "for _ in 0..count {");
    let read = generate_read(&TypeIDASTNode::u32_type_id());
    writer.writeln_tab(3, cat3("let value = ", read.as_str(), ";").as_str());
    writer.writeln("");
    writer.writeln_tab(3, "match value {");
    let ghost head = writer@.text;
    let mut i: usize = 0;
    while i < node.items.len()
        invariant
            i <= node.items@.len(),
            writer@.tab == tab4(),
            writer@.level == 0,
            writer@.text == head + concat_map(node.items@.take(i as int), |item: EnumItemASTNode| skip_case_text(item)),
        decreases node.items@.len() - i,
    {
        write_skip_case(&mut writer, &node.items[i]);
        assert(node.items@.take(i + 1).drop_last() =~= node.items@.take(i as int));
        i = i + 1;
    }
    assert(node.items@.take(node.items@.len() as int) =~= node.items@);
    writer.writeln_tab(4, "_ => panic!(\"Unsupported enum value: {}\", value),");
    writer.writeln_tab(3, "}");
    writer.writeln_tab(2, "}");
    writer.writeln_tab(1, "}");
    copy_str(writer.show())
}

/// The types that a variant carries: those of its values or of its fields,
/// in order.
pub open spec fn item_types(item: EnumItemASTNode) -> Seq<TypeId> {
    match item {
        EnumItemASTNode::Empty { .. } => Seq::empty(),
        EnumItemASTNode::Tuple { values, .. } => values@.map_values(|v: TupleFieldASTNode| v.type_id@),
        EnumItemASTNode::Struct { fields, .. } => fields@.map_values(|f: StructFieldASTNode| f.type_id@),
    }
}

/// What precedes the `k`-th value where the variant is built: nothing for
/// a tuple, the field's name for a struct.
pub open spec fn item_label(item: EnumItemASTNode, k: nat) -> Seq<char> {
    match item {
        EnumItemASTNode::Struct { fields, .. } => fields@[k as int].name@ + ": "@,
        _ => Seq::empty(),
    }
}

/// The name through which the write arm reaches the `k`-th value.
pub open spec fn item_binding(item: EnumItemASTNode, k: nat) -> Seq<char> {
    match item {
        EnumItemASTNode::Struct { fields, .. } => fields@[k as int].name@,
        _ => "v"@ + nat_text(k),
    }
}

/// The lines of the read arm that read the values, one per type.
pub open spec fn read_value_lines(item: EnumItemASTNode) -> Seq<char> {
    concat_indexed(item_types(item).len(), |k: nat| read_line_at(item, k))
}

/// The line that reads the `k`-th type of a variant.
pub open spec fn read_line_at(item: EnumItemASTNode, k: nat) -> Seq<char> {
    line(4, item_label(item, k) + rust_read_text(item_types(item)[k as int]) + ","@)
}

/// The line that writes the `k`-th type of a variant.
pub open spec fn write_line_at(item: EnumItemASTNode, k: nat) -> Seq<char> {
    line(4, rust_write_text(item_types(item)[k as int], item_binding(item, k), true))
}

/// The lines of the write arm that write the values, one per type.
pub open spec fn write_value_lines(item: EnumItemASTNode) -> Seq<char> {
    concat_indexed(item_types(item).len(), |k: nat| write_line_at(item, k))
}

/// The head of the read arm, keyed by the variant's position.
pub open spec fn read_arm_head(enum_id: Seq<char>, item: EnumItemASTNode) -> Seq<char> {
    let open = match item {
        EnumItemASTNode::Empty { .. } => ","@,
        EnumItemASTNode::Tuple { .. } => "("@,
        EnumItemASTNode::Struct { .. } => " {"@,
    };
    line(3, nat_text(item.spec_position() as nat) + " => return "@ + enum_id + "::"@ + item.spec_id() + open)
}

pub open spec fn read_arm_tail(item: EnumItemASTNode) -> Seq<char> {
    match item {
        EnumItemASTNode::Empty { .. } => Seq::empty(),
        EnumItemASTNode::Tuple { .. } => line(3, "),"@),
        EnumItemASTNode::Struct { .. } => line(3, "},"@),
    }
}

/// The pattern of the write arm: the variant with its values bound.
pub open spec fn write_arm_pattern(enum_id: Seq<char>, item: EnumItemASTNode) -> Seq<char> {
    match item {
        EnumItemASTNode::Empty { id, .. } => line(3, enum_id + "::"@ + id@ + " => {"@),
        EnumItemASTNode::Tuple { id, values, .. } =>
            line(3, enum_id + "::"@ + id@ + "("@)
                + concat_indexed(values@.len(), |i: nat| binding_line(i))
                + line(3, ") => {"@),
        EnumItemASTNode::Struct { id, fields, .. } =>
            line(3, enum_id + "::"@ + id@ + " {"@)
                + concat_map(fields@, |f: StructFieldASTNode| field_binding_line(f))
                + line(3, "} => {"@),
    }
}

/// The arm that reads a variant and the arm that writes it agree: the read
/// arm is keyed by the variant's position, and the write arm first writes
/// that same position as a `u32`; then both go through the same types in
/// the same order, the `k`-th line of one reading the `k`-th type and the
/// `k`-th line of the other writing it.
pub proof fn lemma_enum_arms_agree(enum_id: Seq<char>, item: EnumItemASTNode)
    ensures
        read_case_text(enum_id, item) == read_arm_head(enum_id, item) + read_value_lines(item) + read_arm_tail(item),
        write_case_text(enum_id, item) == write_arm_pattern(enum_id, item)
            + line(4, rust_write_text(u32_type(), nat_text(item.spec_position() as nat), false))
            + write_value_lines(item)
            + line(3, "},"@),
{
    match item {
        EnumItemASTNode::Empty { .. } => {
            assert(read_value_lines(item) =~= Seq::<char>::empty());
            assert(write_value_lines(item) =~= Seq::<char>::empty());
            assert(read_case_text(enum_id, item) =~= read_arm_head(enum_id, item) + read_value_lines(item) + read_arm_tail(item));
            assert(write_case_text(enum_id, item) =~= write_arm_pattern(enum_id, item)
                + line(4, rust_write_text(u32_type(), nat_text(item.spec_position() as nat), false))
                + write_value_lines(item)
                + line(3, "},"@));
        },
        EnumItemASTNode::Tuple { values, .. } => {
            let types = item_types(item);
            let rf = |k: nat| read_line_at(item, k);
            assert forall|k: nat| k < values@.len() implies #[trigger] rf(k) == read_value_line(values@[k as int]) by {
                assert(item_label(item, k) + rust_read_text(types[k as int]) =~= rust_read_text(values@[k as int].type_id@));
            }
            lemma_concat_map_indexed(values@, |v: TupleFieldASTNode| read_value_line(v), rf);
            let wf = |k: nat| write_line_at(item, k);
            assert forall|k: nat| k < values@.len() implies #[trigger] wf(k) == write_value_line(values@, k) by {}
            assert(concat_indexed(values@.len(), wf) == concat_indexed(values@.len(), |i: nat| write_value_line(values@, i))) by {
                lemma_concat_indexed_ext(values@.len(), wf, |i: nat| write_value_line(values@, i));
            }
        },
        EnumItemASTNode::Struct { fields, .. } => {
            let types = item_types(item);
            let rf = |k: nat| read_line_at(item, k);
            assert forall|k: nat| k < fields@.len() implies #[trigger] rf(k) == read_field_line(fields@[k as int]) by {
                assert(item_label(item, k) + rust_read_text(types[k as int]) =~= fields@[k as int].name@ + ": "@ + rust_read_text(fields@[k as int].type_id@));
            }
            lemma_concat_map_indexed(fields@, |f: StructFieldASTNode| read_field_line(f), rf);
            let wf = |k: nat| write_line_at(item, k);
            assert forall|k: nat| k < fields@.len() implies #[trigger] wf(k) == write_field_line(fields@[k as int]) by {}
            lemma_concat_map_indexed(fields@, |f: StructFieldASTNode| write_field_line(f), wf);
        },
    }
}

proof fn lemma_concat_indexed_ext(n: nat, f: spec_fn(nat) -> Seq<char>, g: spec_fn(nat) -> Seq<char>)
    requires
        forall|k: nat| k < n ==> #[trigger] f(k) == g(k),
    ensures
        concat_indexed(n, f) == concat_indexed(n, g),
    decreases n,
{
    if n > 0 {
        lemma_concat_indexed_ext((n - 1) as nat, f, g);
    }
}


/// The key of a variant's arms: its position, as text.
pub open spec fn arm_key(item: EnumItemASTNode) -> Seq<char> {
    nat_text(item.spec_position() as nat)
}

/// What follows the variant's name in the head of its read arm.
pub open spec fn arm_open(item: EnumItemASTNode) -> Seq<char> {
    match item {
        EnumItemASTNode::Empty { .. } => ","@,
        EnumItemASTNode::Tuple { .. } => "("@,
        EnumItemASTNode::Struct { .. } => " {"@,
    }
}

/// Writing an enum mirrors reading it. Both methods hold one arm per
/// variant, in the order of the variants. The read arm of a variant is
/// keyed by `arm_key`, its position; the write arm of the same variant
/// first writes that same key, as `bytes_writer.write_u32(<key>);`. Then
/// the `j`-th value line of the read arm reads the `j`-th type of the
/// variant and the `j`-th value line of the write arm writes that same
/// type, so the values are written in the order they are read.
pub proof fn lemma_enum_write_mirrors_read(node: EnumASTNode)
    ensures
        enum_read_text(node) == line(1, "fn read_from_buffers(bytes_reader: &mut BytesReader) -> Self {"@)
            + line(2, "let value = "@ + rust_read_text(u32_type()) + ";"@)
            + line(0, ""@)
            + line(2, "match value {"@)
            + concat_indexed(node.items@.len(), |k: nat| read_case_text(node.id@, node.items@[k as int]))
            + line(3, "_ => panic!(\"Unsupported enum value: {}\", value),"@)
            + line(2, "}"@)
            + line(1, "}"@),
        enum_write_text(node) == line(1, "fn write_to_buffers(&self, bytes_writer: &mut BytesWriter) {"@)
            + line(2, "match self {"@)
            + concat_indexed(node.items@.len(), |k: nat| write_case_text(node.id@, node.items@[k as int]))
            + line(2, "}"@)
            + line(1, "}"@),
        forall|k: int| #![trigger node.items@[k]] 0 <= k < node.items@.len() ==> {
            let item = node.items@[k];
            &&& read_case_text(node.id@, item) == line(3, arm_key(item) + " => return "@ + node.id@ + "::"@ + item.spec_id() + arm_open(item))
                + concat_indexed(item_types(item).len(), |j: nat| read_line_at(item, j))
                + read_arm_tail(item)
            &&& write_case_text(node.id@, item) == write_arm_pattern(node.id@, item)
                + line(4, "bytes_writer.write_u32("@ + arm_key(item) + ");"@)
                + concat_indexed(item_types(item).len(), |j: nat| write_line_at(item, j))
                + line(3, "},"@)
        },
{
    let items = node.items@;
    let id = node.id@;
    lemma_concat_map_indexed(items, |item: EnumItemASTNode| read_case_text(id, item), |k: nat| read_case_text(id, items[k as int]));
    lemma_concat_map_indexed(items, |item: EnumItemASTNode| write_case_text(id, item), |k: nat| write_case_text(id, items[k as int]));
    assert forall|k: int| #![trigger items[k]] 0 <= k < items.len() implies {
        let item = items[k];
        &&& read_case_text(id, item) == line(3, arm_key(item) + " => return "@ + id + "::"@ + item.spec_id() + arm_open(item))
            + concat_indexed(item_types(item).len(), |j: nat| read_line_at(item, j))
            + read_arm_tail(item)
        &&& write_case_text(id, item) == write_arm_pattern(id, item)
            + line(4, "bytes_writer.write_u32("@ + arm_key(item) + ");"@)
            + concat_indexed(item_types(item).len(), |j: nat| write_line_at(item, j))
            + line(3, "},"@)
    } by {
        let item = items[k];
        lemma_enum_arms_agree(id, item);
        reveal_strlit("bytes_writer.write_");
        reveal_strlit("u32");
        reveal_strlit("(");
        reveal_strlit("bytes_writer.write_u32(");
        assert("bytes_writer.write_"@ + "u32"@ + "("@ =~= "bytes_writer.write_u32("@);
        assert(rust_write_text(u32_type(), arm_key(item), false) =~= "bytes_writer.write_u32("@ + arm_key(item) + ");"@);
    }
}


/// Skipping enum records loops `count` times: `skip_in_buffers` takes
/// `count` and loops over `0..count`, and each pass reads the discriminant
/// with the very expression that `read_from_buffers` reads it with.
pub proof fn lemma_enum_skip_reads_count_records(node: EnumASTNode)
    ensures
        (line(1, "fn skip_in_buffers(bytes_reader: &mut BytesReader, count: u64) {"@)
            + line(2, "for _ in "@ + "0"@ + ".."@ + "count"@ + " {"@)
            + line(3, "let value = "@ + rust_read_text(u32_type()) + ";"@)).is_prefix_of(enum_skip_text(node)),
        (line(1, "fn read_from_buffers(bytes_reader: &mut BytesReader) -> Self {"@)
            + line(2, "let value = "@ + rust_read_text(u32_type()) + ";"@)).is_prefix_of(enum_read_text(node)),
{
    reveal_strlit("for _ in ");
    reveal_strlit("0");
    reveal_strlit("..");
    reveal_strlit("count");
    reveal_strlit(" {");
    reveal_strlit("for _ in 0..count {");
    assert("for _ in "@ + "0"@ + ".."@ + "count"@ + " {"@ =~= "for _ in 0..count {"@);
    let head = line(1, "fn skip_in_buffers(bytes_reader: &mut BytesReader, count: u64) {"@)
        + line(2, "for _ in 0..count {"@)
        + line(3, "let value = "@ + rust_read_text(u32_type()) + ";"@);
    assert(enum_skip_text(node) =~= head + enum_skip_text(node).skip(head.len() as int));
    let rhead = line(1, "fn read_from_buffers(bytes_reader: &mut BytesReader) -> Self {"@)
        + line(2, "let value = "@ + rust_read_text(u32_type()) + ";"@);
    assert(enum_read_text(node) =~= rhead + enum_read_text(node).skip(rhead.len() as int));
}

} // verus!
