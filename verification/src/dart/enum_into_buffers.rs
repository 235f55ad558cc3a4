use vstd::prelude::*;
use crate::ast::{EnumASTNode, EnumItemASTNode};
use crate::text::{cat, cat3, copy_str, nat_text, nat_to_text, repeat, to_case, case_converted, TextCase};
use crate::writer::{Writer, indented_line, concat_map, concat_indexed};

verus! {

/// The indentation unit of the Dart output: two spaces.
pub open spec fn tab2() -> Seq<char> {
    repeat(seq![' '], 2)
}

/// A line indented by `n` units of two spaces.
pub open spec fn dart_line(n: nat, data: Seq<char>) -> Seq<char> {
    indented_line(tab2(), n, data)
}

/// The field that holds an enum item's values: its name in camel case.
pub open spec fn item_field(item: EnumItemASTNode) -> Seq<char> {
    case_converted(item.spec_id(), TextCase::Camel)
}

/// The class that reads and writes the values of one enum item.
pub open spec fn item_buffers_class(enum_id: Seq<char>, item: EnumItemASTNode) -> Seq<char> {
    enum_id + item.spec_id() + "EmplaceToBuffers()"@
}

/// The `IntoBuffers` class of an enum: reading, writing and skipping it.
pub open spec fn enum_into_buffers_text(node: EnumASTNode) -> Seq<char> {
    dart_line(0, "class "@ + node.id@ + "IntoBuffers implements IntoBuffers<"@ + node.id@ + "> {"@)
        + dart_line(1, "const "@ + node.id@ + "IntoBuffers();"@)
        + dart_line(0, ""@)
        + dart_line(0, enum_read_text(node))
        + dart_line(0, enum_write_text(node))
        + enum_skip_text(node)
        + dart_line(0, "}"@)
}

/// The `case` of `read` for one item: a fresh model with the item's value
/// read into it.
pub open spec fn read_case_text(enum_id: Seq<char>, item: EnumItemASTNode) -> Seq<char> {
    dart_line(3, "case "@ + nat_text(item.spec_position() as nat) + ":"@)
        + dart_line(4, "final model = "@ + enum_id + "();"@)
        + dart_line(4, "model.value = "@ + enum_id + "Value."@ + item_field(item) + ";"@)
        + dart_line(4, "const "@ + item_buffers_class(enum_id, item) + ".read(reader, model."@ + item_field(item) + ");"@)
        + dart_line(4, "return model;"@)
        + dart_line(0, ""@)
}

/// `read`: the item's position, then its values; an unknown position throws.
pub open spec fn enum_read_text(node: EnumASTNode) -> Seq<char> {
    dart_line(1, "@override"@)
        + dart_line(1, node.id@ + " read(BytesReader reader) {"@)
        + dart_line(2, "final value = reader.readInt32();"@)
        + dart_line(0, ""@)
        + dart_line(2, "switch (value) {"@)
        + concat_map(node.items@, |item: EnumItemASTNode| read_case_text(node.id@, item))
        + dart_line(3, "default:"@)
        + dart_line(4, "throw StateError('Unsupported enum value: $value');"@)
        + dart_line(2, "}"@)
        + dart_line(1, "}"@)
}

/// The `case` of `write` for one item: its position, then its values.
pub open spec fn write_case_text(enum_id: Seq<char>, item: EnumItemASTNode) -> Seq<char> {
    dart_line(3, "case "@ + enum_id + "Value."@ + item_field(item) + ":"@)
        + dart_line(4, "writer.writeInt32("@ + nat_text(item.spec_position() as nat) + ");"@)
        + dart_line(4, "const "@ + item_buffers_class(enum_id, item) + ".write(writer, model."@ + item_field(item) + ");"@)
        + dart_line(4, "return;"@)
}

/// The `case` of `write` for the item at `i`, followed by a blank line
/// unless it is the last.
pub open spec fn write_case_at(enum_id: Seq<char>, items: Seq<EnumItemASTNode>, i: nat) -> Seq<char> {
    write_case_text(enum_id, items[i as int]) + (if i + 1 != items.len() { dart_line(0, ""@) } else { Seq::empty() })
}

/// `write`: a `case` for each item of the enum.
pub open spec fn enum_write_text(node: EnumASTNode) -> Seq<char> {
    dart_line(1, "@override"@)
        + dart_line(1, "void write(BytesWriter writer, "@ + node.id@ + " model) {"@)
        + dart_line(2, "switch (model.value) {"@)
        + concat_indexed(node.items@.len(), |i: nat| write_case_at(node.id@, node.items@, i))
        + dart_line(2, "}"@)
        + dart_line(1, "}"@)
}

/// The `case` of `skip` for one item.
pub open spec fn skip_case_text(enum_id: Seq<char>, item: EnumItemASTNode) -> Seq<char> {
    dart_line(4, "case "@ + nat_text(item.spec_position() as nat) + ":"@)
        + dart_line(5, "const "@ + item_buffers_class(enum_id, item) + ".skip(reader, 1);"@)
        + dart_line(5, "break;"@)
        + dart_line(0, ""@)
}

/// `skip`: reads `count` positions and skips each item's values.
pub open spec fn enum_skip_text(node: EnumASTNode) -> Seq<char> {
    dart_line(1, "@override"@)
        + dart_line(1, "void skip(BytesReader reader, int count) {"@)
        + dart_line(2, "for (int i = 0; i < count; i += 1) {"@)
        + dart_line(3, "final value = reader.readInt32();"@)
        + dart_line(0, ""@)
        + dart_line(3, "switch (value) {"@)
        + concat_map(node.items@, |item: EnumItemASTNode| skip_case_text(node.id@, item))
        + dart_line(4, "default:"@)
        + dart_line(5, "throw StateError('Unsupported enum value: $value');"@)
        + dart_line(3, "}"@)
        + dart_line(2, "}"@)
        + dart_line(1, "}"@)
}

/// The `IntoBuffers` class of an enum, as Dart source.
pub fn generate_enum_into_buffers(node: &EnumASTNode) -> (res: String)
    ensures
        res@ == enum_into_buffers_text(*node),
{
    let mut writer = Writer::new(2);
    let head = cat3("class ", node.id.as_str(), "IntoBuffers implements IntoBuffers<");
    writer.writeln(cat3(head.as_str(), node.id.as_str(), "> {").as_str());
    writer.writeln_tab(1, cat3("const ", node.id.as_str(), "IntoBuffers();").as_str());
    writer.writeln("");
    writer.writeln(generate_read(node).as_str());
    writer.writeln(generate_write(node).as_str());
    writer.write(generate_skip(node).as_str());
    writer.writeln("}");
    let res = copy_str(writer.show());
    proof {
        assert(res@ =~= enum_into_buffers_text(*node));
    }
    res
}

/// `const {Enum}{Item}EmplaceToBuffers()`.
fn item_buffers(enum_id: &str, item: &EnumItemASTNode) -> (res: String)
    ensures
        res@ == "const "@ + item_buffers_class(enum_id@, *item),
{
    let head = cat3("const ", enum_id, item.id());
    let res = cat(head.as_str(), "EmplaceToBuffers()");
    proof {
        assert(res@ =~= "const "@ + item_buffers_class(enum_id@, *item));
    }
    res
}

fn write_read_case(writer: &mut Writer, enum_id: &str, item: &EnumItemASTNode)
    requires
        old(writer)@.tab == tab2(),
        old(writer)@.level == 0,
    ensures
        final(writer)@.tab == tab2(),
        final(writer)@.level == 0,
        final(writer)@.text == old(writer)@.text + read_case_text(enum_id@, *item),
{
    let field = to_case(item.id(), TextCase::Camel);
    writer.writeln_tab(3, cat3("case ", nat_to_text(item.position() as u64).as_str(), ":").as_str());
    writer.writeln_tab(4, cat3("final model = ", enum_id, "();").as_str());
    let value = cat3("model.value = ", enum_id, "Value.");
    writer.writeln_tab(4, cat3(value.as_str(), field.as_str(), ";").as_str());
    let call = cat(item_buffers(enum_id, item).as_str(), ".read(reader, model.");
    writer.writeln_tab(4, cat3(call.as_str(), field.as_str(), ");").as_str());
    writer.writeln_tab(4, "return model;");
    writer.writeln("");
    proof {
        assert(writer@.text =~= old(writer)@.text + read_case_text(enum_id@, *item));
    }
}

fn write_write_case(writer: &mut Writer, enum_id: &str, item: &EnumItemASTNode)
    requires
        old(writer)@.tab == tab2(),
        old(writer)@.level == 0,
    ensures
        final(writer)@.tab == tab2(),
        final(writer)@.level == 0,
        final(writer)@.text == old(writer)@.text + write_case_text(enum_id@, *item),
{
    let field = to_case(item.id(), TextCase::Camel);
    let case = cat3("case ", enum_id, "Value.");
    writer.writeln_tab(3, cat3(case.as_str(), field.as_str(), ":").as_str());
    writer.writeln_tab(4, cat3("writer.writeInt32(", nat_to_text(item.position() as u64).as_str(), ");").as_str());
    let call = cat(item_buffers(enum_id, item).as_str(), ".write(writer, model.");
    writer.writeln_tab(4, cat3(call.as_str(), field.as_str(), ");").as_str());
    writer.writeln_tab(4, "return;");
    proof {
        assert(writer@.text =~= old(writer)@.text + write_case_text(enum_id@, *item));
    }
}

fn generate_read(node: &EnumASTNode) -> (res: String)
    ensures
        res@ == enum_read_text(*node),
{
    let mut writer = Writer::new(2);
    writer.writeln_tab(1, "@override");
    writer.writeln_tab(1, cat(node.id.as_str(), " read(BytesReader reader) {").as_str());
    writer.writeln_tab(2, "final value = reader.readInt32();");
    writer.writeln("");
    writer.writeln_tab(2, "switch (value) {");
    let ghost before = writer@.text;
    let items = &node.items;
    let mut i: usize = 0;
    while i < items.len()
        invariant
            i <= items@.len(),
            *items == node.items,
            writer@.tab == tab2(),
            writer@.level == 0,
            writer@.text == before + concat_map(items@.take(i as int), |item: EnumItemASTNode| read_case_text(node.id@, item)),
        decreases items@.len() - i,
    {
        write_read_case(&mut writer, node.id.as_str(), &items[i]);
        proof {
            assert(items@.take(i + 1).drop_last() =~= items@.take(i as int));
        }
        i = i + 1;
    }
    assert(items@.take(items@.len() as int) =~= items@);
    writer.writeln_tab(3, "default:");
    writer.writeln_tab(4, "throw StateError('Unsupported enum value: $value');");
    writer.writeln_tab(2, "}");
    writer.writeln_tab(1, "}");
    let res = copy_str(writer.show());
    proof {
        assert(res@ =~= enum_read_text(*node));
    }
    res
}

fn generate_write(node: &EnumASTNode) -> (res: String)
    ensures
        res@ == enum_write_text(*node),
{
    let mut writer = Writer::new(2);
    writer.writeln_tab(1, "@override");
    writer.writeln_tab(1, cat3("void write(BytesWriter writer, ", node.id.as_str(), " model) {").as_str());
    writer.writeln_tab(2, "switch (model.value) {");
    let ghost before = writer@.text;
    let items = &node.items;
    let mut i: usize = 0;
    while i < items.len()
        invariant
            i <= items@.len(),
            *items == node.items,
            writer@.tab == tab2(),
            writer@.level == 0,
            writer@.text == before + concat_indexed(i as nat, |k: nat| write_case_at(node.id@, node.items@, k)),
        decreases items@.len() - i,
    {
        write_write_case(&mut writer, node.id.as_str(), &items[i]);
        if i != items.len() - 1 {
            writer.writeln("");
        }
        proof {
            let f = |k: nat| write_case_at(node.id@, node.items@, k);
            assert(concat_indexed((i + 1) as nat, f) == concat_indexed(i as nat, f) + f(i as nat));
        }
        i = i + 1;
    }
    writer.writeln_tab(2, "}");
    writer.writeln_tab(1, "}");
    let res = copy_str(writer.show());
    proof {
        assert(res@ =~= enum_write_text(*node));
    }
    res
}

fn generate_skip(node: &EnumASTNode) -> (res: String)
    ensures
        res@ == enum_skip_text(*node),
{
    let mut writer = Writer::new(2);
    writer.writeln_tab(1, "@override");
    writer.writeln_tab(1, "void skip(BytesReader reader, int count) {");
    writer.writeln_tab(2, "for (int i = 0; i < count; i += 1) {");
    writer.writeln_tab(3, "final value = reader.readInt32();");
    writer.writeln("");
    writer.writeln_tab(3, "switch (value) {");
    let ghost before = writer@.text;
    let items = &node.items;
    let mut i: usize = 0;
    while i < items.len()
        invariant
            i <= items@.len(),
            *items == node.items,
            writer@.tab == tab2(),
            writer@.level == 0,
            writer@.text == before + concat_map(items@.take(i as int), |item: EnumItemASTNode| skip_case_text(node.id@, item)),
        decreases items@.len() - i,
    {
        let item = &items[i];
        writer.writeln_tab(4, cat3("case ", nat_to_text(item.position() as u64).as_str(), ":").as_str());
        writer.writeln_tab(5, cat(item_buffers(node.id.as_str(), item).as_str(), ".skip(reader, 1);").as_str());
        writer.writeln_tab(5, "break;");
        writer.writeln("");
        proof {
            assert(items@.take(i + 1).drop_last() =~= items@.take(i as int));
        }
        i = i + 1;
    }
    assert(items@.take(items@.len() as int) =~= items@);
    writer.writeln_tab(4, "default:");
    writer.writeln_tab(5, "throw StateError('Unsupported enum value: $value');");
    writer.writeln_tab(3, "}");
    writer.writeln_tab(2, "}");
    writer.writeln_tab(1, "}");
    let res = copy_str(writer.show());
    proof {
        assert(res@ =~= enum_skip_text(*node));
    }
    res
}

} // verus!
