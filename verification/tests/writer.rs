use tpbuffers::writer::Writer;

#[test]
fn writer_indents_lines_by_level() {
    let mut writer = Writer::default();
    writer.writeln("a {");
    writer.push_tab();
    writer.writeln("b");
    writer.write_tabs();
    writer.write_tabs();
    writer.write("c");
    writer.new_line();
    writer.pop_tab();
    writer.writeln("}");
    assert_eq!(writer.show(), "a {\n    b\n    c\n}\n");
}

#[test]
fn writer_with_two_spaces_and_extra_tabs() {
    let mut writer = Writer::new(2);
    writer.push_tab();
    writer.writeln_tab(1, "x");
    writer.writeln("y");
    assert_eq!(writer.show(), "    x\n  y\n");
}

#[test]
fn writer_push_then_pop_restores_indentation() {
    let mut writer = Writer::default();
    writer.push_tab();
    writer.pop_tab();
    writer.writeln("z");
    assert_eq!(writer.show(), "z\n");
}
