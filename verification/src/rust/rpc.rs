use vstd::prelude::*;
use crate::ast::{ASTNode, FnASTNode, FnArgASTNode, StructASTNode, StructFieldASTNode, TypeIDASTNode, TypeId,
    ConstValue, ConstValueASTNode, fn_nodes, find_fn_nodes, directive_value, find_directive_value};
use crate::lexer::Literal;
use crate::rust_generator::{generate_write, rust_write_text};
use crate::rust::struct_models::{generate_struct_model, struct_model_text, parameters_text};
use crate::rust::struct_buffers::{generate_struct_buffers, struct_buffers_text, struct_read_text, struct_write_text,
    struct_skip_text, read_field_line, write_field_line, skip_field_line};
use crate::text::{cat, cat3, copy_str, nat_text, nat_to_text, repeat, trim_blank_line, trim_blank_line_end};
use crate::writer::{Writer, line, tab4, concat_map};

verus! {

/// The name of the struct that carries a method's arguments.
pub open spec fn args_struct_id(node: FnASTNode) -> Seq<char> {
    "__"@ + node.id@ + "_rpc_args__"@
}

/// Whether two lists of fields have the same names and types, in order.
pub open spec fn same_fields(a: Seq<StructFieldASTNode>, b: Seq<StructFieldASTNode>) -> bool {
    &&& a.len() == b.len()
    &&& forall|i: int| 0 <= i < a.len() ==> #[trigger] a[i].name@ == b[i].name@ && a[i].type_id@ == b[i].type_id@
}

/// Whether `s` is the struct of a method's arguments: named after the
/// method, one field per argument, in order, at positions 0, 1, ...
pub open spec fn is_args_struct(s: StructASTNode, node: FnASTNode) -> bool {
    &&& s.id@ == args_struct_id(node)
    &&& s.fields@.len() == node.args@.len()
    &&& forall|i: int| 0 <= i < s.fields@.len() ==> {
        &&& #[trigger] s.fields@[i].name@ == node.args@[i].id@
        &&& s.fields@[i].type_id@ == node.args@[i].type_id@
        &&& s.fields@[i].position == i as u32
    }
    &&& !s.emplace_buffers
    &&& s.into_buffers
}

/// The struct of a method's arguments.
pub open spec fn args_struct(node: FnASTNode) -> StructASTNode {
    choose|s: StructASTNode| is_args_struct(s, node)
}

/// The head of the handler of a method, up to its opening brace.
pub open spec fn handler_head_text(node: FnASTNode) -> Seq<char> {
    line(0, "pub fn "@ + node.id@ + "_rpc_handler("@)
        + line(1, "scope_id: BuffersScopeId,"@)
        + line(1, "memory: &mut RpcRuntimeMemory,"@)
        + line(1, "rpc_method_address: RpcMethodAddress,"@)
        + line(0, ") {"@)
}

pub open spec fn call_arg_line(arg: FnArgASTNode) -> Seq<char> {
    line(2, "args."@ + arg.id@ + ","@)
}

/// The call of the method with the arguments read, its result kept where
/// it has one.
pub open spec fn sync_call_text(node: FnASTNode) -> Seq<char> {
    tab4() + (if node.return_type_id is Some { "let result = "@ } else { Seq::empty() }) + node.id@
        + (if node.args@.len() == 0 {
            "();"@
        } else {
            "("@ + seq!['\n'] + concat_map(node.args@, |a: FnArgASTNode| call_arg_line(a)) + tab4() + ");"@
        })
        + seq!['\n']
}

/// The reading of the arguments from the server buffer.
pub open spec fn read_args_text(node: FnASTNode) -> Seq<char> {
    line(1, "let args = memory.get_scope_mut(scope_id).rpc_buffer_read("@)
        + line(2, "rpc_method_address,"@)
        + line(2, "RpcMethodBuffer::Server,"@)
        + line(2, "|bytes_reader| "@ + args_struct_id(node) + "::read_from_buffers(bytes_reader),"@)
        + line(1, ");"@)
        + seq!['\n']
}

/// The writing of the result to the client buffer.
pub open spec fn write_result_text(t: TypeId) -> Seq<char> {
    seq!['\n']
        + line(1, "memory.get_scope_mut(scope_id).rpc_buffer_write("@)
        + line(2, "rpc_method_address,"@)
        + line(2, "RpcMethodBuffer::Client,"@)
        + line(2, "|bytes_writer| {"@)
        + line(3, rust_write_text(t, "result"@, false))
        + line(2, "},"@)
        + line(1, ");"@)
}

/// The handler of a method called once: the struct of its arguments and
/// its buffers where it has arguments, then a handler that reads them,
/// calls the method and writes its result.
pub open spec fn sync_rpc_method_text(node: FnASTNode) -> Seq<char> {
    let has_args = node.args@.len() > 0;
    (if has_args {
        line(0, struct_model_text(args_struct(node), false)) + line(0, struct_buffers_text(args_struct(node)))
    } else {
        Seq::empty()
    })
        + handler_head_text(node)
        + (if has_args { read_args_text(node) } else { Seq::empty() })
        + sync_call_text(node)
        + (match node.return_type_id {
            Some(t) => write_result_text(t@),
            None => Seq::empty(),
        })
        + line(0, "}"@)
}

/// The handler of a signal: where the signal has new data, a marker byte
/// and the data go to the client buffer.
pub open spec fn signal_rpc_method_text(node: FnASTNode) -> Seq<char> {
    handler_head_text(node)
        + tab4() + "let result = "@ + node.id@ + (if node.args@.len() == 0 { "();"@ } else { Seq::empty() })
        + seq!['\n'] + seq!['\n']
        + (if node.return_type_id is Some {
            line(1, "if let SignalRpcResult::Data(result) = result {"@)
        } else {
            line(1, "if result.has_new_data() {"@)
        })
        + line(2, "memory.get_scope_mut(scope_id).rpc_buffer_write("@)
        + line(3, "rpc_method_address,"@)
        + line(3, "RpcMethodBuffer::Client,"@)
        + line(3, "|bytes_writer| {"@)
        + line(4, "bytes_writer.write_u8(0xFF);"@)
        + (match node.return_type_id {
            Some(t) => line(4, rust_write_text(t@, "result"@, false)),
            None => Seq::empty(),
        })
        + line(3, "},"@)
        + line(2, ");"@)
        + line(1, "}"@)
        + line(0, "}"@)
}

/// A method that can be handled: a signal, or a method that is not async.
pub open spec fn rpc_method_supported(node: FnASTNode) -> bool {
    node.is_signal || !node.is_async
}

/// The handler of a method: a signal's, or a plain call's.
pub closed spec fn rpc_method_text(node: FnASTNode) -> Seq<char> {
    if node.is_signal { signal_rpc_method_text(node) } else { sync_rpc_method_text(node) }
}

/// What the handler of a method is: a signal's handler for a signal, the
/// handler of a plain call otherwise.
pub proof fn lemma_rpc_method_text(node: FnASTNode)
    ensures
        rpc_method_text(node) == if node.is_signal { signal_rpc_method_text(node) } else { sync_rpc_method_text(node) },
{
}

/// The call that registers a method's handler with the runtime.
pub open spec fn register_method_name(node: FnASTNode) -> Seq<char> {
    if node.is_signal {
        "register_signal_rpc_method"@
    } else if node.is_async {
        "register_async_rpc_method"@
    } else {
        "register_rpc_method"@
    }
}

/// The size of the buffer a method needs: none without arguments and
/// result, a large one for a `Vec` result, a medium one otherwise.
pub open spec fn payload_size_text(node: FnASTNode) -> Seq<char> {
    if node.args@.len() == 0 && node.return_type_id is None {
        "RpcMethodPayloadSize::Zero"@
    } else if node.return_type_id matches Some(t) && (t@ matches TypeId::Generic { id, .. } && id == "Vec"@) {
        "RpcMethodPayloadSize::Large"@
    } else {
        "RpcMethodPayloadSize::Medium"@
    }
}

pub open spec fn register_entry_text(node: FnASTNode) -> Seq<char> {
    line(1, "runtime."@ + register_method_name(node) + "("@)
        + line(2, "RpcMethod {"@)
        + line(3, "scope_id,"@)
        + line(3, "rpc_method_address: RpcMethodAddress("@ + nat_text(node.position as nat) + "),"@)
        + line(3, "handler: "@ + node.id@ + "_rpc_handler,"@)
        + line(2, "},"@)
        + line(2, payload_size_text(node) + ","@)
        + line(1, ");"@)
}

/// Appends the registration of one method.
fn write_register_entry(writer: &mut Writer, node: &FnASTNode)
    requires
        old(writer)@.tab == tab4(),
        old(writer)@.level == 0,
    ensures
        final(writer)@.tab == tab4(),
        final(writer)@.level == 0,
        final(writer)@.text == old(writer)@.text + register_entry_text(*node),
{
    let name = if node.is_signal {
        "register_signal_rpc_method"
    } else if node.is_async {
        "register_async_rpc_method"
    } else {
        "register_rpc_method"
    };
    assert(name@ == register_method_name(*node));
    let size = payload_size(node);
    writer.writeln_tab(1, cat3("runtime.", name, "(").as_str());
    writer.writeln_tab(2, "RpcMethod {");
    writer.writeln_tab(3, "scope_id,");
    writer.writeln_tab(3, cat3("rpc_method_address: RpcMethodAddress(", nat_to_text(node.position as u64).as_str(), "),").as_str());
    writer.writeln_tab(3, cat3("handler: ", node.id.as_str(), "_rpc_handler,").as_str());
    writer.writeln_tab(2, "},");
    writer.writeln_tab(2, cat(size, ",").as_str());
    writer.writeln_tab(1, ");");
    proof {
        assert(writer@.text =~= old(writer)@.text + register_entry_text(*node));
    }
}

/// The function that adds the scope and registers every method.
pub closed spec fn register_fn_text(scope_id: Seq<char>, fns: Seq<FnASTNode>) -> Seq<char> {
    line(0, "pub fn register_rpc(runtime: &mut RpcRuntime) {"@)
        + line(1, "let scope_id = BuffersScopeId(uuid!(\""@ + scope_id + "\"));"@)
        + line(1, "runtime.memory.add_scope(scope_id);"@)
        + concat_map(fns, |n: FnASTNode| register_entry_text(n))
        + line(0, "}"@)
}

/// What the registration function is: the scope added to the runtime, then
/// one registration for each method, in order.
pub proof fn lemma_register_fn_text(scope_id: Seq<char>, fns: Seq<FnASTNode>)
    ensures
        register_fn_text(scope_id, fns) == line(0, "pub fn register_rpc(runtime: &mut RpcRuntime) {"@)
            + line(1, "let scope_id = BuffersScopeId(uuid!(\""@ + scope_id + "\"));"@)
            + line(1, "runtime.memory.add_scope(scope_id);"@)
            + concat_map(fns, |n: FnASTNode| register_entry_text(n))
            + line(0, "}"@),
{
}

/// The text of a string literal (empty for other literals).
pub open spec fn string_value(value: ConstValue) -> Seq<char> {
    match value.literal {
        Literal::StringLiteral(s) => s@,
        _ => Seq::empty(),
    }
}

/// Whether the methods can be handled: the nodes name their scope with a
/// string `#[id = ".."]`, and every method can be handled.
pub open spec fn rpc_supported(ast: Seq<ASTNode>) -> bool {
    fn_nodes(ast).len() > 0 ==> {
        &&& directive_value(ast, "id"@) matches Some(v) && v.literal is StringLiteral
        &&& forall|i: int| 0 <= i < fn_nodes(ast).len() ==> rpc_method_supported(#[trigger] fn_nodes(ast)[i])
    }
}

/// The RPC section: nothing without methods; otherwise the registration
/// function and each method's handler, separated by blank lines.
pub open spec fn rpc_text(ast: Seq<ASTNode>) -> Seq<char> {
    if fn_nodes(ast).len() == 0 {
        Seq::empty()
    } else {
        trim_blank_line(
            line(0, register_fn_text(string_value(directive_value(ast, "id"@).unwrap()), fn_nodes(ast)))
                + concat_map(fn_nodes(ast), |n: FnASTNode| line(0, rpc_method_text(n))),
        )
    }
}

proof fn lemma_parameters_same(a: Seq<StructFieldASTNode>, b: Seq<StructFieldASTNode>)
    requires
        same_fields(a, b),
    ensures
        parameters_text(1, true, a) == parameters_text(1, true, b),
        concat_map(a, |f: StructFieldASTNode| read_field_line(f)) == concat_map(b, |f: StructFieldASTNode| read_field_line(f)),
        concat_map(a, |f: StructFieldASTNode| write_field_line(f)) == concat_map(b, |f: StructFieldASTNode| write_field_line(f)),
        concat_map(a, |f: StructFieldASTNode| skip_field_line(f)) == concat_map(b, |f: StructFieldASTNode| skip_field_line(f)),
    decreases a.len(),
{
    if a.len() > 0 {
        lemma_parameters_same(a.drop_last(), b.drop_last());
        assert(a.last().name@ == b.last().name@);
    }
}

/// Structs with the same name and the same fields have the same model and
/// the same buffers.
proof fn lemma_same_struct_texts(a: StructASTNode, b: StructASTNode)
    requires
        a.id@ == b.id@,
        same_fields(a.fields@, b.fields@),
    ensures
        struct_model_text(a, false) == struct_model_text(b, false),
        struct_buffers_text(a) == struct_buffers_text(b),
{
    lemma_parameters_same(a.fields@, b.fields@);
}


/// The struct of a method's arguments, one field per argument.
fn args_struct_of(node: &FnASTNode) -> (s: StructASTNode)
    ensures
        is_args_struct(s, *node),
{
    let mut fields: Vec<StructFieldASTNode> = Vec::new();
    let mut i: usize = 0;
    while i < node.args.len()
        invariant
            i <= node.args@.len(),
            fields@.len() == i,
            forall|k: int| 0 <= k < i ==> {
                &&& #[trigger] fields@[k].name@ == node.args@[k].id@
                &&& fields@[k].type_id@ == node.args@[k].type_id@
                &&& fields@[k].position == k as u32
            },
        decreases node.args@.len() - i,
    {
        let arg = &node.args[i];
        let position: u32 = i as u32;
        fields.push(StructFieldASTNode { position, name: arg.id.clone(), type_id: arg.type_id.clone() });
        i = i + 1;
    }
    let id = cat3("__", node.id.as_str(), "_rpc_args__");
    StructASTNode { id, fields, emplace_buffers: false, into_buffers: true }
}

fn write_handler_head(writer: &mut Writer, node: &FnASTNode)
    requires
        old(writer)@.tab == tab4(),
        old(writer)@.level == 0,
    ensures
        final(writer)@.tab == tab4(),
        final(writer)@.level == 0,
        final(writer)@.text == old(writer)@.text + handler_head_text(*node),
        final(writer)@.contains_tabs == false,
{
    writer.writeln(cat3("pub fn ", node.id.as_str(), "_rpc_handler(").as_str());
    writer.writeln_tab(1, "scope_id: BuffersScopeId,");
    writer.writeln_tab(1, "memory: &mut RpcRuntimeMemory,");
    writer.writeln_tab(1, "rpc_method_address: RpcMethodAddress,");
    writer.writeln(") {");
    proof {
        assert(writer@.text =~= old(writer)@.text + handler_head_text(*node));
    }
}


/// Appends the reading of the arguments.
fn write_read_args(writer: &mut Writer, node: &FnASTNode)
    requires
        old(writer)@.tab == tab4(),
        old(writer)@.level == 0,
        old(writer)@.contains_tabs == false,
    ensures
        final(writer)@.tab == tab4(),
        final(writer)@.level == 0,
        final(writer)@.contains_tabs == false,
        final(writer)@.text == old(writer)@.text + read_args_text(*node),
{
    writer.writeln_tab(1, "let args = memory.get_scope_mut(scope_id).rpc_buffer_read(");
    writer.writeln_tab(2, "rpc_method_address,");
    writer.writeln_tab(2, "RpcMethodBuffer::Server,");
    let args_id = cat3("__", node.id.as_str(), "_rpc_args__");
    let read = cat3("|bytes_reader| ", args_id.as_str(), "::read_from_buffers(bytes_reader),");
    writer.writeln_tab(2, read.as_str());
    writer.writeln_tab(1, ");");
    writer.new_line();
    proof {
        assert(writer@.text =~= old(writer)@.text + read_args_text(*node));
    }
}

/// Appends the call of the method.
fn write_sync_call(writer: &mut Writer, node: &FnASTNode)
    requires
        old(writer)@.tab == tab4(),
        old(writer)@.level == 0,
        old(writer)@.contains_tabs == false,
    ensures
        final(writer)@.tab == tab4(),
        final(writer)@.level == 0,
        final(writer)@.contains_tabs == false,
        final(writer)@.text == old(writer)@.text + sync_call_text(*node),
{
    let ghost start = writer@.text;
    writer.push_tab();
    writer.write_tabs();
    assert(repeat(tab4(), 0) =~= Seq::<char>::empty());
    assert(repeat(tab4(), 1) =~= tab4());
    if node.return_type_id.is_some() {
        writer.write("let result = ");
    }
    writer.write(node.id.as_str());
    let ghost head = writer@.text;
    if node.args.len() == 0 {
        writer.write("();");
    } else {
        writer.write("(");
        writer.new_line();
        let ghost before = writer@.text;
        let mut j: usize = 0;
        while j < node.args.len()
            invariant
                j <= node.args@.len(),
                writer@.tab == tab4(),
                writer@.level == 1,
                writer@.contains_tabs == false,
                writer@.text == before + concat_map(node.args@.take(j as int), |a: FnArgASTNode| call_arg_line(a)),
            decreases node.args@.len() - j,
        {
            writer.writeln_tab(1, cat3("args.", node.args[j].id.as_str(), ",").as_str());
            assert(node.args@.take(j + 1).drop_last() =~= node.args@.take(j as int));
            j = j + 1;
        }
        assert(node.args@.take(node.args@.len() as int) =~= node.args@);
        writer.write_tabs();
        writer.write(");");
    }
    writer.new_line();
    writer.pop_tab();
    proof {
        assert(writer@.text =~= start + sync_call_text(*node));
    }
}

/// Appends the writing of the result.
fn write_result(writer: &mut Writer, t: &TypeIDASTNode)
    requires
        old(writer)@.tab == tab4(),
        old(writer)@.level == 0,
        old(writer)@.contains_tabs == false,
    ensures
        final(writer)@.tab == tab4(),
        final(writer)@.level == 0,
        final(writer)@.contains_tabs == false,
        final(writer)@.text == old(writer)@.text + write_result_text(t@),
{
    writer.new_line();
    writer.writeln_tab(1, "memory.get_scope_mut(scope_id).rpc_buffer_write(");
    writer.writeln_tab(2, "rpc_method_address,");
    writer.writeln_tab(2, "RpcMethodBuffer::Client,");
    writer.writeln_tab(2, "|bytes_writer| {");
    writer.writeln_tab(3, generate_write(t, "result", false).as_str());
    writer.writeln_tab(2, "},");
    writer.writeln_tab(1, ");");
    proof {
        assert(writer@.text =~= old(writer)@.text + write_result_text(t@));
    }
}

/// The handler of a method called once: the struct of its arguments and
/// its buffers where it has arguments, then a handler that reads them,
/// calls the method and writes its result.
pub fn generate_sync_rpc_method(node: &FnASTNode) -> (res: String)
    ensures
        res@ == sync_rpc_method_text(*node),
{
    let mut writer = Writer::default();
    let has_args = node.args.len() > 0;
    if has_args {
        let built = args_struct_of(node);
        writer.writeln(generate_struct_model(&built, false).as_str());
        writer.writeln(generate_struct_buffers(&built).as_str());
        proof {
            let c = args_struct(*node);
            assert(is_args_struct(c, *node));
            assert(same_fields(built.fields@, c.fields@));
            lemma_same_struct_texts(built, c);
        }
    }
    let ghost part1 = writer@.text;
    write_handler_head(&mut writer, node);
    if has_args {
        write_read_args(&mut writer, node);
    }
    let ghost part2 = writer@.text;
    write_sync_call(&mut writer, node);
    let ghost part3 = writer@.text;
    if let Some(t) = &node.return_type_id {
        write_result(&mut writer, t);
    }
    let ghost part4 = writer@.text;
    writer.writeln("}");
    let res = copy_str(writer.show());
    proof {
        assert(part4 =~= part3 + (match node.return_type_id { Some(t) => write_result_text(t@), None => Seq::empty() }));
        assert(res@ =~= sync_rpc_method_text(*node));
    }
    res
}

/// Appends the body of a signal's handler after its call.
fn write_signal_write(writer: &mut Writer, node: &FnASTNode)
    requires
        old(writer)@.tab == tab4(),
        old(writer)@.level == 0,
        old(writer)@.contains_tabs == false,
    ensures
        final(writer)@.tab == tab4(),
        final(writer)@.level == 0,
        final(writer)@.text == old(writer)@.text
            + (if node.return_type_id is Some {
                line(1, "if let SignalRpcResult::Data(result) = result {"@)
            } else {
                line(1, "if result.has_new_data() {"@)
            })
            + line(2, "memory.get_scope_mut(scope_id).rpc_buffer_write("@)
            + line(3, "rpc_method_address,"@)
            + line(3, "RpcMethodBuffer::Client,"@)
            + line(3, "|bytes_writer| {"@)
            + line(4, "bytes_writer.write_u8(0xFF);"@)
            + (match node.return_type_id {
                Some(t) => line(4, rust_write_text(t@, "result"@, false)),
                None => Seq::empty(),
            }),
{
    if node.return_type_id.is_some() {
        writer.writeln_tab(1, "if let SignalRpcResult::Data(result) = result {");
    } else {
        writer.writeln_tab(1, "if result.has_new_data() {");
    }
    writer.writeln_tab(2, "memory.get_scope_mut(scope_id).rpc_buffer_write(");
    writer.writeln_tab(3, "rpc_method_address,");
    writer.writeln_tab(3, "RpcMethodBuffer::Client,");
    writer.writeln_tab(3, "|bytes_writer| {");
    writer.writeln_tab(4, "bytes_writer.write_u8(0xFF);");
    let ghost mid = writer@.text;
    if let Some(t) = &node.return_type_id {
        writer.writeln_tab(4, generate_write(t, "result", false).as_str());
    }
    proof {
        assert(writer@.text =~= mid + (match node.return_type_id {
            Some(t) => line(4, rust_write_text(t@, "result"@, false)),
            None => Seq::empty(),
        }));
    }
}

/// The handler of a signal: where the signal has new data, a marker byte
/// and the data go to the client buffer.
pub fn generate_signal_rpc_method(node: &FnASTNode) -> (res: String)
    ensures
        res@ == signal_rpc_method_text(*node),
{
    let mut writer = Writer::default();
    write_handler_head(&mut writer, node);
    let ghost part1 = writer@.text;
    writer.push_tab();
    writer.write_tabs();
    assert(repeat(tab4(), 0) =~= Seq::<char>::empty());
    assert(repeat(tab4(), 1) =~= tab4());
    writer.write("let result = ");
    writer.write(node.id.as_str());
    if node.args.len() == 0 {
        writer.write("();");
    }
    writer.new_line();
    writer.new_line();
    writer.pop_tab();
    let ghost part2 = writer@.text;
    assert(part2 =~= part1 + tab4() + "let result = "@ + node.id@
        + (if node.args@.len() == 0 { "();"@ } else { Seq::empty() }) + seq!['\n'] + seq!['\n']);
    write_signal_write(&mut writer, node);
    writer.writeln_tab(3, "},");
    writer.writeln_tab(2, ");");
    writer.writeln_tab(1, "}");
    writer.writeln("}");
    let res = copy_str(writer.show());
    assert(res@ =~= signal_rpc_method_text(*node));
    res
}

/// The handler of a method.
pub fn generate_rpc_method(node: &FnASTNode) -> (res: String)
    requires
        rpc_method_supported(*node),
    ensures
        res@ == rpc_method_text(*node),
{
    if node.is_signal {
        generate_signal_rpc_method(node)
    } else {
        generate_sync_rpc_method(node)
    }
}

/// The function that adds the scope named by `#[id = ".."]` and registers
/// every method's handler.
pub fn generate_register_fn(ast: &[ASTNode]) -> (res: String)
    requires
        directive_value(ast@, "id"@) matches Some(v) && v.literal is StringLiteral,
    ensures
        res@ == register_fn_text(string_value(directive_value(ast@, "id"@).unwrap()), fn_nodes(ast@)),
{
    let scope = find_directive_value(ast, "id");
    let mut writer = Writer::default();
    writer.writeln("pub fn register_rpc(runtime: &mut RpcRuntime) {");
    match &scope {
        Some(ConstValueASTNode::Literal { literal: Literal::StringLiteral(id), .. }) => {
            writer.writeln_tab(1, cat3("let scope_id = BuffersScopeId(uuid!(\"", id.as_str(), "\"));").as_str());
        },
        _ => {},
    }
    writer.writeln_tab(1, "runtime.memory.add_scope(scope_id);");
    let fns = find_fn_nodes(ast);
    let ghost before = writer@.text;
    let mut i: usize = 0;
    while i < fns.len()
        invariant
            i <= fns@.len(),
            fns@.len() == fn_nodes(ast@).len(),
            forall|k: int| 0 <= k < fns@.len() ==> *fns@[k] == fn_nodes(ast@)[k],
            writer@.tab == tab4(),
            writer@.level == 0,
            writer@.text == before + concat_map(fn_nodes(ast@).take(i as int), |n: FnASTNode| register_entry_text(n)),
        decreases fns@.len() - i,
    {
        write_register_entry(&mut writer, fns[i]);
        proof {
            assert(fn_nodes(ast@).take(i + 1).drop_last() =~= fn_nodes(ast@).take(i as int));
            assert(fn_nodes(ast@).take(i + 1).last() == fn_nodes(ast@)[i as int]);
        }
        i = i + 1;
    }
    assert(fn_nodes(ast@).take(fn_nodes(ast@).len() as int) =~= fn_nodes(ast@));
    writer.writeln("}");
    let res = copy_str(writer.show());
    assert(res@ =~= register_fn_text(string_value(directive_value(ast@, "id"@).unwrap()), fn_nodes(ast@)));
    res
}

fn payload_size(node: &FnASTNode) -> (res: &'static str)
    ensures
        res@ == payload_size_text(*node),
{
    if node.args.len() == 0 && node.return_type_id.is_none() {
        "RpcMethodPayloadSize::Zero"
    } else {
        match &node.return_type_id {
            Some(TypeIDASTNode::Generic { id, .. }) => {
                if crate::text::str_eq(id.as_str(), "Vec") {
                    "RpcMethodPayloadSize::Large"
                } else {
                    "RpcMethodPayloadSize::Medium"
                }
            },
            _ => "RpcMethodPayloadSize::Medium",
        }
    }
}


/// Each method is registered by the runtime call of its kind: a signal by
/// `register_signal_rpc_method`, an async method that is no signal by
/// `register_async_rpc_method`, and a method that is neither by
/// `register_rpc_method`; the registration's first line is that call.
pub proof fn lemma_registration_by_kind(node: FnASTNode)
    ensures
        node.is_signal ==> line(1, "runtime.register_signal_rpc_method("@).is_prefix_of(register_entry_text(node)),
        !node.is_signal && node.is_async
            ==> line(1, "runtime.register_async_rpc_method("@).is_prefix_of(register_entry_text(node)),
        !node.is_signal && !node.is_async
            ==> line(1, "runtime.register_rpc_method("@).is_prefix_of(register_entry_text(node)),
{
    reveal_strlit("runtime.");
    reveal_strlit("(");
    reveal_strlit("register_signal_rpc_method");
    reveal_strlit("register_async_rpc_method");
    reveal_strlit("register_rpc_method");
    reveal_strlit("runtime.register_signal_rpc_method(");
    reveal_strlit("runtime.register_async_rpc_method(");
    reveal_strlit("runtime.register_rpc_method(");
    let first = line(1, "runtime."@ + register_method_name(node) + "("@);
    let rest = register_entry_text(node).skip(first.len() as int);
    assert(register_entry_text(node) =~= first + rest);
    if node.is_signal {
        assert("runtime."@ + register_method_name(node) + "("@ =~= "runtime.register_signal_rpc_method("@);
    } else if node.is_async {
        assert("runtime."@ + register_method_name(node) + "("@ =~= "runtime.register_async_rpc_method("@);
    } else {
        assert("runtime."@ + register_method_name(node) + "("@ =~= "runtime.register_rpc_method("@);
    }
}

} // verus!
