use tpbuffers::ast::{ASTNode, ConstValueASTNode, DirectiveASTNode, FnASTNode, FnArgASTNode, TypeIDASTNode};
use tpbuffers::lexer::Literal;
use tpbuffers::rust::rpc::{generate_rpc_method, generate_sync_rpc_method};
use tpbuffers::rust_generator::{generate_rpc, rust_inputs_supported};

fn id_directive(value: &str) -> ASTNode {
    ASTNode::Directive(DirectiveASTNode::Value {
        id: String::from("id"),
        value: ConstValueASTNode::Literal {
            literal: Literal::StringLiteral(String::from(value)),
            type_id: TypeIDASTNode::Other { id: String::from("String") },
        },
    })
}

fn method(id: &str, position: u32, args: Vec<FnArgASTNode>, ret: Option<TypeIDASTNode>, is_signal: bool) -> FnASTNode {
    FnASTNode {
        id: String::from(id),
        position,
        args,
        return_type_id: ret,
        is_read: false,
        is_async: false,
        is_signal,
    }
}

fn i32_type() -> TypeIDASTNode {
    TypeIDASTNode::Integer { id: String::from("i32"), size: 4, signed: true }
}

fn string_type() -> TypeIDASTNode {
    TypeIDASTNode::Other { id: String::from("String") }
}

#[test]
fn rust_rpc_stream_methods_match_reference_output() {
    let ast = vec![
        id_directive("723ca727-6a66-43a7-bfcc-b8ad94eac9be"),
        ASTNode::Fn(method("counter", 0, vec![], Some(i32_type()), true)),
        ASTNode::Fn(method("theme", 1, vec![], Some(TypeIDASTNode::Other { id: String::from("Theme") }), true)),
        ASTNode::Fn(method("trigger", 2, vec![], None, true)),
    ];
    let expected = "pub fn register_rpc(runtime: &mut RpcRuntime) {
    let scope_id = BuffersScopeId(uuid!(\"723ca727-6a66-43a7-bfcc-b8ad94eac9be\"));
    runtime.memory.add_scope(scope_id);
    runtime.register_signal_rpc_method(
        RpcMethod {
            scope_id,
            rpc_method_address: RpcMethodAddress(0),
            handler: counter_rpc_handler,
        },
        RpcMethodPayloadSize::Medium,
    );
    runtime.register_signal_rpc_method(
        RpcMethod {
            scope_id,
            rpc_method_address: RpcMethodAddress(1),
            handler: theme_rpc_handler,
        },
        RpcMethodPayloadSize::Medium,
    );
    runtime.register_signal_rpc_method(
        RpcMethod {
            scope_id,
            rpc_method_address: RpcMethodAddress(2),
            handler: trigger_rpc_handler,
        },
        RpcMethodPayloadSize::Zero,
    );
}

pub fn counter_rpc_handler(
    scope_id: BuffersScopeId,
    memory: &mut RpcRuntimeMemory,
    rpc_method_address: RpcMethodAddress,
) {
    let result = counter();

    if let SignalRpcResult::Data(result) = result {
        memory.get_scope_mut(scope_id).rpc_buffer_write(
            rpc_method_address,
            RpcMethodBuffer::Client,
            |bytes_writer| {
                bytes_writer.write_u8(0xFF);
                bytes_writer.write_i32(result);
            },
        );
    }
}

pub fn theme_rpc_handler(
    scope_id: BuffersScopeId,
    memory: &mut RpcRuntimeMemory,
    rpc_method_address: RpcMethodAddress,
) {
    let result = theme();

    if let SignalRpcResult::Data(result) = result {
        memory.get_scope_mut(scope_id).rpc_buffer_write(
            rpc_method_address,
            RpcMethodBuffer::Client,
            |bytes_writer| {
                bytes_writer.write_u8(0xFF);
                result.write_to_buffers(bytes_writer);
            },
        );
    }
}

pub fn trigger_rpc_handler(
    scope_id: BuffersScopeId,
    memory: &mut RpcRuntimeMemory,
    rpc_method_address: RpcMethodAddress,
) {
    let result = trigger();

    if result.has_new_data() {
        memory.get_scope_mut(scope_id).rpc_buffer_write(
            rpc_method_address,
            RpcMethodBuffer::Client,
            |bytes_writer| {
                bytes_writer.write_u8(0xFF);
            },
        );
    }
}
";
    assert_eq!(generate_rpc(&ast), expected);
}

#[test]
fn rust_rpc_without_methods_is_empty() {
    assert_eq!(generate_rpc(&[id_directive("x")]), "");
}

#[test]
fn rust_rpc_sync_methods_without_arguments() {
    let print = method("print_hello_world", 0, vec![], None, false);
    assert_eq!(
        generate_rpc_method(&print),
        "pub fn print_hello_world_rpc_handler(
    scope_id: BuffersScopeId,
    memory: &mut RpcRuntimeMemory,
    rpc_method_address: RpcMethodAddress,
) {
    print_hello_world();
}
"
    );
    let hello = method("hello_world", 1, vec![], Some(string_type()), false);
    assert_eq!(
        generate_rpc_method(&hello),
        "pub fn hello_world_rpc_handler(
    scope_id: BuffersScopeId,
    memory: &mut RpcRuntimeMemory,
    rpc_method_address: RpcMethodAddress,
) {
    let result = hello_world();

    memory.get_scope_mut(scope_id).rpc_buffer_write(
        rpc_method_address,
        RpcMethodBuffer::Client,
        |bytes_writer| {
            result.write_to_buffers(bytes_writer);
        },
    );
}
"
    );
}

#[test]
fn rust_rpc_sync_method_with_arguments() {
    let args = vec![
        FnArgASTNode { id: String::from("first_name"), type_id: string_type() },
        FnArgASTNode { id: String::from("last_name"), type_id: string_type() },
    ];
    let say_hello = method("say_hello", 2, args, Some(string_type()), false);
    let text = generate_sync_rpc_method(&say_hello);
    assert!(text.starts_with(
        "#[derive(Debug, Clone, PartialEq)]
pub struct __say_hello_rpc_args__ {
    pub first_name: String,
    pub last_name: String,
}
"
    ));
    assert!(text.ends_with(
        "pub fn say_hello_rpc_handler(
    scope_id: BuffersScopeId,
    memory: &mut RpcRuntimeMemory,
    rpc_method_address: RpcMethodAddress,
) {
    let args = memory.get_scope_mut(scope_id).rpc_buffer_read(
        rpc_method_address,
        RpcMethodBuffer::Server,
        |bytes_reader| __say_hello_rpc_args__::read_from_buffers(bytes_reader),
    );

    let result = say_hello(
        args.first_name,
        args.last_name,
    );

    memory.get_scope_mut(scope_id).rpc_buffer_write(
        rpc_method_address,
        RpcMethodBuffer::Client,
        |bytes_writer| {
            result.write_to_buffers(bytes_writer);
        },
    );
}
"
    ));
    assert!(text.contains("impl IntoVMBuffers for __say_hello_rpc_args__ {"));
}

#[test]
fn rust_inputs_supported_follows_the_generator_precondition() {
    let ok = vec![id_directive("abc"), ASTNode::Fn(method("hello", 0, vec![], None, false))];
    assert!(rust_inputs_supported(&ok));
    let no_id = vec![ASTNode::Fn(method("hello", 0, vec![], None, false))];
    assert!(!rust_inputs_supported(&no_id));
    let mut async_method = method("hello", 0, vec![], None, false);
    async_method.is_async = true;
    assert!(!rust_inputs_supported(&vec![id_directive("abc"), ASTNode::Fn(async_method)]));
    let empty_enum = vec![ASTNode::Enum(tpbuffers::ast::EnumASTNode { id: String::from("E"), items: vec![] })];
    assert!(!rust_inputs_supported(&empty_enum));
    assert!(rust_inputs_supported(&vec![]));
}
