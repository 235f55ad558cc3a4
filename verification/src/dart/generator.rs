use vstd::prelude::*;
use crate::ast::{ASTNode, StructASTNode, StructFieldASTNode};
use crate::dart::ir::{
    ArgumentDeclarationIR, AssignIR, CallIR, ClassDartIR, DartIR, DefaultConstructorIR, ListIR,
    NamedConstructorIR, ShortFuncIR, VarDeclarationIR, dart_type_supported, dart_default_supported,
    dt_fits, dt_fits_all,
};
use crate::text::{cat, cat3, copy_str, str_eq, to_case, case_converted, TextCase};

verus! {

// ---------------------------------------------------------------------------
// The shape of the Dart models: what each token is, field by field.

/// The name of a field in Dart: camel case.
pub open spec fn field_id(f: StructFieldASTNode) -> Seq<char> {
    case_converted(f.name@, TextCase::Camel)
}

pub open spec fn is_id(t: DartIR, s: Seq<char>) -> bool {
    t matches DartIR::Id(x) && x@ == s
}

/// `required this.<field>`.
pub open spec fn is_this_argument(t: DartIR, f: StructFieldASTNode) -> bool {
    t matches DartIR::ArgumentDeclaration(a) && a.id@ == field_id(f) && a.is_required && a.is_this
        && a.type_id is None && a.assign is None
}

/// `<id>({ required this.a, .. })`, `const` where asked.
pub open spec fn is_fields_constructor(t: DartIR, id: Seq<char>, is_const: bool, fields: Seq<StructFieldASTNode>) -> bool {
    match t {
        DartIR::DefaultConstructor(d) => {
            &&& d.id@ == id
            &&& d.is_const == is_const
            &&& match d.fields {
                Some(b) => match *b {
                    DartIR::List(l) => {
                        &&& l.separator@ == ","@
                        &&& l.new_line
                        &&& l.items@.len() == fields.len()
                        &&& forall|k: int| 0 <= k < fields.len() ==> #[trigger] is_this_argument(l.items@[k], fields[k])
                    },
                    _ => false,
                },
                None => false,
            }
        },
        _ => false,
    }
}

/// `<field> = <default of its type>`, the pool's default where `emplace`.
pub open spec fn is_default_assign(t: DartIR, f: StructFieldASTNode, emplace: bool) -> bool {
    t matches DartIR::Assign(a) && is_id(*a.left, field_id(f)) && if emplace {
        *a.right matches DartIR::DefaultEmplaceValueForTypeID(ty) && ty@ == f.type_id@
    } else {
        *a.right matches DartIR::DefaultCopyValueForTypeID(ty) && ty@ == f.type_id@
    }
}

/// `<id>.createDefault() : a = .., b = ..;`, `const` where asked.
pub open spec fn is_create_default(t: DartIR, id: Seq<char>, is_const: bool, fields: Seq<StructFieldASTNode>, emplace: bool) -> bool {
    t matches DartIR::NamedConstructor(n) && n.id@ == id && n.name@ == "createDefault"@ && n.is_const == is_const
        && n.fields is None && n.assigns@.len() == fields.len()
        && forall|k: int| 0 <= k < fields.len() ==> #[trigger] is_default_assign(n.assigns@[k], fields[k], emplace)
}

/// The declaration of a field: `final T a;` for copies, `T a;` with the
/// pool's type where `emplace`.
pub open spec fn is_field_declaration(t: DartIR, f: StructFieldASTNode, emplace: bool) -> bool {
    t matches DartIR::VarDeclaration(v) && v.id@ == field_id(f) && v.assign is None && v.is_final == !emplace && if emplace {
        *v.type_id matches DartIR::EmplaceTypeId(ty) && ty@ == f.type_id@
    } else {
        *v.type_id matches DartIR::CopyTypeId(ty) && ty@ == f.type_id@
    }
}

/// The class of a struct with fields: its constructor, its default
/// constructor, then its fields; the constructors are `const` for copies.
pub open spec fn is_model_class(t: DartIR, id: Seq<char>, fields: Seq<StructFieldASTNode>, emplace: bool) -> bool {
    t matches DartIR::Class(c) && c.id@ == id && c.implements@.len() == 0 && c.body@.len() == fields.len() + 2
        && is_fields_constructor(c.body@[0], id, !emplace, fields)
        && is_create_default(c.body@[1], id, !emplace, fields, emplace)
        && forall|k: int| 0 <= k < fields.len() ==> #[trigger] is_field_declaration(c.body@[k + 2], fields[k], emplace)
}

/// The factory of a class: `class <id>BuffersFactory implements
/// BuffersFactory<id>`, with a `const` constructor and an overriding
/// `createDefault` that calls `const <path>()`.
pub open spec fn is_factory_class(t: DartIR, id: Seq<char>, path: Seq<Seq<char>>) -> bool {
    match t {
        DartIR::Class(c) => {
            &&& c.id@ == id + "BuffersFactory"@
            &&& c.implements@.len() == 1
            &&& is_id(c.implements@[0], "BuffersFactory<"@ + id + ">"@)
            &&& c.body@.len() == 2
            &&& match c.body@[0] {
                DartIR::DefaultConstructor(d) => d.id@ == id + "BuffersFactory"@ && d.is_const && d.fields is None,
                _ => false,
            }
            &&& match c.body@[1] {
                DartIR::ShortFunc(f) => {
                    &&& f.id@ == "createDefault"@
                    &&& f.is_override
                    &&& f.args is None
                    &&& match f.return_type_id {
                        Some(r) => is_id(*r, id),
                        None => false,
                    }
                    &&& match *f.body {
                        DartIR::Call(call) => {
                            &&& call.is_const
                            &&& call.args is None
                            &&& call.path@.len() == path.len()
                            &&& forall|k: int| 0 <= k < path.len() ==> #[trigger] is_id(call.path@[k], path[k])
                        },
                        _ => false,
                    }
                },
                _ => false,
            }
        },
        _ => false,
    }
}

/// A struct without fields: a class with only a `const` constructor, and
/// its factory, which builds `const <id>()`.
pub open spec fn empty_struct_ir(node: StructASTNode, ir: Seq<DartIR>) -> bool {
    &&& ir.len() == 2
    &&& match ir[0] {
        DartIR::Class(c) => {
            &&& c.id@ == node.id@
            &&& c.implements@.len() == 0
            &&& c.body@.len() == 1
            &&& match c.body@[0] {
                DartIR::DefaultConstructor(d) => d.id@ == node.id@ && d.is_const && d.fields is None,
                _ => false,
            }
        },
        _ => false,
    }
    &&& is_factory_class(ir[1], node.id@, seq![node.id@])
}

/// A struct copied by value: its class with `final` fields and `const`
/// constructors, and its factory.
pub open spec fn copy_struct_ir(node: StructASTNode, ir: Seq<DartIR>) -> bool {
    &&& ir.len() == 2
    &&& is_model_class(ir[0], node.id@, node.fields@, false)
    &&& is_factory_class(ir[1], node.id@, seq![node.id@, "createDefault"@])
}

/// The name of a struct's class for values kept in a pool.
pub open spec fn emplace_id(node: StructASTNode) -> Seq<char> {
    "Emplace"@ + node.id@
}

/// A struct kept in a pool: the class `Emplace<id>` with mutable fields of
/// the pool's types, and its factory.
pub open spec fn emplace_struct_ir(node: StructASTNode, ir: Seq<DartIR>) -> bool {
    &&& ir.len() == 2
    &&& is_model_class(ir[0], emplace_id(node), node.fields@, true)
    &&& is_factory_class(ir[1], emplace_id(node), seq![emplace_id(node), "createDefault"@])
}

/// The memory kinds that a `#[memory(..)]` directive may name.
pub open spec fn memory_values_valid(memory: Seq<Seq<char>>) -> bool {
    forall|i: int| 0 <= i < memory.len() ==> #[trigger] memory[i] == "copy"@ || memory[i] == "emplace"@
}

/// The models of a struct: a struct without fields has only the empty
/// form; otherwise the copy form where `copy` is asked or nothing is, then
/// the pool form where `emplace` is asked.
pub open spec fn struct_model_ir(node: StructASTNode, memory: Seq<Seq<char>>, ir: Seq<DartIR>) -> bool {
    let copy = memory.contains("copy"@);
    let emplace = memory.contains("emplace"@);
    if node.fields@.len() == 0 {
        empty_struct_ir(node, ir)
    } else if copy && emplace {
        ir.len() == 4 && copy_struct_ir(node, ir.take(2)) && emplace_struct_ir(node, ir.skip(2))
    } else if emplace {
        emplace_struct_ir(node, ir)
    } else {
        copy_struct_ir(node, ir)
    }
}

/// How many tokens the models of a struct take.
pub open spec fn struct_model_len(node: StructASTNode, memory: Seq<Seq<char>>) -> nat {
    if node.fields@.len() > 0 && memory.contains("copy"@) && memory.contains("emplace"@) { 4 } else { 2 }
}

/// The models of the structs among the nodes, in order; the other nodes
/// give none.
pub open spec fn models_ir(ast: Seq<ASTNode>, memory: Seq<Seq<char>>, ir: Seq<DartIR>) -> bool
    decreases ast.len(),
{
    if ast.len() == 0 {
        ir.len() == 0
    } else {
        match ast.last() {
            ASTNode::Struct(s) => {
                let n = struct_model_len(s, memory);
                &&& ir.len() >= n
                &&& models_ir(ast.drop_last(), memory, ir.take(ir.len() - n))
                &&& struct_model_ir(s, memory, ir.skip(ir.len() - n))
            },
            _ => models_ir(ast.drop_last(), memory, ir),
        }
    }
}

/// Whether every field of the struct has a Dart type and a default.
pub open spec fn dart_struct_supported(node: StructASTNode) -> bool {
    forall|k: int| 0 <= k < node.fields@.len() ==> {
        &&& dart_type_supported(#[trigger] node.fields@[k].type_id@)
        &&& dart_default_supported(node.fields@[k].type_id@)
    }
}

pub open spec fn dart_models_supported(ast: Seq<ASTNode>) -> bool {
    forall|i: int| 0 <= i < ast.len() ==> (#[trigger] ast[i] matches ASTNode::Struct(s) ==> dart_struct_supported(s))
}

// ---------------------------------------------------------------------------
// The generators.

fn id_ir(s: &str) -> (res: DartIR)
    ensures
        is_id(res, s@),
        dt_fits(res, usize::MAX as nat),
{
    DartIR::Id(copy_str(s))
}

/// The factory class of `id`, whose `createDefault` calls `const
/// <id>.createDefault()`, or `const <id>()` where `with_default` is false.
fn factory_class(id: &str, with_default: bool) -> (res: DartIR)
    ensures
        is_factory_class(res, id@, if with_default { seq![id@, "createDefault"@] } else { seq![id@] }),
        dt_fits(res, usize::MAX as nat),
{
    proof { reveal_with_fuel(dt_fits, 4); }
    let factory_id = cat(id, "BuffersFactory");
    let mut path: Vec<DartIR> = Vec::new();
    path.push(id_ir(id));
    if with_default {
        path.push(id_ir("createDefault"));
    }
    let call = DartIR::Call(CallIR { path, is_const: true, args: None });
    let constructor = DartIR::DefaultConstructor(DefaultConstructorIR { id: factory_id.clone(), is_const: true, fields: None });
    let create = DartIR::ShortFunc(ShortFuncIR {
        id: String::from_str("createDefault"),
        return_type_id: Some(Box::new(id_ir(id))),
        is_override: true,
        args: None,
        body: Box::new(call),
    });
    let mut body: Vec<DartIR> = Vec::new();
    body.push(constructor);
    body.push(create);
    let mut implements: Vec<DartIR> = Vec::new();
    implements.push(DartIR::Id(cat3("BuffersFactory<", id, ">")));
    let res = DartIR::Class(ClassDartIR { id: factory_id, body, implements });
    proof {
        let want = if with_default { seq![id@, "createDefault"@] } else { seq![id@] };
        assert(is_id(path@[0], want[0]));
        if with_default {
            assert(is_id(path@[1], want[1]));
        }
        assert(forall|k: int| 0 <= k < want.len() ==> #[trigger] is_id(path@[k], want[k]));
        assert(dt_fits_all(path@, (usize::MAX - 1) as nat));
        assert(dt_fits(body@[1], (usize::MAX - 1) as nat));
        assert(dt_fits_all(body@, (usize::MAX - 1) as nat));
        assert(dt_fits_all(implements@, usize::MAX as nat));
    }
    res
}

/// The class and factory of a struct without fields.
pub fn generate_empty_struct(node: &StructASTNode) -> (res: Vec<DartIR>)
    ensures
        empty_struct_ir(*node, res@),
        dt_fits_all(res@, usize::MAX as nat),
{
    proof { reveal_with_fuel(dt_fits, 3); }
    let constructor = DartIR::DefaultConstructor(DefaultConstructorIR { id: node.id.clone(), is_const: true, fields: None });
    let mut body: Vec<DartIR> = Vec::new();
    body.push(constructor);
    let class = DartIR::Class(ClassDartIR { id: node.id.clone(), body, implements: Vec::new() });
    let factory = factory_class(node.id.as_str(), false);
    let mut res: Vec<DartIR> = Vec::new();
    res.push(class);
    res.push(factory);
    proof {
        assert(dt_fits_all(body@, (usize::MAX - 1) as nat));
        assert(dt_fits(res@[0], usize::MAX as nat));
    }
    res
}

/// The class of a struct with fields and its factory: `Emplace<id>` with
/// the pool's types where `emplace`, `<id>` copied by value otherwise.
fn generate_field_struct(node: &StructASTNode, emplace: bool) -> (res: Vec<DartIR>)
    requires
        dart_struct_supported(*node),
    ensures
        if emplace { emplace_struct_ir(*node, res@) } else { copy_struct_ir(*node, res@) },
        dt_fits_all(res@, usize::MAX as nat),
{
    proof { reveal_with_fuel(dt_fits, 3); }
    let class_id = if emplace { cat("Emplace", node.id.as_str()) } else { node.id.clone() };
    let ghost fields = node.fields@;
    let ghost room = (usize::MAX - 3) as nat;
    let mut arguments: Vec<DartIR> = Vec::new();
    let mut assigns: Vec<DartIR> = Vec::new();
    let mut declarations: Vec<DartIR> = Vec::new();
    let mut i: usize = 0;
    while i < node.fields.len()
        invariant
            fields == node.fields@,
            dart_struct_supported(*node),
            i <= fields.len(),
            room == (usize::MAX - 3) as nat,
            arguments@.len() == i,
            assigns@.len() == i,
            declarations@.len() == i,
            forall|k: int| 0 <= k < i ==> #[trigger] is_this_argument(arguments@[k], fields[k]),
            forall|k: int| 0 <= k < i ==> #[trigger] is_default_assign(assigns@[k], fields[k], emplace),
            forall|k: int| 0 <= k < i ==> #[trigger] is_field_declaration(declarations@[k], fields[k], emplace),
            dt_fits_all(arguments@, (usize::MAX - 2) as nat),
            dt_fits_all(assigns@, room),
            dt_fits_all(declarations@, (usize::MAX - 1) as nat),
        decreases fields.len() - i,
    {
        let f = &node.fields[i];
        let name = to_case(f.name.as_str(), TextCase::Camel);
        proof {
            assert(dart_type_supported(fields[i as int].type_id@));
            assert(dart_default_supported(fields[i as int].type_id@));
        }
        let argument = DartIR::ArgumentDeclaration(ArgumentDeclarationIR {
            id: name.clone(),
            is_required: true,
            is_this: true,
            type_id: None,
            assign: None,
        });
        let right = if emplace {
            DartIR::DefaultEmplaceValueForTypeID(f.type_id.clone())
        } else {
            DartIR::DefaultCopyValueForTypeID(f.type_id.clone())
        };
        let assign = DartIR::Assign(AssignIR { left: Box::new(DartIR::Id(name.clone())), right: Box::new(right) });
        let type_id = if emplace { DartIR::EmplaceTypeId(f.type_id.clone()) } else { DartIR::CopyTypeId(f.type_id.clone()) };
        let declaration = DartIR::VarDeclaration(VarDeclarationIR {
            id: name,
            type_id: Box::new(type_id),
            is_final: !emplace,
            assign: None,
        });
        proof {
            reveal_with_fuel(dt_fits, 3);
            assert(dt_fits(argument, (usize::MAX - 2) as nat));
            assert(dt_fits(assign, room));
            assert(dt_fits(declaration, (usize::MAX - 1) as nat));
        }
        arguments.push(argument);
        assigns.push(assign);
        declarations.push(declaration);
        i = i + 1;
    }
    let list = DartIR::List(ListIR { items: arguments, separator: ",", new_line: true });
    let constructor = DartIR::DefaultConstructor(DefaultConstructorIR {
        id: class_id.clone(),
        is_const: !emplace,
        fields: Some(Box::new(list)),
    });
    let create = DartIR::NamedConstructor(NamedConstructorIR {
        id: class_id.clone(),
        name: String::from_str("createDefault"),
        is_const: !emplace,
        fields: None,
        assigns,
    });
    let mut body: Vec<DartIR> = Vec::new();
    body.push(constructor);
    body.push(create);
    let ghost head = body@;
    let ghost decls = declarations@;
    body.append(&mut declarations);
    proof {
        assert(body@[0] == head[0]);
        assert(body@[1] == head[1]);
        assert(forall|m: int| 0 <= m < fields.len() ==> #[trigger] is_field_declaration(body@[m + 2], fields[m], emplace)) by {
            assert forall|m: int| 0 <= m < fields.len() implies #[trigger] is_field_declaration(body@[m + 2], fields[m], emplace) by {
                assert(body@[m + 2] == decls[m]);
                assert(is_field_declaration(decls[m], fields[m], emplace));
            }
        }
        assert(dt_fits_all(body@, (usize::MAX - 1) as nat)) by {
            assert forall|m: int| 0 <= m < body@.len() implies dt_fits(#[trigger] body@[m], (usize::MAX - 1) as nat) by {
                if m >= 2 {
                    assert(body@[m] == decls[m - 2]);
                    assert(dt_fits(decls[m - 2], (usize::MAX - 1) as nat));
                }
            }
        }
    }
    let class = DartIR::Class(ClassDartIR { id: class_id.clone(), body, implements: Vec::new() });
    let factory = factory_class(class_id.as_str(), true);
    proof { assert(dt_fits(class, usize::MAX as nat)); }
    let mut res: Vec<DartIR> = Vec::new();
    res.push(class);
    res.push(factory);
    proof { assert(dt_fits(res@[0], usize::MAX as nat) && dt_fits(res@[1], usize::MAX as nat)); }
    res
}

/// The class and factory of a struct copied by value.
pub fn generate_copy_struct(node: &StructASTNode) -> (res: Vec<DartIR>)
    requires
        dart_struct_supported(*node),
    ensures
        copy_struct_ir(*node, res@),
        dt_fits_all(res@, usize::MAX as nat),
{
    generate_field_struct(node, false)
}

/// The class `Emplace<id>` and its factory, for a struct kept in a pool.
pub fn generate_emplace_struct(node: &StructASTNode) -> (res: Vec<DartIR>)
    requires
        dart_struct_supported(*node),
    ensures
        emplace_struct_ir(*node, res@),
        dt_fits_all(res@, usize::MAX as nat),
{
    generate_field_struct(node, true)
}


/// The texts of the memory kinds.
pub open spec fn memory_texts(memory: Seq<String>) -> Seq<Seq<char>> {
    memory.map_values(|m: String| m@)
}

/// Whether some struct among the nodes has fields, so that its models
/// depend on the memory kinds.
pub open spec fn has_field_struct(ast: Seq<ASTNode>) -> bool {
    exists|i: int| 0 <= i < ast.len() && (#[trigger] ast[i] matches ASTNode::Struct(s) && s.fields@.len() > 0)
}

fn memory_has(memory: &[String], word: &str) -> (res: bool)
    ensures
        res == memory_texts(memory@).contains(word@),
{
    let ghost texts = memory_texts(memory@);
    let mut i: usize = 0;
    while i < memory.len()
        invariant
            i <= memory@.len(),
            texts == memory_texts(memory@),
            forall|k: int| 0 <= k < i ==> texts[k] != word@,
        decreases memory@.len() - i,
    {
        if str_eq(memory[i].as_str(), word) {
            assert(texts[i as int] == word@);
            return true;
        }
        i = i + 1;
    }
    false
}

proof fn lemma_fits_concat(a: Seq<DartIR>, b: Seq<DartIR>, room: nat)
    requires
        dt_fits_all(a, room),
        dt_fits_all(b, room),
    ensures
        dt_fits_all(a + b, room),
{
    assert forall|i: int| 0 <= i < (a + b).len() implies dt_fits(#[trigger] (a + b)[i], room) by {
        if i < a.len() {
            assert((a + b)[i] == a[i]);
        } else {
            assert((a + b)[i] == b[i - a.len()]);
        }
    }
}

/// The models of a struct: the empty form for a struct without fields;
/// otherwise the copy form where the memory kinds name `copy` or name
/// nothing, then the pool form where they name `emplace`.
pub fn generate_struct_model(node: &StructASTNode, memory: &[String]) -> (res: Vec<DartIR>)
    requires
        dart_struct_supported(*node),
        node.fields@.len() > 0 ==> memory_values_valid(memory_texts(memory@)),
    ensures
        struct_model_ir(*node, memory_texts(memory@), res@),
        res@.len() == struct_model_len(*node, memory_texts(memory@)),
        dt_fits_all(res@, usize::MAX as nat),
{
    if node.fields.len() == 0 {
        return generate_empty_struct(node);
    }
    let copy = memory_has(memory, "copy");
    let emplace = memory_has(memory, "emplace");
    if copy && emplace {
        let mut res = generate_copy_struct(node);
        let mut pool = generate_emplace_struct(node);
        let ghost first = res@;
        let ghost second = pool@;
        res.append(&mut pool);
        proof {
            assert(res@.take(2) =~= first);
            assert(res@.skip(2) =~= second);
            lemma_fits_concat(first, second, usize::MAX as nat);
        }
        res
    } else if emplace {
        generate_emplace_struct(node)
    } else {
        generate_copy_struct(node)
    }
}

/// The Dart models of the structs among the nodes, in order, with the
/// memory kinds that `#[memory(..)]` names; the other nodes give none.
pub fn generate_models(ast: &[ASTNode], memory: &[String]) -> (res: Vec<DartIR>)
    requires
        dart_models_supported(ast@),
        has_field_struct(ast@) ==> memory_values_valid(memory_texts(memory@)),
    ensures
        models_ir(ast@, memory_texts(memory@), res@),
        dt_fits_all(res@, usize::MAX as nat),
{
    let ghost mem = memory_texts(memory@);
    let mut ir: Vec<DartIR> = Vec::new();
    let mut i: usize = 0;
    proof { assert(ast@.take(0) =~= Seq::<ASTNode>::empty()); }
    while i < ast.len()
        invariant
            i <= ast@.len(),
            mem == memory_texts(memory@),
            dart_models_supported(ast@),
            has_field_struct(ast@) ==> memory_values_valid(mem),
            models_ir(ast@.take(i as int), mem, ir@),
            dt_fits_all(ir@, usize::MAX as nat),
        decreases ast@.len() - i,
    {
        proof {
            assert(ast@.take(i + 1).drop_last() =~= ast@.take(i as int));
            assert(ast@.take(i + 1).last() == ast@[i as int]);
        }
        match &ast[i] {
            ASTNode::Struct(node) => {
                proof {
                    assert(dart_struct_supported(*node));
                    if node.fields@.len() > 0 {
                        assert(has_field_struct(ast@));
                    }
                }
                let mut m = generate_struct_model(node, memory);
                let ghost before = ir@;
                let ghost model = m@;
                ir.append(&mut m);
                proof {
                    assert(ir@.take(ir@.len() - model.len()) =~= before);
                    assert(ir@.skip(ir@.len() - model.len()) =~= model);
                    lemma_fits_concat(before, model, usize::MAX as nat);
                }
            },
            _ => {},
        }
        i = i + 1;
    }
    proof { assert(ast@.take(ast@.len() as int) =~= ast@); }
    ir
}

} // verus!
