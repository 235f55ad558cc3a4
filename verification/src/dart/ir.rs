use vstd::prelude::*;
use crate::ast::{ConstValueASTNode, TypeIDASTNode, TypeId, type_ids_view, lemma_type_ids_view};
use crate::lexer::Literal;
use crate::text::{cat, cat3, copy_str, str_eq, int_text, int_to_text, bool_text, bool_to_text, quoted, quote};
use crate::writer::{Writer, WriterState, grows};

verus! {

/// Whether Dart has a name for the type: an `Option` needs an argument,
/// and every argument of a generic type needs a name too.
pub open spec fn dart_type_supported(t: TypeId) -> bool
    decreases t, 1nat,
{
    match t {
        TypeId::Generic { id, generics } => (id == "Option"@ ==> generics.len() > 0) && dart_types_supported(generics),
        _ => true,
    }
}

pub open spec fn dart_types_supported(ts: Seq<TypeId>) -> bool
    decreases ts, 0nat,
{
    if ts.len() == 0 {
        true
    } else {
        dart_types_supported(ts.drop_last()) && dart_type_supported(ts.last())
    }
}

/// The Dart name of a type for plain copies: numbers are `int` and
/// `double`, the address types `int`, an `Option` is nullable and a `Vec`
/// a `List`.
pub open spec fn dart_copy_type_text(t: TypeId) -> Seq<char>
    decreases t, 1nat,
{
    match t {
        TypeId::Integer { .. } => "int"@,
        TypeId::Number { .. } => "double"@,
        TypeId::Bool { .. } => "bool"@,
        TypeId::Char { id } => id,
        TypeId::Other { id } => {
            if id == "GroupAddress"@ || id == "CommandsBufferAddress"@ { "int"@ } else { id }
        },
        TypeId::Generic { id, generics } => {
            if id == "Option"@ {
                if generics.len() > 0 { dart_copy_type_text(generics[0]) + "?"@ } else { "?"@ }
            } else if id == "Vec"@ {
                "List<"@ + dart_copy_types_text(generics) + ">"@
            } else {
                id + "<"@ + dart_copy_types_text(generics) + ">"@
            }
        },
    }
}

/// The copy names of the types, separated by ", ".
pub open spec fn dart_copy_types_text(ts: Seq<TypeId>) -> Seq<char>
    decreases ts, 0nat,
{
    if ts.len() == 0 {
        Seq::empty()
    } else if ts.len() == 1 {
        dart_copy_type_text(ts[0])
    } else {
        dart_copy_types_text(ts.drop_last()) + ", "@ + dart_copy_type_text(ts.last())
    }
}

/// The Dart name of a type for values kept in a pool: an `Option` is an
/// `EmplaceOption` and a `Vec` an `EmplaceList`; other types are named as
/// for copies.
pub open spec fn dart_emplace_type_text(t: TypeId) -> Seq<char>
    decreases t, 1nat,
{
    match t {
        TypeId::Generic { id, generics } => {
            if id == "Option"@ {
                "EmplaceOption<"@ + (if generics.len() > 0 { dart_emplace_type_text(generics[0]) } else { Seq::empty() }) + ">"@
            } else if id == "Vec"@ {
                "EmplaceList<"@ + dart_emplace_types_text(generics) + ">"@
            } else {
                id + "<"@ + dart_emplace_types_text(generics) + ">"@
            }
        },
        _ => dart_copy_type_text(t),
    }
}

pub open spec fn dart_emplace_types_text(ts: Seq<TypeId>) -> Seq<char>
    decreases ts, 0nat,
{
    if ts.len() == 0 {
        Seq::empty()
    } else if ts.len() == 1 {
        dart_emplace_type_text(ts[0])
    } else {
        dart_emplace_types_text(ts.drop_last()) + ", "@ + dart_emplace_type_text(ts.last())
    }
}

proof fn lemma_dart_types_supported(ts: Seq<TypeId>)
    requires
        dart_types_supported(ts),
    ensures
        forall|i: int| 0 <= i < ts.len() ==> dart_type_supported(#[trigger] ts[i]),
    decreases ts.len(),
{
    if ts.len() > 0 {
        lemma_dart_types_supported(ts.drop_last());
        assert forall|i: int| 0 <= i < ts.len() implies dart_type_supported(#[trigger] ts[i]) by {
            if i < ts.len() - 1 {
                assert(ts[i] == ts.drop_last()[i]);
            }
        }
    }
}

/// The copy names of the types `generics`, joined by ", ".
#[verifier::loop_isolation(false)]
fn copy_generics_text(generics: &Vec<TypeIDASTNode>) -> (res: String)
    requires
        dart_types_supported(type_ids_view(generics@)),
    ensures
        res@ == dart_copy_types_text(type_ids_view(generics@)),
    decreases generics@, 0nat,
{
    proof {
        lemma_type_ids_view(generics@);
        lemma_dart_types_supported(type_ids_view(generics@));
    }
    let mut res = String::new();
    let mut i: usize = 0;
    while i < generics.len()
        invariant
            i <= generics.len(),
            res@ == dart_copy_types_text(type_ids_view(generics@.take(i as int))),
        decreases generics.len() - i,
    {
        proof {
            assert(decreases_to!(generics@ => generics@[i as int]));
            assert(generics@.take(i + 1).drop_last() =~= generics@.take(i as int));
            lemma_type_ids_view(generics@.take(i as int));
            lemma_type_ids_view(generics@.take(i + 1));
            assert(type_ids_view(generics@)[i as int] == generics@[i as int]@);
            assert(type_ids_view(generics@.take(i + 1)).drop_last() =~= type_ids_view(generics@.take(i as int)));
        }
        let g = generate_copy_type_id(&generics[i]);
        if i > 0 {
            res.append(", ");
        }
        res.append(g.as_str());
        i = i + 1;
    }
    assert(generics@.take(generics.len() as int) =~= generics@);
    res
}

/// The emplace names of the types `generics`, joined by ", ".
#[verifier::loop_isolation(false)]
fn emplace_generics_text(generics: &Vec<TypeIDASTNode>) -> (res: String)
    requires
        dart_types_supported(type_ids_view(generics@)),
    ensures
        res@ == dart_emplace_types_text(type_ids_view(generics@)),
    decreases generics@, 0nat,
{
    proof {
        lemma_type_ids_view(generics@);
        lemma_dart_types_supported(type_ids_view(generics@));
    }
    let mut res = String::new();
    let mut i: usize = 0;
    while i < generics.len()
        invariant
            i <= generics.len(),
            res@ == dart_emplace_types_text(type_ids_view(generics@.take(i as int))),
        decreases generics.len() - i,
    {
        proof {
            assert(decreases_to!(generics@ => generics@[i as int]));
            assert(generics@.take(i + 1).drop_last() =~= generics@.take(i as int));
            lemma_type_ids_view(generics@.take(i as int));
            lemma_type_ids_view(generics@.take(i + 1));
            assert(type_ids_view(generics@)[i as int] == generics@[i as int]@);
            assert(type_ids_view(generics@.take(i + 1)).drop_last() =~= type_ids_view(generics@.take(i as int)));
        }
        let g = generate_emplace_type_id(&generics[i]);
        if i > 0 {
            res.append(", ");
        }
        res.append(g.as_str());
        i = i + 1;
    }
    assert(generics@.take(generics.len() as int) =~= generics@);
    res
}

/// The Dart name of a type for plain copies.
pub fn generate_copy_type_id(type_id: &TypeIDASTNode) -> (res: String)
    requires
        dart_type_supported(type_id@),
    ensures
        res@ == dart_copy_type_text(type_id@),
    decreases type_id, 1nat,
{
    match type_id {
        TypeIDASTNode::Integer { .. } => String::from_str("int"),
        TypeIDASTNode::Number { .. } => String::from_str("double"),
        TypeIDASTNode::Bool { .. } => String::from_str("bool"),
        TypeIDASTNode::Char { id } => id.clone(),
        TypeIDASTNode::Other { id } => {
            if str_eq(id.as_str(), "GroupAddress") || str_eq(id.as_str(), "CommandsBufferAddress") {
                String::from_str("int")
            } else {
                id.clone()
            }
        },
        TypeIDASTNode::Generic { id, generics } => {
            proof { assert(decreases_to!(*type_id => *generics)); }
            if str_eq(id.as_str(), "Option") {
                proof {
                    lemma_type_ids_view(generics@);
                    lemma_dart_types_supported(type_ids_view(generics@));
                    assert(decreases_to!(*generics => generics[0]));
                    assert(type_ids_view(generics@)[0] == generics@[0]@);
                }
                let first = generate_copy_type_id(&generics[0]);
                cat(first.as_str(), "?")
            } else if str_eq(id.as_str(), "Vec") {
                let inner = copy_generics_text(generics);
                let mut res = String::from_str("List<");
                res.append(inner.as_str());
                res.append(">");
                res
            } else {
                let inner = copy_generics_text(generics);
                let mut res = cat(id.as_str(), "<");
                res.append(inner.as_str());
                res.append(">");
                res
            }
        },
    }
}

/// The Dart name of a type for values kept in a pool.
pub fn generate_emplace_type_id(type_id: &TypeIDASTNode) -> (res: String)
    requires
        dart_type_supported(type_id@),
    ensures
        res@ == dart_emplace_type_text(type_id@),
    decreases type_id, 1nat,
{
    match type_id {
        TypeIDASTNode::Generic { id, generics } => {
            proof { assert(decreases_to!(*type_id => *generics)); }
            if str_eq(id.as_str(), "Option") {
                proof {
                    lemma_type_ids_view(generics@);
                    lemma_dart_types_supported(type_ids_view(generics@));
                    assert(decreases_to!(*generics => generics[0]));
                    assert(type_ids_view(generics@)[0] == generics@[0]@);
                }
                let first = generate_emplace_type_id(&generics[0]);
                let mut res = String::from_str("EmplaceOption<");
                res.append(first.as_str());
                res.append(">");
                res
            } else if str_eq(id.as_str(), "Vec") {
                let inner = emplace_generics_text(generics);
                let mut res = String::from_str("EmplaceList<");
                res.append(inner.as_str());
                res.append(">");
                res
            } else {
                let inner = emplace_generics_text(generics);
                let mut res = cat(id.as_str(), "<");
                res.append(inner.as_str());
                res.append(">");
                res
            }
        },
        _ => generate_copy_type_id(type_id),
    }
}

/// Whether a literal can be written as a Dart constant of the given type:
/// strings and booleans always; integers for integer types and the address
/// types; numbers for number types.
pub open spec fn dart_const_supported(type_id: TypeId, literal: Literal) -> bool {
    match literal {
        Literal::IntLiteral(_) => match type_id {
            TypeId::Other { id } => id == "GroupAddress"@ || id == "CommandsBufferAddress"@,
            TypeId::Integer { .. } => true,
            _ => false,
        },
        Literal::NumberLiteral(_) => type_id is Number,
        _ => true,
    }
}

/// A literal as a Dart constant: a whole number keeps a `.0`.
pub open spec fn dart_const_text(literal: Literal) -> Seq<char> {
    match literal {
        Literal::StringLiteral(value) => quoted(value@),
        Literal::IntLiteral(value) => int_text(value as int),
        Literal::NumberLiteral(value) => {
            if value.spec_is_integral() { value.spec_text() + ".0"@ } else { value.spec_text() }
        },
        Literal::BoolLiteral(value) => bool_text(value),
    }
}

/// The constant `node` written in Dart as a value of type `type_id`.
pub fn generate_const_value(node: &ConstValueASTNode, type_id: &TypeIDASTNode) -> (res: String)
    requires
        dart_const_supported(type_id@, node@.literal),
    ensures
        res@ == dart_const_text(node@.literal),
{
    match node {
        ConstValueASTNode::Literal { literal, .. } => match literal {
            Literal::StringLiteral(value) => quote(value.as_str()),
            Literal::IntLiteral(value) => int_to_text(*value),
            Literal::NumberLiteral(value) => {
                let v = value.text();
                if value.is_integral() { cat(v.as_str(), ".0") } else { v }
            },
            Literal::BoolLiteral(value) => bool_to_text(*value),
        },
    }
}

/// Whether the type has a default value here: the arguments of a generic
/// type other than `Option` need names.
pub open spec fn dart_default_supported(t: TypeId) -> bool {
    match t {
        TypeId::Generic { id, generics } => id == "Option"@ || dart_types_supported(generics),
        _ => true,
    }
}

/// The default value of a type for plain copies, as a constant expression.
pub open spec fn dart_default_copy_text(t: TypeId) -> Seq<char> {
    match t {
        TypeId::Integer { .. } => "0"@,
        TypeId::Number { .. } => "0.0"@,
        TypeId::Bool { .. } => "false"@,
        TypeId::Char { .. } => "0"@,
        TypeId::Other { id } => {
            if id == "String"@ {
                "\"\""@
            } else if id == "Vec"@ {
                "[]"@
            } else {
                "const "@ + id + ".createDefault()"@
            }
        },
        TypeId::Generic { id, generics } => {
            if id == "Option"@ {
                "null"@
            } else if id == "Vec"@ {
                "const <"@ + dart_copy_types_text(generics) + ">[]"@
            } else {
                "const "@ + id + "<"@ + dart_copy_types_text(generics) + ">.createDefault()"@
            }
        },
    }
}

/// The default value of a type for values kept in a pool.
pub open spec fn dart_default_emplace_text(t: TypeId) -> Seq<char> {
    match t {
        TypeId::Integer { .. } => "0"@,
        TypeId::Number { .. } => "0.0"@,
        TypeId::Bool { .. } => "false"@,
        TypeId::Char { .. } => "0"@,
        TypeId::Other { id } => {
            if id == "String"@ {
                "\"\""@
            } else if id == "Vec"@ {
                "[]"@
            } else {
                id + ".createDefault()"@
            }
        },
        TypeId::Generic { id, generics } => {
            if id == "Option"@ {
                "null"@
            } else if id == "Vec"@ {
                "<"@ + dart_copy_types_text(generics) + ">[]"@
            } else {
                id + "<"@ + dart_copy_types_text(generics) + ">.createDefault()"@
            }
        },
    }
}

/// The default value of a type for plain copies.
pub fn generate_default_copy_const_value(type_id: &TypeIDASTNode) -> (res: String)
    requires
        dart_default_supported(type_id@),
    ensures
        res@ == dart_default_copy_text(type_id@),
{
    match type_id {
        TypeIDASTNode::Integer { .. } => String::from_str("0"),
        TypeIDASTNode::Number { .. } => String::from_str("0.0"),
        TypeIDASTNode::Bool { .. } => String::from_str("false"),
        TypeIDASTNode::Char { .. } => String::from_str("0"),
        TypeIDASTNode::Other { id } => {
            if str_eq(id.as_str(), "String") {
                String::from_str("\"\"")
            } else if str_eq(id.as_str(), "Vec") {
                String::from_str("[]")
            } else {
                let mut res = cat("const ", id.as_str());
                res.append(".createDefault()");
                res
            }
        },
        TypeIDASTNode::Generic { id, generics } => {
            if str_eq(id.as_str(), "Option") {
                String::from_str("null")
            } else if str_eq(id.as_str(), "Vec") {
                let inner = copy_generics_text(generics);
                let mut res = String::from_str("const <");
                res.append(inner.as_str());
                res.append(">[]");
                res
            } else {
                let inner = copy_generics_text(generics);
                let mut res = cat("const ", id.as_str());
                res.append("<");
                res.append(inner.as_str());
                res.append(">.createDefault()");
                res
            }
        },
    }
}

/// The default value of a type for values kept in a pool.
pub fn generate_default_emplace_const_value(type_id: &TypeIDASTNode) -> (res: String)
    requires
        dart_default_supported(type_id@),
    ensures
        res@ == dart_default_emplace_text(type_id@),
{
    match type_id {
        TypeIDASTNode::Integer { .. } => String::from_str("0"),
        TypeIDASTNode::Number { .. } => String::from_str("0.0"),
        TypeIDASTNode::Bool { .. } => String::from_str("false"),
        TypeIDASTNode::Char { .. } => String::from_str("0"),
        TypeIDASTNode::Other { id } => {
            if str_eq(id.as_str(), "String") {
                String::from_str("\"\"")
            } else if str_eq(id.as_str(), "Vec") {
                String::from_str("[]")
            } else {
                cat(id.as_str(), ".createDefault()")
            }
        },
        TypeIDASTNode::Generic { id, generics } => {
            if str_eq(id.as_str(), "Option") {
                String::from_str("null")
            } else if str_eq(id.as_str(), "Vec") {
                let inner = copy_generics_text(generics);
                let mut res = String::from_str("<");
                res.append(inner.as_str());
                res.append(">[]");
                res
            } else {
                let inner = copy_generics_text(generics);
                let mut res = cat(id.as_str(), "<");
                res.append(inner.as_str());
                res.append(">.createDefault()");
                res
            }
        },
    }
}


/// A piece of Dart source, as the Dart generators build it.
pub enum DartIR {
    Id(String),
    CopyTypeId(TypeIDASTNode),
    EmplaceTypeId(TypeIDASTNode),
    Class(ClassDartIR),
    DefaultConstructor(DefaultConstructorIR),
    NamedConstructor(NamedConstructorIR),
    ShortFunc(ShortFuncIR),
    Call(CallIR),
    List(ListIR),
    VarDeclaration(VarDeclarationIR),
    Assign(AssignIR),
    DefaultCopyValueForTypeID(TypeIDASTNode),
    DefaultEmplaceValueForTypeID(TypeIDASTNode),
    ArgumentDeclaration(ArgumentDeclarationIR),
}

/// An argument: `required T this.id = value`, each part optional.
pub struct ArgumentDeclarationIR {
    pub id: String,
    pub is_required: bool,
    pub is_this: bool,
    pub type_id: Option<Box<DartIR>>,
    pub assign: Option<Box<DartIR>>,
}

/// `left = right`.
pub struct AssignIR {
    pub left: Box<DartIR>,
    pub right: Box<DartIR>,
}

/// A field: `final T id;` on a line of its own.
pub struct VarDeclarationIR {
    pub id: String,
    pub type_id: Box<DartIR>,
    pub is_final: bool,
    pub assign: Option<Box<DartIR>>,
}

/// Items with a separator, on one line or one per line.
pub struct ListIR {
    pub items: Vec<DartIR>,
    pub separator: &'static str,
    pub new_line: bool,
}

/// A call through a dotted path, with its arguments.
pub struct CallIR {
    pub path: Vec<DartIR>,
    pub is_const: bool,
    pub args: Option<Box<DartIR>>,
}

/// A function with an expression body: `T id(args) => body;`.
pub struct ShortFuncIR {
    pub id: String,
    pub args: Option<Box<DartIR>>,
    pub return_type_id: Option<Box<DartIR>>,
    pub is_override: bool,
    pub body: Box<DartIR>,
}

/// A class with the interfaces it implements and its members.
pub struct ClassDartIR {
    pub id: String,
    pub body: Vec<DartIR>,
    pub implements: Vec<DartIR>,
}

/// The default constructor, with its named fields.
pub struct DefaultConstructorIR {
    pub id: String,
    pub is_const: bool,
    pub fields: Option<Box<DartIR>>,
}

/// A named constructor with an initializer list.
pub struct NamedConstructorIR {
    pub id: String,
    pub name: String,
    pub is_const: bool,
    pub fields: Option<Box<DartIR>>,
    pub assigns: Vec<DartIR>,
}

/// The kinds of neighbouring tokens that a blank line separates, in one
/// direction.
pub open spec fn dart_gap_pair(a: DartIR, b: DartIR) -> bool {
    ||| a is Class && b is Class
    ||| a is DefaultConstructor && b is ShortFunc
    ||| a is DefaultConstructor && b is NamedConstructor
    ||| a is NamedConstructor && b is ShortFunc
    ||| a is ShortFunc && b is ShortFunc
    ||| a is DefaultConstructor && b is VarDeclaration
    ||| a is NamedConstructor && b is VarDeclaration
    ||| a is ShortFunc && b is VarDeclaration
}

/// Whether a blank line stands between two neighbouring tokens.
pub open spec fn dart_gap(a: DartIR, b: DartIR) -> bool {
    dart_gap_pair(a, b) || dart_gap_pair(b, a)
}

/// What writing one token does to a writer.
pub open spec fn dt_write(s: WriterState, t: DartIR) -> WriterState
    decreases t,
{
    match t {
        DartIR::Id(id) => s.wrote(id@),
        DartIR::CopyTypeId(type_id) => s.wrote(dart_copy_type_text(type_id@)),
        DartIR::EmplaceTypeId(type_id) => s.wrote(dart_emplace_type_text(type_id@)),
        DartIR::Class(ir) => dt_class(s, ir),
        DartIR::DefaultConstructor(ir) => dt_default_constructor(s, ir),
        DartIR::NamedConstructor(ir) => dt_named_constructor(s, ir),
        DartIR::ShortFunc(ir) => dt_short_func(s, ir),
        DartIR::Call(ir) => dt_call(s, ir),
        DartIR::List(ir) => dt_list(s, ir),
        DartIR::VarDeclaration(ir) => dt_var_declaration(s, ir),
        DartIR::Assign(ir) => dt_assign(s, ir),
        DartIR::DefaultCopyValueForTypeID(type_id) => s.wrote(dart_default_copy_text(type_id@)),
        DartIR::DefaultEmplaceValueForTypeID(type_id) => s.wrote(dart_default_emplace_text(type_id@)),
        DartIR::ArgumentDeclaration(ir) => dt_argument_declaration(s, ir),
    }
}

pub open spec fn dt_argument_declaration(s: WriterState, ir: ArgumentDeclarationIR) -> WriterState
    decreases ir,
{
    let s1 = if ir.is_required { s.wrote("required "@) } else { s };
    let s2 = match ir.type_id {
        Some(b) => dt_write(s1, *b).wrote(" "@),
        None => s1,
    };
    let s3 = if ir.is_this { s2.wrote("this."@) } else { s2 };
    let s4 = s3.wrote(ir.id@);
    match ir.assign {
        Some(b) => dt_write(s4.wrote(" = "@), *b),
        None => s4,
    }
}

pub open spec fn dt_assign(s: WriterState, ir: AssignIR) -> WriterState
    decreases ir,
{
    dt_write(dt_write(s, *ir.left).wrote(" = "@), *ir.right)
}

pub open spec fn dt_var_declaration(s: WriterState, ir: VarDeclarationIR) -> WriterState
    decreases ir,
{
    let s1 = s.tabbed();
    let s2 = if ir.is_final { s1.wrote("final "@) } else { s1 };
    dt_write(s2, *ir.type_id).wrote(" "@).wrote(ir.id@).wrote(";"@).new_lined()
}

pub open spec fn dt_list(s: WriterState, ir: ListIR) -> WriterState
    decreases ir,
{
    let open = ir.new_line && ir.items@.len() > 0;
    let s1 = if open { s.new_lined().pushed() } else { s };
    let s2 = dt_list_items(s1, ir.items@, ir.separator@, ir.new_line);
    if open { s2.wrote(ir.separator@).new_lined().popped().tabbed() } else { s2 }
}

/// The items of a list: one per indented line, each but the last followed
/// by the separator, where the list is one per line; run together otherwise.
pub open spec fn dt_list_items(s: WriterState, ts: Seq<DartIR>, sep: Seq<char>, new_line: bool) -> WriterState
    decreases ts,
{
    if ts.len() == 0 {
        s
    } else {
        let s1 = dt_list_items(s, ts.drop_last(), sep, new_line);
        let s2 = if ts.len() > 1 && new_line { s1.wrote(sep).new_lined() } else { s1 };
        let s3 = if new_line { s2.tabbed() } else { s2 };
        dt_write(s3, ts.last())
    }
}

pub open spec fn dt_call(s: WriterState, ir: CallIR) -> WriterState
    decreases ir,
{
    let s1 = if ir.is_const { s.wrote("const "@) } else { s };
    let s2 = dt_write_sep(s1, ir.path@, "."@);
    match ir.args {
        Some(b) => dt_write(s2.wrote("("@), *b).wrote(")"@),
        None => s2.wrote("()"@),
    }
}

pub open spec fn dt_short_func(s: WriterState, ir: ShortFuncIR) -> WriterState
    decreases ir,
{
    let s1 = s.tabbed();
    let s2 = if ir.is_override { s1.wrote("@override"@).new_lined().tabbed() } else { s1 };
    let s3 = match ir.return_type_id {
        Some(b) => dt_write(s2, *b).wrote(" "@),
        None => s2.wrote("void "@),
    };
    let s4 = s3.wrote(ir.id@);
    let s5 = match ir.args {
        Some(b) => dt_write(s4.wrote("("@), *b).wrote(")"@),
        None => s4.wrote("()"@),
    };
    dt_write(s5.wrote(" => "@), *ir.body).wrote(";"@).new_lined()
}

pub open spec fn dt_default_constructor(s: WriterState, ir: DefaultConstructorIR) -> WriterState
    decreases ir,
{
    let s1 = s.tabbed();
    let s2 = if ir.is_const { s1.wrote("const "@) } else { s1 };
    let s3 = match ir.fields {
        Some(b) => dt_write(s2.wrote(ir.id@ + "({"@), *b).wrote("});"@),
        None => s2.wrote(ir.id@ + "();"@),
    };
    s3.new_lined()
}

pub open spec fn dt_named_constructor(s: WriterState, ir: NamedConstructorIR) -> WriterState
    decreases ir,
{
    let s1 = s.tabbed();
    let s2 = if ir.is_const { s1.wrote("const "@) } else { s1 };
    let s3 = s2.wrote(ir.id@ + "."@ + ir.name@ + "()"@);
    let s4 = if ir.assigns@.len() > 0 {
        dt_initializers(s3.new_lined().pushed().pushed().tabbed().wrote(": "@), ir.assigns@).wrote(";"@).popped().popped()
    } else {
        s3.wrote(";"@)
    };
    s4.new_lined()
}

/// The initializers of a named constructor, continued on indented lines.
pub open spec fn dt_initializers(s: WriterState, ts: Seq<DartIR>) -> WriterState
    decreases ts,
{
    if ts.len() == 0 {
        s
    } else {
        let s1 = dt_initializers(s, ts.drop_last());
        let s2 = if ts.len() > 1 { s1.wrote(","@).new_lined().tabbed().wrote("  "@) } else { s1 };
        dt_write(s2, ts.last())
    }
}

pub open spec fn dt_class(s: WriterState, ir: ClassDartIR) -> WriterState
    decreases ir,
{
    let s1 = s.tabbed().wrote("class "@ + ir.id@);
    let s2 = if ir.implements@.len() > 0 { dt_write_sep(s1.wrote(" implements "@), ir.implements@, ", "@) } else { s1 };
    dt_write_all(s2.wrote(" {"@).new_lined().pushed(), ir.body@).popped().wrote_line("}"@)
}

/// Tokens one after another, with a blank line between neighbours of the
/// kinds that `dart_gap` names.
pub open spec fn dt_write_all(s: WriterState, ts: Seq<DartIR>) -> WriterState
    decreases ts,
{
    if ts.len() == 0 {
        s
    } else {
        let s1 = dt_write_all(s, ts.drop_last());
        let s2 = if ts.len() > 1 && dart_gap(ts[ts.len() - 2], ts.last()) { s1.new_lined() } else { s1 };
        dt_write(s2, ts.last())
    }
}

/// Tokens with a separator between neighbours.
pub open spec fn dt_write_sep(s: WriterState, ts: Seq<DartIR>, sep: Seq<char>) -> WriterState
    decreases ts,
{
    if ts.len() == 0 {
        s
    } else {
        let s1 = dt_write_sep(s, ts.drop_last(), sep);
        let s2 = if ts.len() > 1 { s1.wrote(sep) } else { s1 };
        dt_write(s2, ts.last())
    }
}

/// Whether a token can be written by a writer with `room` more indentation
/// levels to spare: its types and defaults have a Dart form and its blocks
/// nest no deeper than `room`.
pub open spec fn dt_fits(t: DartIR, room: nat) -> bool
    decreases t,
{
    match t {
        DartIR::Id(_) => true,
        DartIR::CopyTypeId(type_id) => dart_type_supported(type_id@),
        DartIR::EmplaceTypeId(type_id) => dart_type_supported(type_id@),
        DartIR::Class(ir) => {
            dt_fits_all(ir.implements@, room) && room >= 1 && dt_fits_all(ir.body@, (room - 1) as nat)
        },
        DartIR::DefaultConstructor(ir) => (ir.fields matches Some(b) ==> dt_fits(*b, room)),
        DartIR::NamedConstructor(ir) => (ir.assigns@.len() > 0 ==> room >= 2 && dt_fits_all(ir.assigns@, (room - 2) as nat)),
        DartIR::ShortFunc(ir) => {
            &&& (ir.args matches Some(b) ==> dt_fits(*b, room))
            &&& (ir.return_type_id matches Some(b) ==> dt_fits(*b, room))
            &&& dt_fits(*ir.body, room)
        },
        DartIR::Call(ir) => dt_fits_all(ir.path@, room) && (ir.args matches Some(b) ==> dt_fits(*b, room)),
        DartIR::List(ir) => {
            if ir.new_line && ir.items@.len() > 0 {
                room >= 1 && dt_fits_all(ir.items@, (room - 1) as nat)
            } else {
                dt_fits_all(ir.items@, room)
            }
        },
        DartIR::VarDeclaration(ir) => dt_fits(*ir.type_id, room),
        DartIR::Assign(ir) => dt_fits(*ir.left, room) && dt_fits(*ir.right, room),
        DartIR::DefaultCopyValueForTypeID(type_id) => dart_default_supported(type_id@),
        DartIR::DefaultEmplaceValueForTypeID(type_id) => dart_default_supported(type_id@),
        DartIR::ArgumentDeclaration(ir) => {
            (ir.type_id matches Some(b) ==> dt_fits(*b, room)) && (ir.assign matches Some(b) ==> dt_fits(*b, room))
        },
    }
}

/// Whether every token fits (see `dt_fits`).
pub open spec fn dt_fits_all(ts: Seq<DartIR>, room: nat) -> bool
    decreases ts,
{
    forall|i: int| 0 <= i < ts.len() ==> dt_fits(#[trigger] ts[i], room)
}

/// The room a writer has for deeper indentation.
pub open spec fn dt_room(s: WriterState) -> nat {
    if s.level <= usize::MAX { (usize::MAX - s.level) as nat } else { 0 }
}

/// A writer with two spaces per level, as the Dart output uses.
pub open spec fn dart_writer_state() -> WriterState {
    WriterState { text: Seq::empty(), tab: crate::text::repeat(seq![' '], 2), level: 0, contains_tabs: false }
}


/// Whether a blank line separates two tokens does not depend on their
/// order.
pub proof fn lemma_dart_gap_symmetric(a: DartIR, b: DartIR)
    ensures
        dart_gap(a, b) == dart_gap(b, a),
{
}

/// Writing a token keeps all that was written before: the earlier text is
/// a prefix of the later one, and the unit of indentation is unchanged.
pub proof fn lemma_dart_write_keeps_text(s: WriterState, t: DartIR)
    ensures
        s.text.is_prefix_of(dt_write(s, t).text),
        dt_write(s, t).tab == s.tab,
{
    lemma_write_grows(s, t);
    assert(s.text =~= dt_write(s, t).text.subrange(0, s.text.len() as int));
}

proof fn lemma_write_grows(s: WriterState, t: DartIR)
    ensures
        grows(s, dt_write(s, t)),
    decreases t,
{
    match t {
        DartIR::Class(ir) => lemma_class_grows(s, ir),
        DartIR::DefaultConstructor(ir) => lemma_default_constructor_grows(s, ir),
        DartIR::NamedConstructor(ir) => lemma_named_constructor_grows(s, ir),
        DartIR::ShortFunc(ir) => lemma_short_func_grows(s, ir),
        DartIR::Call(ir) => lemma_call_grows(s, ir),
        DartIR::List(ir) => lemma_list_grows(s, ir),
        DartIR::VarDeclaration(ir) => lemma_var_declaration_grows(s, ir),
        DartIR::Assign(ir) => lemma_assign_grows(s, ir),
        DartIR::ArgumentDeclaration(ir) => lemma_argument_grows(s, ir),
        _ => {},
    }
}

proof fn lemma_argument_grows(s: WriterState, ir: ArgumentDeclarationIR)
    ensures
        grows(s, dt_argument_declaration(s, ir)),
    decreases ir,
{
    let s1 = if ir.is_required { s.wrote("required "@) } else { s };
    match ir.type_id {
        Some(b) => lemma_write_grows(s1, *b),
        None => {},
    }
    let s2 = match ir.type_id {
        Some(b) => dt_write(s1, *b).wrote(" "@),
        None => s1,
    };
    let s3 = if ir.is_this { s2.wrote("this."@) } else { s2 };
    let s4 = s3.wrote(ir.id@);
    match ir.assign {
        Some(b) => lemma_write_grows(s4.wrote(" = "@), *b),
        None => {},
    }
}

proof fn lemma_assign_grows(s: WriterState, ir: AssignIR)
    ensures
        grows(s, dt_assign(s, ir)),
    decreases ir,
{
    lemma_write_grows(s, *ir.left);
    lemma_write_grows(dt_write(s, *ir.left).wrote(" = "@), *ir.right);
}

proof fn lemma_var_declaration_grows(s: WriterState, ir: VarDeclarationIR)
    ensures
        grows(s, dt_var_declaration(s, ir)),
    decreases ir,
{
    let s1 = s.tabbed();
    let s2 = if ir.is_final { s1.wrote("final "@) } else { s1 };
    lemma_write_grows(s2, *ir.type_id);
}

proof fn lemma_list_items_grows(s: WriterState, ts: Seq<DartIR>, sep: Seq<char>, new_line: bool)
    ensures
        grows(s, dt_list_items(s, ts, sep, new_line)),
    decreases ts,
{
    if ts.len() > 0 {
        lemma_list_items_grows(s, ts.drop_last(), sep, new_line);
        let s1 = dt_list_items(s, ts.drop_last(), sep, new_line);
        let s2 = if ts.len() > 1 && new_line { s1.wrote(sep).new_lined() } else { s1 };
        let s3 = if new_line { s2.tabbed() } else { s2 };
        lemma_write_grows(s3, ts.last());
    }
}

proof fn lemma_list_grows(s: WriterState, ir: ListIR)
    ensures
        grows(s, dt_list(s, ir)),
    decreases ir,
{
    let open = ir.new_line && ir.items@.len() > 0;
    let s1 = if open { s.new_lined().pushed() } else { s };
    lemma_list_items_grows(s1, ir.items@, ir.separator@, ir.new_line);
}

proof fn lemma_sep_grows(s: WriterState, ts: Seq<DartIR>, sep: Seq<char>)
    ensures
        grows(s, dt_write_sep(s, ts, sep)),
    decreases ts,
{
    if ts.len() > 0 {
        lemma_sep_grows(s, ts.drop_last(), sep);
        let s1 = dt_write_sep(s, ts.drop_last(), sep);
        let s2 = if ts.len() > 1 { s1.wrote(sep) } else { s1 };
        lemma_write_grows(s2, ts.last());
    }
}

proof fn lemma_all_grows(s: WriterState, ts: Seq<DartIR>)
    ensures
        grows(s, dt_write_all(s, ts)),
    decreases ts,
{
    if ts.len() > 0 {
        lemma_all_grows(s, ts.drop_last());
        let s1 = dt_write_all(s, ts.drop_last());
        let s2 = if ts.len() > 1 && dart_gap(ts[ts.len() - 2], ts.last()) { s1.new_lined() } else { s1 };
        lemma_write_grows(s2, ts.last());
    }
}

proof fn lemma_call_grows(s: WriterState, ir: CallIR)
    ensures
        grows(s, dt_call(s, ir)),
    decreases ir,
{
    let s1 = if ir.is_const { s.wrote("const "@) } else { s };
    lemma_sep_grows(s1, ir.path@, "."@);
    let s2 = dt_write_sep(s1, ir.path@, "."@);
    match ir.args {
        Some(b) => lemma_write_grows(s2.wrote("("@), *b),
        None => {},
    }
}

proof fn lemma_short_func_grows(s: WriterState, ir: ShortFuncIR)
    ensures
        grows(s, dt_short_func(s, ir)),
    decreases ir,
{
    let s1 = s.tabbed();
    let s2 = if ir.is_override { s1.wrote("@override"@).new_lined().tabbed() } else { s1 };
    match ir.return_type_id {
        Some(b) => lemma_write_grows(s2, *b),
        None => {},
    }
    let s3 = match ir.return_type_id {
        Some(b) => dt_write(s2, *b).wrote(" "@),
        None => s2.wrote("void "@),
    };
    let s4 = s3.wrote(ir.id@);
    match ir.args {
        Some(b) => lemma_write_grows(s4.wrote("("@), *b),
        None => {},
    }
    let s5 = match ir.args {
        Some(b) => dt_write(s4.wrote("("@), *b).wrote(")"@),
        None => s4.wrote("()"@),
    };
    lemma_write_grows(s5.wrote(" => "@), *ir.body);
}

proof fn lemma_default_constructor_grows(s: WriterState, ir: DefaultConstructorIR)
    ensures
        grows(s, dt_default_constructor(s, ir)),
    decreases ir,
{
    let s1 = s.tabbed();
    let s2 = if ir.is_const { s1.wrote("const "@) } else { s1 };
    match ir.fields {
        Some(b) => lemma_write_grows(s2.wrote(ir.id@ + "({"@), *b),
        None => {},
    }
}

proof fn lemma_initializers_grows(s: WriterState, ts: Seq<DartIR>)
    ensures
        grows(s, dt_initializers(s, ts)),
    decreases ts,
{
    if ts.len() > 0 {
        lemma_initializers_grows(s, ts.drop_last());
        let s1 = dt_initializers(s, ts.drop_last());
        let s2 = if ts.len() > 1 { s1.wrote(","@).new_lined().tabbed().wrote("  "@) } else { s1 };
        lemma_write_grows(s2, ts.last());
    }
}

proof fn lemma_named_constructor_grows(s: WriterState, ir: NamedConstructorIR)
    ensures
        grows(s, dt_named_constructor(s, ir)),
    decreases ir,
{
    let s1 = s.tabbed();
    let s2 = if ir.is_const { s1.wrote("const "@) } else { s1 };
    let s3 = s2.wrote(ir.id@ + "."@ + ir.name@ + "()"@);
    if ir.assigns@.len() > 0 {
        lemma_initializers_grows(s3.new_lined().pushed().pushed().tabbed().wrote(": "@), ir.assigns@);
    }
}

proof fn lemma_class_grows(s: WriterState, ir: ClassDartIR)
    ensures
        grows(s, dt_class(s, ir)),
    decreases ir,
{
    let s1 = s.tabbed().wrote("class "@ + ir.id@);
    if ir.implements@.len() > 0 {
        lemma_sep_grows(s1.wrote(" implements "@), ir.implements@, ", "@);
    }
    let s2 = if ir.implements@.len() > 0 { dt_write_sep(s1.wrote(" implements "@), ir.implements@, ", "@) } else { s1 };
    lemma_all_grows(s2.wrote(" {"@).new_lined().pushed(), ir.body@);
}


/// Whether a blank line stands between two neighbouring tokens.
pub fn needs_gap(a: &DartIR, b: &DartIR) -> (res: bool)
    ensures
        res == dart_gap(*a, *b),
{
    gap_pair(a, b) || gap_pair(b, a)
}

fn gap_pair(a: &DartIR, b: &DartIR) -> (res: bool)
    ensures
        res == dart_gap_pair(*a, *b),
{
    match a {
        DartIR::Class(_) => matches!(b, DartIR::Class(_)),
        DartIR::DefaultConstructor(_) => matches!(b, DartIR::ShortFunc(_)) || matches!(b, DartIR::NamedConstructor(_))
            || matches!(b, DartIR::VarDeclaration(_)),
        DartIR::NamedConstructor(_) => matches!(b, DartIR::ShortFunc(_)) || matches!(b, DartIR::VarDeclaration(_)),
        DartIR::ShortFunc(_) => matches!(b, DartIR::ShortFunc(_)) || matches!(b, DartIR::VarDeclaration(_)),
        _ => false,
    }
}

/// The tokens written out by a fresh writer with two spaces per level, as
/// Dart source text.
pub fn stringify_ir(tokens: &[DartIR]) -> (res: String)
    requires
        dt_fits_all(tokens@, usize::MAX as nat),
    ensures
        res@ == dt_write_all(dart_writer_state(), tokens@).text,
{
    let mut writer = Writer::new(2);
    write_tokens(&mut writer, tokens);
    copy_str(writer.show())
}

/// Writes the tokens with `separator` between neighbours.
pub fn write_tokens_separated(writer: &mut Writer, tokens: &[DartIR], separator: &'static str)
    requires
        dt_fits_all(tokens@, dt_room(old(writer)@)),
    ensures
        final(writer)@ == dt_write_sep(old(writer)@, tokens@, separator@),
        final(writer)@.level == old(writer)@.level,
        final(writer)@.tab == old(writer)@.tab,
    decreases tokens@, 0nat,
{
    let ghost s0 = writer@;
    let mut i: usize = 0;
    while i < tokens.len()
        invariant
            i <= tokens@.len(),
            dt_fits_all(tokens@, dt_room(s0)),
            writer@ == dt_write_sep(s0, tokens@.take(i as int), separator@),
            writer@.level == s0.level,
            writer@.tab == s0.tab,
        decreases tokens@.len() - i,
    {
        proof {
            assert(decreases_to!(tokens@ => tokens@[i as int]));
            assert(tokens@.take(i + 1).drop_last() =~= tokens@.take(i as int));
            assert(dt_fits(tokens@[i as int], dt_room(s0)));
        }
        if i > 0 {
            writer.write(separator);
        }
        write_token(writer, &tokens[i]);
        i = i + 1;
    }
    assert(tokens@.take(tokens@.len() as int) =~= tokens@);
}

/// Writes the tokens one after another, with a blank line between
/// neighbours of the kinds that `dart_gap` names.
pub fn write_tokens(writer: &mut Writer, tokens: &[DartIR])
    requires
        dt_fits_all(tokens@, dt_room(old(writer)@)),
    ensures
        final(writer)@ == dt_write_all(old(writer)@, tokens@),
        final(writer)@.level == old(writer)@.level,
        final(writer)@.tab == old(writer)@.tab,
    decreases tokens@, 0nat,
{
    let ghost s0 = writer@;
    let mut i: usize = 0;
    while i < tokens.len()
        invariant
            i <= tokens@.len(),
            dt_fits_all(tokens@, dt_room(s0)),
            writer@ == dt_write_all(s0, tokens@.take(i as int)),
            writer@.level == s0.level,
            writer@.tab == s0.tab,
        decreases tokens@.len() - i,
    {
        proof {
            assert(decreases_to!(tokens@ => tokens@[i as int]));
            assert(tokens@.take(i + 1).drop_last() =~= tokens@.take(i as int));
            assert(dt_fits(tokens@[i as int], dt_room(s0)));
        }
        if i > 0 && needs_gap(&tokens[i - 1], &tokens[i]) {
            writer.new_line();
        }
        write_token(writer, &tokens[i]);
        i = i + 1;
    }
    assert(tokens@.take(tokens@.len() as int) =~= tokens@);
}

/// Writes an argument: `required T this.id = value`, each part where the
/// declaration asks for it.
pub fn write_argument_declaration(writer: &mut Writer, ir: &ArgumentDeclarationIR)
    requires
        dt_fits(DartIR::ArgumentDeclaration(*ir), dt_room(old(writer)@)),
    ensures
        final(writer)@ == dt_argument_declaration(old(writer)@, *ir),
        final(writer)@.level == old(writer)@.level,
        final(writer)@.tab == old(writer)@.tab,
    decreases ir, 1nat,
{
    if ir.is_required {
        writer.write("required ");
    }
    if let Some(type_id) = &ir.type_id {
        write_token(writer, type_id);
        writer.write(" ");
    }
    if ir.is_this {
        writer.write("this.");
    }
    writer.write(ir.id.as_str());
    if let Some(assign) = &ir.assign {
        writer.write(" = ");
        write_token(writer, assign);
    }
}

/// Writes the default value of a type for plain copies.
pub fn write_default_copy_value_for_type_id(writer: &mut Writer, type_id: &TypeIDASTNode)
    requires
        dart_default_supported(type_id@),
    ensures
        final(writer)@ == old(writer)@.wrote(dart_default_copy_text(type_id@)),
{
    writer.write(generate_default_copy_const_value(type_id).as_str());
}

/// Writes the default value of a type for values kept in a pool.
pub fn write_default_emplace_value_for_type_id(writer: &mut Writer, type_id: &TypeIDASTNode)
    requires
        dart_default_supported(type_id@),
    ensures
        final(writer)@ == old(writer)@.wrote(dart_default_emplace_text(type_id@)),
{
    writer.write(generate_default_emplace_const_value(type_id).as_str());
}

/// Writes `left = right`.
pub fn write_asign(writer: &mut Writer, ir: &AssignIR)
    requires
        dt_fits(DartIR::Assign(*ir), dt_room(old(writer)@)),
    ensures
        final(writer)@ == dt_assign(old(writer)@, *ir),
        final(writer)@.level == old(writer)@.level,
        final(writer)@.tab == old(writer)@.tab,
    decreases ir, 1nat,
{
    write_token(writer, &ir.left);
    writer.write(" = ");
    write_token(writer, &ir.right);
}

/// Writes a field on a line of its own: `final T id;`.
pub fn write_var_declaration(writer: &mut Writer, ir: &VarDeclarationIR)
    requires
        dt_fits(DartIR::VarDeclaration(*ir), dt_room(old(writer)@)),
    ensures
        final(writer)@ == dt_var_declaration(old(writer)@, *ir),
        final(writer)@.level == old(writer)@.level,
        final(writer)@.tab == old(writer)@.tab,
    decreases ir, 1nat,
{
    writer.write_tabs();
    if ir.is_final {
        writer.write("final ");
    }
    write_token(writer, &ir.type_id);
    writer.write(" ");
    writer.write(ir.id.as_str());
    writer.write(";");
    writer.new_line();
}

/// Writes the items of a list: one per indented line, each followed by the
/// separator, where the list asks for new lines; run together otherwise.
pub fn write_list(writer: &mut Writer, ir: &ListIR)
    requires
        dt_fits(DartIR::List(*ir), dt_room(old(writer)@)),
    ensures
        final(writer)@ == dt_list(old(writer)@, *ir),
        final(writer)@.level == old(writer)@.level,
        final(writer)@.tab == old(writer)@.tab,
    decreases ir, 1nat,
{
    let open = ir.new_line && ir.items.len() > 0;
    if open {
        writer.new_line();
        writer.push_tab();
    }
    let ghost s1 = writer@;
    let items = &ir.items;
    let mut i: usize = 0;
    while i < items.len()
        invariant
            i <= items@.len(),
            *items == ir.items,
            dt_fits_all(items@, dt_room(s1)),
            writer@ == dt_list_items(s1, items@.take(i as int), ir.separator@, ir.new_line),
            writer@.level == s1.level,
            writer@.tab == s1.tab,
        decreases items@.len() - i,
    {
        proof {
            assert(decreases_to!(*ir => ir.items));
            assert(decreases_to!(items@ => items@[i as int]));
            assert(items@.take(i + 1).drop_last() =~= items@.take(i as int));
            assert(dt_fits(items@[i as int], dt_room(s1)));
        }
        if i > 0 && ir.new_line {
            writer.write(ir.separator);
            writer.new_line();
        }
        if ir.new_line {
            writer.write_tabs();
        }
        write_token(writer, &items[i]);
        i = i + 1;
    }
    assert(items@.take(items@.len() as int) =~= items@);
    if open {
        writer.write(ir.separator);
        writer.new_line();
        writer.pop_tab();
        writer.write_tabs();
    }
}

/// Writes a call: `const a.b.c(args)`.
pub fn write_call(writer: &mut Writer, ir: &CallIR)
    requires
        dt_fits(DartIR::Call(*ir), dt_room(old(writer)@)),
    ensures
        final(writer)@ == dt_call(old(writer)@, *ir),
        final(writer)@.level == old(writer)@.level,
        final(writer)@.tab == old(writer)@.tab,
    decreases ir, 1nat,
{
    if ir.is_const {
        writer.write("const ");
    }
    write_tokens_separated(writer, ir.path.as_slice(), ".");
    if let Some(args) = &ir.args {
        writer.write("(");
        write_token(writer, args);
        writer.write(")");
    } else {
        writer.write("()");
    }
}

/// Writes a function with an expression body on a line of its own,
/// `@override` on the line before where it overrides.
pub fn write_short_func(writer: &mut Writer, ir: &ShortFuncIR)
    requires
        dt_fits(DartIR::ShortFunc(*ir), dt_room(old(writer)@)),
    ensures
        final(writer)@ == dt_short_func(old(writer)@, *ir),
        final(writer)@.level == old(writer)@.level,
        final(writer)@.tab == old(writer)@.tab,
    decreases ir, 1nat,
{
    writer.write_tabs();
    if ir.is_override {
        writer.write("@override");
        writer.new_line();
        writer.write_tabs();
    }
    if let Some(return_type_id) = &ir.return_type_id {
        write_token(writer, return_type_id);
        writer.write(" ");
    } else {
        writer.write("void ");
    }
    writer.write(ir.id.as_str());
    if let Some(args) = &ir.args {
        writer.write("(");
        write_token(writer, args);
        writer.write(")");
    } else {
        writer.write("()");
    }
    writer.write(" => ");
    write_token(writer, &ir.body);
    writer.write(";");
    writer.new_line();
}

/// Writes the default constructor on a line of its own: `const Id({fields});`.
pub fn write_default_constructor(writer: &mut Writer, ir: &DefaultConstructorIR)
    requires
        dt_fits(DartIR::DefaultConstructor(*ir), dt_room(old(writer)@)),
    ensures
        final(writer)@ == dt_default_constructor(old(writer)@, *ir),
        final(writer)@.level == old(writer)@.level,
        final(writer)@.tab == old(writer)@.tab,
    decreases ir, 1nat,
{
    writer.write_tabs();
    if ir.is_const {
        writer.write("const ");
    }
    if let Some(fields) = &ir.fields {
        writer.write(cat(ir.id.as_str(), "({").as_str());
        write_token(writer, fields);
        writer.write("});");
    } else {
        writer.write(cat(ir.id.as_str(), "();").as_str());
    }
    writer.new_line();
}

/// Writes a named constructor: `const Id.name()`, then its initializers on
/// lines indented two levels deeper, the first after `: `.
pub fn write_named_constructor(writer: &mut Writer, ir: &NamedConstructorIR)
    requires
        dt_fits(DartIR::NamedConstructor(*ir), dt_room(old(writer)@)),
    ensures
        final(writer)@ == dt_named_constructor(old(writer)@, *ir),
        final(writer)@.level == old(writer)@.level,
        final(writer)@.tab == old(writer)@.tab,
    decreases ir, 1nat,
{
    writer.write_tabs();
    if ir.is_const {
        writer.write("const ");
    }
    let head = cat3(ir.id.as_str(), ".", ir.name.as_str());
    writer.write(cat(head.as_str(), "()").as_str());
    if ir.assigns.len() > 0 {
        writer.new_line();
        writer.push_tab();
        writer.push_tab();
        writer.write_tabs();
        writer.write(": ");
        let ghost s1 = writer@;
        let assigns = &ir.assigns;
        let mut i: usize = 0;
        while i < assigns.len()
            invariant
                i <= assigns@.len(),
                *assigns == ir.assigns,
                dt_fits_all(assigns@, dt_room(s1)),
                writer@ == dt_initializers(s1, assigns@.take(i as int)),
                writer@.level == s1.level,
                writer@.tab == s1.tab,
            decreases assigns@.len() - i,
        {
            proof {
                assert(decreases_to!(*ir => ir.assigns));
                assert(decreases_to!(assigns@ => assigns@[i as int]));
                assert(assigns@.take(i + 1).drop_last() =~= assigns@.take(i as int));
                assert(dt_fits(assigns@[i as int], dt_room(s1)));
            }
            if i > 0 {
                writer.write(",");
                writer.new_line();
                writer.write_tabs();
                writer.write("  ");
            }
            write_token(writer, &assigns[i]);
            i = i + 1;
        }
        assert(assigns@.take(assigns@.len() as int) =~= assigns@);
        writer.write(";");
        writer.pop_tab();
        writer.pop_tab();
    } else {
        writer.write(";");
    }
    writer.new_line();
}

fn write_class(writer: &mut Writer, ir: &ClassDartIR)
    requires
        dt_fits(DartIR::Class(*ir), dt_room(old(writer)@)),
    ensures
        final(writer)@ == dt_class(old(writer)@, *ir),
        final(writer)@.level == old(writer)@.level,
        final(writer)@.tab == old(writer)@.tab,
    decreases ir, 1nat,
{
    writer.write_tabs();
    writer.write(cat("class ", ir.id.as_str()).as_str());
    if ir.implements.len() > 0 {
        writer.write(" implements ");
        write_tokens_separated(writer, ir.implements.as_slice(), ", ");
    }
    writer.write(" {");
    writer.new_line();
    writer.push_tab();
    write_tokens(writer, ir.body.as_slice());
    writer.pop_tab();
    writer.writeln("}");
}

fn write_token(writer: &mut Writer, token: &DartIR)
    requires
        dt_fits(*token, dt_room(old(writer)@)),
    ensures
        final(writer)@ == dt_write(old(writer)@, *token),
        final(writer)@.level == old(writer)@.level,
        final(writer)@.tab == old(writer)@.tab,
    decreases token, 2nat,
{
    match token {
        DartIR::Id(id) => writer.write(id.as_str()),
        DartIR::CopyTypeId(type_id) => writer.write(generate_copy_type_id(type_id).as_str()),
        DartIR::EmplaceTypeId(type_id) => writer.write(generate_emplace_type_id(type_id).as_str()),
        DartIR::Class(ir) => write_class(writer, ir),
        DartIR::DefaultConstructor(ir) => write_default_constructor(writer, ir),
        DartIR::NamedConstructor(ir) => write_named_constructor(writer, ir),
        DartIR::ShortFunc(ir) => write_short_func(writer, ir),
        DartIR::Call(ir) => write_call(writer, ir),
        DartIR::List(ir) => write_list(writer, ir),
        DartIR::VarDeclaration(ir) => write_var_declaration(writer, ir),
        DartIR::Assign(ir) => write_asign(writer, ir),
        DartIR::DefaultCopyValueForTypeID(type_id) => write_default_copy_value_for_type_id(writer, type_id),
        DartIR::DefaultEmplaceValueForTypeID(type_id) => write_default_emplace_value_for_type_id(writer, type_id),
        DartIR::ArgumentDeclaration(ir) => write_argument_declaration(writer, ir),
    }
}

} // verus!
