use vstd::prelude::*;
use crate::ast::{ConstValueASTNode, TypeIDASTNode, TypeId, type_ids_view, lemma_type_ids_view, ConstValue};
use crate::lexer::Literal;
use crate::text::{cat, cat3, copy_str, int_text, int_to_text, bool_text, bool_to_text, quoted, quote, str_eq, to_case, case_converted, TextCase};
use crate::writer::{Writer, WriterState, default_writer_state, grows};

verus! {

/// A piece of Kotlin source: declarations, statements and expressions, as
/// the generators build them before they are written out.
pub enum KotlinIR {
    Object { id: String, is_data_object: bool, body: Vec<KotlinIR>, extends: Vec<KotlinIR> },
    Class {
        id: String,
        is_data_class: bool,
        extends: Vec<KotlinIR>,
        fields: Vec<KotlinIR>,
        body: Vec<KotlinIR>,
    },
    Interface { id: String, is_sealed: bool, body: Vec<KotlinIR> },
    Id(String),
    List { items: Vec<KotlinIR>, separator: &'static str, new_line: bool },
    TopLevelDeclarations { items: Vec<KotlinIR> },
    ValDeclaration {
        id: String,
        is_const: bool,
        is_private: bool,
        is_private_set: bool,
        type_id: Option<Box<KotlinIR>>,
        value: Option<Box<KotlinIR>>,
    },
    VarDeclaration {
        id: String,
        is_const: bool,
        is_private: bool,
        is_private_set: bool,
        type_id: Option<Box<KotlinIR>>,
        value: Option<Box<KotlinIR>>,
    },
    ValGetterDeclaration {
        id: String,
        is_private: bool,
        is_private_set: bool,
        type_id: Option<Box<KotlinIR>>,
        value: Option<Box<KotlinIR>>,
    },
    Declaration { body: Box<KotlinIR>, separator: Option<&'static str> },
    TypeId(TypeIDASTNode),
    ConstValueExpr { type_id: TypeIDASTNode, value: ConstValueASTNode },
    DefaultConstValueExpr(TypeIDASTNode),
    CompanionObject { body: Vec<KotlinIR> },
    Gap,
    Throw { body: Box<KotlinIR> },
    Statements { items: Vec<KotlinIR> },
    ForLoop { item: Option<Box<KotlinIR>>, collection_expr: Box<KotlinIR>, body: Box<KotlinIR> },
    Range { from: Box<KotlinIR>, to: Box<KotlinIR>, inclusive: bool },
    FunInline { id: String, arguments: Vec<KotlinIR>, return_type_id: Box<KotlinIR>, body: Box<KotlinIR> },
    Fun {
        id: String,
        arguments: Option<Box<KotlinIR>>,
        return_type_id: Option<Box<KotlinIR>>,
        is_override: bool,
        body: Option<Box<KotlinIR>>,
    },
    FunctionArgument { id: String, type_id: Box<KotlinIR> },
    ReturnStatement { body: Box<KotlinIR> },
    Call { id: String, arguments: Option<Box<KotlinIR>> },
    TrailingBlock { call: Box<KotlinIR>, arguments: Option<Box<KotlinIR>>, body: Box<KotlinIR> },
    Assign { id: String, value: Box<KotlinIR> },
    When { item: Box<KotlinIR>, body: Box<KotlinIR> },
    WhenCase { item: Box<KotlinIR>, body: Box<KotlinIR> },
}

/// The mathematical value of a piece of Kotlin source: the same tree, with
/// texts as sequences of characters, types and constants by their views.
pub enum KotlinNode {
    Object { id: Seq<char>, is_data_object: bool, body: Seq<KotlinNode>, extends: Seq<KotlinNode> },
    Class {
        id: Seq<char>,
        is_data_class: bool,
        extends: Seq<KotlinNode>,
        fields: Seq<KotlinNode>,
        body: Seq<KotlinNode>,
    },
    Interface { id: Seq<char>, is_sealed: bool, body: Seq<KotlinNode> },
    Id(Seq<char>),
    List { items: Seq<KotlinNode>, separator: Seq<char>, new_line: bool },
    TopLevelDeclarations { items: Seq<KotlinNode> },
    ValDeclaration {
        id: Seq<char>,
        is_const: bool,
        is_private: bool,
        is_private_set: bool,
        type_id: Option<Box<KotlinNode>>,
        value: Option<Box<KotlinNode>>,
    },
    VarDeclaration {
        id: Seq<char>,
        is_const: bool,
        is_private: bool,
        is_private_set: bool,
        type_id: Option<Box<KotlinNode>>,
        value: Option<Box<KotlinNode>>,
    },
    ValGetterDeclaration {
        id: Seq<char>,
        is_private: bool,
        is_private_set: bool,
        type_id: Option<Box<KotlinNode>>,
        value: Option<Box<KotlinNode>>,
    },
    Declaration { body: Box<KotlinNode>, separator: Option<Seq<char>> },
    TypeId(TypeId),
    ConstValueExpr { type_id: TypeId, value: ConstValue },
    DefaultConstValueExpr(TypeId),
    CompanionObject { body: Seq<KotlinNode> },
    Gap,
    Throw { body: Box<KotlinNode> },
    Statements { items: Seq<KotlinNode> },
    ForLoop { item: Option<Box<KotlinNode>>, collection_expr: Box<KotlinNode>, body: Box<KotlinNode> },
    Range { from: Box<KotlinNode>, to: Box<KotlinNode>, inclusive: bool },
    FunInline { id: Seq<char>, arguments: Seq<KotlinNode>, return_type_id: Box<KotlinNode>, body: Box<KotlinNode> },
    Fun {
        id: Seq<char>,
        arguments: Option<Box<KotlinNode>>,
        return_type_id: Option<Box<KotlinNode>>,
        is_override: bool,
        body: Option<Box<KotlinNode>>,
    },
    FunctionArgument { id: Seq<char>, type_id: Box<KotlinNode> },
    ReturnStatement { body: Box<KotlinNode> },
    Call { id: Seq<char>, arguments: Option<Box<KotlinNode>> },
    TrailingBlock { call: Box<KotlinNode>, arguments: Option<Box<KotlinNode>>, body: Box<KotlinNode> },
    Assign { id: Seq<char>, value: Box<KotlinNode> },
    When { item: Box<KotlinNode>, body: Box<KotlinNode> },
    WhenCase { item: Box<KotlinNode>, body: Box<KotlinNode> },
}

/// The view of a token.
pub open spec fn kt_view(t: KotlinIR) -> KotlinNode
    decreases t, 1nat,
{
    match t {
        KotlinIR::Object { id, is_data_object, body, extends } => KotlinNode::Object {
            id: id@,
            is_data_object,
            body: kt_views(body@),
            extends: kt_views(extends@),
        },
        KotlinIR::Class { id, is_data_class, extends, fields, body } => KotlinNode::Class {
            id: id@,
            is_data_class,
            extends: kt_views(extends@),
            fields: kt_views(fields@),
            body: kt_views(body@),
        },
        KotlinIR::Interface { id, is_sealed, body } => KotlinNode::Interface { id: id@, is_sealed, body: kt_views(body@) },
        KotlinIR::Id(id) => KotlinNode::Id(id@),
        KotlinIR::List { items, separator, new_line } => KotlinNode::List { items: kt_views(items@), separator: separator@, new_line },
        KotlinIR::TopLevelDeclarations { items } => KotlinNode::TopLevelDeclarations { items: kt_views(items@) },
        KotlinIR::ValDeclaration { id, is_const, is_private, is_private_set, type_id, value } => KotlinNode::ValDeclaration {
            id: id@,
            is_const,
            is_private,
            is_private_set,
            type_id: match type_id { Some(b) => Some(Box::new(kt_view(*b))), None => None },
            value: match value { Some(b) => Some(Box::new(kt_view(*b))), None => None },
        },
        KotlinIR::VarDeclaration { id, is_const, is_private, is_private_set, type_id, value } => KotlinNode::VarDeclaration {
            id: id@,
            is_const,
            is_private,
            is_private_set,
            type_id: match type_id { Some(b) => Some(Box::new(kt_view(*b))), None => None },
            value: match value { Some(b) => Some(Box::new(kt_view(*b))), None => None },
        },
        KotlinIR::ValGetterDeclaration { id, is_private, is_private_set, type_id, value } => KotlinNode::ValGetterDeclaration {
            id: id@,
            is_private,
            is_private_set,
            type_id: match type_id { Some(b) => Some(Box::new(kt_view(*b))), None => None },
            value: match value { Some(b) => Some(Box::new(kt_view(*b))), None => None },
        },
        KotlinIR::Declaration { body, separator } => KotlinNode::Declaration {
            body: Box::new(kt_view(*body)),
            separator: match separator { Some(s) => Some(s@), None => None },
        },
        KotlinIR::TypeId(type_id) => KotlinNode::TypeId(type_id@),
        KotlinIR::ConstValueExpr { type_id, value } => KotlinNode::ConstValueExpr { type_id: type_id@, value: value@ },
        KotlinIR::DefaultConstValueExpr(type_id) => KotlinNode::DefaultConstValueExpr(type_id@),
        KotlinIR::CompanionObject { body } => KotlinNode::CompanionObject { body: kt_views(body@) },
        KotlinIR::Gap => KotlinNode::Gap,
        KotlinIR::Throw { body } => KotlinNode::Throw { body: Box::new(kt_view(*body)) },
        KotlinIR::Statements { items } => KotlinNode::Statements { items: kt_views(items@) },
        KotlinIR::ForLoop { item, collection_expr, body } => KotlinNode::ForLoop {
            item: match item { Some(b) => Some(Box::new(kt_view(*b))), None => None },
            collection_expr: Box::new(kt_view(*collection_expr)),
            body: Box::new(kt_view(*body)),
        },
        KotlinIR::Range { from, to, inclusive } => KotlinNode::Range {
            from: Box::new(kt_view(*from)),
            to: Box::new(kt_view(*to)),
            inclusive,
        },
        KotlinIR::FunInline { id, arguments, return_type_id, body } => KotlinNode::FunInline {
            id: id@,
            arguments: kt_views(arguments@),
            return_type_id: Box::new(kt_view(*return_type_id)),
            body: Box::new(kt_view(*body)),
        },
        KotlinIR::Fun { id, arguments, return_type_id, is_override, body } => KotlinNode::Fun {
            id: id@,
            arguments: match arguments { Some(b) => Some(Box::new(kt_view(*b))), None => None },
            return_type_id: match return_type_id { Some(b) => Some(Box::new(kt_view(*b))), None => None },
            is_override,
            body: match body { Some(b) => Some(Box::new(kt_view(*b))), None => None },
        },
        KotlinIR::FunctionArgument { id, type_id } => KotlinNode::FunctionArgument { id: id@, type_id: Box::new(kt_view(*type_id)) },
        KotlinIR::ReturnStatement { body } => KotlinNode::ReturnStatement { body: Box::new(kt_view(*body)) },
        KotlinIR::Call { id, arguments } => KotlinNode::Call {
            id: id@,
            arguments: match arguments { Some(b) => Some(Box::new(kt_view(*b))), None => None },
        },
        KotlinIR::TrailingBlock { call, arguments, body } => KotlinNode::TrailingBlock {
            call: Box::new(kt_view(*call)),
            arguments: match arguments { Some(b) => Some(Box::new(kt_view(*b))), None => None },
            body: Box::new(kt_view(*body)),
        },
        KotlinIR::Assign { id, value } => KotlinNode::Assign { id: id@, value: Box::new(kt_view(*value)) },
        KotlinIR::When { item, body } => KotlinNode::When { item: Box::new(kt_view(*item)), body: Box::new(kt_view(*body)) },
        KotlinIR::WhenCase { item, body } => KotlinNode::WhenCase { item: Box::new(kt_view(*item)), body: Box::new(kt_view(*body)) },
    }
}

/// The views of tokens, in order.
pub open spec fn kt_views(ts: Seq<KotlinIR>) -> Seq<KotlinNode>
    decreases ts, 0nat,
{
    if ts.len() == 0 {
        Seq::empty()
    } else {
        kt_views(ts.drop_last()).push(kt_view(ts.last()))
    }
}

/// The view of an optional token.
pub open spec fn kt_view_opt(t: Option<Box<KotlinIR>>) -> Option<Box<KotlinNode>> {
    match t {
        Some(b) => Some(Box::new(kt_view(*b))),
        None => None,
    }
}

impl View for KotlinIR {
    type V = KotlinNode;

    open spec fn view(&self) -> KotlinNode {
        kt_view(*self)
    }
}

/// The views of tokens are the tokens' views, one for one.
pub proof fn lemma_kt_views(ts: Seq<KotlinIR>)
    ensures
        kt_views(ts).len() == ts.len(),
        forall|i: int| 0 <= i < ts.len() ==> #[trigger] kt_views(ts)[i] == ts[i]@,
    decreases ts.len(),
{
    if ts.len() > 0 {
        lemma_kt_views(ts.drop_last());
        assert forall|i: int| 0 <= i < ts.len() implies #[trigger] kt_views(ts)[i] == ts[i]@ by {
            if i < ts.len() - 1 {
                assert(ts[i] == ts.drop_last()[i]);
            }
        }
    }
}

/// Tokens whose views are, one for one, the given nodes have those nodes
/// as their views.
pub proof fn lemma_kt_views_eq(ts: Seq<KotlinIR>, ns: Seq<KotlinNode>)
    requires
        ts.len() == ns.len(),
        forall|i: int| 0 <= i < ts.len() ==> #[trigger] ts[i]@ == ns[i],
    ensures
        kt_views(ts) == ns,
{
    lemma_kt_views(ts);
    assert(kt_views(ts) =~= ns);
}

/// Pushing a token adds its view at the end.
pub proof fn lemma_kt_views_push(ts: Seq<KotlinIR>, t: KotlinIR)
    ensures
        kt_views(ts.push(t)) == kt_views(ts).push(t@),
{
    assert(ts.push(t).drop_last() =~= ts);
}

/// Taking one more token adds its view at the end.
pub proof fn lemma_kt_views_take(ts: Seq<KotlinIR>, i: int)
    requires
        0 <= i < ts.len(),
    ensures
        kt_views(ts.take(i + 1)) == kt_views(ts.take(i)).push(ts[i]@),
        kt_views(ts.take(i + 1)).drop_last() == kt_views(ts.take(i)),
        kt_views(ts.take(i + 1)).last() == ts[i]@,
        kt_views(ts.take(i + 1)).len() == i + 1,
        i > 0 ==> kt_views(ts.take(i + 1))[i - 1] == ts[i - 1]@,
        kt_views(ts)[i] == ts[i]@,
{
    assert(ts.take(i + 1).drop_last() =~= ts.take(i));
    lemma_kt_views(ts);
    lemma_kt_views(ts.take(i));
    assert(kt_views(ts.take(i)).push(ts[i]@).drop_last() =~= kt_views(ts.take(i)));
    if i > 0 {
        assert(ts.take(i)[i - 1] == ts[i - 1]);
    }
}

/// The kinds of neighbouring tokens that a blank line separates, in one
/// direction.
pub open spec fn kotlin_gap_pair(a: KotlinNode, b: KotlinNode) -> bool {
    ||| a is Object && b is Object
    ||| a is Object && b is Declaration
    ||| a is Object && b is Class
    ||| a is Class && b is Declaration
    ||| a is Class && b is Class
    ||| a is Class && b is Interface
    ||| a is Object && b is Interface
    ||| a is Fun && b is Fun
    ||| a is Fun && b is FunInline
    ||| a is FunInline && b is FunInline
    ||| a is CompanionObject && b is FunInline
    ||| a is CompanionObject && b is Fun
    ||| a is Fun && b is TopLevelDeclarations
    ||| a is FunInline && b is TopLevelDeclarations
    ||| a is TopLevelDeclarations && b is TopLevelDeclarations
}

/// Whether a blank line stands between two neighbouring tokens.
pub open spec fn kotlin_gap(a: KotlinNode, b: KotlinNode) -> bool {
    kotlin_gap_pair(a, b) || kotlin_gap_pair(b, a)
}

/// Whether a blank line separates two tokens does not depend on their
/// order.
pub proof fn lemma_kotlin_gap_symmetric(a: KotlinNode, b: KotlinNode)
    ensures
        kotlin_gap(a, b) == kotlin_gap(b, a),
{
}

/// Writing a token keeps all that was written before: the earlier text is
/// a prefix of the later one, and the unit of indentation is unchanged.
pub proof fn lemma_kotlin_write_keeps_text(s: WriterState, t: KotlinNode)
    ensures
        s.text.is_prefix_of(kt_write(s, t).text),
        kt_write(s, t).tab == s.tab,
{
    lemma_kt_grows(s, t);
    assert(s.text =~= kt_write(s, t).text.subrange(0, s.text.len() as int));
}

proof fn lemma_kt_opt_grows(s: WriterState, prefix: Seq<char>, t: Option<Box<KotlinNode>>)
    ensures
        grows(s, kt_write_opt(s, prefix, t)),
    decreases t, 0nat,
{
    match t {
        Some(b) => lemma_kt_grows(s.wrote(prefix), *b),
        None => {},
    }
}

proof fn lemma_kt_block_grows(s: WriterState, body: Seq<KotlinNode>)
    ensures
        grows(s, kt_block(s, body)),
    decreases body, 1nat,
{
    if body.len() > 0 {
        lemma_kt_all_grows(s.wrote(" {"@).new_lined().pushed(), body);
    }
}

proof fn lemma_kt_grows(s: WriterState, t: KotlinNode)
    ensures
        grows(s, kt_write(s, t)),
    decreases t, 2nat,
{
    match t {
        KotlinNode::Object { .. } => lemma_kt_decl_grows(s, t),
        KotlinNode::Declaration { .. } => lemma_kt_decl_grows(s, t),
        KotlinNode::ValDeclaration { .. } => lemma_kt_decl_grows(s, t),
        KotlinNode::VarDeclaration { .. } => lemma_kt_decl_grows(s, t),
        KotlinNode::ValGetterDeclaration { .. } => lemma_kt_decl_grows(s, t),
        KotlinNode::Class { .. } => lemma_kt_decl_grows(s, t),
        KotlinNode::Interface { .. } => lemma_kt_decl_grows(s, t),
        KotlinNode::CompanionObject { .. } => lemma_kt_decl_grows(s, t),
        KotlinNode::FunInline { .. } => lemma_kt_fun_grows(s, t),
        KotlinNode::Fun { .. } => lemma_kt_fun_grows(s, t),
        KotlinNode::TrailingBlock { .. } => lemma_kt_fun_grows(s, t),
        KotlinNode::FunctionArgument { .. } => lemma_kt_fun_grows(s, t),
        KotlinNode::ReturnStatement { .. } => lemma_kt_fun_grows(s, t),
        KotlinNode::List { .. } => lemma_kt_fun_grows(s, t),
        KotlinNode::Range { .. } => lemma_kt_fun_grows(s, t),
        KotlinNode::ForLoop { .. } => lemma_kt_flow_grows(s, t),
        KotlinNode::Statements { .. } => lemma_kt_flow_grows(s, t),
        KotlinNode::Call { .. } => lemma_kt_flow_grows(s, t),
        KotlinNode::Assign { .. } => lemma_kt_flow_grows(s, t),
        KotlinNode::When { .. } => lemma_kt_flow_grows(s, t),
        KotlinNode::WhenCase { .. } => lemma_kt_flow_grows(s, t),
        KotlinNode::Throw { .. } => lemma_kt_flow_grows(s, t),
        KotlinNode::TopLevelDeclarations { .. } => lemma_kt_flow_grows(s, t),
        _ => {},
    }
}

proof fn lemma_kt_decl_grows(s: WriterState, t: KotlinNode)
    requires
        t is Object || t is Declaration || t is ValDeclaration || t is VarDeclaration || t is ValGetterDeclaration || t is Class || t is Interface || t is CompanionObject,
    ensures
        grows(s, kt_write(s, t)),
    decreases t, 1nat,
{
    match t {
        KotlinNode::Object { id, is_data_object, body, extends } => {
            let s1 = s.tabbed();
            let s2 = if is_data_object { s1.wrote("data "@) } else { s1 };
            let s3 = s2.wrote("object "@ + case_converted(id, TextCase::Pascal));
            if extends.len() > 0 {
                lemma_kt_sep_grows(s3.wrote(" : "@), extends, ", "@);
            }
            let s4 = if extends.len() > 0 { kt_write_sep(s3.wrote(" : "@), extends, ", "@) } else { s3 };
            lemma_kt_block_grows(s4, body);
        },
        KotlinNode::Declaration { body, separator } => lemma_kt_grows(s.tabbed(), *body),
        KotlinNode::ValDeclaration { id, is_const, is_private, is_private_set, type_id, value } => {
            let s1 = if is_private { s.wrote("private "@) } else { s };
            let s2 = if is_const { s1.wrote("const "@) } else { s1 };
            lemma_kt_opt_grows(s2.wrote("val "@ + id), ": "@, type_id);
            let s3 = kt_write_opt(s2.wrote("val "@ + id), ": "@, type_id);
            lemma_kt_opt_grows(s3, " = "@, value);
        },
        KotlinNode::VarDeclaration { id, is_const, is_private, is_private_set, type_id, value } => {
            let s1 = if is_private { s.wrote("private "@) } else { s };
            let s2 = if is_const { s1.wrote("const "@) } else { s1 };
            lemma_kt_opt_grows(s2.wrote("var "@ + id), ": "@, type_id);
            let s3 = kt_write_opt(s2.wrote("var "@ + id), ": "@, type_id);
            lemma_kt_opt_grows(s3, " = "@, value);
        },
        KotlinNode::ValGetterDeclaration { id, is_private, is_private_set, type_id, value } => {
            let s1 = if is_private { s.wrote("private "@) } else { s };
            lemma_kt_opt_grows(s1.wrote("val "@ + id), ": "@, type_id);
            let s3 = kt_write_opt(s1.wrote("val "@ + id), ": "@, type_id);
            lemma_kt_opt_grows(s3, " get() = "@, value);
        },
        KotlinNode::Class { id, is_data_class, extends, fields, body } => {
            let s1 = s.tabbed();
            let s2 = if is_data_class { s1.wrote("data "@) } else { s1 };
            let s3 = s2.wrote("class "@ + case_converted(id, TextCase::Pascal) + "("@);
            if fields.len() > 0 {
                lemma_kt_all_grows(s3.new_lined().pushed(), fields);
            }
            let s4 = if fields.len() == 0 {
                s3.wrote(")"@)
            } else {
                kt_write_all(s3.new_lined().pushed(), fields).popped().wrote(")"@)
            };
            if extends.len() > 0 {
                lemma_kt_sep_grows(s4.wrote(" : "@), extends, ", "@);
            }
            let s5 = if extends.len() > 0 { kt_write_sep(s4.wrote(" : "@), extends, ", "@) } else { s4 };
            lemma_kt_block_grows(s5, body);
        },
        KotlinNode::Interface { id, is_sealed, body } => {
            let s1 = s.tabbed();
            let s2 = if is_sealed { s1.wrote("sealed "@) } else { s1 };
            lemma_kt_all_grows(s2.wrote_line("interface "@ + id + " {"@).pushed(), body);
        },
        KotlinNode::CompanionObject { body } => {
            lemma_kt_all_grows(s.wrote_line("companion object {"@).pushed(), body);
        },
        _ => {},
    }
}

proof fn lemma_kt_fun_grows(s: WriterState, t: KotlinNode)
    requires
        t is FunInline || t is Fun || t is TrailingBlock || t is FunctionArgument || t is ReturnStatement || t is List || t is Range,
    ensures
        grows(s, kt_write(s, t)),
    decreases t, 1nat,
{
    match t {
        KotlinNode::FunInline { id, arguments, return_type_id, body } => {
            let s1 = s.tabbed().wrote("fun "@ + id + "("@);
            if arguments.len() > 0 {
                lemma_kt_all_grows(s1.new_lined().pushed(), arguments);
            }
            let s2 = if arguments.len() > 0 {
                kt_write_all(s1.new_lined().pushed(), arguments).popped().new_lined()
            } else {
                s1
            };
            lemma_kt_grows(s2.wrote("): "@), *return_type_id);
            let s3 = kt_write(s2.wrote("): "@), *return_type_id);
            lemma_kt_grows(s3.wrote(" = "@), *body);
        },
        KotlinNode::Fun { id, arguments, return_type_id, is_override, body } => {
            let s1 = s.tabbed();
            let s2 = if is_override { s1.wrote("override "@) } else { s1 };
            let s3a = s2.wrote("fun "@ + id + "("@);
            match arguments {
                Some(a) => lemma_kt_grows(s3a, *a),
                None => {},
            }
            let s3 = match arguments {
                Some(a) => kt_write(s3a, *a),
                None => s3a,
            };
            match return_type_id {
                Some(r) => lemma_kt_grows(s3.wrote("): "@), *r),
                None => {},
            }
            let s4 = match return_type_id {
                Some(r) => kt_write(s3.wrote("): "@), *r),
                None => s3.wrote(")"@),
            };
            match body {
                Some(b) => lemma_kt_grows(s4.wrote(" {"@).new_lined().pushed(), *b),
                None => {},
            }
        },
        KotlinNode::TrailingBlock { call, arguments, body } => {
            lemma_kt_grows(s, *call);
            let s1 = kt_write(s, *call).wrote(" {"@);
            match arguments {
                Some(a) => lemma_kt_grows(s1.wrote(" "@), *a),
                None => {},
            }
            let s2 = match arguments {
                Some(a) => kt_write(s1.wrote(" "@), *a).wrote(" ->"@),
                None => s1,
            };
            lemma_kt_grows(s2.new_lined().pushed(), *body);
        },
        KotlinNode::FunctionArgument { id, type_id } => lemma_kt_grows(s.wrote(id).wrote(": "@), *type_id),
        KotlinNode::ReturnStatement { body } => lemma_kt_grows(s.wrote("return "@), *body),
        KotlinNode::List { items, separator, new_line } => {
            let open = new_line && items.len() > 0;
            let s1 = if open { s.new_lined().pushed() } else { s };
            lemma_kt_list_grows(s1, items, separator, new_line);
        },
        KotlinNode::Range { from, to, inclusive } => {
            lemma_kt_grows(s, *from);
            let s1 = kt_write(s, *from);
            let s2 = if !inclusive { s1.wrote("..<"@) } else { s1.wrote(".."@) };
            lemma_kt_grows(s2, *to);
        },
        _ => {},
    }
}

proof fn lemma_kt_flow_grows(s: WriterState, t: KotlinNode)
    requires
        t is ForLoop || t is Statements || t is Call || t is Assign || t is When || t is WhenCase || t is Throw || t is TopLevelDeclarations,
    ensures
        grows(s, kt_write(s, t)),
    decreases t, 1nat,
{
    match t {
        KotlinNode::ForLoop { item, collection_expr, body } => {
            let s1 = s.wrote("for ("@);
            match item {
                Some(i) => lemma_kt_grows(s1, *i),
                None => {},
            }
            let s2 = match item {
                Some(i) => kt_write(s1, *i),
                None => s1.wrote("i"@),
            };
            lemma_kt_grows(s2.wrote(" in "@), *collection_expr);
            let s3 = kt_write(s2.wrote(" in "@), *collection_expr).wrote(") {"@).new_lined().pushed();
            lemma_kt_grows(s3, *body);
        },
        KotlinNode::Statements { items } => lemma_kt_statements_grows(s, items),
        KotlinNode::Call { id, arguments } => {
            match arguments {
                Some(a) => lemma_kt_grows(s.wrote(id).wrote("("@), *a),
                None => {},
            }
        },
        KotlinNode::Assign { id, value } => lemma_kt_grows(s.wrote(case_converted(id, TextCase::Camel) + " = "@), *value),
        KotlinNode::When { item, body } => {
            lemma_kt_grows(s.wrote("when ("@), *item);
            let s1 = kt_write(s.wrote("when ("@), *item).wrote(") {"@).new_lined().pushed();
            lemma_kt_grows(s1, *body);
        },
        KotlinNode::WhenCase { item, body } => {
            lemma_kt_grows(s, *item);
            lemma_kt_grows(kt_write(s, *item).wrote(" -> "@), *body);
        },
        KotlinNode::Throw { body } => lemma_kt_grows(s.wrote("throw "@), *body),
        KotlinNode::TopLevelDeclarations { items } => lemma_kt_top_grows(s, items),

        _ => {},
    }
}

proof fn lemma_kt_all_grows(s: WriterState, ts: Seq<KotlinNode>)
    ensures
        grows(s, kt_write_all(s, ts)),
    decreases ts, 0nat,
{
    if ts.len() > 0 {
        lemma_kt_all_grows(s, ts.drop_last());
        let s1 = kt_write_all(s, ts.drop_last());
        let s2 = if ts.len() > 1 && kotlin_gap(ts[ts.len() - 2], ts.last()) { s1.new_lined() } else { s1 };
        lemma_kt_grows(s2, ts.last());
    }
}

proof fn lemma_kt_sep_grows(s: WriterState, ts: Seq<KotlinNode>, sep: Seq<char>)
    ensures
        grows(s, kt_write_sep(s, ts, sep)),
    decreases ts, 0nat,
{
    if ts.len() > 0 {
        lemma_kt_sep_grows(s, ts.drop_last(), sep);
        let s1 = kt_write_sep(s, ts.drop_last(), sep);
        let s2 = if ts.len() > 1 { s1.wrote(sep) } else { s1 };
        lemma_kt_grows(s2, ts.last());
    }
}

proof fn lemma_kt_list_grows(s: WriterState, ts: Seq<KotlinNode>, sep: Seq<char>, new_line: bool)
    ensures
        grows(s, kt_write_list(s, ts, sep, new_line)),
    decreases ts, 0nat,
{
    if ts.len() > 0 {
        lemma_kt_list_grows(s, ts.drop_last(), sep, new_line);
        let s1 = kt_write_list(s, ts.drop_last(), sep, new_line);
        let s2 = if ts.len() > 1 {
            if new_line { s1.wrote(sep).new_lined() } else { s1.wrote(sep).wrote(" "@) }
        } else {
            s1
        };
        let s3 = if new_line { s2.tabbed() } else { s2 };
        lemma_kt_grows(s3, ts.last());
    }
}

proof fn lemma_kt_statements_grows(s: WriterState, ts: Seq<KotlinNode>)
    ensures
        grows(s, kt_write_statements(s, ts)),
    decreases ts, 0nat,
{
    if ts.len() > 0 {
        lemma_kt_statements_grows(s, ts.drop_last());
        let s1 = kt_write_statements(s, ts.drop_last());
        let s2 = if ts.len() > 1 { s1.new_lined() } else { s1 };
        if !(ts.last() is Gap) {
            lemma_kt_grows(s2.tabbed(), ts.last());
        }
    }
}

proof fn lemma_kt_top_grows(s: WriterState, ts: Seq<KotlinNode>)
    ensures
        grows(s, kt_write_top(s, ts)),
    decreases ts, 0nat,
{
    if ts.len() > 0 {
        lemma_kt_top_grows(s, ts.drop_last());
        let s1 = kt_write_top(s, ts.drop_last()).tabbed();
        if !(ts.last() is Gap) {
            lemma_kt_grows(s1.tabbed(), ts.last());
        }
    }
}

/// The optional token written after `prefix`, or nothing.
pub open spec fn kt_write_opt(s: WriterState, prefix: Seq<char>, t: Option<Box<KotlinNode>>) -> WriterState
    decreases t,
{
    match t {
        Some(b) => kt_write(s.wrote(prefix), *b),
        None => s,
    }
}

/// The line that ends a declaration whose setter is private.
pub open spec fn kt_private_set(s: WriterState, is_private_set: bool) -> WriterState {
    if is_private_set {
        s.new_lined().pushed().tabbed().wrote("private set"@).popped()
    } else {
        s
    }
}

/// The line break that closes a body: statements that are empty need none.
pub open spec fn kt_body_break(s: WriterState, body: KotlinNode) -> WriterState {
    match body {
        KotlinNode::Statements { items } => if items.len() > 0 { s.new_lined() } else { s },
        _ => s.new_lined(),
    }
}

/// The block that follows an object or a class: its body, indented one
/// level, between braces; a line break where it is empty.
pub open spec fn kt_block(s: WriterState, body: Seq<KotlinNode>) -> WriterState
    decreases body, 1nat,
{
    if body.len() > 0 {
        kt_write_all(s.wrote(" {"@).new_lined().pushed(), body).popped().wrote_line("}"@)
    } else {
        s.new_lined()
    }
}

/// What writing one token does to a writer.
pub open spec fn kt_write(s: WriterState, t: KotlinNode) -> WriterState
    decreases t, 0nat,
{
    match t {
        KotlinNode::Gap => s.new_lined(),
        KotlinNode::Id(id) => s.wrote(id),
        KotlinNode::Object { id, is_data_object, body, extends } => {
            let s1 = s.tabbed();
            let s2 = if is_data_object { s1.wrote("data "@) } else { s1 };
            let s3 = s2.wrote("object "@ + case_converted(id, TextCase::Pascal));
            let s4 = if extends.len() > 0 { kt_write_sep(s3.wrote(" : "@), extends, ", "@) } else { s3 };
            kt_block(s4, body)
        },
        KotlinNode::Declaration { body, separator } => {
            let s1 = kt_write(s.tabbed(), *body);
            let s2 = match separator {
                Some(sep) => s1.wrote(sep),
                None => s1,
            };
            s2.new_lined()
        },
        KotlinNode::ValDeclaration { id, is_const, is_private, is_private_set, type_id, value } => {
            let s1 = if is_private { s.wrote("private "@) } else { s };
            let s2 = if is_const { s1.wrote("const "@) } else { s1 };
            let s3 = kt_write_opt(s2.wrote("val "@ + id), ": "@, type_id);
            kt_private_set(kt_write_opt(s3, " = "@, value), is_private_set)
        },
        KotlinNode::VarDeclaration { id, is_const, is_private, is_private_set, type_id, value } => {
            let s1 = if is_private { s.wrote("private "@) } else { s };
            let s2 = if is_const { s1.wrote("const "@) } else { s1 };
            let s3 = kt_write_opt(s2.wrote("var "@ + id), ": "@, type_id);
            kt_private_set(kt_write_opt(s3, " = "@, value), is_private_set)
        },
        KotlinNode::ValGetterDeclaration { id, is_private, is_private_set, type_id, value } => {
            let s1 = if is_private { s.wrote("private "@) } else { s };
            let s3 = kt_write_opt(s1.wrote("val "@ + id), ": "@, type_id);
            kt_private_set(kt_write_opt(s3, " get() = "@, value), is_private_set)
        },
        KotlinNode::TypeId(type_id) => s.wrote(kotlin_type_text(type_id)),
        KotlinNode::ConstValueExpr { type_id, value } => s.wrote(kotlin_const_text(type_id, value.literal)),
        KotlinNode::DefaultConstValueExpr(type_id) => s.wrote(kotlin_default_text(type_id)),
        KotlinNode::Class { id, is_data_class, extends, fields, body } => {
            let s1 = s.tabbed();
            let s2 = if is_data_class { s1.wrote("data "@) } else { s1 };
            let s3 = s2.wrote("class "@ + case_converted(id, TextCase::Pascal) + "("@);
            let s4 = if fields.len() == 0 {
                s3.wrote(")"@)
            } else {
                kt_write_all(s3.new_lined().pushed(), fields).popped().wrote(")"@)
            };
            let s5 = if extends.len() > 0 { kt_write_sep(s4.wrote(" : "@), extends, ", "@) } else { s4 };
            kt_block(s5, body)
        },
        KotlinNode::Interface { id, is_sealed, body } => {
            let s1 = s.tabbed();
            let s2 = if is_sealed { s1.wrote("sealed "@) } else { s1 };
            let s3 = s2.wrote_line("interface "@ + id + " {"@).pushed();
            kt_write_all(s3, body).popped().wrote_line("}"@)
        },
        KotlinNode::CompanionObject { body } => {
            kt_write_all(s.wrote_line("companion object {"@).pushed(), body).popped().wrote_line("}"@)
        },
        KotlinNode::FunInline { id, arguments, return_type_id, body } => {
            let s1 = s.tabbed().wrote("fun "@ + id + "("@);
            let s2 = if arguments.len() > 0 {
                kt_write_all(s1.new_lined().pushed(), arguments).popped().new_lined()
            } else {
                s1
            };
            let s3 = kt_write(s2.wrote("): "@), *return_type_id);
            kt_write(s3.wrote(" = "@), *body).new_lined()
        },
        KotlinNode::Fun { id, arguments, return_type_id, is_override, body } => {
            let s1 = s.tabbed();
            let s2 = if is_override { s1.wrote("override "@) } else { s1 };
            let s3a = s2.wrote("fun "@ + id + "("@);
            let s3 = match arguments {
                Some(a) => kt_write(s3a, *a),
                None => s3a,
            };
            let s4 = match return_type_id {
                Some(r) => kt_write(s3.wrote("): "@), *r),
                None => s3.wrote(")"@),
            };
            let s5 = match body {
                Some(b) => {
                    let inner = kt_write(s4.wrote(" {"@).new_lined().pushed(), *b).popped();
                    kt_body_break(inner, *b).tabbed().wrote("}"@)
                },
                None => s4,
            };
            s5.new_lined()
        },
        KotlinNode::TrailingBlock { call, arguments, body } => {
            let s1 = kt_write(s, *call).wrote(" {"@);
            let s2 = match arguments {
                Some(a) => kt_write(s1.wrote(" "@), *a).wrote(" ->"@),
                None => s1,
            };
            let inner = kt_write(s2.new_lined().pushed(), *body).popped();
            kt_body_break(inner, *body).tabbed().wrote("}"@)
        },
        KotlinNode::FunctionArgument { id, type_id } => kt_write(s.wrote(id).wrote(": "@), *type_id),
        KotlinNode::ReturnStatement { body } => kt_write(s.wrote("return "@), *body),
        KotlinNode::List { items, separator, new_line } => {
            let open = new_line && items.len() > 0;
            let s1 = if open { s.new_lined().pushed() } else { s };
            let s2 = kt_write_list(s1, items, separator, new_line);
            if open { s2.wrote(separator).new_lined().popped().tabbed() } else { s2 }
        },
        KotlinNode::Range { from, to, inclusive } => {
            let s1 = kt_write(s, *from);
            let s2 = if !inclusive { s1.wrote("..<"@) } else { s1.wrote(".."@) };
            kt_write(s2, *to)
        },
        KotlinNode::ForLoop { item, collection_expr, body } => {
            let s1 = s.wrote("for ("@);
            let s2 = match item {
                Some(i) => kt_write(s1, *i),
                None => s1.wrote("i"@),
            };
            let s3 = kt_write(s2.wrote(" in "@), *collection_expr).wrote(") {"@).new_lined().pushed();
            kt_write(s3, *body).popped().new_lined().tabbed().wrote("}"@)
        },
        KotlinNode::Statements { items } => kt_write_statements(s, items),
        KotlinNode::Call { id, arguments } => {
            let s1 = s.wrote(id);
            match arguments {
                Some(a) => kt_write(s1.wrote("("@), *a).wrote(")"@),
                None => s1.wrote("()"@),
            }
        },
        KotlinNode::Assign { id, value } => kt_write(s.wrote(case_converted(id, TextCase::Camel) + " = "@), *value),
        KotlinNode::When { item, body } => {
            let s1 = kt_write(s.wrote("when ("@), *item).wrote(") {"@).new_lined().pushed();
            kt_write(s1, *body).popped().new_lined().tabbed().wrote("}"@)
        },
        KotlinNode::WhenCase { item, body } => kt_write(kt_write(s, *item).wrote(" -> "@), *body),
        KotlinNode::Throw { body } => kt_write(s.wrote("throw "@), *body),
        KotlinNode::TopLevelDeclarations { items } => kt_write_top(s, items),
    }
}

/// What writing tokens one after another does, with a blank line between
/// neighbours of the kinds that `kotlin_gap` names.
pub open spec fn kt_write_all(s: WriterState, ts: Seq<KotlinNode>) -> WriterState
    decreases ts, 0nat,
{
    if ts.len() == 0 {
        s
    } else {
        let s1 = kt_write_all(s, ts.drop_last());
        let s2 = if ts.len() > 1 && kotlin_gap(ts[ts.len() - 2], ts.last()) { s1.new_lined() } else { s1 };
        kt_write(s2, ts.last())
    }
}

/// What writing tokens with a separator between neighbours does.
pub open spec fn kt_write_sep(s: WriterState, ts: Seq<KotlinNode>, sep: Seq<char>) -> WriterState
    decreases ts, 0nat,
{
    if ts.len() == 0 {
        s
    } else {
        let s1 = kt_write_sep(s, ts.drop_last(), sep);
        let s2 = if ts.len() > 1 { s1.wrote(sep) } else { s1 };
        kt_write(s2, ts.last())
    }
}

/// The items of a list: between neighbours the separator and a line break
/// (one item per line) or a space; each item indented on its own line.
pub open spec fn kt_write_list(s: WriterState, ts: Seq<KotlinNode>, sep: Seq<char>, new_line: bool) -> WriterState
    decreases ts, 0nat,
{
    if ts.len() == 0 {
        s
    } else {
        let s1 = kt_write_list(s, ts.drop_last(), sep, new_line);
        let s2 = if ts.len() > 1 {
            if new_line { s1.wrote(sep).new_lined() } else { s1.wrote(sep).wrote(" "@) }
        } else {
            s1
        };
        let s3 = if new_line { s2.tabbed() } else { s2 };
        kt_write(s3, ts.last())
    }
}

/// Statements, one per line; a gap leaves its line empty.
pub open spec fn kt_write_statements(s: WriterState, ts: Seq<KotlinNode>) -> WriterState
    decreases ts, 0nat,
{
    if ts.len() == 0 {
        s
    } else {
        let s1 = kt_write_statements(s, ts.drop_last());
        let s2 = if ts.len() > 1 { s1.new_lined() } else { s1 };
        if ts.last() is Gap { s2 } else { kt_write(s2.tabbed(), ts.last()) }
    }
}

/// Top-level declarations, each on a line of its own.
pub open spec fn kt_write_top(s: WriterState, ts: Seq<KotlinNode>) -> WriterState
    decreases ts, 0nat,
{
    if ts.len() == 0 {
        s
    } else {
        let s1 = kt_write_top(s, ts.drop_last()).tabbed();
        let s2 = if ts.last() is Gap { s1 } else { kt_write(s1.tabbed(), ts.last()) };
        s2.new_lined()
    }
}

/// Whether a token can be written by a writer with `room` more indentation
/// levels to spare: every type, constant and default in it has a Kotlin
/// form, and its blocks nest no deeper than `room`.
pub open spec fn kt_fits(t: KotlinNode, room: nat) -> bool
    decreases t, 0nat,
{
    match t {
        KotlinNode::Gap => true,
        KotlinNode::Id(_) => true,
        KotlinNode::Object { body, extends, .. } => {
            kt_fits_all(extends, room) && (body.len() > 0 ==> room >= 1 && kt_fits_all(body, (room - 1) as nat))
        },
        KotlinNode::Declaration { body, .. } => kt_fits(*body, room),
        KotlinNode::ValDeclaration { is_private_set, type_id, value, .. } => {
            (type_id matches Some(b) ==> kt_fits(*b, room)) && (value matches Some(b) ==> kt_fits(*b, room)) && (is_private_set ==> room >= 1)
        },
        KotlinNode::VarDeclaration { is_private_set, type_id, value, .. } => {
            (type_id matches Some(b) ==> kt_fits(*b, room)) && (value matches Some(b) ==> kt_fits(*b, room)) && (is_private_set ==> room >= 1)
        },
        KotlinNode::ValGetterDeclaration { is_private_set, type_id, value, .. } => {
            (type_id matches Some(b) ==> kt_fits(*b, room)) && (value matches Some(b) ==> kt_fits(*b, room)) && (is_private_set ==> room >= 1)
        },
        KotlinNode::TypeId(type_id) => kotlin_type_supported(type_id),
        KotlinNode::ConstValueExpr { type_id, value } => kotlin_const_supported(type_id, value.literal),
        KotlinNode::DefaultConstValueExpr(type_id) => kotlin_default_supported(type_id),
        KotlinNode::Class { extends, fields, body, .. } => {
            &&& kt_fits_all(extends, room)
            &&& fields.len() > 0 ==> room >= 1 && kt_fits_all(fields, (room - 1) as nat)
            &&& body.len() > 0 ==> room >= 1 && kt_fits_all(body, (room - 1) as nat)
        },
        KotlinNode::Interface { body, .. } => room >= 1 && kt_fits_all(body, (room - 1) as nat),
        KotlinNode::CompanionObject { body } => room >= 1 && kt_fits_all(body, (room - 1) as nat),
        KotlinNode::FunInline { arguments, return_type_id, body, .. } => {
            &&& arguments.len() > 0 ==> room >= 1 && kt_fits_all(arguments, (room - 1) as nat)
            &&& kt_fits(*return_type_id, room)
            &&& kt_fits(*body, room)
        },
        KotlinNode::Fun { arguments, return_type_id, body, .. } => {
            &&& (arguments matches Some(b) ==> kt_fits(*b, room))
            &&& (return_type_id matches Some(b) ==> kt_fits(*b, room))
            &&& (body matches Some(b) ==> room >= 1 && kt_fits(*b, (room - 1) as nat))
        },
        KotlinNode::TrailingBlock { call, arguments, body } => {
            kt_fits(*call, room) && (arguments matches Some(b) ==> kt_fits(*b, room)) && room >= 1 && kt_fits(*body, (room - 1) as nat)
        },
        KotlinNode::FunctionArgument { type_id, .. } => kt_fits(*type_id, room),
        KotlinNode::ReturnStatement { body } => kt_fits(*body, room),
        KotlinNode::List { items, new_line, .. } => {
            if new_line && items.len() > 0 {
                room >= 1 && kt_fits_all(items, (room - 1) as nat)
            } else {
                kt_fits_all(items, room)
            }
        },
        KotlinNode::Range { from, to, .. } => kt_fits(*from, room) && kt_fits(*to, room),
        KotlinNode::ForLoop { item, collection_expr, body } => {
            (item matches Some(b) ==> kt_fits(*b, room)) && kt_fits(*collection_expr, room) && room >= 1 && kt_fits(*body, (room - 1) as nat)
        },
        KotlinNode::Statements { items } => kt_fits_all(items, room),
        KotlinNode::Call { arguments, .. } => (arguments matches Some(b) ==> kt_fits(*b, room)),
        KotlinNode::Assign { value, .. } => kt_fits(*value, room),
        KotlinNode::When { item, body } => kt_fits(*item, room) && room >= 1 && kt_fits(*body, (room - 1) as nat),
        KotlinNode::WhenCase { item, body } => kt_fits(*item, room) && kt_fits(*body, room),
        KotlinNode::Throw { body } => kt_fits(*body, room),
        KotlinNode::TopLevelDeclarations { items } => kt_fits_all(items, room),
    }
}

/// Whether every token fits (see `kt_fits`).
pub open spec fn kt_fits_all(ts: Seq<KotlinNode>, room: nat) -> bool
    decreases ts, 0nat,
{
    forall|i: int| 0 <= i < ts.len() ==> kt_fits(#[trigger] ts[i], room)
}

/// The room a writer has for deeper indentation.
pub open spec fn room_of(s: WriterState) -> nat {
    if s.level <= usize::MAX { (usize::MAX - s.level) as nat } else { 0 }
}

/// Whether Kotlin has a name for the type: integers of 1, 4 or 8 bytes,
/// floats of 4 or 8 bytes, and generic types whose arguments all have one
/// (an `Option` needs at least one).
pub open spec fn kotlin_type_supported(t: TypeId) -> bool
    decreases t, 1nat,
{
    match t {
        TypeId::Integer { size, .. } => size == 1 || size == 4 || size == 8,
        TypeId::Number { size, .. } => size == 4 || size == 8,
        TypeId::Generic { id, generics } => {
            &&& kotlin_types_supported(generics)
            &&& (id == "Option"@ ==> generics.len() > 0)
        },
        _ => true,
    }
}

pub open spec fn kotlin_types_supported(ts: Seq<TypeId>) -> bool
    decreases ts, 0nat,
{
    if ts.len() == 0 {
        true
    } else {
        kotlin_types_supported(ts.drop_last()) && kotlin_type_supported(ts.last())
    }
}

/// The Kotlin name of a type.
pub open spec fn kotlin_type_text(t: TypeId) -> Seq<char>
    decreases t, 1nat,
{
    match t {
        TypeId::Integer { size, signed, .. } => {
            if size == 1 {
                if signed { "Byte"@ } else { "UByte"@ }
            } else if size == 4 {
                if signed { "Int"@ } else { "UInt"@ }
            } else {
                if signed { "Long"@ } else { "ULong"@ }
            }
        },
        TypeId::Number { size, .. } => if size == 4 { "Float"@ } else { "Double"@ },
        TypeId::Bool { .. } => "Boolean"@,
        TypeId::Char { .. } => "Char"@,
        TypeId::Other { id } => {
            if id == "GroupAddress"@ || id == "CommandsBufferAddress"@ { "ULong"@ } else { id }
        },
        TypeId::Generic { id, generics } => {
            if id == "Option"@ {
                kotlin_first_type_text(generics) + "?"@
            } else if id == "Vec"@ {
                "List<"@ + kotlin_types_text(generics) + ">"@
            } else {
                id + "<"@ + kotlin_types_text(generics) + ">"@
            }
        },
    }
}

/// The Kotlin name of the first type of a sequence.
pub open spec fn kotlin_first_type_text(ts: Seq<TypeId>) -> Seq<char>
    decreases ts, 0nat,
{
    if ts.len() == 0 { Seq::empty() } else { kotlin_type_text(ts[0]) }
}

/// The Kotlin names of the types, separated by ", ".
pub open spec fn kotlin_types_text(ts: Seq<TypeId>) -> Seq<char>
    decreases ts, 0nat,
{
    if ts.len() == 0 {
        Seq::empty()
    } else if ts.len() == 1 {
        kotlin_type_text(ts[0])
    } else {
        kotlin_types_text(ts.drop_last()) + ", "@ + kotlin_type_text(ts.last())
    }
}

proof fn lemma_kotlin_types_supported(ts: Seq<TypeId>)
    requires
        kotlin_types_supported(ts),
    ensures
        forall|i: int| 0 <= i < ts.len() ==> kotlin_type_supported(#[trigger] ts[i]),
    decreases ts.len(),
{
    if ts.len() > 0 {
        lemma_kotlin_types_supported(ts.drop_last());
        assert forall|i: int| 0 <= i < ts.len() implies kotlin_type_supported(#[trigger] ts[i]) by {
            if i < ts.len() - 1 {
                assert(ts[i] == ts.drop_last()[i]);
            }
        }
    }
}

/// The names of the types `generics`, joined by ", ".
#[verifier::loop_isolation(false)]
fn kotlin_generics_text(generics: &Vec<TypeIDASTNode>) -> (res: String)
    requires
        kotlin_types_supported(type_ids_view(generics@)),
    ensures
        res@ == kotlin_types_text(type_ids_view(generics@)),
    decreases generics@, 0nat,
{
    proof {
        lemma_type_ids_view(generics@);
        lemma_kotlin_types_supported(type_ids_view(generics@));
    }
    let mut res = String::new();
    let mut i: usize = 0;
    while i < generics.len()
        invariant
            i <= generics.len(),
            res@ == kotlin_types_text(type_ids_view(generics@.take(i as int))),
        decreases generics.len() - i,
    {
        proof {
            assert(decreases_to!(generics@ => generics@[i as int]));
            assert(generics@.take(i + 1).drop_last() =~= generics@.take(i as int));
            lemma_type_ids_view(generics@.take(i as int));
            lemma_type_ids_view(generics@.take(i + 1));
            assert(type_ids_view(generics@)[i as int] == generics@[i as int]@);
            assert(type_ids_view(generics@.take(i + 1)).drop_last() =~= type_ids_view(generics@.take(i as int)));
        }
        let g = generate_type_id(&generics[i]);
        if i > 0 {
            res.append(", ");
        }
        res.append(g.as_str());
        i = i + 1;
    }
    assert(generics@.take(generics.len() as int) =~= generics@);
    res
}

/// The Kotlin name of a type.
pub fn generate_type_id(type_id: &TypeIDASTNode) -> (res: String)
    requires
        kotlin_type_supported(type_id@),
    ensures
        res@ == kotlin_type_text(type_id@),
    decreases type_id, 1nat,
{
    match type_id {
        TypeIDASTNode::Integer { size, signed, .. } => {
            if *size == 1 {
                if *signed { String::from_str("Byte") } else { String::from_str("UByte") }
            } else if *size == 4 {
                if *signed { String::from_str("Int") } else { String::from_str("UInt") }
            } else {
                if *signed { String::from_str("Long") } else { String::from_str("ULong") }
            }
        },
        TypeIDASTNode::Number { size, .. } => {
            if *size == 4 { String::from_str("Float") } else { String::from_str("Double") }
        },
        TypeIDASTNode::Bool { .. } => String::from_str("Boolean"),
        TypeIDASTNode::Char { .. } => String::from_str("Char"),
        TypeIDASTNode::Other { id } => {
            if str_eq(id.as_str(), "GroupAddress") || str_eq(id.as_str(), "CommandsBufferAddress") {
                String::from_str("ULong")
            } else {
                id.clone()
            }
        },
        TypeIDASTNode::Generic { id, generics } => {
            proof { assert(decreases_to!(*type_id => *generics)); }
            if str_eq(id.as_str(), "Option") {
                proof {
                    lemma_type_ids_view(generics@);
                    lemma_kotlin_types_supported(type_ids_view(generics@));
                    assert(decreases_to!(*generics => generics[0]));
                    assert(type_ids_view(generics@)[0] == generics@[0]@);
                }
                let first = generate_type_id(&generics[0]);
                cat(first.as_str(), "?")
            } else if str_eq(id.as_str(), "Vec") {
                let inner = kotlin_generics_text(generics);
                let mut res = String::from_str("List<");
                res.append(inner.as_str());
                res.append(">");
                res
            } else {
                let inner = kotlin_generics_text(generics);
                let mut res = cat(id.as_str(), "<");
                res.append(inner.as_str());
                res.append(">");
                res
            }
        },
    }
}


/// Whether a literal can be written as a Kotlin constant of the given type:
/// strings and booleans always; integers for integer types of 1, 4 or 8
/// bytes and for the address types; numbers for floats of 4 or 8 bytes.
pub open spec fn kotlin_const_supported(type_id: TypeId, literal: Literal) -> bool {
    match literal {
        Literal::IntLiteral(_) => match type_id {
            TypeId::Other { id } => id == "GroupAddress"@ || id == "CommandsBufferAddress"@,
            TypeId::Integer { size, .. } => size == 1 || size == 4 || size == 8,
            _ => false,
        },
        Literal::NumberLiteral(_) => match type_id {
            TypeId::Number { size, .. } => size == 4 || size == 8,
            _ => false,
        },
        _ => true,
    }
}

/// A literal written as a Kotlin constant of the given type.
pub open spec fn kotlin_const_text(type_id: TypeId, literal: Literal) -> Seq<char> {
    match literal {
        Literal::StringLiteral(value) => quoted(value@),
        Literal::IntLiteral(value) => {
            let v = int_text(value as int);
            match type_id {
                TypeId::Integer { size, signed, .. } => {
                    if size == 1 {
                        if signed { v + ".toByte()"@ } else { v + ".toUByte()"@ }
                    } else if size == 4 {
                        if signed { v } else { v + "U"@ }
                    } else {
                        if signed { v + "L"@ } else { v + "UL"@ }
                    }
                },
                _ => v + "UL"@,
            }
        },
        Literal::NumberLiteral(value) => {
            let v = value.spec_text();
            match type_id {
                TypeId::Number { size, .. } => {
                    if size == 4 {
                        if value.spec_is_integral() { v + ".0f"@ } else { v + "f"@ }
                    } else {
                        if value.spec_is_integral() { v + ".0"@ } else { v }
                    }
                },
                _ => v,
            }
        },
        Literal::BoolLiteral(value) => bool_text(value),
    }
}

/// The constant `node` written in Kotlin as a value of type `type_id`.
pub fn generate_const_value(type_id: &TypeIDASTNode, node: &ConstValueASTNode) -> (res: String)
    requires
        kotlin_const_supported(type_id@, node@.literal),
    ensures
        res@ == kotlin_const_text(type_id@, node@.literal),
{
    match node {
        ConstValueASTNode::Literal { literal, .. } => match literal {
            Literal::StringLiteral(value) => quote(value.as_str()),
            Literal::IntLiteral(value) => {
                let v = int_to_text(*value);
                match type_id {
                    TypeIDASTNode::Integer { size, signed, .. } => {
                        if *size == 1 {
                            if *signed { cat(v.as_str(), ".toByte()") } else { cat(v.as_str(), ".toUByte()") }
                        } else if *size == 4 {
                            if *signed { v } else { cat(v.as_str(), "U") }
                        } else {
                            if *signed { cat(v.as_str(), "L") } else { cat(v.as_str(), "UL") }
                        }
                    },
                    _ => cat(v.as_str(), "UL"),
                }
            },
            Literal::NumberLiteral(value) => {
                let v = value.text();
                match type_id {
                    TypeIDASTNode::Number { size, .. } => {
                        if *size == 4 {
                            if value.is_integral() { cat(v.as_str(), ".0f") } else { cat(v.as_str(), "f") }
                        } else {
                            if value.is_integral() { cat(v.as_str(), ".0") } else { v }
                        }
                    },
                    _ => v,
                }
            },
            Literal::BoolLiteral(value) => bool_to_text(*value),
        },
    }
}

/// Whether Kotlin has a default value for the type: integers of 1, 4 or 8
/// bytes, floats of 4 or 8 bytes, and generic types that are `Option`,
/// `Vec` or have arguments that all have a Kotlin name.
pub open spec fn kotlin_default_supported(t: TypeId) -> bool {
    match t {
        TypeId::Integer { size, .. } => size == 1 || size == 4 || size == 8,
        TypeId::Number { size, .. } => size == 4 || size == 8,
        TypeId::Generic { id, generics } => id == "Option"@ || id == "Vec"@ || kotlin_types_supported(generics),
        _ => true,
    }
}

/// The Kotlin default value of a type.
pub open spec fn kotlin_default_text(t: TypeId) -> Seq<char> {
    match t {
        TypeId::Integer { size, signed, .. } => {
            if size == 1 {
                if signed { "0.toByte()"@ } else { "0.toUByte()"@ }
            } else if size == 4 {
                if signed { "0"@ } else { "0U"@ }
            } else {
                if signed { "0L"@ } else { "0UL"@ }
            }
        },
        TypeId::Number { size, .. } => if size == 4 { "0f"@ } else { "0.0"@ },
        TypeId::Bool { .. } => "false"@,
        TypeId::Char { .. } => "0"@,
        TypeId::Other { id } => {
            if id == "String"@ {
                "\"\""@
            } else if id == "Vec"@ {
                "listOf()"@
            } else {
                id + ".createDefault()"@
            }
        },
        TypeId::Generic { id, generics } => {
            if id == "Option"@ {
                "null"@
            } else if id == "Vec"@ {
                "listOf()"@
            } else {
                id + ".createDefault<"@ + kotlin_types_text(generics) + ">()"@
            }
        },
    }
}

/// The Kotlin default value of a type.
pub fn generate_default_const_value(type_id: &TypeIDASTNode) -> (res: String)
    requires
        kotlin_default_supported(type_id@),
    ensures
        res@ == kotlin_default_text(type_id@),
{
    match type_id {
        TypeIDASTNode::Integer { size, signed, .. } => {
            if *size == 1 {
                if *signed { String::from_str("0.toByte()") } else { String::from_str("0.toUByte()") }
            } else if *size == 4 {
                if *signed { String::from_str("0") } else { String::from_str("0U") }
            } else {
                if *signed { String::from_str("0L") } else { String::from_str("0UL") }
            }
        },
        TypeIDASTNode::Number { id: _, size } => {
            if *size == 4 { String::from_str("0f") } else { String::from_str("0.0") }
        },
        TypeIDASTNode::Bool { id: _ } => String::from_str("false"),
        TypeIDASTNode::Char { id: _ } => String::from_str("0"),
        TypeIDASTNode::Other { id } => {
            if str_eq(id.as_str(), "String") {
                String::from_str("\"\"")
            } else if str_eq(id.as_str(), "Vec") {
                String::from_str("listOf()")
            } else {
                cat(id.as_str(), ".createDefault()")
            }
        },
        TypeIDASTNode::Generic { id, generics } => {
            if str_eq(id.as_str(), "Option") {
                String::from_str("null")
            } else if str_eq(id.as_str(), "Vec") {
                String::from_str("listOf()")
            } else {
                let inner = kotlin_generics_text(generics);
                let mut res = cat(id.as_str(), ".createDefault<");
                res.append(inner.as_str());
                res.append(">()");
                res
            }
        },
    }
}


/// Whether a blank line stands between two neighbouring tokens.
pub fn needs_gap(a: &KotlinIR, b: &KotlinIR) -> (res: bool)
    ensures
        res == kotlin_gap(a@, b@),
{
    gap_pair(a, b) || gap_pair(b, a)
}

fn gap_pair(a: &KotlinIR, b: &KotlinIR) -> (res: bool)
    ensures
        res == kotlin_gap_pair(a@, b@),
{
    match a {
        KotlinIR::Object { .. } => matches!(b, KotlinIR::Object { .. }) || matches!(b, KotlinIR::Declaration { .. })
            || matches!(b, KotlinIR::Class { .. }) || matches!(b, KotlinIR::Interface { .. }),
        KotlinIR::Class { .. } => matches!(b, KotlinIR::Declaration { .. }) || matches!(b, KotlinIR::Class { .. })
            || matches!(b, KotlinIR::Interface { .. }),
        KotlinIR::Fun { .. } => matches!(b, KotlinIR::Fun { .. }) || matches!(b, KotlinIR::FunInline { .. })
            || matches!(b, KotlinIR::TopLevelDeclarations { .. }),
        KotlinIR::FunInline { .. } => matches!(b, KotlinIR::FunInline { .. })
            || matches!(b, KotlinIR::TopLevelDeclarations { .. }),
        KotlinIR::CompanionObject { .. } => matches!(b, KotlinIR::FunInline { .. }) || matches!(b, KotlinIR::Fun { .. }),
        KotlinIR::TopLevelDeclarations { .. } => matches!(b, KotlinIR::TopLevelDeclarations { .. }),
        _ => false,
    }
}

/// The tokens written out by a fresh writer, as Kotlin source text.
pub fn stringify_ir(tokens: &[KotlinIR]) -> (res: String)
    requires
        kt_fits_all(kt_views(tokens@), usize::MAX as nat),
    ensures
        res@ == kt_write_all(default_writer_state(), kt_views(tokens@)).text,
{
    let mut writer = Writer::default();
    write_tokens(&mut writer, tokens);
    copy_str(writer.show())
}

/// Writes the tokens with `separator` between neighbours.
pub fn write_tokens_separated(writer: &mut Writer, tokens: &[KotlinIR], separator: &'static str)
    requires
        kt_fits_all(kt_views(tokens@), room_of(old(writer)@)),
    ensures
        final(writer)@ == kt_write_sep(old(writer)@, kt_views(tokens@), separator@),
        final(writer)@.level == old(writer)@.level,
        final(writer)@.tab == old(writer)@.tab,
    decreases tokens@, 0nat,
{
    let ghost s0 = writer@;
    let mut i: usize = 0;
    while i < tokens.len()
        invariant
            i <= tokens@.len(),
            kt_fits_all(kt_views(tokens@), room_of(s0)),
            writer@ == kt_write_sep(s0, kt_views(tokens@.take(i as int)), separator@),
            writer@.level == s0.level,
            writer@.tab == s0.tab,
        decreases tokens@.len() - i,
    {
        proof {
            assert(decreases_to!(tokens@ => tokens@[i as int]));
            assert(tokens@.take(i + 1).drop_last() =~= tokens@.take(i as int));
            lemma_kt_views(tokens@);
            lemma_kt_views(tokens@.take(i as int));
            lemma_kt_views_take(tokens@, i as int);
            assert(kt_fits(tokens@[i as int]@, room_of(s0)));
        }
        if i > 0 {
            writer.write(separator);
        }
        write_token(writer, &tokens[i]);
        i = i + 1;
    }
    assert(tokens@.take(tokens@.len() as int) =~= tokens@);
}

/// Writes the tokens one after another, with a blank line between
/// neighbours of the kinds that `kotlin_gap` names.
pub fn write_tokens(writer: &mut Writer, tokens: &[KotlinIR])
    requires
        kt_fits_all(kt_views(tokens@), room_of(old(writer)@)),
    ensures
        final(writer)@ == kt_write_all(old(writer)@, kt_views(tokens@)),
        final(writer)@.level == old(writer)@.level,
        final(writer)@.tab == old(writer)@.tab,
    decreases tokens@, 0nat,
{
    let ghost s0 = writer@;
    let mut i: usize = 0;
    while i < tokens.len()
        invariant
            i <= tokens@.len(),
            kt_fits_all(kt_views(tokens@), room_of(s0)),
            writer@ == kt_write_all(s0, kt_views(tokens@.take(i as int))),
            writer@.level == s0.level,
            writer@.tab == s0.tab,
        decreases tokens@.len() - i,
    {
        proof {
            assert(decreases_to!(tokens@ => tokens@[i as int]));
            assert(tokens@.take(i + 1).drop_last() =~= tokens@.take(i as int));
            lemma_kt_views(tokens@);
            lemma_kt_views(tokens@.take(i as int));
            lemma_kt_views_take(tokens@, i as int);
            assert(kt_fits(tokens@[i as int]@, room_of(s0)));
        }
        if i > 0 && needs_gap(&tokens[i - 1], &tokens[i]) {
            writer.new_line();
        }
        write_token(writer, &tokens[i]);
        i = i + 1;
    }
    assert(tokens@.take(tokens@.len() as int) =~= tokens@);
}

fn write_list_items(writer: &mut Writer, items: &Vec<KotlinIR>, separator: &'static str, new_line: bool)
    requires
        kt_fits_all(kt_views(items@), room_of(old(writer)@)),
    ensures
        final(writer)@ == kt_write_list(old(writer)@, kt_views(items@), separator@, new_line),
        final(writer)@.level == old(writer)@.level,
        final(writer)@.tab == old(writer)@.tab,
    decreases items@, 0nat,
{
    let ghost s0 = writer@;
    let mut i: usize = 0;
    while i < items.len()
        invariant
            i <= items@.len(),
            kt_fits_all(kt_views(items@), room_of(s0)),
            writer@ == kt_write_list(s0, kt_views(items@.take(i as int)), separator@, new_line),
            writer@.level == s0.level,
            writer@.tab == s0.tab,
        decreases items@.len() - i,
    {
        proof {
            assert(decreases_to!(items@ => items@[i as int]));
            assert(items@.take(i + 1).drop_last() =~= items@.take(i as int));
            lemma_kt_views(items@);
            lemma_kt_views(items@.take(i as int));
            lemma_kt_views_take(items@, i as int);
            assert(kt_fits(items@[i as int]@, room_of(s0)));
        }
        if i > 0 {
            writer.write(separator);
            if new_line {
                writer.new_line();
            } else {
                writer.write(" ");
            }
        }
        if new_line {
            writer.write_tabs();
        }
        write_token(writer, &items[i]);
        i = i + 1;
    }
    assert(items@.take(items@.len() as int) =~= items@);
}

fn write_statements(writer: &mut Writer, items: &Vec<KotlinIR>)
    requires
        kt_fits_all(kt_views(items@), room_of(old(writer)@)),
    ensures
        final(writer)@ == kt_write_statements(old(writer)@, kt_views(items@)),
        final(writer)@.level == old(writer)@.level,
        final(writer)@.tab == old(writer)@.tab,
    decreases items@, 0nat,
{
    let ghost s0 = writer@;
    let mut i: usize = 0;
    while i < items.len()
        invariant
            i <= items@.len(),
            kt_fits_all(kt_views(items@), room_of(s0)),
            writer@ == kt_write_statements(s0, kt_views(items@.take(i as int))),
            writer@.level == s0.level,
            writer@.tab == s0.tab,
        decreases items@.len() - i,
    {
        proof {
            assert(decreases_to!(items@ => items@[i as int]));
            assert(items@.take(i + 1).drop_last() =~= items@.take(i as int));
            lemma_kt_views(items@);
            lemma_kt_views(items@.take(i as int));
            lemma_kt_views_take(items@, i as int);
            assert(kt_fits(items@[i as int]@, room_of(s0)));
        }
        if i > 0 {
            writer.new_line();
        }
        match &items[i] {
            KotlinIR::Gap => {},
            item => {
                writer.write_tabs();
                write_token(writer, item);
            },
        }
        i = i + 1;
    }
    assert(items@.take(items@.len() as int) =~= items@);
}

fn write_top_level(writer: &mut Writer, items: &Vec<KotlinIR>)
    requires
        kt_fits_all(kt_views(items@), room_of(old(writer)@)),
    ensures
        final(writer)@ == kt_write_top(old(writer)@, kt_views(items@)),
        final(writer)@.level == old(writer)@.level,
        final(writer)@.tab == old(writer)@.tab,
    decreases items@, 0nat,
{
    let ghost s0 = writer@;
    let mut i: usize = 0;
    while i < items.len()
        invariant
            i <= items@.len(),
            kt_fits_all(kt_views(items@), room_of(s0)),
            writer@ == kt_write_top(s0, kt_views(items@.take(i as int))),
            writer@.level == s0.level,
            writer@.tab == s0.tab,
        decreases items@.len() - i,
    {
        proof {
            assert(decreases_to!(items@ => items@[i as int]));
            assert(items@.take(i + 1).drop_last() =~= items@.take(i as int));
            lemma_kt_views(items@);
            lemma_kt_views(items@.take(i as int));
            lemma_kt_views_take(items@, i as int);
            assert(kt_fits(items@[i as int]@, room_of(s0)));
        }
        writer.write_tabs();
        match &items[i] {
            KotlinIR::Gap => {},
            item => {
                writer.write_tabs();
                write_token(writer, item);
            },
        }
        writer.new_line();
        i = i + 1;
    }
    assert(items@.take(items@.len() as int) =~= items@);
}

fn write_opt(writer: &mut Writer, prefix: &str, t: &Option<Box<KotlinIR>>)
    requires
        (*t matches Some(b) ==> kt_fits((*b)@, room_of(old(writer)@))),
    ensures
        final(writer)@ == kt_write_opt(old(writer)@, prefix@, kt_view_opt(*t)),
        final(writer)@.level == old(writer)@.level,
        final(writer)@.tab == old(writer)@.tab,
    decreases t, 0nat,
{
    if let Some(b) = t {
        writer.write(prefix);
        write_token(writer, b);
    }
}

fn write_private_set(writer: &mut Writer, is_private_set: bool)
    requires
        is_private_set ==> room_of(old(writer)@) >= 1,
    ensures
        final(writer)@ == kt_private_set(old(writer)@, is_private_set),
        final(writer)@.level == old(writer)@.level,
        final(writer)@.tab == old(writer)@.tab,
{
    if is_private_set {
        writer.new_line();
        writer.push_tab();
        writer.write_tabs();
        writer.write("private set");
        writer.pop_tab();
    }
}

fn write_body_break(writer: &mut Writer, body: &KotlinIR)
    ensures
        final(writer)@ == kt_body_break(old(writer)@, body@),
{
    match body {
        KotlinIR::Statements { items } => {
            proof { lemma_kt_views(items@); }
            if items.len() > 0 {
                writer.new_line();
            }
        },
        _ => writer.new_line(),
    }
}

fn write_block(writer: &mut Writer, body: &Vec<KotlinIR>)
    requires
        body@.len() > 0 ==> room_of(old(writer)@) >= 1 && kt_fits_all(kt_views(body@), (room_of(old(writer)@) - 1) as nat),
    ensures
        final(writer)@ == kt_block(old(writer)@, kt_views(body@)),
        final(writer)@.level == old(writer)@.level,
        final(writer)@.tab == old(writer)@.tab,
    decreases body@, 1nat,
{
    proof { lemma_kt_views(body@); }
    if body.len() > 0 {
        writer.write(" {");
        writer.new_line();
        writer.push_tab();
        write_tokens(writer, body.as_slice());
        writer.pop_tab();
        writer.writeln("}");
    } else {
        writer.new_line();
    }
}

fn write_object(writer: &mut Writer, token: &KotlinIR)
    requires
        token is Object,
        kt_fits(token@, room_of(old(writer)@)),
    ensures
        final(writer)@ == kt_write(old(writer)@, token@),
        final(writer)@.level == old(writer)@.level,
        final(writer)@.tab == old(writer)@.tab,
    decreases token, 1nat,
{
    if let KotlinIR::Object { id, is_data_object, body, extends } = token {
        proof {
            lemma_kt_views(body@);
            lemma_kt_views(extends@);
        }
        writer.write_tabs();
        if *is_data_object {
            writer.write("data ");
        }
        let name = to_case(id.as_str(), TextCase::Pascal);
        writer.write(cat("object ", name.as_str()).as_str());
        if extends.len() > 0 {
            writer.write(" : ");
            write_tokens_separated(writer, extends.as_slice(), ", ");
        }
        write_block(writer, body);
    }
}

fn write_class(writer: &mut Writer, token: &KotlinIR)
    requires
        token is Class,
        kt_fits(token@, room_of(old(writer)@)),
    ensures
        final(writer)@ == kt_write(old(writer)@, token@),
        final(writer)@.level == old(writer)@.level,
        final(writer)@.tab == old(writer)@.tab,
    decreases token, 1nat,
{
    if let KotlinIR::Class { id, is_data_class, extends, fields, body } = token {
        proof {
            lemma_kt_views(body@);
            lemma_kt_views(extends@);
            lemma_kt_views(fields@);
        }
        writer.write_tabs();
        if *is_data_class {
            writer.write("data ");
        }
        let name = to_case(id.as_str(), TextCase::Pascal);
        writer.write(cat3("class ", name.as_str(), "(").as_str());
        if fields.len() == 0 {
            writer.write(")");
        } else {
            writer.new_line();
            writer.push_tab();
            write_tokens(writer, fields.as_slice());
            writer.pop_tab();
            writer.write(")");
        }
        if extends.len() > 0 {
            writer.write(" : ");
            write_tokens_separated(writer, extends.as_slice(), ", ");
        }
        write_block(writer, body);
    }
}

fn write_interface(writer: &mut Writer, token: &KotlinIR)
    requires
        token is Interface || token is CompanionObject,
        kt_fits(token@, room_of(old(writer)@)),
    ensures
        final(writer)@ == kt_write(old(writer)@, token@),
        final(writer)@.level == old(writer)@.level,
        final(writer)@.tab == old(writer)@.tab,
    decreases token, 1nat,
{
    match token {
        KotlinIR::Interface { id, is_sealed, body } => {
            writer.write_tabs();
            if *is_sealed {
                writer.write("sealed ");
            }
            writer.writeln(cat3("interface ", id.as_str(), " {").as_str());
            writer.push_tab();
            write_tokens(writer, body.as_slice());
            writer.pop_tab();
            writer.writeln("}");
        },
        KotlinIR::CompanionObject { body } => {
            writer.writeln("companion object {");
            writer.push_tab();
            write_tokens(writer, body.as_slice());
            writer.pop_tab();
            writer.writeln("}");
        },
        _ => {},
    }
}

fn write_declaration(writer: &mut Writer, token: &KotlinIR)
    requires
        token is ValDeclaration || token is VarDeclaration || token is ValGetterDeclaration,
        kt_fits(token@, room_of(old(writer)@)),
    ensures
        final(writer)@ == kt_write(old(writer)@, token@),
        final(writer)@.level == old(writer)@.level,
        final(writer)@.tab == old(writer)@.tab,
    decreases token, 1nat,
{
    match token {
        KotlinIR::ValDeclaration { id, is_const, is_private, is_private_set, type_id, value } => {
            if *is_private {
                writer.write("private ");
            }
            if *is_const {
                writer.write("const ");
            }
            writer.write(cat("val ", id.as_str()).as_str());
            write_opt(writer, ": ", type_id);
            write_opt(writer, " = ", value);
            write_private_set(writer, *is_private_set);
        },
        KotlinIR::VarDeclaration { id, is_const, is_private, is_private_set, type_id, value } => {
            if *is_private {
                writer.write("private ");
            }
            if *is_const {
                writer.write("const ");
            }
            writer.write(cat("var ", id.as_str()).as_str());
            write_opt(writer, ": ", type_id);
            write_opt(writer, " = ", value);
            write_private_set(writer, *is_private_set);
        },
        KotlinIR::ValGetterDeclaration { id, is_private, is_private_set, type_id, value } => {
            if *is_private {
                writer.write("private ");
            }
            writer.write(cat("val ", id.as_str()).as_str());
            write_opt(writer, ": ", type_id);
            write_opt(writer, " get() = ", value);
            write_private_set(writer, *is_private_set);
        },
        _ => {},
    }
}

fn write_fun(writer: &mut Writer, token: &KotlinIR)
    requires
        token is Fun || token is FunInline,
        kt_fits(token@, room_of(old(writer)@)),
    ensures
        final(writer)@ == kt_write(old(writer)@, token@),
        final(writer)@.level == old(writer)@.level,
        final(writer)@.tab == old(writer)@.tab,
    decreases token, 1nat,
{
    match token {
        KotlinIR::FunInline { id, arguments, return_type_id, body } => {
            proof { lemma_kt_views(arguments@); }
            writer.write_tabs();
            writer.write(cat3("fun ", id.as_str(), "(").as_str());
            if arguments.len() > 0 {
                writer.new_line();
                writer.push_tab();
                write_tokens(writer, arguments.as_slice());
                writer.pop_tab();
                writer.new_line();
            }
            writer.write("): ");
            write_token(writer, return_type_id);
            writer.write(" = ");
            write_token(writer, body);
            writer.new_line();
        },
        KotlinIR::Fun { id, arguments, return_type_id, is_override, body } => {
            writer.write_tabs();
            if *is_override {
                writer.write("override ");
            }
            writer.write(cat3("fun ", id.as_str(), "(").as_str());
            if let Some(arguments) = arguments {
                write_token(writer, arguments);
            }
            if let Some(return_type_id) = return_type_id {
                writer.write("): ");
                write_token(writer, return_type_id);
            } else {
                writer.write(")");
            }
            if let Some(body) = body {
                writer.write(" {");
                writer.new_line();
                writer.push_tab();
                write_token(writer, body);
                writer.pop_tab();
                write_body_break(writer, body);
                writer.write_tabs();
                writer.write("}");
            }
            writer.new_line();
        },
        _ => {},
    }
}

fn write_nested(writer: &mut Writer, token: &KotlinIR)
    requires
        token is TrailingBlock || token is ForLoop || token is When,
        kt_fits(token@, room_of(old(writer)@)),
    ensures
        final(writer)@ == kt_write(old(writer)@, token@),
        final(writer)@.level == old(writer)@.level,
        final(writer)@.tab == old(writer)@.tab,
    decreases token, 1nat,
{
    match token {
        KotlinIR::TrailingBlock { call, arguments, body } => {
            write_token(writer, call);
            writer.write(" {");
            if let Some(arguments) = arguments {
                writer.write(" ");
                write_token(writer, arguments);
                writer.write(" ->");
            }
            writer.new_line();
            writer.push_tab();
            write_token(writer, body);
            writer.pop_tab();
            write_body_break(writer, body);
            writer.write_tabs();
            writer.write("}");
        },
        KotlinIR::ForLoop { item, collection_expr, body } => {
            writer.write("for (");
            if let Some(item) = item {
                write_token(writer, item);
            } else {
                writer.write("i");
            }
            writer.write(" in ");
            write_token(writer, collection_expr);
            writer.write(") {");
            writer.new_line();
            writer.push_tab();
            write_token(writer, body);
            writer.pop_tab();
            writer.new_line();
            writer.write_tabs();
            writer.write("}");
        },
        KotlinIR::When { item, body } => {
            writer.write("when (");
            write_token(writer, item);
            writer.write(") {");
            writer.new_line();
            writer.push_tab();
            write_token(writer, body);
            writer.pop_tab();
            writer.new_line();
            writer.write_tabs();
            writer.write("}");
        },
        _ => {},
    }
}

fn write_list(writer: &mut Writer, token: &KotlinIR)
    requires
        token is List,
        kt_fits(token@, room_of(old(writer)@)),
    ensures
        final(writer)@ == kt_write(old(writer)@, token@),
        final(writer)@.level == old(writer)@.level,
        final(writer)@.tab == old(writer)@.tab,
    decreases token, 1nat,
{
    if let KotlinIR::List { items, separator, new_line } = token {
        let open = *new_line && items.len() > 0;
        if open {
            writer.new_line();
            writer.push_tab();
        }
        write_list_items(writer, items, separator, *new_line);
        if open {
            writer.write(separator);
            writer.new_line();
            writer.pop_tab();
            writer.write_tabs();
        }
    }
}

fn write_expression(writer: &mut Writer, token: &KotlinIR)
    requires
        token is Range || token is Call || token is Assign || token is WhenCase || token is Throw
            || token is FunctionArgument || token is ReturnStatement || token is Declaration,
        kt_fits(token@, room_of(old(writer)@)),
    ensures
        final(writer)@ == kt_write(old(writer)@, token@),
        final(writer)@.level == old(writer)@.level,
        final(writer)@.tab == old(writer)@.tab,
    decreases token, 1nat,
{
    match token {
        KotlinIR::Declaration { body, separator } => {
            writer.write_tabs();
            write_token(writer, body);
            if let Some(separator) = separator {
                writer.write(separator);
            }
            writer.new_line();
        },
        KotlinIR::Range { from, to, inclusive } => {
            write_token(writer, from);
            if !*inclusive {
                writer.write("..<");
            } else {
                writer.write("..");
            }
            write_token(writer, to);
        },
        KotlinIR::Call { id, arguments } => {
            writer.write(id.as_str());
            if let Some(arguments) = arguments {
                writer.write("(");
                write_token(writer, arguments);
                writer.write(")");
            } else {
                writer.write("()");
            }
        },
        KotlinIR::Assign { id, value } => {
            let name = to_case(id.as_str(), TextCase::Camel);
            writer.write(cat(name.as_str(), " = ").as_str());
            write_token(writer, value);
        },
        KotlinIR::WhenCase { item, body } => {
            write_token(writer, item);
            writer.write(" -> ");
            write_token(writer, body);
        },
        KotlinIR::Throw { body } => {
            writer.write("throw ");
            write_token(writer, body);
        },
        KotlinIR::FunctionArgument { id, type_id } => {
            writer.write(id.as_str());
            writer.write(": ");
            write_token(writer, type_id);
        },
        KotlinIR::ReturnStatement { body } => {
            writer.write("return ");
            write_token(writer, body);
        },
        _ => {},
    }
}

/// Writes one token.
fn write_token(writer: &mut Writer, token: &KotlinIR)
    requires
        kt_fits(token@, room_of(old(writer)@)),
    ensures
        final(writer)@ == kt_write(old(writer)@, token@),
        final(writer)@.level == old(writer)@.level,
        final(writer)@.tab == old(writer)@.tab,
    decreases token, 2nat,
{
    match token {
        KotlinIR::Gap => writer.new_line(),
        KotlinIR::Id(id) => writer.write(id.as_str()),
        KotlinIR::TypeId(type_id) => writer.write(generate_type_id(type_id).as_str()),
        KotlinIR::ConstValueExpr { type_id, value } => writer.write(generate_const_value(type_id, value).as_str()),
        KotlinIR::DefaultConstValueExpr(type_id) => writer.write(generate_default_const_value(type_id).as_str()),
        KotlinIR::Object { .. } => write_object(writer, token),
        KotlinIR::Class { .. } => write_class(writer, token),
        KotlinIR::Interface { .. } => write_interface(writer, token),
        KotlinIR::CompanionObject { .. } => write_interface(writer, token),
        KotlinIR::ValDeclaration { .. } => write_declaration(writer, token),
        KotlinIR::VarDeclaration { .. } => write_declaration(writer, token),
        KotlinIR::ValGetterDeclaration { .. } => write_declaration(writer, token),
        KotlinIR::FunInline { .. } => write_fun(writer, token),
        KotlinIR::Fun { .. } => write_fun(writer, token),
        KotlinIR::TrailingBlock { .. } => write_nested(writer, token),
        KotlinIR::ForLoop { .. } => write_nested(writer, token),
        KotlinIR::When { .. } => write_nested(writer, token),
        KotlinIR::List { .. } => write_list(writer, token),
        KotlinIR::Statements { items } => write_statements(writer, items),
        KotlinIR::TopLevelDeclarations { items } => write_top_level(writer, items),
        _ => write_expression(writer, token),
    }
}

} // verus!
