use vstd::prelude::*;
use crate::ast::{ConstValueASTNode, TypeIDASTNode, TypeId, ConstValue, type_ids_view, lemma_type_ids_view};
use crate::lexer::Literal;
use crate::text::{cat, cat3, copy_str, int_text, int_to_text, bool_text, bool_to_text, quoted, quote, str_eq, to_case, case_converted, TextCase};
use crate::writer::{Writer, WriterState, default_writer_state, grows};

verus! {

/// A piece of Swift source: declarations, statements and expressions, as
/// the generators build them before they are written out.
pub enum SwiftIR {
    Struct { id: String, body: Vec<SwiftIR>, extends: Vec<SwiftIR> },
    Gap,
    Id(String),
    TypeId(TypeIDASTNode),
    List { items: Vec<SwiftIR>, separator: &'static str, new_line: bool },
    Statements { items: Vec<SwiftIR> },
    TopLevelDeclarations { items: Vec<SwiftIR> },
    ForLoop { item: Option<Box<SwiftIR>>, collection_expr: Box<SwiftIR>, body: Box<SwiftIR> },
    Switch { item: Box<SwiftIR>, body: Box<SwiftIR> },
    Case { item: Box<SwiftIR>, body: Box<SwiftIR> },
    DefaultCase { body: Box<SwiftIR> },
    Range { from: Box<SwiftIR>, to: Box<SwiftIR> },
    Enum { id: String, body: Vec<SwiftIR>, extends: Vec<SwiftIR> },
    EnumCase { id: String, parameters: Vec<SwiftIR> },
    EnumCaseType { id: Option<String>, type_id: TypeIDASTNode },
    FieldAccess { instance: Option<Box<SwiftIR>>, field: String },
    StructConstField { id: String, type_id: TypeIDASTNode, value: ConstValueASTNode },
    StructField { id: String, type_id: TypeIDASTNode },
    Func {
        id: String,
        is_static: bool,
        return_type_id: Option<Box<SwiftIR>>,
        arguments: Option<Box<SwiftIR>>,
        body: Option<Box<SwiftIR>>,
    },
    VarDeclaration { id: String, is_const: bool, type_id: Option<Box<SwiftIR>>, value: Option<Box<SwiftIR>> },
    StaticVarDeclaration {
        id: String,
        is_const: bool,
        is_private: bool,
        is_private_set: bool,
        type_id: Option<Box<SwiftIR>>,
        value: Option<Box<SwiftIR>>,
    },
    FunctionArgument { id: String, named: bool, type_id: Box<SwiftIR> },
    ReturnStatement { body: Box<SwiftIR> },
    Continue,
    AssignStructNamedArgument { id: String, default_value_type_id: Option<TypeIDASTNode>, value: Option<Box<SwiftIR>> },
    AssignArgument { id: Option<String>, default_value_type_id: TypeIDASTNode, value: Option<Box<SwiftIR>> },
    SetVar { id: String, value: Box<SwiftIR> },
    Call { id: String, arguments: Option<Box<SwiftIR>> },
    ChainCalls { items: Vec<SwiftIR> },
    TrailingCall { id: String, arguments: Option<Box<SwiftIR>>, input: Option<Box<SwiftIR>>, body: Box<SwiftIR> },
    NamedBlock { id: String, body: Box<SwiftIR> },
}

/// The mathematical value of a piece of Swift source: the same tree, with
/// texts as sequences of characters, types and constants by their views.
pub enum SwiftNode {
    Struct { id: Seq<char>, body: Seq<SwiftNode>, extends: Seq<SwiftNode> },
    Gap,
    Id(Seq<char>),
    TypeId(TypeId),
    List { items: Seq<SwiftNode>, separator: Seq<char>, new_line: bool },
    Statements { items: Seq<SwiftNode> },
    TopLevelDeclarations { items: Seq<SwiftNode> },
    ForLoop { item: Option<Box<SwiftNode>>, collection_expr: Box<SwiftNode>, body: Box<SwiftNode> },
    Switch { item: Box<SwiftNode>, body: Box<SwiftNode> },
    Case { item: Box<SwiftNode>, body: Box<SwiftNode> },
    DefaultCase { body: Box<SwiftNode> },
    Range { from: Box<SwiftNode>, to: Box<SwiftNode> },
    Enum { id: Seq<char>, body: Seq<SwiftNode>, extends: Seq<SwiftNode> },
    EnumCase { id: Seq<char>, parameters: Seq<SwiftNode> },
    EnumCaseType { id: Option<Seq<char>>, type_id: TypeId },
    FieldAccess { instance: Option<Box<SwiftNode>>, field: Seq<char> },
    StructConstField { id: Seq<char>, type_id: TypeId, value: ConstValue },
    StructField { id: Seq<char>, type_id: TypeId },
    Func {
        id: Seq<char>,
        is_static: bool,
        return_type_id: Option<Box<SwiftNode>>,
        arguments: Option<Box<SwiftNode>>,
        body: Option<Box<SwiftNode>>,
    },
    VarDeclaration { id: Seq<char>, is_const: bool, type_id: Option<Box<SwiftNode>>, value: Option<Box<SwiftNode>> },
    StaticVarDeclaration {
        id: Seq<char>,
        is_const: bool,
        is_private: bool,
        is_private_set: bool,
        type_id: Option<Box<SwiftNode>>,
        value: Option<Box<SwiftNode>>,
    },
    FunctionArgument { id: Seq<char>, named: bool, type_id: Box<SwiftNode> },
    ReturnStatement { body: Box<SwiftNode> },
    Continue,
    AssignStructNamedArgument { id: Seq<char>, default_value_type_id: Option<TypeId>, value: Option<Box<SwiftNode>> },
    AssignArgument { id: Option<Seq<char>>, default_value_type_id: TypeId, value: Option<Box<SwiftNode>> },
    SetVar { id: Seq<char>, value: Box<SwiftNode> },
    Call { id: Seq<char>, arguments: Option<Box<SwiftNode>> },
    ChainCalls { items: Seq<SwiftNode> },
    TrailingCall { id: Seq<char>, arguments: Option<Box<SwiftNode>>, input: Option<Box<SwiftNode>>, body: Box<SwiftNode> },
    NamedBlock { id: Seq<char>, body: Box<SwiftNode> },
}

/// The view of a token.
pub open spec fn sw_view(t: SwiftIR) -> SwiftNode
    decreases t, 1nat,
{
    match t {
        SwiftIR::Struct { id, body, extends } => SwiftNode::Struct { id: id@, body: sw_views(body@), extends: sw_views(extends@) },
        SwiftIR::Gap => SwiftNode::Gap,
        SwiftIR::Id(id) => SwiftNode::Id(id@),
        SwiftIR::TypeId(type_id) => SwiftNode::TypeId(type_id@),
        SwiftIR::List { items, separator, new_line } => SwiftNode::List { items: sw_views(items@), separator: separator@, new_line },
        SwiftIR::Statements { items } => SwiftNode::Statements { items: sw_views(items@) },
        SwiftIR::TopLevelDeclarations { items } => SwiftNode::TopLevelDeclarations { items: sw_views(items@) },
        SwiftIR::ForLoop { item, collection_expr, body } => SwiftNode::ForLoop {
            item: match item { Some(b) => Some(Box::new(sw_view(*b))), None => None },
            collection_expr: Box::new(sw_view(*collection_expr)),
            body: Box::new(sw_view(*body)),
        },
        SwiftIR::Switch { item, body } => SwiftNode::Switch { item: Box::new(sw_view(*item)), body: Box::new(sw_view(*body)) },
        SwiftIR::Case { item, body } => SwiftNode::Case { item: Box::new(sw_view(*item)), body: Box::new(sw_view(*body)) },
        SwiftIR::DefaultCase { body } => SwiftNode::DefaultCase { body: Box::new(sw_view(*body)) },
        SwiftIR::Range { from, to } => SwiftNode::Range { from: Box::new(sw_view(*from)), to: Box::new(sw_view(*to)) },
        SwiftIR::Enum { id, body, extends } => SwiftNode::Enum { id: id@, body: sw_views(body@), extends: sw_views(extends@) },
        SwiftIR::EnumCase { id, parameters } => SwiftNode::EnumCase { id: id@, parameters: sw_views(parameters@) },
        SwiftIR::EnumCaseType { id, type_id } => SwiftNode::EnumCaseType {
            id: match id { Some(i) => Some(i@), None => None },
            type_id: type_id@,
        },
        SwiftIR::FieldAccess { instance, field } => SwiftNode::FieldAccess {
            instance: match instance { Some(b) => Some(Box::new(sw_view(*b))), None => None },
            field: field@,
        },
        SwiftIR::StructConstField { id, type_id, value } => SwiftNode::StructConstField { id: id@, type_id: type_id@, value: value@ },
        SwiftIR::StructField { id, type_id } => SwiftNode::StructField { id: id@, type_id: type_id@ },
        SwiftIR::Func { id, is_static, return_type_id, arguments, body } => SwiftNode::Func {
            id: id@,
            is_static,
            return_type_id: match return_type_id { Some(b) => Some(Box::new(sw_view(*b))), None => None },
            arguments: match arguments { Some(b) => Some(Box::new(sw_view(*b))), None => None },
            body: match body { Some(b) => Some(Box::new(sw_view(*b))), None => None },
        },
        SwiftIR::VarDeclaration { id, is_const, type_id, value } => SwiftNode::VarDeclaration {
            id: id@,
            is_const,
            type_id: match type_id { Some(b) => Some(Box::new(sw_view(*b))), None => None },
            value: match value { Some(b) => Some(Box::new(sw_view(*b))), None => None },
        },
        SwiftIR::StaticVarDeclaration { id, is_const, is_private, is_private_set, type_id, value } => SwiftNode::StaticVarDeclaration {
            id: id@,
            is_const,
            is_private,
            is_private_set,
            type_id: match type_id { Some(b) => Some(Box::new(sw_view(*b))), None => None },
            value: match value { Some(b) => Some(Box::new(sw_view(*b))), None => None },
        },
        SwiftIR::FunctionArgument { id, named, type_id } => SwiftNode::FunctionArgument {
            id: id@,
            named,
            type_id: Box::new(sw_view(*type_id)),
        },
        SwiftIR::ReturnStatement { body } => SwiftNode::ReturnStatement { body: Box::new(sw_view(*body)) },
        SwiftIR::Continue => SwiftNode::Continue,
        SwiftIR::AssignStructNamedArgument { id, default_value_type_id, value } => SwiftNode::AssignStructNamedArgument {
            id: id@,
            default_value_type_id: match default_value_type_id { Some(d) => Some(d@), None => None },
            value: match value { Some(b) => Some(Box::new(sw_view(*b))), None => None },
        },
        SwiftIR::AssignArgument { id, default_value_type_id, value } => SwiftNode::AssignArgument {
            id: match id { Some(i) => Some(i@), None => None },
            default_value_type_id: default_value_type_id@,
            value: match value { Some(b) => Some(Box::new(sw_view(*b))), None => None },
        },
        SwiftIR::SetVar { id, value } => SwiftNode::SetVar { id: id@, value: Box::new(sw_view(*value)) },
        SwiftIR::Call { id, arguments } => SwiftNode::Call {
            id: id@,
            arguments: match arguments { Some(b) => Some(Box::new(sw_view(*b))), None => None },
        },
        SwiftIR::ChainCalls { items } => SwiftNode::ChainCalls { items: sw_views(items@) },
        SwiftIR::TrailingCall { id, arguments, input, body } => SwiftNode::TrailingCall {
            id: id@,
            arguments: match arguments { Some(b) => Some(Box::new(sw_view(*b))), None => None },
            input: match input { Some(b) => Some(Box::new(sw_view(*b))), None => None },
            body: Box::new(sw_view(*body)),
        },
        SwiftIR::NamedBlock { id, body } => SwiftNode::NamedBlock { id: id@, body: Box::new(sw_view(*body)) },
    }
}

/// The views of tokens, in order.
pub open spec fn sw_views(ts: Seq<SwiftIR>) -> Seq<SwiftNode>
    decreases ts, 0nat,
{
    if ts.len() == 0 {
        Seq::empty()
    } else {
        sw_views(ts.drop_last()).push(sw_view(ts.last()))
    }
}

/// The view of an optional token.
pub open spec fn sw_view_opt(t: Option<Box<SwiftIR>>) -> Option<Box<SwiftNode>> {
    match t {
        Some(b) => Some(Box::new(sw_view(*b))),
        None => None,
    }
}

impl View for SwiftIR {
    type V = SwiftNode;

    open spec fn view(&self) -> SwiftNode {
        sw_view(*self)
    }
}

/// The views of tokens are the tokens' views, one for one.
pub proof fn lemma_sw_views(ts: Seq<SwiftIR>)
    ensures
        sw_views(ts).len() == ts.len(),
        forall|i: int| 0 <= i < ts.len() ==> #[trigger] sw_views(ts)[i] == ts[i]@,
    decreases ts.len(),
{
    if ts.len() > 0 {
        lemma_sw_views(ts.drop_last());
        assert forall|i: int| 0 <= i < ts.len() implies #[trigger] sw_views(ts)[i] == ts[i]@ by {
            if i < ts.len() - 1 {
                assert(ts[i] == ts.drop_last()[i]);
            }
        }
    }
}

/// Tokens whose views are, one for one, the given nodes have those nodes
/// as their views.
pub proof fn lemma_sw_views_eq(ts: Seq<SwiftIR>, ns: Seq<SwiftNode>)
    requires
        ts.len() == ns.len(),
        forall|i: int| 0 <= i < ts.len() ==> #[trigger] ts[i]@ == ns[i],
    ensures
        sw_views(ts) == ns,
{
    lemma_sw_views(ts);
    assert(sw_views(ts) =~= ns);
}

/// Pushing a token adds its view at the end.
pub proof fn lemma_sw_views_push(ts: Seq<SwiftIR>, t: SwiftIR)
    ensures
        sw_views(ts.push(t)) == sw_views(ts).push(t@),
{
    assert(ts.push(t).drop_last() =~= ts);
}

/// Taking one more token adds its view at the end.
pub proof fn lemma_sw_views_take(ts: Seq<SwiftIR>, i: int)
    requires
        0 <= i < ts.len(),
    ensures
        sw_views(ts.take(i + 1)) == sw_views(ts.take(i)).push(ts[i]@),
        sw_views(ts.take(i + 1)).drop_last() == sw_views(ts.take(i)),
        sw_views(ts.take(i + 1)).last() == ts[i]@,
        sw_views(ts.take(i + 1)).len() == i + 1,
        i > 0 ==> sw_views(ts.take(i + 1))[i - 1] == ts[i - 1]@,
        sw_views(ts)[i] == ts[i]@,
{
    assert(ts.take(i + 1).drop_last() =~= ts.take(i));
    lemma_sw_views(ts);
    lemma_sw_views(ts.take(i));
    assert(sw_views(ts.take(i)).push(ts[i]@).drop_last() =~= sw_views(ts.take(i)));
    if i > 0 {
        assert(ts.take(i)[i - 1] == ts[i - 1]);
    }
}

/// The kinds of neighbouring tokens that a blank line separates, in one
/// direction.
pub open spec fn swift_gap_pair(a: SwiftNode, b: SwiftNode) -> bool {
    ||| a is Struct && b is Struct
    ||| a is Struct && b is Enum
    ||| a is Enum && b is Enum
    ||| a is Struct && b is StructConstField
    ||| a is Struct && b is StructField
    ||| a is Func && b is Func
    ||| a is Func && b is StructConstField
    ||| a is Func && b is StructField
    ||| a is Func && b is EnumCase
    ||| a is Func && b is TopLevelDeclarations
    ||| a is TopLevelDeclarations && b is TopLevelDeclarations
    ||| a is Statements && b is Statements
    ||| a is Statements && b is ReturnStatement
}

/// Whether a blank line stands between two neighbouring tokens.
pub open spec fn swift_gap(a: SwiftNode, b: SwiftNode) -> bool {
    swift_gap_pair(a, b) || swift_gap_pair(b, a)
}

/// Whether a blank line separates two tokens does not depend on their
/// order.
pub proof fn lemma_swift_gap_symmetric(a: SwiftNode, b: SwiftNode)
    ensures
        swift_gap(a, b) == swift_gap(b, a),
{
}

/// Writing a token keeps all that was written before: the earlier text is
/// a prefix of the later one, and the unit of indentation is unchanged.
pub proof fn lemma_swift_write_keeps_text(s: WriterState, t: SwiftNode)
    ensures
        s.text.is_prefix_of(sw_write(s, t).text),
        sw_write(s, t).tab == s.tab,
{
    lemma_sw_grows(s, t);
    assert(s.text =~= sw_write(s, t).text.subrange(0, s.text.len() as int));
}

proof fn lemma_sw_grows(s: WriterState, t: SwiftNode)
    ensures
        grows(s, sw_write(s, t)),
    decreases t, 2nat,
{
    match t {
        SwiftNode::List { .. } => lemma_sw_flow_grows(s, t),
        SwiftNode::TopLevelDeclarations { .. } => lemma_sw_flow_grows(s, t),
        SwiftNode::Statements { .. } => lemma_sw_flow_grows(s, t),
        SwiftNode::Range { .. } => lemma_sw_flow_grows(s, t),
        SwiftNode::ForLoop { .. } => lemma_sw_flow_grows(s, t),
        SwiftNode::Switch { .. } => lemma_sw_flow_grows(s, t),
        SwiftNode::Case { .. } => lemma_sw_flow_grows(s, t),
        SwiftNode::DefaultCase { .. } => lemma_sw_flow_grows(s, t),
        SwiftNode::VarDeclaration { .. } => lemma_sw_decl_grows(s, t),
        SwiftNode::StaticVarDeclaration { .. } => lemma_sw_decl_grows(s, t),
        SwiftNode::Struct { .. } => lemma_sw_decl_grows(s, t),
        SwiftNode::Func { .. } => lemma_sw_decl_grows(s, t),
        SwiftNode::FunctionArgument { .. } => lemma_sw_decl_grows(s, t),
        SwiftNode::ReturnStatement { .. } => lemma_sw_decl_grows(s, t),
        SwiftNode::AssignStructNamedArgument { .. } => lemma_sw_decl_grows(s, t),
        SwiftNode::SetVar { .. } => lemma_sw_decl_grows(s, t),
        SwiftNode::AssignArgument { .. } => lemma_sw_decl_grows(s, t),
        SwiftNode::Call { .. } => lemma_sw_call_grows(s, t),
        SwiftNode::ChainCalls { .. } => lemma_sw_call_grows(s, t),
        SwiftNode::NamedBlock { .. } => lemma_sw_call_grows(s, t),
        SwiftNode::TrailingCall { .. } => lemma_sw_call_grows(s, t),
        SwiftNode::Enum { .. } => lemma_sw_call_grows(s, t),
        SwiftNode::EnumCase { .. } => lemma_sw_call_grows(s, t),
        SwiftNode::FieldAccess { .. } => lemma_sw_call_grows(s, t),
        _ => {},
    }
}

proof fn lemma_sw_flow_grows(s: WriterState, t: SwiftNode)
    requires
        t is List || t is TopLevelDeclarations || t is Statements || t is Range || t is ForLoop || t is Switch
            || t is Case || t is DefaultCase,
    ensures
        grows(s, sw_write(s, t)),
    decreases t, 1nat,
{
    match t {
        SwiftNode::List { items, separator, new_line } => {
            let open = new_line && items.len() > 0;
            let s1 = if open { s.new_lined().pushed() } else { s };
            lemma_sw_list_grows(s1, items, separator, new_line);
        },
        SwiftNode::TopLevelDeclarations { items } => lemma_sw_top_grows(s, items),
        SwiftNode::Statements { items } => lemma_sw_statements_grows(s, items),
        SwiftNode::Range { from, to } => {
            lemma_sw_grows(s, *from);
            lemma_sw_grows(sw_write(s, *from).wrote("..."@), *to);
        },
        SwiftNode::ForLoop { item, collection_expr, body } => {
            let s1 = s.wrote("for "@);
            match item {
                Some(i) => lemma_sw_grows(s1, *i),
                None => {},
            }
            let s2 = match item {
                Some(i) => sw_write(s1, *i),
                None => s1.wrote("_"@),
            };
            lemma_sw_grows(s2.wrote(" in "@), *collection_expr);
            let s3 = sw_write(s2.wrote(" in "@), *collection_expr).wrote(" {"@).new_lined().pushed();
            lemma_sw_grows(s3, *body);
        },
        SwiftNode::Switch { item, body } => {
            lemma_sw_grows(s.wrote("switch "@), *item);
            let s1 = sw_write(s.wrote("switch "@), *item).wrote(" {"@).new_lined();
            lemma_sw_grows(s1, *body);
        },
        SwiftNode::Case { item, body } => {
            lemma_sw_grows(s.wrote("case "@), *item);
            let s1 = sw_write(s.wrote("case "@), *item).wrote(":"@).new_lined().pushed();
            lemma_sw_grows(s1, *body);
        },
        SwiftNode::DefaultCase { body } => lemma_sw_grows(s.wrote("default:"@).new_lined().pushed(), *body),
        _ => {},
    }
}

proof fn lemma_sw_decl_grows(s: WriterState, t: SwiftNode)
    requires
        t is VarDeclaration || t is StaticVarDeclaration || t is Struct || t is Func || t is FunctionArgument
            || t is ReturnStatement || t is AssignStructNamedArgument || t is SetVar || t is AssignArgument,
    ensures
        grows(s, sw_write(s, t)),
    decreases t, 1nat,
{
    match t {
        SwiftNode::VarDeclaration { id, is_const, type_id, value } => {
            let s1 = if is_const { s.wrote("let "@) } else { s.wrote("var "@) };
            lemma_sw_opt_grows(s1.wrote(id), ": "@, type_id);
            lemma_sw_opt_grows(sw_write_opt(s1.wrote(id), ": "@, type_id), " = "@, value);
        },
        SwiftNode::StaticVarDeclaration { id, is_const, is_private, is_private_set, type_id, value } => {
            let s1 = if is_private {
                if is_private_set { s.wrote("private(set) "@) } else { s.wrote("private "@) }
            } else {
                s
            };
            let s2 = s1.wrote("static "@);
            let s3 = if is_const { s2.wrote("let "@) } else { s2.wrote("var "@) };
            lemma_sw_opt_grows(s3.wrote(id), ": "@, type_id);
            lemma_sw_opt_grows(sw_write_opt(s3.wrote(id), ": "@, type_id), " = "@, value);
        },
        SwiftNode::Struct { id, body, extends } => {
            let s1 = s.tabbed().wrote("struct "@ + id);
            if extends.len() > 0 {
                lemma_sw_sep_grows(s1.wrote(": "@), extends, ", "@);
            }
            let s2 = if extends.len() > 0 { sw_write_sep(s1.wrote(": "@), extends, ", "@) } else { s1 };
            lemma_sw_block_grows(s2, body);
        },
        SwiftNode::Func { id, is_static, return_type_id, arguments, body } => {
            let s1 = s.tabbed();
            let s2 = if is_static { s1.wrote("static "@) } else { s1 };
            let s3a = s2.wrote("func "@ + id + "("@);
            match arguments {
                Some(a) => lemma_sw_grows(s3a, *a),
                None => {},
            }
            let s3 = match arguments {
                Some(a) => sw_write(s3a, *a),
                None => s3a,
            };
            match return_type_id {
                Some(r) => lemma_sw_grows(s3.wrote(") -> "@), *r),
                None => {},
            }
            let s4 = match return_type_id {
                Some(r) => sw_write(s3.wrote(") -> "@), *r),
                None => s3.wrote(")"@),
            };
            let s5 = s4.wrote(" {"@).new_lined();
            match body {
                Some(b) => lemma_sw_grows(s5.pushed(), *b),
                None => {},
            }
        },
        SwiftNode::FunctionArgument { id, named, type_id } => {
            let s1 = if !named { s.wrote("_ "@) } else { s };
            lemma_sw_grows(s1.wrote(id).wrote(": "@), *type_id);
        },
        SwiftNode::ReturnStatement { body } => lemma_sw_grows(s.wrote("return "@), *body),
        SwiftNode::AssignStructNamedArgument { id, default_value_type_id, value } => {
            match value {
                Some(v) => lemma_sw_grows(s.wrote(case_converted(id, TextCase::Camel) + ": "@), *v),
                None => {},
            }
        },
        SwiftNode::SetVar { id, value } => lemma_sw_grows(s.wrote(id + " = "@), *value),
        SwiftNode::AssignArgument { id, default_value_type_id, value } => {
            let s1 = match id {
                Some(i) => s.wrote("/* "@ + case_converted(i, TextCase::Camel) + " */ "@),
                None => s,
            };
            lemma_sw_value_grows(s1, value, default_value_type_id);
        },
        _ => {},
    }
}

proof fn lemma_sw_call_grows(s: WriterState, t: SwiftNode)
    requires
        t is Call || t is ChainCalls || t is NamedBlock || t is TrailingCall || t is Enum || t is EnumCase
            || t is FieldAccess,
    ensures
        grows(s, sw_write(s, t)),
    decreases t, 1nat,
{
    match t {
        SwiftNode::Call { id, arguments } => {
            match arguments {
                Some(a) => lemma_sw_grows(s.wrote(id).wrote("("@), *a),
                None => {},
            }
        },
        SwiftNode::ChainCalls { items } => lemma_sw_chain_grows(s.pushed(), items),
        SwiftNode::NamedBlock { id, body } => lemma_sw_grows(s.wrote(id).wrote(" {"@).new_lined().pushed(), *body),
        SwiftNode::TrailingCall { id, arguments, input, body } => {
            let s1 = s.wrote(id);
            match arguments {
                Some(a) => lemma_sw_grows(s1.wrote("("@), *a),
                None => {},
            }
            let s2 = match arguments {
                Some(a) => sw_write(s1.wrote("("@), *a).wrote(")"@),
                None => s1.wrote("()"@),
            };
            let s3 = s2.wrote(" {"@);
            match input {
                Some(i) => lemma_sw_grows(s3.wrote(" "@), *i),
                None => {},
            }
            let s4 = match input {
                Some(i) => sw_write(s3.wrote(" "@), *i).wrote(" in"@),
                None => s3,
            };
            lemma_sw_grows(s4.new_lined().pushed(), *body);
        },
        SwiftNode::Enum { id, body, extends } => {
            let s1 = s.tabbed().wrote("enum "@ + case_converted(id, TextCase::Pascal));
            if extends.len() > 0 {
                lemma_sw_sep_grows(s1.wrote(": "@), extends, ", "@);
            }
            let s2 = if extends.len() > 0 { sw_write_sep(s1.wrote(": "@), extends, ", "@) } else { s1 };
            lemma_sw_block_grows(s2, body);
        },
        SwiftNode::EnumCase { id, parameters } => {
            if parameters.len() > 0 {
                let s1 = s.wrote_line("case "@ + case_converted(id, TextCase::Camel) + "("@).pushed();
                lemma_sw_comma_sep_grows(s1, parameters);
            }
        },
        SwiftNode::FieldAccess { instance, field } => {
            match instance {
                Some(i) => lemma_sw_grows(s, *i),
                None => {},
            }
        },
        _ => {},
    }
}

proof fn lemma_sw_opt_grows(s: WriterState, prefix: Seq<char>, t: Option<Box<SwiftNode>>)
    ensures
        grows(s, sw_write_opt(s, prefix, t)),
    decreases t, 0nat,
{
    match t {
        Some(b) => lemma_sw_grows(s.wrote(prefix), *b),
        None => {},
    }
}

proof fn lemma_sw_value_grows(s: WriterState, value: Option<Box<SwiftNode>>, type_id: TypeId)
    ensures
        grows(s, sw_value_or_default(s, value, type_id)),
    decreases value, 0nat,
{
    match value {
        Some(v) => lemma_sw_grows(s, *v),
        None => {},
    }
}

proof fn lemma_sw_block_grows(s: WriterState, body: Seq<SwiftNode>)
    ensures
        grows(s, sw_block(s, body)),
    decreases body, 1nat,
{
    lemma_sw_all_grows(s.wrote(" {"@).new_lined().pushed(), body);
}

proof fn lemma_sw_all_grows(s: WriterState, ts: Seq<SwiftNode>)
    ensures
        grows(s, sw_write_all(s, ts)),
    decreases ts, 0nat,
{
    if ts.len() > 0 {
        lemma_sw_all_grows(s, ts.drop_last());
        let s1 = sw_write_all(s, ts.drop_last());
        let s2 = if ts.len() > 1 && swift_gap(ts[ts.len() - 2], ts.last()) { s1.new_lined() } else { s1 };
        lemma_sw_grows(s2, ts.last());
    }
}

proof fn lemma_sw_sep_grows(s: WriterState, ts: Seq<SwiftNode>, sep: Seq<char>)
    ensures
        grows(s, sw_write_sep(s, ts, sep)),
    decreases ts, 0nat,
{
    if ts.len() > 0 {
        lemma_sw_sep_grows(s, ts.drop_last(), sep);
        let s1 = sw_write_sep(s, ts.drop_last(), sep);
        let s2 = if ts.len() > 1 { s1.wrote(sep) } else { s1 };
        lemma_sw_grows(s2, ts.last());
    }
}

proof fn lemma_sw_comma_sep_grows(s: WriterState, ts: Seq<SwiftNode>)
    ensures
        grows(s, sw_write_comma_sep(s, ts)),
    decreases ts, 1nat,
{
    if ts.len() > 0 {
        lemma_sw_commas_grows(s, ts.drop_last());
        lemma_sw_grows(sw_write_commas(s, ts.drop_last()).tabbed(), ts.last());
    }
}

proof fn lemma_sw_commas_grows(s: WriterState, ts: Seq<SwiftNode>)
    ensures
        grows(s, sw_write_commas(s, ts)),
    decreases ts, 0nat,
{
    if ts.len() > 0 {
        lemma_sw_commas_grows(s, ts.drop_last());
        lemma_sw_grows(sw_write_commas(s, ts.drop_last()).tabbed(), ts.last());
    }
}

proof fn lemma_sw_list_grows(s: WriterState, ts: Seq<SwiftNode>, sep: Seq<char>, new_line: bool)
    ensures
        grows(s, sw_write_list(s, ts, sep, new_line)),
    decreases ts, 0nat,
{
    if ts.len() > 0 {
        lemma_sw_list_grows(s, ts.drop_last(), sep, new_line);
        let s1 = sw_write_list(s, ts.drop_last(), sep, new_line);
        let s2 = if ts.len() > 1 {
            if new_line { s1.wrote(sep).new_lined() } else { s1.wrote(sep) }
        } else {
            s1
        };
        let s3 = if new_line { s2.tabbed() } else { s2 };
        lemma_sw_grows(s3, ts.last());
    }
}

proof fn lemma_sw_statements_grows(s: WriterState, ts: Seq<SwiftNode>)
    ensures
        grows(s, sw_write_statements(s, ts)),
    decreases ts, 0nat,
{
    if ts.len() > 0 {
        lemma_sw_statements_grows(s, ts.drop_last());
        let s1 = sw_write_statements(s, ts.drop_last());
        let s2 = if ts.len() > 1 { s1.new_lined() } else { s1 };
        if !(ts.last() is Gap) {
            lemma_sw_grows(s2.tabbed(), ts.last());
        }
    }
}

proof fn lemma_sw_chain_grows(s: WriterState, ts: Seq<SwiftNode>)
    ensures
        grows(s, sw_write_chain(s, ts)),
    decreases ts, 0nat,
{
    if ts.len() > 0 {
        lemma_sw_chain_grows(s, ts.drop_last());
        let s1 = sw_write_chain(s, ts.drop_last());
        let s2 = if ts.len() > 1 { s1.new_lined().tabbed() } else { s1 };
        if !(ts.last() is Gap) {
            lemma_sw_grows(s2, ts.last());
        }
    }
}

proof fn lemma_sw_top_grows(s: WriterState, ts: Seq<SwiftNode>)
    ensures
        grows(s, sw_write_top(s, ts)),
    decreases ts, 0nat,
{
    if ts.len() > 0 {
        lemma_sw_top_grows(s, ts.drop_last());
        let s1 = sw_write_top(s, ts.drop_last()).tabbed();
        if !(ts.last() is Gap) {
            lemma_sw_grows(s1.tabbed(), ts.last());
        }
    }
}

/// The optional token written after `prefix`, or nothing.
pub open spec fn sw_write_opt(s: WriterState, prefix: Seq<char>, t: Option<Box<SwiftNode>>) -> WriterState
    decreases t,
{
    match t {
        Some(b) => sw_write(s.wrote(prefix), *b),
        None => s,
    }
}

/// The line break that closes a body: statements that are empty need none.
pub open spec fn sw_body_break(s: WriterState, body: SwiftNode) -> WriterState {
    match body {
        SwiftNode::Statements { items } => if items.len() > 0 { s.new_lined() } else { s },
        _ => s.new_lined(),
    }
}

/// A body indented one level between braces, closed on a line of its own.
pub open spec fn sw_block(s: WriterState, body: Seq<SwiftNode>) -> WriterState
    decreases body, 1nat,
{
    sw_write_all(s.wrote(" {"@).new_lined().pushed(), body).popped().wrote_line("}"@)
}

/// A default value, or the token that stands in its place.
pub open spec fn sw_value_or_default(s: WriterState, value: Option<Box<SwiftNode>>, type_id: TypeId) -> WriterState
    decreases value,
{
    match value {
        Some(v) => sw_write(s, *v),
        None => s.wrote(swift_default_text(type_id)),
    }
}

/// What writing one token does to a writer.
pub open spec fn sw_write(s: WriterState, t: SwiftNode) -> WriterState
    decreases t, 0nat,
{
    match t {
        SwiftNode::Id(id) => s.wrote(id),
        SwiftNode::Gap => s,
        SwiftNode::TypeId(type_id) => s.wrote(swift_type_text(type_id)),
        SwiftNode::List { items, separator, new_line } => {
            let open = new_line && items.len() > 0;
            let s1 = if open { s.new_lined().pushed() } else { s };
            let s2 = sw_write_list(s1, items, separator, new_line);
            if open { s2.new_lined().popped().tabbed() } else { s2 }
        },
        SwiftNode::TopLevelDeclarations { items } => sw_write_top(s, items),
        SwiftNode::Statements { items } => sw_write_statements(s, items),
        SwiftNode::Range { from, to } => sw_write(sw_write(s, *from).wrote("..."@), *to),
        SwiftNode::ForLoop { item, collection_expr, body } => {
            let s1 = s.wrote("for "@);
            let s2 = match item {
                Some(i) => sw_write(s1, *i),
                None => s1.wrote("_"@),
            };
            let s3 = sw_write(s2.wrote(" in "@), *collection_expr).wrote(" {"@).new_lined().pushed();
            sw_write(s3, *body).popped().new_lined().tabbed().wrote("}"@)
        },
        SwiftNode::Switch { item, body } => {
            let s1 = sw_write(s.wrote("switch "@), *item).wrote(" {"@).new_lined();
            sw_write(s1, *body).new_lined().tabbed().wrote("}"@)
        },
        SwiftNode::Case { item, body } => {
            let s1 = sw_write(s.wrote("case "@), *item).wrote(":"@).new_lined().pushed();
            sw_write(s1, *body).popped()
        },
        SwiftNode::DefaultCase { body } => sw_write(s.wrote("default:"@).new_lined().pushed(), *body).popped(),
        SwiftNode::VarDeclaration { id, is_const, type_id, value } => {
            let s1 = if is_const { s.wrote("let "@) } else { s.wrote("var "@) };
            sw_write_opt(sw_write_opt(s1.wrote(id), ": "@, type_id), " = "@, value)
        },
        SwiftNode::StaticVarDeclaration { id, is_const, is_private, is_private_set, type_id, value } => {
            let s1 = if is_private {
                if is_private_set { s.wrote("private(set) "@) } else { s.wrote("private "@) }
            } else {
                s
            };
            let s2 = s1.wrote("static "@);
            let s3 = if is_const { s2.wrote("let "@) } else { s2.wrote("var "@) };
            sw_write_opt(sw_write_opt(s3.wrote(id), ": "@, type_id), " = "@, value)
        },
        SwiftNode::Struct { id, body, extends } => {
            let s1 = s.tabbed().wrote("struct "@ + id);
            let s2 = if extends.len() > 0 { sw_write_sep(s1.wrote(": "@), extends, ", "@) } else { s1 };
            sw_block(s2, body)
        },
        SwiftNode::StructConstField { id, type_id, value } => {
            s.wrote_line(
                "static let "@ + case_converted(id, TextCase::Camel) + ": "@ + swift_type_text(type_id) + " = "@
                    + swift_const_text(type_id, value.literal),
            )
        },
        SwiftNode::StructField { id, type_id } => {
            s.wrote_line("let "@ + case_converted(id, TextCase::Camel) + ": "@ + swift_type_text(type_id))
        },
        SwiftNode::Func { id, is_static, return_type_id, arguments, body } => {
            let s1 = s.tabbed();
            let s2 = if is_static { s1.wrote("static "@) } else { s1 };
            let s3a = s2.wrote("func "@ + id + "("@);
            let s3 = match arguments {
                Some(a) => sw_write(s3a, *a),
                None => s3a,
            };
            let s4 = match return_type_id {
                Some(r) => sw_write(s3.wrote(") -> "@), *r),
                None => s3.wrote(")"@),
            };
            let s5 = s4.wrote(" {"@).new_lined();
            let s6 = match body {
                Some(b) => sw_body_break(sw_write(s5.pushed(), *b).popped(), *b),
                None => s5,
            };
            s6.wrote_line("}"@)
        },
        SwiftNode::FunctionArgument { id, named, type_id } => {
            let s1 = if !named { s.wrote("_ "@) } else { s };
            sw_write(s1.wrote(id).wrote(": "@), *type_id)
        },
        SwiftNode::ReturnStatement { body } => sw_write(s.wrote("return "@), *body),
        SwiftNode::Continue => s.wrote("continue"@),
        SwiftNode::AssignStructNamedArgument { id, default_value_type_id, value } => {
            match value {
                Some(v) => sw_write(s.wrote(case_converted(id, TextCase::Camel) + ": "@), *v),
                None => match default_value_type_id {
                    Some(d) => s.wrote(case_converted(id, TextCase::Camel) + ": "@ + swift_default_text(d)),
                    None => s,
                },
            }
        },
        SwiftNode::SetVar { id, value } => sw_write(s.wrote(id + " = "@), *value),
        SwiftNode::AssignArgument { id, default_value_type_id, value } => {
            let s1 = match id {
                Some(i) => s.wrote("/* "@ + case_converted(i, TextCase::Camel) + " */ "@),
                None => s,
            };
            sw_value_or_default(s1, value, default_value_type_id)
        },
        SwiftNode::Call { id, arguments } => {
            let s1 = s.wrote(id);
            match arguments {
                Some(a) => sw_write(s1.wrote("("@), *a).wrote(")"@),
                None => s1.wrote("()"@),
            }
        },
        SwiftNode::ChainCalls { items } => sw_write_chain(s.pushed(), items).popped(),
        SwiftNode::NamedBlock { id, body } => {
            let inner = sw_write(s.wrote(id).wrote(" {"@).new_lined().pushed(), *body).popped();
            sw_body_break(inner, *body).tabbed().wrote("}"@)
        },
        SwiftNode::TrailingCall { id, arguments, input, body } => {
            let s1 = s.wrote(id);
            let s2 = match arguments {
                Some(a) => sw_write(s1.wrote("("@), *a).wrote(")"@),
                None => s1.wrote("()"@),
            };
            let s3 = s2.wrote(" {"@);
            let s4 = match input {
                Some(i) => sw_write(s3.wrote(" "@), *i).wrote(" in"@),
                None => s3,
            };
            let inner = sw_write(s4.new_lined().pushed(), *body).popped();
            sw_body_break(inner, *body).tabbed().wrote("}"@)
        },
        SwiftNode::Enum { id, body, extends } => {
            let s1 = s.tabbed().wrote("enum "@ + case_converted(id, TextCase::Pascal));
            let s2 = if extends.len() > 0 { sw_write_sep(s1.wrote(": "@), extends, ", "@) } else { s1 };
            sw_block(s2, body)
        },
        SwiftNode::EnumCase { id, parameters } => {
            if parameters.len() == 0 {
                s.wrote_line("case "@ + case_converted(id, TextCase::Camel))
            } else {
                let s1 = s.wrote_line("case "@ + case_converted(id, TextCase::Camel) + "("@).pushed();
                sw_write_comma_sep(s1, parameters).popped().wrote_line(")"@)
            }
        },
        SwiftNode::EnumCaseType { id, type_id } => {
            match id {
                Some(i) => s.wrote("/* "@ + i + " */ "@ + swift_type_text(type_id)),
                None => s.wrote(swift_type_text(type_id)),
            }
        },
        SwiftNode::FieldAccess { instance, field } => {
            let s1 = match instance {
                Some(i) => sw_write(s, *i),
                None => s,
            };
            s1.wrote("."@ + case_converted(field, TextCase::Camel))
        },
    }
}

/// What writing tokens one after another does, with a blank line between
/// neighbours of the kinds that `swift_gap` names.
pub open spec fn sw_write_all(s: WriterState, ts: Seq<SwiftNode>) -> WriterState
    decreases ts, 0nat,
{
    if ts.len() == 0 {
        s
    } else {
        let s1 = sw_write_all(s, ts.drop_last());
        let s2 = if ts.len() > 1 && swift_gap(ts[ts.len() - 2], ts.last()) { s1.new_lined() } else { s1 };
        sw_write(s2, ts.last())
    }
}

/// What writing tokens with a separator between neighbours does.
pub open spec fn sw_write_sep(s: WriterState, ts: Seq<SwiftNode>, sep: Seq<char>) -> WriterState
    decreases ts, 0nat,
{
    if ts.len() == 0 {
        s
    } else {
        let s1 = sw_write_sep(s, ts.drop_last(), sep);
        let s2 = if ts.len() > 1 { s1.wrote(sep) } else { s1 };
        sw_write(s2, ts.last())
    }
}

/// Tokens each on an indented line of its own, each but the last followed
/// by a comma.
pub open spec fn sw_write_comma_sep(s: WriterState, ts: Seq<SwiftNode>) -> WriterState
    decreases ts, 1nat,
{
    if ts.len() == 0 {
        s
    } else {
        sw_write(sw_write_commas(s, ts.drop_last()).tabbed(), ts.last()).new_lined()
    }
}

/// Tokens each on an indented line of its own, each followed by a comma.
pub open spec fn sw_write_commas(s: WriterState, ts: Seq<SwiftNode>) -> WriterState
    decreases ts, 0nat,
{
    if ts.len() == 0 {
        s
    } else {
        sw_write(sw_write_commas(s, ts.drop_last()).tabbed(), ts.last()).wrote(","@).new_lined()
    }
}

/// The items of a list: between neighbours the separator, and a line break
/// where each item stands on its own indented line.
pub open spec fn sw_write_list(s: WriterState, ts: Seq<SwiftNode>, sep: Seq<char>, new_line: bool) -> WriterState
    decreases ts, 0nat,
{
    if ts.len() == 0 {
        s
    } else {
        let s1 = sw_write_list(s, ts.drop_last(), sep, new_line);
        let s2 = if ts.len() > 1 {
            if new_line { s1.wrote(sep).new_lined() } else { s1.wrote(sep) }
        } else {
            s1
        };
        let s3 = if new_line { s2.tabbed() } else { s2 };
        sw_write(s3, ts.last())
    }
}

/// Statements, one per line; a gap leaves its line empty.
pub open spec fn sw_write_statements(s: WriterState, ts: Seq<SwiftNode>) -> WriterState
    decreases ts, 0nat,
{
    if ts.len() == 0 {
        s
    } else {
        let s1 = sw_write_statements(s, ts.drop_last());
        let s2 = if ts.len() > 1 { s1.new_lined() } else { s1 };
        if ts.last() is Gap { s2 } else { sw_write(s2.tabbed(), ts.last()) }
    }
}

/// Chained calls, one per indented line; a gap writes nothing.
pub open spec fn sw_write_chain(s: WriterState, ts: Seq<SwiftNode>) -> WriterState
    decreases ts, 0nat,
{
    if ts.len() == 0 {
        s
    } else {
        let s1 = sw_write_chain(s, ts.drop_last());
        let s2 = if ts.len() > 1 { s1.new_lined().tabbed() } else { s1 };
        if ts.last() is Gap { s2 } else { sw_write(s2, ts.last()) }
    }
}

/// Top-level declarations, each on a line of its own.
pub open spec fn sw_write_top(s: WriterState, ts: Seq<SwiftNode>) -> WriterState
    decreases ts, 0nat,
{
    if ts.len() == 0 {
        s
    } else {
        let s1 = sw_write_top(s, ts.drop_last()).tabbed();
        let s2 = if ts.last() is Gap { s1 } else { sw_write(s1.tabbed(), ts.last()) };
        s2.new_lined()
    }
}

/// Whether a token can be written by a writer with `room` more indentation
/// levels to spare: every type, constant and default in it has a Swift
/// form, every named argument has a value or a default, and its blocks nest
/// no deeper than `room`.
pub open spec fn sw_fits(t: SwiftNode, room: nat) -> bool
    decreases t, 0nat,
{
    match t {
        SwiftNode::Id(_) => true,
        SwiftNode::Gap => true,
        SwiftNode::Continue => true,
        SwiftNode::TypeId(type_id) => swift_type_supported(type_id),
        SwiftNode::List { items, new_line, .. } => {
            if new_line && items.len() > 0 {
                room >= 1 && sw_fits_all(items, (room - 1) as nat)
            } else {
                sw_fits_all(items, room)
            }
        },
        SwiftNode::TopLevelDeclarations { items } => sw_fits_all(items, room),
        SwiftNode::Statements { items } => sw_fits_all(items, room),
        SwiftNode::Range { from, to } => sw_fits(*from, room) && sw_fits(*to, room),
        SwiftNode::ForLoop { item, collection_expr, body } => {
            &&& (item matches Some(b) ==> sw_fits(*b, room))
            &&& sw_fits(*collection_expr, room)
            &&& room >= 1
            &&& sw_fits(*body, (room - 1) as nat)
        },
        SwiftNode::Switch { item, body } => sw_fits(*item, room) && sw_fits(*body, room),
        SwiftNode::Case { item, body } => sw_fits(*item, room) && room >= 1 && sw_fits(*body, (room - 1) as nat),
        SwiftNode::DefaultCase { body } => room >= 1 && sw_fits(*body, (room - 1) as nat),
        SwiftNode::VarDeclaration { type_id, value, .. } => {
            (type_id matches Some(b) ==> sw_fits(*b, room)) && (value matches Some(b) ==> sw_fits(*b, room))
        },
        SwiftNode::StaticVarDeclaration { type_id, value, .. } => {
            (type_id matches Some(b) ==> sw_fits(*b, room)) && (value matches Some(b) ==> sw_fits(*b, room))
        },
        SwiftNode::Struct { body, extends, .. } => {
            sw_fits_all(extends, room) && room >= 1 && sw_fits_all(body, (room - 1) as nat)
        },
        SwiftNode::StructConstField { type_id, value, .. } => {
            swift_type_supported(type_id) && swift_const_supported(type_id, value.literal)
        },
        SwiftNode::StructField { type_id, .. } => swift_type_supported(type_id),
        SwiftNode::Func { return_type_id, arguments, body, .. } => {
            &&& (arguments matches Some(b) ==> sw_fits(*b, room))
            &&& (return_type_id matches Some(b) ==> sw_fits(*b, room))
            &&& (body matches Some(b) ==> room >= 1 && sw_fits(*b, (room - 1) as nat))
        },
        SwiftNode::FunctionArgument { type_id, .. } => sw_fits(*type_id, room),
        SwiftNode::ReturnStatement { body } => sw_fits(*body, room),
        SwiftNode::AssignStructNamedArgument { default_value_type_id, value, .. } => {
            match value {
                Some(v) => sw_fits(*v, room),
                None => default_value_type_id matches Some(d) && swift_default_supported(d),
            }
        },
        SwiftNode::SetVar { value, .. } => sw_fits(*value, room),
        SwiftNode::AssignArgument { default_value_type_id, value, .. } => {
            match value {
                Some(v) => sw_fits(*v, room),
                None => swift_default_supported(default_value_type_id),
            }
        },
        SwiftNode::Call { arguments, .. } => (arguments matches Some(b) ==> sw_fits(*b, room)),
        SwiftNode::ChainCalls { items } => room >= 1 && sw_fits_all(items, (room - 1) as nat),
        SwiftNode::NamedBlock { body, .. } => room >= 1 && sw_fits(*body, (room - 1) as nat),
        SwiftNode::TrailingCall { arguments, input, body, .. } => {
            &&& (arguments matches Some(b) ==> sw_fits(*b, room))
            &&& (input matches Some(b) ==> sw_fits(*b, room))
            &&& room >= 1
            &&& sw_fits(*body, (room - 1) as nat)
        },
        SwiftNode::Enum { body, extends, .. } => {
            sw_fits_all(extends, room) && room >= 1 && sw_fits_all(body, (room - 1) as nat)
        },
        SwiftNode::EnumCase { parameters, .. } => {
            parameters.len() > 0 ==> room >= 1 && sw_fits_all(parameters, (room - 1) as nat)
        },
        SwiftNode::EnumCaseType { type_id, .. } => swift_type_supported(type_id),
        SwiftNode::FieldAccess { instance, .. } => (instance matches Some(b) ==> sw_fits(*b, room)),
    }
}

/// Whether every token fits (see `sw_fits`).
pub open spec fn sw_fits_all(ts: Seq<SwiftNode>, room: nat) -> bool
    decreases ts, 0nat,
{
    forall|i: int| 0 <= i < ts.len() ==> sw_fits(#[trigger] ts[i], room)
}

/// The room a writer has for deeper indentation.
pub open spec fn sw_room(s: WriterState) -> nat {
    if s.level <= usize::MAX { (usize::MAX - s.level) as nat } else { 0 }
}

/// Whether Swift has a name for the type: integers of 1, 4 or 8 bytes,
/// floats of 4 or 8 bytes, and generic types whose arguments all have one
/// (an `Option` needs at least one).
pub open spec fn swift_type_supported(t: TypeId) -> bool
    decreases t, 1nat,
{
    match t {
        TypeId::Integer { size, .. } => size == 1 || size == 4 || size == 8,
        TypeId::Number { size, .. } => size == 4 || size == 8,
        TypeId::Generic { id, generics } => {
            &&& swift_types_supported(generics)
            &&& (id == "Option"@ ==> generics.len() > 0)
        },
        _ => true,
    }
}

pub open spec fn swift_types_supported(ts: Seq<TypeId>) -> bool
    decreases ts, 0nat,
{
    if ts.len() == 0 {
        true
    } else {
        swift_types_supported(ts.drop_last()) && swift_type_supported(ts.last())
    }
}

/// The Swift name of a type.
pub open spec fn swift_type_text(t: TypeId) -> Seq<char>
    decreases t, 1nat,
{
    match t {
        TypeId::Integer { size, signed, .. } => {
            if size == 1 {
                if signed { "Int8"@ } else { "UInt8"@ }
            } else if size == 4 {
                if signed { "Int32"@ } else { "UInt32"@ }
            } else {
                if signed { "Int64"@ } else { "UInt64"@ }
            }
        },
        TypeId::Number { size, .. } => if size == 4 { "Float"@ } else { "Double"@ },
        TypeId::Bool { .. } => "Bool"@,
        TypeId::Char { id } => id,
        TypeId::Other { id } => {
            if id == "GroupAddress"@ || id == "CommandsBufferAddress"@ { "UInt64"@ } else { id }
        },
        TypeId::Generic { id, generics } => {
            if id == "Option"@ {
                swift_first_type_text(generics) + "?"@
            } else if id == "Vec"@ {
                "["@ + swift_types_text(generics) + "]"@
            } else {
                id + "<"@ + swift_types_text(generics) + ">"@
            }
        },
    }
}

/// The Swift name of the first type of a sequence.
pub open spec fn swift_first_type_text(ts: Seq<TypeId>) -> Seq<char>
    decreases ts, 0nat,
{
    if ts.len() == 0 { Seq::empty() } else { swift_type_text(ts[0]) }
}

/// The Swift names of the types, separated by ", ".
pub open spec fn swift_types_text(ts: Seq<TypeId>) -> Seq<char>
    decreases ts, 0nat,
{
    if ts.len() == 0 {
        Seq::empty()
    } else if ts.len() == 1 {
        swift_type_text(ts[0])
    } else {
        swift_types_text(ts.drop_last()) + ", "@ + swift_type_text(ts.last())
    }
}

proof fn lemma_types_supported(ts: Seq<TypeId>)
    requires
        swift_types_supported(ts),
    ensures
        forall|i: int| 0 <= i < ts.len() ==> swift_type_supported(#[trigger] ts[i]),
    decreases ts.len(),
{
    if ts.len() > 0 {
        lemma_types_supported(ts.drop_last());
        assert forall|i: int| 0 <= i < ts.len() implies swift_type_supported(#[trigger] ts[i]) by {
            if i < ts.len() - 1 {
                assert(ts[i] == ts.drop_last()[i]);
            }
        }
    }
}

/// The names of the types `generics`, joined by ", ".
#[verifier::loop_isolation(false)]
pub fn generics_text(generics: &Vec<TypeIDASTNode>) -> (res: String)
    requires
        swift_types_supported(type_ids_view(generics@)),
    ensures
        res@ == swift_types_text(type_ids_view(generics@)),
    decreases generics@, 0nat,
{
    proof {
        lemma_type_ids_view(generics@);
        lemma_types_supported(type_ids_view(generics@));
    }
    let mut res = String::new();
    let mut i: usize = 0;
    while i < generics.len()
        invariant
            i <= generics.len(),
            res@ == swift_types_text(type_ids_view(generics@.take(i as int))),
        decreases generics.len() - i,
    {
        proof {
            assert(decreases_to!(generics@ => generics@[i as int]));
            assert(generics@.take(i + 1).drop_last() =~= generics@.take(i as int));
            lemma_type_ids_view(generics@.take(i as int));
            lemma_type_ids_view(generics@.take(i + 1));
            assert(type_ids_view(generics@)[i as int] == generics@[i as int]@);
            assert(type_ids_view(generics@.take(i + 1)).drop_last() =~= type_ids_view(generics@.take(i as int)));
        }
        let g = generate_type_id(&generics[i]);
        if i > 0 {
            res.append(", ");
        }
        res.append(g.as_str());
        i = i + 1;
    }
    assert(generics@.take(generics.len() as int) =~= generics@);
    res
}

/// The Swift name of a type.
pub fn generate_type_id(type_id: &TypeIDASTNode) -> (res: String)
    requires
        swift_type_supported(type_id@),
    ensures
        res@ == swift_type_text(type_id@),
    decreases type_id, 1nat,
{
    match type_id {
        TypeIDASTNode::Integer { size, signed, .. } => {
            if *size == 1 {
                if *signed { String::from_str("Int8") } else { String::from_str("UInt8") }
            } else if *size == 4 {
                if *signed { String::from_str("Int32") } else { String::from_str("UInt32") }
            } else {
                if *signed { String::from_str("Int64") } else { String::from_str("UInt64") }
            }
        },
        TypeIDASTNode::Number { size, .. } => {
            if *size == 4 { String::from_str("Float") } else { String::from_str("Double") }
        },
        TypeIDASTNode::Bool { .. } => String::from_str("Bool"),
        TypeIDASTNode::Char { id } => id.clone(),
        TypeIDASTNode::Other { id } => {
            if str_eq(id.as_str(), "GroupAddress") || str_eq(id.as_str(), "CommandsBufferAddress") {
                String::from_str("UInt64")
            } else {
                id.clone()
            }
        },
        TypeIDASTNode::Generic { id, generics } => {
            proof { assert(decreases_to!(*type_id => *generics)); }
            if str_eq(id.as_str(), "Option") {
                proof {
                    lemma_type_ids_view(generics@);
                    lemma_types_supported(type_ids_view(generics@));
                    assert(decreases_to!(*generics => generics[0]));
                    assert(type_ids_view(generics@)[0] == generics@[0]@);
                }
                let first = generate_type_id(&generics[0]);
                cat(first.as_str(), "?")
            } else if str_eq(id.as_str(), "Vec") {
                let inner = generics_text(generics);
                let mut res = String::from_str("[");
                res.append(inner.as_str());
                res.append("]");
                res
            } else {
                let inner = generics_text(generics);
                let mut res = cat(id.as_str(), "<");
                res.append(inner.as_str());
                res.append(">");
                res
            }
        },
    }
}


/// Whether a literal can be written as a Swift constant of the given type:
/// strings and booleans always; integers for integer types and for the
/// address types; numbers for floats of 4 or 8 bytes.
pub open spec fn swift_const_supported(type_id: TypeId, literal: Literal) -> bool {
    match literal {
        Literal::IntLiteral(_) => match type_id {
            TypeId::Other { id } => id == "GroupAddress"@ || id == "CommandsBufferAddress"@,
            TypeId::Integer { .. } => true,
            _ => false,
        },
        Literal::NumberLiteral(_) => match type_id {
            TypeId::Number { size, .. } => size == 4 || size == 8,
            _ => false,
        },
        _ => true,
    }
}

/// A literal written as a Swift constant of the given type.
pub open spec fn swift_const_text(type_id: TypeId, literal: Literal) -> Seq<char> {
    match literal {
        Literal::StringLiteral(value) => quoted(value@),
        Literal::IntLiteral(value) => int_text(value as int),
        Literal::NumberLiteral(value) => {
            let v = value.spec_text();
            match type_id {
                TypeId::Number { size, .. } => {
                    if size == 4 {
                        if value.spec_is_integral() { v + ".0f"@ } else { v + "f"@ }
                    } else {
                        if value.spec_is_integral() { v + ".0"@ } else { v }
                    }
                },
                _ => v,
            }
        },
        Literal::BoolLiteral(value) => bool_text(value),
    }
}

/// A literal written as a Swift constant of the given type.
pub fn literal_text(type_id: &TypeIDASTNode, literal: &Literal) -> (res: String)
    requires
        swift_const_supported(type_id@, *literal),
    ensures
        res@ == swift_const_text(type_id@, *literal),
{
    match literal {
        Literal::StringLiteral(value) => quote(value.as_str()),
        Literal::IntLiteral(value) => int_to_text(*value),
        Literal::NumberLiteral(value) => {
            let v = value.text();
            match type_id {
                TypeIDASTNode::Number { size, .. } => {
                    if *size == 4 {
                        if value.is_integral() { cat(v.as_str(), ".0f") } else { cat(v.as_str(), "f") }
                    } else {
                        if value.is_integral() { cat(v.as_str(), ".0") } else { v }
                    }
                },
                _ => v,
            }
        },
        Literal::BoolLiteral(value) => bool_to_text(*value),
    }
}

/// The constant `node` written in Swift as a value of type `type_id`.
pub fn generate_const_value(node: &ConstValueASTNode, type_id: &TypeIDASTNode) -> (res: String)
    requires
        swift_const_supported(type_id@, node@.literal),
    ensures
        res@ == swift_const_text(type_id@, node@.literal),
{
    match node {
        ConstValueASTNode::Literal { literal, .. } => literal_text(type_id, literal),
    }
}

/// Whether Swift has a default value for the type: generic types other
/// than `Option` and `Vec` need arguments that all have a Swift name.
pub open spec fn swift_default_supported(t: TypeId) -> bool {
    match t {
        TypeId::Generic { id, generics } => id == "Option"@ || id == "Vec"@ || swift_types_supported(generics),
        _ => true,
    }
}

/// The Swift default value of a type.
pub open spec fn swift_default_text(t: TypeId) -> Seq<char> {
    match t {
        TypeId::Integer { .. } => "0"@,
        TypeId::Number { .. } => "0"@,
        TypeId::Bool { .. } => "false"@,
        TypeId::Char { .. } => "0"@,
        TypeId::Other { id } => {
            if id == "String"@ {
                "\"\""@
            } else if id == "Vec"@ {
                "[]"@
            } else {
                id + ".createBuffersDefault()"@
            }
        },
        TypeId::Generic { id, generics } => {
            if id == "Option"@ {
                "nil"@
            } else if id == "Vec"@ {
                "[]"@
            } else {
                id + "<"@ + swift_types_text(generics) + ">.createBuffersDefault()"@
            }
        },
    }
}

/// The Swift default value of a type.
pub fn generate_default_const_value(type_id: &TypeIDASTNode) -> (res: String)
    requires
        swift_default_supported(type_id@),
    ensures
        res@ == swift_default_text(type_id@),
{
    match type_id {
        TypeIDASTNode::Integer { .. } => String::from_str("0"),
        TypeIDASTNode::Number { .. } => String::from_str("0"),
        TypeIDASTNode::Bool { .. } => String::from_str("false"),
        TypeIDASTNode::Char { .. } => String::from_str("0"),
        TypeIDASTNode::Other { id } => {
            if str_eq(id.as_str(), "String") {
                String::from_str("\"\"")
            } else if str_eq(id.as_str(), "Vec") {
                String::from_str("[]")
            } else {
                cat(id.as_str(), ".createBuffersDefault()")
            }
        },
        TypeIDASTNode::Generic { id, generics } => {
            if str_eq(id.as_str(), "Option") {
                String::from_str("nil")
            } else if str_eq(id.as_str(), "Vec") {
                String::from_str("[]")
            } else {
                let inner = generics_text(generics);
                let mut res = cat(id.as_str(), "<");
                res.append(inner.as_str());
                res.append(">.createBuffersDefault()");
                res
            }
        },
    }
}


/// Whether a blank line stands between two neighbouring tokens.
pub fn needs_gap(a: &SwiftIR, b: &SwiftIR) -> (res: bool)
    ensures
        res == swift_gap(a@, b@),
{
    gap_pair(a, b) || gap_pair(b, a)
}

fn gap_pair(a: &SwiftIR, b: &SwiftIR) -> (res: bool)
    ensures
        res == swift_gap_pair(a@, b@),
{
    match a {
        SwiftIR::Struct { .. } => matches!(b, SwiftIR::Struct { .. }) || matches!(b, SwiftIR::Enum { .. })
            || matches!(b, SwiftIR::StructConstField { .. }) || matches!(b, SwiftIR::StructField { .. }),
        SwiftIR::Enum { .. } => matches!(b, SwiftIR::Enum { .. }),
        SwiftIR::Func { .. } => matches!(b, SwiftIR::Func { .. }) || matches!(b, SwiftIR::StructConstField { .. })
            || matches!(b, SwiftIR::StructField { .. }) || matches!(b, SwiftIR::EnumCase { .. })
            || matches!(b, SwiftIR::TopLevelDeclarations { .. }),
        SwiftIR::TopLevelDeclarations { .. } => matches!(b, SwiftIR::TopLevelDeclarations { .. }),
        SwiftIR::Statements { .. } => matches!(b, SwiftIR::Statements { .. })
            || matches!(b, SwiftIR::ReturnStatement { .. }),
        _ => false,
    }
}

/// The tokens written out by a fresh writer, as Swift source text.
pub fn stringify_ir(tokens: &[SwiftIR]) -> (res: String)
    requires
        sw_fits_all(sw_views(tokens@), usize::MAX as nat),
    ensures
        res@ == sw_write_all(default_writer_state(), sw_views(tokens@)).text,
{
    let mut writer = Writer::default();
    write_tokens(&mut writer, tokens);
    copy_str(writer.show())
}

/// Writes the tokens with `separator` between neighbours.
pub fn write_tokens_separated(writer: &mut Writer, tokens: &[SwiftIR], separator: &'static str)
    requires
        sw_fits_all(sw_views(tokens@), sw_room(old(writer)@)),
    ensures
        final(writer)@ == sw_write_sep(old(writer)@, sw_views(tokens@), separator@),
        final(writer)@.level == old(writer)@.level,
        final(writer)@.tab == old(writer)@.tab,
    decreases tokens@, 0nat,
{
    let ghost s0 = writer@;
    let mut i: usize = 0;
    while i < tokens.len()
        invariant
            i <= tokens@.len(),
            sw_fits_all(sw_views(tokens@), sw_room(s0)),
            writer@ == sw_write_sep(s0, sw_views(tokens@.take(i as int)), separator@),
            writer@.level == s0.level,
            writer@.tab == s0.tab,
        decreases tokens@.len() - i,
    {
        proof {
            assert(decreases_to!(tokens@ => tokens@[i as int]));
            assert(tokens@.take(i + 1).drop_last() =~= tokens@.take(i as int));
            lemma_sw_views(tokens@);
            lemma_sw_views(tokens@.take(i as int));
            lemma_sw_views_take(tokens@, i as int);
            assert(sw_fits(tokens@[i as int]@, sw_room(s0)));
        }
        if i > 0 {
            writer.write(separator);
        }
        write_token(writer, &tokens[i]);
        i = i + 1;
    }
    assert(tokens@.take(tokens@.len() as int) =~= tokens@);
}

/// Writes the tokens each on an indented line of its own, each but the
/// last followed by a comma.
pub fn write_tokens_comma_separated(writer: &mut Writer, tokens: &[SwiftIR])
    requires
        sw_fits_all(sw_views(tokens@), sw_room(old(writer)@)),
    ensures
        final(writer)@ == sw_write_comma_sep(old(writer)@, sw_views(tokens@)),
        final(writer)@.level == old(writer)@.level,
        final(writer)@.tab == old(writer)@.tab,
    decreases tokens@, 1nat,
{
    let ghost s0 = writer@;
    if tokens.len() == 0 {
        return;
    }
    let last = tokens.len() - 1;
    let mut i: usize = 0;
    while i < last
        invariant
            i <= last,
            last + 1 == tokens@.len(),
            sw_fits_all(sw_views(tokens@), sw_room(s0)),
            writer@ == sw_write_commas(s0, sw_views(tokens@.take(i as int))),
            writer@.level == s0.level,
            writer@.tab == s0.tab,
        decreases last - i,
    {
        proof {
            assert(decreases_to!(tokens@ => tokens@[i as int]));
            assert(tokens@.take(i + 1).drop_last() =~= tokens@.take(i as int));
            lemma_sw_views(tokens@);
            lemma_sw_views(tokens@.take(i as int));
            lemma_sw_views_take(tokens@, i as int);
            assert(sw_fits(tokens@[i as int]@, sw_room(s0)));
        }
        writer.write_tabs();
        write_token(writer, &tokens[i]);
        writer.write(",");
        writer.new_line();
        i = i + 1;
    }
    proof {
        assert(decreases_to!(tokens@ => tokens@[last as int]));
        assert(tokens@.drop_last() =~= tokens@.take(last as int));
        assert(tokens@.take(last + 1) =~= tokens@);
        lemma_sw_views(tokens@);
        lemma_sw_views_take(tokens@, last as int);
        assert(sw_views(tokens@)[last as int] == tokens@[last as int]@);
        assert(sw_fits(tokens@[last as int]@, sw_room(s0)));
    }
    writer.write_tabs();
    write_token(writer, &tokens[last]);
    writer.new_line();
}

/// Writes the tokens one after another, with a blank line between
/// neighbours of the kinds that `swift_gap` names.
pub fn write_tokens(writer: &mut Writer, tokens: &[SwiftIR])
    requires
        sw_fits_all(sw_views(tokens@), sw_room(old(writer)@)),
    ensures
        final(writer)@ == sw_write_all(old(writer)@, sw_views(tokens@)),
        final(writer)@.level == old(writer)@.level,
        final(writer)@.tab == old(writer)@.tab,
    decreases tokens@, 0nat,
{
    let ghost s0 = writer@;
    let mut i: usize = 0;
    while i < tokens.len()
        invariant
            i <= tokens@.len(),
            sw_fits_all(sw_views(tokens@), sw_room(s0)),
            writer@ == sw_write_all(s0, sw_views(tokens@.take(i as int))),
            writer@.level == s0.level,
            writer@.tab == s0.tab,
        decreases tokens@.len() - i,
    {
        proof {
            assert(decreases_to!(tokens@ => tokens@[i as int]));
            assert(tokens@.take(i + 1).drop_last() =~= tokens@.take(i as int));
            lemma_sw_views(tokens@);
            lemma_sw_views(tokens@.take(i as int));
            lemma_sw_views_take(tokens@, i as int);
            assert(sw_fits(tokens@[i as int]@, sw_room(s0)));
        }
        if i > 0 && needs_gap(&tokens[i - 1], &tokens[i]) {
            writer.new_line();
        }
        write_token(writer, &tokens[i]);
        i = i + 1;
    }
    assert(tokens@.take(tokens@.len() as int) =~= tokens@);
}

fn write_list_items(writer: &mut Writer, items: &Vec<SwiftIR>, separator: &'static str, new_line: bool)
    requires
        sw_fits_all(sw_views(items@), sw_room(old(writer)@)),
    ensures
        final(writer)@ == sw_write_list(old(writer)@, sw_views(items@), separator@, new_line),
        final(writer)@.level == old(writer)@.level,
        final(writer)@.tab == old(writer)@.tab,
    decreases items@, 0nat,
{
    let ghost s0 = writer@;
    let mut i: usize = 0;
    while i < items.len()
        invariant
            i <= items@.len(),
            sw_fits_all(sw_views(items@), sw_room(s0)),
            writer@ == sw_write_list(s0, sw_views(items@.take(i as int)), separator@, new_line),
            writer@.level == s0.level,
            writer@.tab == s0.tab,
        decreases items@.len() - i,
    {
        proof {
            assert(decreases_to!(items@ => items@[i as int]));
            assert(items@.take(i + 1).drop_last() =~= items@.take(i as int));
            lemma_sw_views(items@);
            lemma_sw_views(items@.take(i as int));
            lemma_sw_views_take(items@, i as int);
            assert(sw_fits(items@[i as int]@, sw_room(s0)));
        }
        if i > 0 {
            writer.write(separator);
            if new_line {
                writer.new_line();
            }
        }
        if new_line {
            writer.write_tabs();
        }
        write_token(writer, &items[i]);
        i = i + 1;
    }
    assert(items@.take(items@.len() as int) =~= items@);
}

fn write_statements(writer: &mut Writer, items: &Vec<SwiftIR>)
    requires
        sw_fits_all(sw_views(items@), sw_room(old(writer)@)),
    ensures
        final(writer)@ == sw_write_statements(old(writer)@, sw_views(items@)),
        final(writer)@.level == old(writer)@.level,
        final(writer)@.tab == old(writer)@.tab,
    decreases items@, 0nat,
{
    let ghost s0 = writer@;
    let mut i: usize = 0;
    while i < items.len()
        invariant
            i <= items@.len(),
            sw_fits_all(sw_views(items@), sw_room(s0)),
            writer@ == sw_write_statements(s0, sw_views(items@.take(i as int))),
            writer@.level == s0.level,
            writer@.tab == s0.tab,
        decreases items@.len() - i,
    {
        proof {
            assert(decreases_to!(items@ => items@[i as int]));
            assert(items@.take(i + 1).drop_last() =~= items@.take(i as int));
            lemma_sw_views(items@);
            lemma_sw_views(items@.take(i as int));
            lemma_sw_views_take(items@, i as int);
            assert(sw_fits(items@[i as int]@, sw_room(s0)));
        }
        if i > 0 {
            writer.new_line();
        }
        match &items[i] {
            SwiftIR::Gap => {},
            item => {
                writer.write_tabs();
                write_token(writer, item);
            },
        }
        i = i + 1;
    }
    assert(items@.take(items@.len() as int) =~= items@);
}

fn write_chain(writer: &mut Writer, items: &Vec<SwiftIR>)
    requires
        sw_fits_all(sw_views(items@), sw_room(old(writer)@)),
    ensures
        final(writer)@ == sw_write_chain(old(writer)@, sw_views(items@)),
        final(writer)@.level == old(writer)@.level,
        final(writer)@.tab == old(writer)@.tab,
    decreases items@, 0nat,
{
    let ghost s0 = writer@;
    let mut i: usize = 0;
    while i < items.len()
        invariant
            i <= items@.len(),
            sw_fits_all(sw_views(items@), sw_room(s0)),
            writer@ == sw_write_chain(s0, sw_views(items@.take(i as int))),
            writer@.level == s0.level,
            writer@.tab == s0.tab,
        decreases items@.len() - i,
    {
        proof {
            assert(decreases_to!(items@ => items@[i as int]));
            assert(items@.take(i + 1).drop_last() =~= items@.take(i as int));
            lemma_sw_views(items@);
            lemma_sw_views(items@.take(i as int));
            lemma_sw_views_take(items@, i as int);
            assert(sw_fits(items@[i as int]@, sw_room(s0)));
        }
        if i > 0 {
            writer.new_line();
            writer.write_tabs();
        }
        match &items[i] {
            SwiftIR::Gap => {},
            item => write_token(writer, item),
        }
        i = i + 1;
    }
    assert(items@.take(items@.len() as int) =~= items@);
}

fn write_top_level(writer: &mut Writer, items: &Vec<SwiftIR>)
    requires
        sw_fits_all(sw_views(items@), sw_room(old(writer)@)),
    ensures
        final(writer)@ == sw_write_top(old(writer)@, sw_views(items@)),
        final(writer)@.level == old(writer)@.level,
        final(writer)@.tab == old(writer)@.tab,
    decreases items@, 0nat,
{
    let ghost s0 = writer@;
    let mut i: usize = 0;
    while i < items.len()
        invariant
            i <= items@.len(),
            sw_fits_all(sw_views(items@), sw_room(s0)),
            writer@ == sw_write_top(s0, sw_views(items@.take(i as int))),
            writer@.level == s0.level,
            writer@.tab == s0.tab,
        decreases items@.len() - i,
    {
        proof {
            assert(decreases_to!(items@ => items@[i as int]));
            assert(items@.take(i + 1).drop_last() =~= items@.take(i as int));
            lemma_sw_views(items@);
            lemma_sw_views(items@.take(i as int));
            lemma_sw_views_take(items@, i as int);
            assert(sw_fits(items@[i as int]@, sw_room(s0)));
        }
        writer.write_tabs();
        match &items[i] {
            SwiftIR::Gap => {},
            item => {
                writer.write_tabs();
                write_token(writer, item);
            },
        }
        writer.new_line();
        i = i + 1;
    }
    assert(items@.take(items@.len() as int) =~= items@);
}

fn write_opt(writer: &mut Writer, prefix: &str, t: &Option<Box<SwiftIR>>)
    requires
        (*t matches Some(b) ==> sw_fits((*b)@, sw_room(old(writer)@))),
    ensures
        final(writer)@ == sw_write_opt(old(writer)@, prefix@, sw_view_opt(*t)),
        final(writer)@.level == old(writer)@.level,
        final(writer)@.tab == old(writer)@.tab,
    decreases t, 0nat,
{
    if let Some(b) = t {
        writer.write(prefix);
        write_token(writer, b);
    }
}

fn write_value_or_default(writer: &mut Writer, value: &Option<Box<SwiftIR>>, type_id: &TypeIDASTNode)
    requires
        match *value {
            Some(v) => sw_fits((*v)@, sw_room(old(writer)@)),
            None => swift_default_supported(type_id@),
        },
    ensures
        final(writer)@ == sw_value_or_default(old(writer)@, sw_view_opt(*value), type_id@),
        final(writer)@.level == old(writer)@.level,
        final(writer)@.tab == old(writer)@.tab,
    decreases value, 0nat,
{
    if let Some(v) = value {
        write_token(writer, v);
    } else {
        writer.write(generate_default_const_value(type_id).as_str());
    }
}

fn write_body_break(writer: &mut Writer, body: &SwiftIR)
    ensures
        final(writer)@ == sw_body_break(old(writer)@, body@),
{
    match body {
        SwiftIR::Statements { items } => {
            proof { lemma_sw_views(items@); }
            if items.len() > 0 {
                writer.new_line();
            }
        },
        _ => writer.new_line(),
    }
}

fn write_block(writer: &mut Writer, body: &Vec<SwiftIR>)
    requires
        sw_room(old(writer)@) >= 1,
        sw_fits_all(sw_views(body@), (sw_room(old(writer)@) - 1) as nat),
    ensures
        final(writer)@ == sw_block(old(writer)@, sw_views(body@)),
        final(writer)@.level == old(writer)@.level,
        final(writer)@.tab == old(writer)@.tab,
    decreases body@, 1nat,
{
    writer.write(" {");
    writer.new_line();
    writer.push_tab();
    write_tokens(writer, body.as_slice());
    writer.pop_tab();
    writer.writeln("}");
}

fn write_type_decl(writer: &mut Writer, token: &SwiftIR)
    requires
        token is Struct || token is Enum || token is EnumCase,
        sw_fits(token@, sw_room(old(writer)@)),
    ensures
        final(writer)@ == sw_write(old(writer)@, token@),
        final(writer)@.level == old(writer)@.level,
        final(writer)@.tab == old(writer)@.tab,
    decreases token, 1nat,
{
    match token {
        SwiftIR::Struct { id, body, extends } => {
            proof { lemma_sw_views(extends@); }
            writer.write_tabs();
            writer.write(cat("struct ", id.as_str()).as_str());
            if extends.len() > 0 {
                writer.write(": ");
                write_tokens_separated(writer, extends.as_slice(), ", ");
            }
            write_block(writer, body);
        },
        SwiftIR::Enum { id, body, extends } => {
            proof { lemma_sw_views(extends@); }
            writer.write_tabs();
            let name = to_case(id.as_str(), TextCase::Pascal);
            writer.write(cat("enum ", name.as_str()).as_str());
            if extends.len() > 0 {
                writer.write(": ");
                write_tokens_separated(writer, extends.as_slice(), ", ");
            }
            write_block(writer, body);
        },
        SwiftIR::EnumCase { id, parameters } => {
            proof { lemma_sw_views(parameters@); }
            let name = to_case(id.as_str(), TextCase::Camel);
            if parameters.len() == 0 {
                writer.writeln(cat("case ", name.as_str()).as_str());
            } else {
                writer.writeln(cat3("case ", name.as_str(), "(").as_str());
                writer.push_tab();
                write_tokens_comma_separated(writer, parameters.as_slice());
                writer.pop_tab();
                writer.writeln(")");
            }
        },
        _ => {},
    }
}

fn write_fields(writer: &mut Writer, token: &SwiftIR)
    requires
        token is StructConstField || token is StructField || token is EnumCaseType,
        sw_fits(token@, sw_room(old(writer)@)),
    ensures
        final(writer)@ == sw_write(old(writer)@, token@),
        final(writer)@.level == old(writer)@.level,
        final(writer)@.tab == old(writer)@.tab,
{
    match token {
        SwiftIR::StructConstField { id, type_id, value } => {
            let name = to_case(id.as_str(), TextCase::Camel);
            let mut line = cat3("static let ", name.as_str(), ": ");
            line.append(generate_type_id(type_id).as_str());
            line.append(" = ");
            line.append(generate_const_value(value, type_id).as_str());
            writer.writeln(line.as_str());
        },
        SwiftIR::StructField { id, type_id } => {
            let name = to_case(id.as_str(), TextCase::Camel);
            let mut line = cat3("let ", name.as_str(), ": ");
            line.append(generate_type_id(type_id).as_str());
            writer.writeln(line.as_str());
        },
        SwiftIR::EnumCaseType { id, type_id } => {
            if let Some(id) = id {
                let mut text = cat3("/* ", id.as_str(), " */ ");
                text.append(generate_type_id(type_id).as_str());
                writer.write(text.as_str());
            } else {
                writer.write(generate_type_id(type_id).as_str());
            }
        },
        _ => {},
    }
}

fn write_declaration(writer: &mut Writer, token: &SwiftIR)
    requires
        token is VarDeclaration || token is StaticVarDeclaration,
        sw_fits(token@, sw_room(old(writer)@)),
    ensures
        final(writer)@ == sw_write(old(writer)@, token@),
        final(writer)@.level == old(writer)@.level,
        final(writer)@.tab == old(writer)@.tab,
    decreases token, 1nat,
{
    match token {
        SwiftIR::VarDeclaration { id, is_const, type_id, value } => {
            if *is_const {
                writer.write("let ");
            } else {
                writer.write("var ");
            }
            writer.write(id.as_str());
            write_opt(writer, ": ", type_id);
            write_opt(writer, " = ", value);
        },
        SwiftIR::StaticVarDeclaration { id, is_const, is_private, is_private_set, type_id, value } => {
            if *is_private {
                if *is_private_set {
                    writer.write("private(set) ");
                } else {
                    writer.write("private ");
                }
            }
            writer.write("static ");
            if *is_const {
                writer.write("let ");
            } else {
                writer.write("var ");
            }
            writer.write(id.as_str());
            write_opt(writer, ": ", type_id);
            write_opt(writer, " = ", value);
        },
        _ => {},
    }
}

fn write_func(writer: &mut Writer, token: &SwiftIR)
    requires
        token is Func,
        sw_fits(token@, sw_room(old(writer)@)),
    ensures
        final(writer)@ == sw_write(old(writer)@, token@),
        final(writer)@.level == old(writer)@.level,
        final(writer)@.tab == old(writer)@.tab,
    decreases token, 1nat,
{
    if let SwiftIR::Func { id, is_static, return_type_id, arguments, body } = token {
        writer.write_tabs();
        if *is_static {
            writer.write("static ");
        }
        writer.write(cat3("func ", id.as_str(), "(").as_str());
        if let Some(arguments) = arguments {
            write_token(writer, arguments);
        }
        if let Some(return_type_id) = return_type_id {
            writer.write(") -> ");
            write_token(writer, return_type_id);
        } else {
            writer.write(")");
        }
        writer.write(" {");
        writer.new_line();
        if let Some(body) = body {
            writer.push_tab();
            write_token(writer, body);
            writer.pop_tab();
            write_body_break(writer, body);
        }
        writer.writeln("}");
    }
}

#[verifier::rlimit(40)]
fn write_nested(writer: &mut Writer, token: &SwiftIR)
    requires
        token is ForLoop || token is Switch || token is Case || token is DefaultCase || token is NamedBlock
            || token is TrailingCall,
        sw_fits(token@, sw_room(old(writer)@)),
    ensures
        final(writer)@ == sw_write(old(writer)@, token@),
        final(writer)@.level == old(writer)@.level,
        final(writer)@.tab == old(writer)@.tab,
    decreases token, 1nat,
{
    match token {
        SwiftIR::ForLoop { item, collection_expr, body } => {
            writer.write("for ");
            if let Some(item) = item {
                write_token(writer, item);
            } else {
                writer.write("_");
            }
            writer.write(" in ");
            write_token(writer, collection_expr);
            writer.write(" {");
            writer.new_line();
            writer.push_tab();
            write_token(writer, body);
            writer.pop_tab();
            writer.new_line();
            writer.write_tabs();
            writer.write("}");
        },
        SwiftIR::Switch { item, body } => {
            writer.write("switch ");
            write_token(writer, item);
            writer.write(" {");
            writer.new_line();
            write_token(writer, body);
            writer.new_line();
            writer.write_tabs();
            writer.write("}");
        },
        SwiftIR::Case { item, body } => {
            writer.write("case ");
            write_token(writer, item);
            writer.write(":");
            writer.new_line();
            writer.push_tab();
            write_token(writer, body);
            writer.pop_tab();
        },
        SwiftIR::DefaultCase { body } => {
            writer.write("default:");
            writer.new_line();
            writer.push_tab();
            write_token(writer, body);
            writer.pop_tab();
        },
        SwiftIR::NamedBlock { id, body } => {
            writer.write(id.as_str());
            writer.write(" {");
            writer.new_line();
            writer.push_tab();
            write_token(writer, body);
            writer.pop_tab();
            write_body_break(writer, body);
            writer.write_tabs();
            writer.write("}");
        },
        SwiftIR::TrailingCall { id, arguments, input, body } => {
            writer.write(id.as_str());
            if let Some(arguments) = arguments {
                writer.write("(");
                write_token(writer, arguments);
                writer.write(")");
            } else {
                writer.write("()");
            }
            writer.write(" {");
            if let Some(input) = input {
                writer.write(" ");
                write_token(writer, input);
                writer.write(" in");
            }
            writer.new_line();
            writer.push_tab();
            write_token(writer, body);
            writer.pop_tab();
            write_body_break(writer, body);
            writer.write_tabs();
            writer.write("}");
        },
        _ => {},
    }
}

fn write_list(writer: &mut Writer, token: &SwiftIR)
    requires
        token is List || token is ChainCalls,
        sw_fits(token@, sw_room(old(writer)@)),
    ensures
        final(writer)@ == sw_write(old(writer)@, token@),
        final(writer)@.level == old(writer)@.level,
        final(writer)@.tab == old(writer)@.tab,
    decreases token, 1nat,
{
    match token {
        SwiftIR::List { items, separator, new_line } => {
            proof { lemma_sw_views(items@); }
            let open = *new_line && items.len() > 0;
            if open {
                writer.new_line();
                writer.push_tab();
            }
            write_list_items(writer, items, separator, *new_line);
            if open {
                writer.new_line();
                writer.pop_tab();
                writer.write_tabs();
            }
        },
        SwiftIR::ChainCalls { items } => {
            writer.push_tab();
            write_chain(writer, items);
            writer.pop_tab();
        },
        _ => {},
    }
}

fn write_expression(writer: &mut Writer, token: &SwiftIR)
    requires
        token is Range || token is Call || token is SetVar || token is FunctionArgument || token is ReturnStatement
            || token is AssignStructNamedArgument || token is AssignArgument || token is FieldAccess,
        sw_fits(token@, sw_room(old(writer)@)),
    ensures
        final(writer)@ == sw_write(old(writer)@, token@),
        final(writer)@.level == old(writer)@.level,
        final(writer)@.tab == old(writer)@.tab,
    decreases token, 1nat,
{
    match token {
        SwiftIR::Range { from, to } => {
            write_token(writer, from);
            writer.write("...");
            write_token(writer, to);
        },
        SwiftIR::Call { id, arguments } => {
            writer.write(id.as_str());
            if let Some(arguments) = arguments {
                writer.write("(");
                write_token(writer, arguments);
                writer.write(")");
            } else {
                writer.write("()");
            }
        },
        SwiftIR::SetVar { id, value } => {
            writer.write(cat(id.as_str(), " = ").as_str());
            write_token(writer, value);
        },
        SwiftIR::FunctionArgument { id, named, type_id } => {
            if !*named {
                writer.write("_ ");
            }
            writer.write(id.as_str());
            writer.write(": ");
            write_token(writer, type_id);
        },
        SwiftIR::ReturnStatement { body } => {
            writer.write("return ");
            write_token(writer, body);
        },
        SwiftIR::AssignStructNamedArgument { id, default_value_type_id, value } => {
            let name = to_case(id.as_str(), TextCase::Camel);
            if let Some(value) = value {
                writer.write(cat(name.as_str(), ": ").as_str());
                write_token(writer, value);
            } else if let Some(default_value_type_id) = default_value_type_id {
                let mut text = cat(name.as_str(), ": ");
                text.append(generate_default_const_value(default_value_type_id).as_str());
                writer.write(text.as_str());
            }
        },
        SwiftIR::AssignArgument { id, default_value_type_id, value } => {
            if let Some(id) = id {
                let name = to_case(id.as_str(), TextCase::Camel);
                writer.write(cat3("/* ", name.as_str(), " */ ").as_str());
            }
            write_value_or_default(writer, value, default_value_type_id);
        },
        SwiftIR::FieldAccess { instance, field } => {
            if let Some(instance) = instance {
                write_token(writer, instance);
            }
            let name = to_case(field.as_str(), TextCase::Camel);
            writer.write(cat(".", name.as_str()).as_str());
        },
        _ => {},
    }
}

/// Writes one token.
fn write_token(writer: &mut Writer, token: &SwiftIR)
    requires
        sw_fits(token@, sw_room(old(writer)@)),
    ensures
        final(writer)@ == sw_write(old(writer)@, token@),
        final(writer)@.level == old(writer)@.level,
        final(writer)@.tab == old(writer)@.tab,
    decreases token, 2nat,
{
    match token {
        SwiftIR::Id(id) => writer.write(id.as_str()),
        SwiftIR::Gap => {},
        SwiftIR::Continue => writer.write("continue"),
        SwiftIR::TypeId(type_id) => writer.write(generate_type_id(type_id).as_str()),
        SwiftIR::TopLevelDeclarations { items } => write_top_level(writer, items),
        SwiftIR::Statements { items } => write_statements(writer, items),
        SwiftIR::Struct { .. } => write_type_decl(writer, token),
        SwiftIR::Enum { .. } => write_type_decl(writer, token),
        SwiftIR::EnumCase { .. } => write_type_decl(writer, token),
        SwiftIR::StructConstField { .. } => write_fields(writer, token),
        SwiftIR::StructField { .. } => write_fields(writer, token),
        SwiftIR::EnumCaseType { .. } => write_fields(writer, token),
        SwiftIR::VarDeclaration { .. } => write_declaration(writer, token),
        SwiftIR::StaticVarDeclaration { .. } => write_declaration(writer, token),
        SwiftIR::Func { .. } => write_func(writer, token),
        SwiftIR::ForLoop { .. } => write_nested(writer, token),
        SwiftIR::Switch { .. } => write_nested(writer, token),
        SwiftIR::Case { .. } => write_nested(writer, token),
        SwiftIR::DefaultCase { .. } => write_nested(writer, token),
        SwiftIR::NamedBlock { .. } => write_nested(writer, token),
        SwiftIR::TrailingCall { .. } => write_nested(writer, token),
        SwiftIR::List { .. } => write_list(writer, token),
        SwiftIR::ChainCalls { .. } => write_list(writer, token),
        _ => write_expression(writer, token),
    }
}

} // verus!
