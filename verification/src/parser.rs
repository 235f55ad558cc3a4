use vstd::prelude::*;
use crate::ast::{
    ASTNode, ConstASTNode, ConstItemASTNode, ConstValueASTNode, DirectiveASTNode, EnumASTNode,
    EnumItemASTNode, FnASTNode, FnArgASTNode, IdValuePair, StructASTNode, StructFieldASTNode,
    TupleFieldASTNode, TypeIDASTNode, TypeId,
};
use crate::lexer::{Lexer, Literal, Token, TokenView, digits_value};
use crate::text::str_eq;

verus! {

/// Why the tokens do not form a description: the position of the token
/// where the grammar could not go on.
pub struct ParseError {
    pub position: usize,
}

/// The token at `i`, or the end past the last token.
pub open spec fn tk(t: Seq<TokenView>, i: nat) -> TokenView {
    if i < t.len() { t[i as int] } else { TokenView::Eof }
}

pub open spec fn is_sym(t: Seq<TokenView>, i: nat, c: char) -> bool {
    tk(t, i) == TokenView::Symbol(c)
}

/// Whether the token at `i` is the identifier `word`.
pub open spec fn is_word(t: Seq<TokenView>, i: nat, word: Seq<char>) -> bool {
    tk(t, i) == TokenView::Id(word)
}

// ---------------------------------------------------------------------------
// The values that parsing yields.

/// A literal, with its texts as sequences of characters.
pub enum LiteralView {
    Str(Seq<char>),
    Int(i64),
    Number { negative: bool, integer: Seq<char>, fraction: Seq<char> },
    Bool(bool),
}

pub open spec fn literal_view(l: Literal) -> LiteralView {
    match l {
        Literal::StringLiteral(s) => LiteralView::Str(s@),
        Literal::IntLiteral(v) => LiteralView::Int(v),
        Literal::NumberLiteral(d) => LiteralView::Number { negative: d.negative, integer: d.integer@, fraction: d.fraction@ },
        Literal::BoolLiteral(b) => LiteralView::Bool(b),
    }
}

pub struct ValueView {
    pub literal: LiteralView,
    pub type_id: TypeId,
}

pub open spec fn value_view(v: ConstValueASTNode) -> ValueView {
    match v {
        ConstValueASTNode::Literal { literal, type_id } => ValueView { literal: literal_view(literal), type_id: type_id@ },
    }
}

pub struct ArgView {
    pub id: Seq<char>,
    pub type_id: TypeId,
}

pub open spec fn arg_view(a: FnArgASTNode) -> ArgView {
    ArgView { id: a.id@, type_id: a.type_id@ }
}

pub open spec fn args_view(s: Seq<FnArgASTNode>) -> Seq<ArgView> {
    s.map_values(|a: FnArgASTNode| arg_view(a))
}

pub struct FnView {
    pub id: Seq<char>,
    pub position: u32,
    pub args: Seq<ArgView>,
    pub return_type_id: Option<TypeId>,
    pub is_async: bool,
    pub is_signal: bool,
}

pub open spec fn fn_view(n: FnASTNode) -> FnView {
    FnView {
        id: n.id@,
        position: n.position,
        args: args_view(n.args@),
        return_type_id: match n.return_type_id {
            Some(t) => Some(t@),
            None => None,
        },
        is_async: n.is_async,
        is_signal: n.is_signal,
    }
}

pub struct PairView {
    pub id: Seq<char>,
    pub value: ValueView,
}

pub enum DirectiveView {
    Value { id: Seq<char>, value: ValueView },
    Group { group_id: Seq<char>, values: Seq<PairView> },
}

pub open spec fn pair_view(p: IdValuePair) -> PairView {
    PairView { id: p.id@, value: value_view(p.value) }
}

pub open spec fn directive_view(d: DirectiveASTNode) -> DirectiveView {
    match d {
        DirectiveASTNode::Value { id, value } => DirectiveView::Value { id: id@, value: value_view(value) },
        DirectiveASTNode::Group { group_id, values } => DirectiveView::Group {
            group_id: group_id@,
            values: values@.map_values(|p: IdValuePair| pair_view(p)),
        },
    }
}

// ---------------------------------------------------------------------------
// Types: `name` or `name<type, ..>`.

/// The type that a name stands for without type arguments.
pub open spec fn named_type(name: Seq<char>) -> TypeId {
    if name == "i8"@ {
        TypeId::Integer { id: name, size: 1, signed: true }
    } else if name == "i32"@ {
        TypeId::Integer { id: name, size: 4, signed: true }
    } else if name == "i64"@ {
        TypeId::Integer { id: name, size: 8, signed: true }
    } else if name == "u8"@ {
        TypeId::Integer { id: name, size: 1, signed: false }
    } else if name == "u32"@ {
        TypeId::Integer { id: name, size: 4, signed: false }
    } else if name == "u64"@ {
        TypeId::Integer { id: name, size: 8, signed: false }
    } else if name == "f32"@ {
        TypeId::Number { id: name, size: 4 }
    } else if name == "f64"@ {
        TypeId::Number { id: name, size: 8 }
    } else if name == "char"@ {
        TypeId::Char { id: name }
    } else if name == "bool"@ {
        TypeId::Bool { id: name }
    } else {
        TypeId::Other { id: name }
    }
}

/// The type that starts at `i`, and the position after it.
pub open spec fn type_at(t: Seq<TokenView>, i: nat) -> Option<(TypeId, nat)>
    decreases t.len() - i, 1nat,
{
    if i >= t.len() {
        None
    } else {
        match t[i as int] {
            TokenView::Id(name) => if is_sym(t, i + 1, '<') {
                generics_at(t, i + 1, name, Seq::empty())
            } else {
                Some((named_type(name), i + 1))
            },
            _ => None,
        }
    }
}

/// The type arguments after the `<` or `,` at `j`, with `acc` read so far.
/// Where no name follows, the type arguments are dropped and the bare name
/// stands, ending before that token.
pub open spec fn generics_at(t: Seq<TokenView>, j: nat, name: Seq<char>, acc: Seq<TypeId>) -> Option<(TypeId, nat)>
    decreases t.len() - j, 0nat,
{
    if j >= t.len() {
        None
    } else if tk(t, j + 1) is Id {
        match type_at(t, j + 1) {
            Some((g, m)) => if is_sym(t, m, '>') {
                Some((TypeId::Generic { id: name, generics: acc.push(g) }, m + 1))
            } else if is_sym(t, m, ',') && m > j {
                generics_at(t, m, name, acc.push(g))
            } else {
                None
            },
            None => None,
        }
    } else {
        Some((named_type(name), j + 1))
    }
}

fn named_type_ir(name: String) -> (res: TypeIDASTNode)
    ensures
        res@ == named_type(name@),
{
    if str_eq(name.as_str(), "i8") {
        TypeIDASTNode::Integer { id: name, size: 1, signed: true }
    } else if str_eq(name.as_str(), "i32") {
        TypeIDASTNode::Integer { id: name, size: 4, signed: true }
    } else if str_eq(name.as_str(), "i64") {
        TypeIDASTNode::Integer { id: name, size: 8, signed: true }
    } else if str_eq(name.as_str(), "u8") {
        TypeIDASTNode::Integer { id: name, size: 1, signed: false }
    } else if str_eq(name.as_str(), "u32") {
        TypeIDASTNode::Integer { id: name, size: 4, signed: false }
    } else if str_eq(name.as_str(), "u64") {
        TypeIDASTNode::Integer { id: name, size: 8, signed: false }
    } else if str_eq(name.as_str(), "f32") {
        TypeIDASTNode::Number { id: name, size: 4 }
    } else if str_eq(name.as_str(), "f64") {
        TypeIDASTNode::Number { id: name, size: 8 }
    } else if str_eq(name.as_str(), "char") {
        TypeIDASTNode::Char { id: name }
    } else if str_eq(name.as_str(), "bool") {
        TypeIDASTNode::Bool { id: name }
    } else {
        TypeIDASTNode::Other { id: name }
    }
}

/// Whether the current token is the symbol `c`.
fn at_sym(lexer: &Lexer, c: char) -> (res: bool)
    ensures
        res == is_sym(lexer.tokens(), lexer.position(), c),
        lexer.tokens().len() > 0,
        lexer.tokens().last() == TokenView::Eof,
{
    let t = lexer.current_token();
    proof { lemma_current_is_tk(*lexer); }
    match t {
        Token::Symbol { value } => *value == c,
        _ => false,
    }
}

/// Whether the current token is the identifier `word`.
fn at_word(lexer: &Lexer, word: &str) -> (res: bool)
    ensures
        res == is_word(lexer.tokens(), lexer.position(), word@),
        lexer.tokens().len() > 0,
        lexer.tokens().last() == TokenView::Eof,
{
    let t = lexer.current_token();
    proof { lemma_current_is_tk(*lexer); }
    match t {
        Token::ID { name } => str_eq(name.as_str(), word),
        _ => false,
    }
}

/// The identifier under the cursor, if it is one.
fn current_id(lexer: &Lexer) -> (res: Option<String>)
    ensures
        match tk(lexer.tokens(), lexer.position()) {
            TokenView::Id(name) => res matches Some(s) && s@ == name,
            _ => res is None,
        },
        lexer.tokens().len() > 0,
        lexer.tokens().last() == TokenView::Eof,
{
    let t = lexer.current_token();
    proof { lemma_current_is_tk(*lexer); }
    match t {
        Token::ID { name } => Some(name.clone()),
        _ => None,
    }
}

/// The current token is the token of the sequence at the position, or the
/// end.
proof fn lemma_current_is_tk(lexer: Lexer)
    requires
        lexer.tokens().len() > 0,
        lexer.tokens().last() == TokenView::Eof,
    ensures
        lexer.spec_current_token() == tk(lexer.tokens(), lexer.position()),
{
}

/// Moves on past a token that is not the end.
fn advance(lexer: &mut Lexer)
    requires
        old(lexer).tokens().len() > 0,
        old(lexer).tokens().last() == TokenView::Eof,
        old(lexer).position() + 1 < old(lexer).tokens().len(),
    ensures
        final(lexer).tokens() == old(lexer).tokens(),
        final(lexer).position() == old(lexer).position() + 1,
{
    lexer.current_token();
    lexer.next_token();
}

/// A token other than the end lies before the last token.
proof fn lemma_not_end(t: Seq<TokenView>, i: nat)
    requires
        t.len() > 0,
        t.last() == TokenView::Eof,
        tk(t, i) != TokenView::Eof,
    ensures
        i + 1 < t.len(),
{
}

fn error_at(lexer: &Lexer) -> (res: ParseError)
    ensures
        res.position == lexer.position(),
{
    ParseError { position: lexer.cursor() }
}

/// The token sequence of every lexer: it ends with the end token.
pub open spec fn ends_well(t: Seq<TokenView>) -> bool {
    t.len() > 0 && t.last() == TokenView::Eof
}

pub fn parse_type_id(lexer: &mut Lexer) -> (res: Result<TypeIDASTNode, ParseError>)
    ensures
        final(lexer).tokens() == old(lexer).tokens(),
        match type_at(old(lexer).tokens(), old(lexer).position()) {
            Some((ty, m)) => res matches Ok(r) && r@ == ty && final(lexer).position() == m,
            None => res is Err,
        },
        res is Ok ==> final(lexer).position() > old(lexer).position(),
    decreases old(lexer).tokens().len() - old(lexer).position(), 1nat,
{
    lexer.current_token();
    let ghost t = lexer.tokens();
    let ghost i = lexer.position();
    let name = match current_id(lexer) {
        Some(n) => n,
        None => { return Err(error_at(lexer)); },
    };
    proof { lemma_not_end(t, i); }
    advance(lexer);
    if at_sym(lexer, '<') {
        proof { lemma_not_end(t, i + 1); }
        parse_generics(lexer, name, Vec::new())
    } else {
        Ok(named_type_ir(name))
    }
}

fn parse_generics(lexer: &mut Lexer, name: String, acc: Vec<TypeIDASTNode>) -> (res: Result<TypeIDASTNode, ParseError>)
    requires
        ends_well(old(lexer).tokens()),
        old(lexer).position() + 1 < old(lexer).tokens().len(),
    ensures
        final(lexer).tokens() == old(lexer).tokens(),
        match generics_at(old(lexer).tokens(), old(lexer).position(), name@, crate::ast::type_ids_view(acc@)) {
            Some((ty, m)) => res matches Ok(r) && r@ == ty && final(lexer).position() == m,
            None => res is Err,
        },
        res is Ok ==> final(lexer).position() > old(lexer).position(),
    decreases old(lexer).tokens().len() - old(lexer).position(), 0nat,
{
    let ghost t = lexer.tokens();
    let ghost j = lexer.position();
    advance(lexer);
    if current_id(lexer).is_some() {
        let g = match parse_type_id(lexer) {
            Ok(g) => g,
            Err(e) => { return Err(e); },
        };
        let mut acc = acc;
        let ghost before = acc@;
        acc.push(g);
        proof {
            assert(acc@.drop_last() =~= before);
        }
        if at_sym(lexer, '>') {
            proof { lemma_not_end(t, lexer.position()); }
            advance(lexer);
            Ok(TypeIDASTNode::Generic { id: name, generics: acc })
        } else if at_sym(lexer, ',') {
            proof { lemma_not_end(t, lexer.position()); }
            parse_generics(lexer, name, acc)
        } else {
            Err(error_at(lexer))
        }
    } else {
        Ok(named_type_ir(name))
    }
}

// ---------------------------------------------------------------------------
// Literals, positions and arguments.

/// The constant written by the token at `i`; the words `true` and `false`
/// are booleans.
pub open spec fn value_at(t: Seq<TokenView>, i: nat) -> Option<ValueView> {
    match tk(t, i) {
        TokenView::StringLiteral(s) => Some(ValueView { literal: LiteralView::Str(s), type_id: TypeId::Other { id: "String"@ } }),
        TokenView::IntLiteral(v) => Some(ValueView {
            literal: LiteralView::Int(v),
            type_id: TypeId::Integer { id: "i32"@, size: 4, signed: true },
        }),
        TokenView::NumberLiteral { negative, integer, fraction } => Some(ValueView {
            literal: LiteralView::Number { negative, integer, fraction },
            type_id: TypeId::Number { id: "f32"@, size: 4 },
        }),
        TokenView::Id(w) => if w == "true"@ {
            Some(ValueView { literal: LiteralView::Bool(true), type_id: TypeId::Bool { id: "bool"@ } })
        } else if w == "false"@ {
            Some(ValueView { literal: LiteralView::Bool(false), type_id: TypeId::Bool { id: "bool"@ } })
        } else {
            None
        },
        _ => None,
    }
}

/// Reads the constant under the cursor, which stays where it is.
pub fn parse_const_value(lexer: &Lexer) -> (res: Result<ConstValueASTNode, ParseError>)
    ensures
        match value_at(lexer.tokens(), lexer.position()) {
            Some(v) => res matches Ok(r) && value_view(r) == v,
            None => res is Err,
        },
{
    let t = lexer.current_token();
    proof { lemma_current_is_tk(*lexer); }
    match t {
        Token::StringLiteral { value } => Ok(ConstValueASTNode::Literal {
            literal: Literal::StringLiteral(value.clone()),
            type_id: TypeIDASTNode::Other { id: String::from_str("String") },
        }),
        Token::IntLiteral { value } => Ok(ConstValueASTNode::Literal {
            literal: Literal::IntLiteral(*value),
            type_id: TypeIDASTNode::Integer { id: String::from_str("i32"), size: 4, signed: true },
        }),
        Token::NumberLiteral { value } => Ok(ConstValueASTNode::Literal {
            literal: Literal::NumberLiteral(value.clone()),
            type_id: TypeIDASTNode::Number { id: String::from_str("f32"), size: 4 },
        }),
        Token::ID { name } => {
            if str_eq(name.as_str(), "true") {
                Ok(ConstValueASTNode::Literal { literal: Literal::BoolLiteral(true), type_id: TypeIDASTNode::Bool { id: String::from_str("bool") } })
            } else if str_eq(name.as_str(), "false") {
                Ok(ConstValueASTNode::Literal { literal: Literal::BoolLiteral(false), type_id: TypeIDASTNode::Bool { id: String::from_str("bool") } })
            } else {
                Err(error_at(lexer))
            }
        },
        _ => Err(error_at(lexer)),
    }
}

/// `#[<int>]` at `i`: the position it gives, taken modulo 2^32, and the
/// position after it.
pub open spec fn position_at(t: Seq<TokenView>, i: nat) -> Option<(u32, nat)> {
    if is_sym(t, i, '#') && is_sym(t, i + 1, '[') && is_sym(t, i + 3, ']') {
        match tk(t, i + 2) {
            TokenView::IntLiteral(v) => Some((v as u32, i + 4)),
            _ => None,
        }
    } else {
        None
    }
}

pub fn parse_position(lexer: &mut Lexer) -> (res: Result<u32, ParseError>)
    ensures
        final(lexer).tokens() == old(lexer).tokens(),
        match position_at(old(lexer).tokens(), old(lexer).position()) {
            Some((p, m)) => res == Ok::<u32, ParseError>(p) && final(lexer).position() == m,
            None => res is Err,
        },
{
    lexer.current_token();
    let ghost t = lexer.tokens();
    let ghost i = lexer.position();
    if !at_sym(lexer, '#') {
        return Err(error_at(lexer));
    }
    advance(lexer);
    if !at_sym(lexer, '[') {
        return Err(error_at(lexer));
    }
    advance(lexer);
    let value: i64 = match lexer.current_token() {
        Token::IntLiteral { value } => *value,
        _ => { return Err(error_at(lexer)); },
    };
    proof { lemma_current_is_tk(*lexer); }
    advance(lexer);
    if !at_sym(lexer, ']') {
        return Err(error_at(lexer));
    }
    advance(lexer);
    Ok(value as u32)
}

/// The arguments of a method from `i`, with `acc` read so far: `name: type`
/// separated by commas; they end before the first token that is no name.
pub open spec fn args_at(t: Seq<TokenView>, i: nat, acc: Seq<ArgView>) -> Option<(Seq<ArgView>, nat)>
    decreases t.len() - i,
{
    if i >= t.len() {
        None
    } else {
        match t[i as int] {
            TokenView::Id(name) => if is_sym(t, i + 1, ':') {
                match type_at(t, i + 2) {
                    Some((ty, m)) => {
                        let acc2 = acc.push(ArgView { id: name, type_id: ty });
                        if is_sym(t, m, ',') && m > i {
                            args_at(t, m + 1, acc2)
                        } else {
                            Some((acc2, m))
                        }
                    },
                    None => None,
                }
            } else {
                None
            },
            _ => Some((acc, i)),
        }
    }
}

/// The arguments of a method at the cursor: `name: type` separated by
/// commas.
pub fn parse_fn_args(lexer: &mut Lexer) -> (res: Result<Vec<FnArgASTNode>, ParseError>)
    ensures
        final(lexer).tokens() == old(lexer).tokens(),
        match args_at(old(lexer).tokens(), old(lexer).position(), Seq::empty()) {
            Some((v, m)) => res matches Ok(r) && args_view(r@) == v && final(lexer).position() == m,
            None => res is Err,
        },
{
    lexer.current_token();
    proof { assert(args_view(Seq::<FnArgASTNode>::empty()) =~= Seq::<ArgView>::empty()); }
    read_fn_args(lexer, Vec::new())
}

fn read_fn_args(lexer: &mut Lexer, acc: Vec<FnArgASTNode>) -> (res: Result<Vec<FnArgASTNode>, ParseError>)
    requires
        ends_well(old(lexer).tokens()),
    ensures
        final(lexer).tokens() == old(lexer).tokens(),
        match args_at(old(lexer).tokens(), old(lexer).position(), args_view(acc@)) {
            Some((v, m)) => res matches Ok(r) && args_view(r@) == v && final(lexer).position() == m,
            None => res is Err,
        },
    decreases old(lexer).tokens().len() - old(lexer).position(),
{
    let ghost t = lexer.tokens();
    let ghost i = lexer.position();
    let name = match current_id(lexer) {
        Some(n) => n,
        None => {
            if lexer.cursor() >= lexer.tokens_len() {
                return Err(error_at(lexer));
            }
            return Ok(acc);
        },
    };
    proof { lemma_not_end(t, i); }
    advance(lexer);
    if !at_sym(lexer, ':') {
        return Err(error_at(lexer));
    }
    proof { lemma_not_end(t, i + 1); }
    advance(lexer);
    let type_id = match parse_type_id(lexer) {
        Ok(ty) => ty,
        Err(e) => { return Err(e); },
    };
    let mut acc = acc;
    let arg = FnArgASTNode { id: name, type_id };
    proof { assert(args_view(acc@.push(arg)) =~= args_view(acc@).push(arg_view(arg))); }
    acc.push(arg);
    if at_sym(lexer, ',') {
        proof { lemma_not_end(t, lexer.position()); }
        advance(lexer);
        read_fn_args(lexer, acc)
    } else {
        Ok(acc)
    }
}

// ---------------------------------------------------------------------------
// Methods and directives.

/// The end of a method from `k`: `;`, or `-> type;`.
pub open spec fn returns_at(t: Seq<TokenView>, k: nat) -> Option<(Option<TypeId>, nat)> {
    if is_sym(t, k, ';') {
        Some((None, k + 1))
    } else if is_sym(t, k, '-') && is_sym(t, k + 1, '>') {
        match type_at(t, k + 2) {
            Some((ty, p)) => if is_sym(t, p, ';') { Some((Some(ty), p + 1)) } else { None },
            None => None,
        }
    } else {
        None
    }
}

/// `fn name(args) [-> type];` with the word `fn` at `i`; the method gets
/// the number `count`.
pub open spec fn fn_at(t: Seq<TokenView>, i: nat, is_async: bool, count: u32) -> Option<(FnView, nat)> {
    match tk(t, i + 1) {
        TokenView::Id(name) => if is_sym(t, i + 2, '(') {
            match args_at(t, i + 3, Seq::empty()) {
                Some((args, m)) => if is_sym(t, m, ')') {
                    match returns_at(t, m + 1) {
                        Some((ret, p)) => Some((
                            FnView { id: name, position: count, args, return_type_id: ret, is_async, is_signal: false },
                            p,
                        )),
                        None => None,
                    }
                } else {
                    None
                },
                None => None,
            }
        } else {
            None
        },
        _ => None,
    }
}

/// `signal name [-> type];` with the word `signal` at `i`.
pub open spec fn signal_at(t: Seq<TokenView>, i: nat, is_async: bool, count: u32) -> Option<(FnView, nat)> {
    match tk(t, i + 1) {
        TokenView::Id(name) => match returns_at(t, i + 2) {
            Some((ret, p)) => Some((
                FnView { id: name, position: count, args: Seq::empty(), return_type_id: ret, is_async, is_signal: true },
                p,
            )),
            None => None,
        },
        _ => None,
    }
}

/// A method, signal or `async` one of either, at `i`.
pub open spec fn method_at(t: Seq<TokenView>, i: nat, count: u32) -> Option<(FnView, nat)> {
    if is_word(t, i, "fn"@) {
        fn_at(t, i, false, count)
    } else if is_word(t, i, "signal"@) {
        signal_at(t, i, false, count)
    } else if is_word(t, i, "async"@) {
        if is_word(t, i + 1, "fn"@) {
            fn_at(t, i + 1, true, count)
        } else if is_word(t, i + 1, "signal"@) {
            signal_at(t, i + 1, true, count)
        } else {
            None
        }
    } else {
        None
    }
}

fn parse_returns(lexer: &mut Lexer) -> (res: Result<Option<TypeIDASTNode>, ParseError>)
    requires
        ends_well(old(lexer).tokens()),
    ensures
        final(lexer).tokens() == old(lexer).tokens(),
        match returns_at(old(lexer).tokens(), old(lexer).position()) {
            Some((ret, p)) => res matches Ok(r) && final(lexer).position() == p && match r {
                Some(ty) => ret == Some(ty@),
                None => ret is None,
            },
            None => res is Err,
        },
{
    let ghost t = lexer.tokens();
    if at_sym(lexer, ';') {
        proof { lemma_not_end(t, lexer.position()); }
        advance(lexer);
        return Ok(None);
    }
    if !at_sym(lexer, '-') {
        return Err(error_at(lexer));
    }
    proof { lemma_not_end(t, lexer.position()); }
    advance(lexer);
    if !at_sym(lexer, '>') {
        return Err(error_at(lexer));
    }
    proof { lemma_not_end(t, lexer.position()); }
    advance(lexer);
    let ty = match parse_type_id(lexer) {
        Ok(ty) => ty,
        Err(e) => { return Err(e); },
    };
    if !at_sym(lexer, ';') {
        return Err(error_at(lexer));
    }
    proof { lemma_not_end(t, lexer.position()); }
    advance(lexer);
    Ok(Some(ty))
}

fn parse_fn(lexer: &mut Lexer, is_async: bool, count: u32) -> (res: Result<FnASTNode, ParseError>)
    requires
        ends_well(old(lexer).tokens()),
        is_word(old(lexer).tokens(), old(lexer).position(), "fn"@),
    ensures
        final(lexer).tokens() == old(lexer).tokens(),
        match fn_at(old(lexer).tokens(), old(lexer).position(), is_async, count) {
            Some((f, p)) => res matches Ok(r) && fn_view(r) == f && final(lexer).position() == p,
            None => res is Err,
        },
{
    let ghost t = lexer.tokens();
    let ghost i = lexer.position();
    proof { lemma_not_end(t, i); }
    advance(lexer);
    let id = match current_id(lexer) {
        Some(n) => n,
        None => { return Err(error_at(lexer)); },
    };
    proof { lemma_not_end(t, i + 1); }
    advance(lexer);
    if !at_sym(lexer, '(') {
        return Err(error_at(lexer));
    }
    proof { lemma_not_end(t, i + 2); }
    advance(lexer);
    proof { assert(args_view(Seq::<FnArgASTNode>::empty()) =~= Seq::<ArgView>::empty()); }
    let args = match read_fn_args(lexer, Vec::new()) {
        Ok(a) => a,
        Err(e) => { return Err(e); },
    };
    if !at_sym(lexer, ')') {
        return Err(error_at(lexer));
    }
    proof { lemma_not_end(t, lexer.position()); }
    advance(lexer);
    let return_type_id = match parse_returns(lexer) {
        Ok(r) => r,
        Err(e) => { return Err(e); },
    };
    Ok(FnASTNode { id, position: count, args, return_type_id, is_read: false, is_async, is_signal: false })
}

fn parse_signal(lexer: &mut Lexer, is_async: bool, count: u32) -> (res: Result<FnASTNode, ParseError>)
    requires
        ends_well(old(lexer).tokens()),
        is_word(old(lexer).tokens(), old(lexer).position(), "signal"@),
    ensures
        final(lexer).tokens() == old(lexer).tokens(),
        match signal_at(old(lexer).tokens(), old(lexer).position(), is_async, count) {
            Some((f, p)) => res matches Ok(r) && fn_view(r) == f && final(lexer).position() == p,
            None => res is Err,
        },
{
    let ghost t = lexer.tokens();
    let ghost i = lexer.position();
    proof { lemma_not_end(t, i); }
    advance(lexer);
    let id = match current_id(lexer) {
        Some(n) => n,
        None => { return Err(error_at(lexer)); },
    };
    proof { lemma_not_end(t, i + 1); }
    advance(lexer);
    let return_type_id = match parse_returns(lexer) {
        Ok(r) => r,
        Err(e) => { return Err(e); },
    };
    let args: Vec<FnArgASTNode> = Vec::new();
    proof { assert(args_view(args@) =~= Seq::<ArgView>::empty()); }
    Ok(FnASTNode { id, position: count, args, return_type_id, is_read: false, is_async, is_signal: true })
}

fn parse_method(lexer: &mut Lexer, count: u32) -> (res: Result<FnASTNode, ParseError>)
    requires
        ends_well(old(lexer).tokens()),
    ensures
        final(lexer).tokens() == old(lexer).tokens(),
        match method_at(old(lexer).tokens(), old(lexer).position(), count) {
            Some((f, p)) => res matches Ok(r) && fn_view(r) == f && final(lexer).position() == p,
            None => res is Err,
        },
{
    let ghost t = lexer.tokens();
    let ghost i = lexer.position();
    if at_word(lexer, "fn") {
        parse_fn(lexer, false, count)
    } else if at_word(lexer, "signal") {
        parse_signal(lexer, false, count)
    } else if at_word(lexer, "async") {
        proof { lemma_not_end(t, i); }
        advance(lexer);
        if at_word(lexer, "fn") {
            parse_fn(lexer, true, count)
        } else if at_word(lexer, "signal") {
            parse_signal(lexer, true, count)
        } else {
            Err(error_at(lexer))
        }
    } else {
        Err(error_at(lexer))
    }
}

/// The `name = value` pairs of a group directive from `j`, with `acc` read
/// so far, separated by commas.
pub open spec fn pairs_at(t: Seq<TokenView>, j: nat, acc: Seq<PairView>) -> Option<(Seq<PairView>, nat)>
    decreases t.len() - j,
{
    if j >= t.len() {
        None
    } else {
        match t[j as int] {
            TokenView::Id(name) => if is_sym(t, j + 1, '=') {
                match value_at(t, j + 2) {
                    Some(v) => {
                        let acc2 = acc.push(PairView { id: name, value: v });
                        if is_sym(t, j + 3, ',') { pairs_at(t, j + 4, acc2) } else { Some((acc2, j + 3)) }
                    },
                    None => None,
                }
            } else {
                None
            },
            _ => Some((acc, j)),
        }
    }
}

/// `#[id = value]` or `#[group(name = value, ..)]` at `i`.
pub open spec fn directive_at(t: Seq<TokenView>, i: nat) -> Option<(DirectiveView, nat)> {
    if is_sym(t, i, '#') && is_sym(t, i + 1, '[') {
        match tk(t, i + 2) {
            TokenView::Id(id) => if is_sym(t, i + 3, '=') {
                match value_at(t, i + 4) {
                    Some(v) => if is_sym(t, i + 5, ']') {
                        Some((DirectiveView::Value { id, value: v }, i + 6))
                    } else {
                        None
                    },
                    None => None,
                }
            } else if is_sym(t, i + 3, '(') {
                match pairs_at(t, i + 4, Seq::empty()) {
                    Some((ps, m)) => if is_sym(t, m + 1, ']') {
                        Some((DirectiveView::Group { group_id: id, values: ps }, m + 2))
                    } else {
                        None
                    },
                    None => None,
                }
            } else {
                None
            },
            _ => None,
        }
    } else {
        None
    }
}

pub open spec fn pairs_view(s: Seq<IdValuePair>) -> Seq<PairView> {
    s.map_values(|p: IdValuePair| pair_view(p))
}

fn parse_pairs(lexer: &mut Lexer, acc: Vec<IdValuePair>) -> (res: Result<Vec<IdValuePair>, ParseError>)
    requires
        ends_well(old(lexer).tokens()),
    ensures
        final(lexer).tokens() == old(lexer).tokens(),
        match pairs_at(old(lexer).tokens(), old(lexer).position(), pairs_view(acc@)) {
            Some((v, m)) => res matches Ok(r) && pairs_view(r@) == v && final(lexer).position() == m,
            None => res is Err,
        },
    decreases old(lexer).tokens().len() - old(lexer).position(),
{
    let ghost t = lexer.tokens();
    let ghost j = lexer.position();
    let id = match current_id(lexer) {
        Some(n) => n,
        None => {
            if lexer.cursor() >= lexer.tokens_len() {
                return Err(error_at(lexer));
            }
            return Ok(acc);
        },
    };
    proof { lemma_not_end(t, j); }
    advance(lexer);
    if !at_sym(lexer, '=') {
        return Err(error_at(lexer));
    }
    proof { lemma_not_end(t, j + 1); }
    advance(lexer);
    let value = match parse_const_value(lexer) {
        Ok(v) => v,
        Err(e) => { return Err(e); },
    };
    proof { lemma_current_is_tk(*lexer); lemma_not_end(t, j + 2); }
    advance(lexer);
    let mut acc = acc;
    let pair = IdValuePair { id, value };
    proof { assert(pairs_view(acc@.push(pair)) =~= pairs_view(acc@).push(pair_view(pair))); }
    acc.push(pair);
    if at_sym(lexer, ',') {
        proof { lemma_not_end(t, j + 3); }
        advance(lexer);
        parse_pairs(lexer, acc)
    } else {
        Ok(acc)
    }
}

pub fn parse_directive(lexer: &mut Lexer) -> (res: Result<DirectiveASTNode, ParseError>)
    ensures
        final(lexer).tokens() == old(lexer).tokens(),
        match directive_at(old(lexer).tokens(), old(lexer).position()) {
            Some((d, p)) => res matches Ok(r) && directive_view(r) == d && final(lexer).position() == p,
            None => res is Err,
        },
{
    lexer.current_token();
    let ghost t = lexer.tokens();
    let ghost i = lexer.position();
    if !at_sym(lexer, '#') {
        return Err(error_at(lexer));
    }
    proof { lemma_not_end(t, i); }
    advance(lexer);
    if !at_sym(lexer, '[') {
        return Err(error_at(lexer));
    }
    proof { lemma_not_end(t, i + 1); }
    advance(lexer);
    let id = match current_id(lexer) {
        Some(n) => n,
        None => { return Err(error_at(lexer)); },
    };
    proof { lemma_not_end(t, i + 2); }
    advance(lexer);
    if at_sym(lexer, '=') {
        proof { lemma_not_end(t, i + 3); }
        advance(lexer);
        let value = match parse_const_value(lexer) {
            Ok(v) => v,
            Err(e) => { return Err(e); },
        };
        proof { lemma_current_is_tk(*lexer); lemma_not_end(t, i + 4); }
        advance(lexer);
        if !at_sym(lexer, ']') {
            return Err(error_at(lexer));
        }
        proof { lemma_not_end(t, i + 5); }
        advance(lexer);
        Ok(DirectiveASTNode::Value { id, value })
    } else if at_sym(lexer, '(') {
        proof { lemma_not_end(t, i + 3); }
        advance(lexer);
        proof { assert(pairs_view(Seq::<IdValuePair>::empty()) =~= Seq::<PairView>::empty()); }
        let values = match parse_pairs(lexer, Vec::new()) {
            Ok(v) => v,
            Err(e) => { return Err(e); },
        };
        let c = lexer.cursor();
        let n = lexer.tokens_len();
        if c >= n || n - c <= 1 {
            return Err(error_at(lexer));
        }
        advance(lexer);
        if !at_sym(lexer, ']') {
            return Err(error_at(lexer));
        }
        proof { lemma_not_end(t, lexer.position()); }
        advance(lexer);
        let ghost vs = pairs_view(values@);
        let d = DirectiveASTNode::Group { group_id: id, values };
        proof { assert(directive_view(d) == DirectiveView::Group { group_id: d->group_id@, values: vs }); }
        Ok(d)
    } else {
        Err(error_at(lexer))
    }
}

// ---------------------------------------------------------------------------
// Positions of fields and variants.

/// The first number from `a` on that no explicit position took; past the
/// range of `u32`, the number itself.
pub open spec fn skip_used(ps: Seq<u32>, a: int) -> int
    decreases u32::MAX + 1 - a,
{
    if 0 <= a <= u32::MAX && ps.contains(a as u32) {
        skip_used(ps, a + 1)
    } else {
        a
    }
}

fn contains_u32(v: &Vec<u32>, x: u32) -> (res: bool)
    ensures
        res == v@.contains(x),
{
    let mut k: usize = 0;
    while k < v.len()
        invariant
            k <= v@.len(),
            forall|m: int| 0 <= m < k ==> v@[m] != x,
        decreases v@.len() - k,
    {
        if v[k] == x {
            return true;
        }
        k = k + 1;
    }
    false
}

/// The next free position after `a` has been used, where it is a `u32`.
pub open spec fn auto_after(ps: Seq<u32>, a: u32) -> Option<u32> {
    let b = skip_used(ps, a + 1);
    if b <= u32::MAX { Some(b as u32) } else { None }
}

fn next_auto(ps: &Vec<u32>, a: u32) -> (res: Option<u32>)
    ensures
        res == auto_after(ps@, a),
{
    let mut b: u64 = a as u64 + 1;
    while b <= u32::MAX as u64 && contains_u32(ps, b as u32)
        invariant
            a + 1 <= b <= u32::MAX + 1,
            skip_used(ps@, a + 1) == skip_used(ps@, b as int),
        decreases u32::MAX + 1 - b,
    {
        b = b + 1;
    }
    if b <= u32::MAX as u64 { Some(b as u32) } else { None }
}

// ---------------------------------------------------------------------------
// Fields: `[#[n]] name: type` and `[#[n]] type`, ordered by position.

/// Inserts `x` after the last item whose key is at most its own.
pub open spec fn insert_by_key<A>(s: Seq<A>, x: A, key: spec_fn(A) -> u32) -> Seq<A>
    decreases s.len(),
{
    if s.len() == 0 {
        seq![x]
    } else if key(s.last()) <= key(x) {
        s.push(x)
    } else {
        insert_by_key(s.drop_last(), x, key).push(s.last())
    }
}

/// The items ordered by key; items with equal keys keep their order.
pub open spec fn sort_by_key<A>(s: Seq<A>, key: spec_fn(A) -> u32) -> Seq<A>
    decreases s.len(),
{
    if s.len() == 0 {
        s
    } else {
        insert_by_key(sort_by_key(s.drop_last(), key), s.last(), key)
    }
}

proof fn lemma_insert_by_key<A>(s: Seq<A>, x: A, key: spec_fn(A) -> u32, k: int)
    requires
        0 <= k <= s.len(),
        forall|j: int| k <= j < s.len() ==> key(#[trigger] s[j]) > key(x),
        k == 0 || key(s[k - 1]) <= key(x),
    ensures
        insert_by_key(s, x, key) == s.insert(k, x),
    decreases s.len(),
{
    if s.len() == 0 {
        assert(seq![x] =~= s.insert(k, x));
    } else if k == s.len() {
        assert(s.push(x) =~= s.insert(k, x));
    } else {
        lemma_insert_by_key(s.drop_last(), x, key, k);
        assert(s.drop_last().insert(k, x).push(s.last()) =~= s.insert(k, x));
    }
}

pub struct FieldView {
    pub position: u32,
    pub name: Seq<char>,
    pub type_id: TypeId,
}

pub open spec fn field_view(f: StructFieldASTNode) -> FieldView {
    FieldView { position: f.position, name: f.name@, type_id: f.type_id@ }
}

pub open spec fn fields_view(s: Seq<StructFieldASTNode>) -> Seq<FieldView> {
    s.map_values(|f: StructFieldASTNode| field_view(f))
}

pub open spec fn field_key() -> spec_fn(FieldView) -> u32 {
    |f: FieldView| f.position
}

/// The fields from `i`, with `acc` read so far, the explicit positions
/// `ps` and the next automatic position `a`; in the order written.
pub open spec fn fields_at(t: Seq<TokenView>, i: nat, acc: Seq<FieldView>, ps: Seq<u32>, a: u32) -> Option<(Seq<FieldView>, nat)>
    decreases t.len() - i, 1nat,
{
    if i >= t.len() {
        None
    } else if is_sym(t, i, '#') {
        match position_at(t, i) {
            Some((p, k)) => if ps.contains(p) { None } else { field_after(t, i, k, p, acc, ps.push(p), a) },
            None => None,
        }
    } else {
        field_after(t, i, i, a, acc, ps, a)
    }
}

/// The field at `k`, which gets the position `p`.
pub open spec fn field_after(t: Seq<TokenView>, i: nat, k: nat, p: u32, acc: Seq<FieldView>, ps: Seq<u32>, a: u32) -> Option<(Seq<FieldView>, nat)>
    decreases t.len() - i, 0nat,
{
    match tk(t, k) {
        TokenView::Id(name) => if is_sym(t, k + 1, ':') {
            match type_at(t, k + 2) {
                Some((ty, m)) => {
                    let acc2 = acc.push(FieldView { position: p, name, type_id: ty });
                    match auto_after(ps, a) {
                        Some(a2) => if is_sym(t, m, ',') && i <= m < t.len() {
                            fields_at(t, m + 1, acc2, ps, a2)
                        } else {
                            Some((acc2, m))
                        },
                        None => None,
                    }
                },
                None => None,
            }
        } else {
            None
        },
        _ => Some((acc, k)),
    }
}

/// The fields of a struct or a variant, ordered by position.
pub open spec fn struct_fields_at(t: Seq<TokenView>, i: nat) -> Option<(Seq<FieldView>, nat)> {
    match fields_at(t, i, Seq::empty(), Seq::empty(), 0) {
        Some((fs, m)) => Some((sort_by_key(fs, field_key()), m)),
        None => None,
    }
}

/// Reads the explicit position at the cursor, if there is one, and checks
/// it was not taken before.
fn parse_field_position(lexer: &mut Lexer, ps: &mut Vec<u32>, a: u32) -> (res: Result<u32, ParseError>)
    requires
        ends_well(old(lexer).tokens()),
        old(lexer).position() < old(lexer).tokens().len(),
    ensures
        final(lexer).tokens() == old(lexer).tokens(),
        if is_sym(old(lexer).tokens(), old(lexer).position(), '#') {
            match position_at(old(lexer).tokens(), old(lexer).position()) {
                Some((p, k)) => if old(ps)@.contains(p) {
                    res is Err
                } else {
                    res == Ok::<u32, ParseError>(p) && final(lexer).position() == k && final(ps)@ == old(ps)@.push(p)
                },
                None => res is Err,
            }
        } else {
            res == Ok::<u32, ParseError>(a) && final(lexer).position() == old(lexer).position() && final(ps)@ == old(ps)@
        },
{
    if at_sym(lexer, '#') {
        let p = match parse_position(lexer) {
            Ok(p) => p,
            Err(e) => { return Err(e); },
        };
        if contains_u32(ps, p) {
            return Err(error_at(lexer));
        }
        ps.push(p);
        Ok(p)
    } else {
        Ok(a)
    }
}

fn parse_struct_fields(lexer: &mut Lexer, acc: Vec<StructFieldASTNode>, ps: Vec<u32>, a: u32) -> (res: Result<Vec<StructFieldASTNode>, ParseError>)
    requires
        ends_well(old(lexer).tokens()),
    ensures
        final(lexer).tokens() == old(lexer).tokens(),
        match fields_at(old(lexer).tokens(), old(lexer).position(), fields_view(acc@), ps@, a) {
            Some((v, m)) => res matches Ok(r) && fields_view(r@) == v && final(lexer).position() == m,
            None => res is Err,
        },
        res is Ok ==> final(lexer).position() >= old(lexer).position(),
    decreases old(lexer).tokens().len() - old(lexer).position(),
{
    let ghost t = lexer.tokens();
    let ghost i = lexer.position();
    let c = lexer.cursor();
    if c >= lexer.tokens_len() {
        return Err(error_at(lexer));
    }
    let mut ps = ps;
    let p = match parse_field_position(lexer, &mut ps, a) {
        Ok(p) => p,
        Err(e) => { return Err(e); },
    };
    let ghost k = lexer.position();
    let name = match current_id(lexer) {
        Some(n) => n,
        None => { return Ok(acc); },
    };
    proof { lemma_not_end(t, k); }
    advance(lexer);
    if !at_sym(lexer, ':') {
        return Err(error_at(lexer));
    }
    proof { lemma_not_end(t, k + 1); }
    advance(lexer);
    let type_id = match parse_type_id(lexer) {
        Ok(ty) => ty,
        Err(e) => { return Err(e); },
    };
    let mut acc = acc;
    let field = StructFieldASTNode { position: p, name, type_id };
    proof { assert(fields_view(acc@.push(field)) =~= fields_view(acc@).push(field_view(field))); }
    acc.push(field);
    let a2 = match next_auto(&ps, a) {
        Some(a2) => a2,
        None => { return Err(error_at(lexer)); },
    };
    if at_sym(lexer, ',') {
        proof { lemma_not_end(t, lexer.position()); }
        advance(lexer);
        parse_struct_fields(lexer, acc, ps, a2)
    } else {
        Ok(acc)
    }
}

/// Orders fields by position, keeping the order of equal ones.
fn sort_struct_fields(fields: Vec<StructFieldASTNode>) -> (res: Vec<StructFieldASTNode>)
    ensures
        fields_view(res@) == sort_by_key(fields_view(fields@), field_key()),
{
    let mut res: Vec<StructFieldASTNode> = Vec::new();
    let mut fields = fields;
    let ghost all = fields_view(fields@);
    let ghost mut done: int = 0;
    while fields.len() > 0
        invariant
            0 <= done <= all.len(),
            fields_view(fields@) == all.skip(done),
            fields_view(res@) == sort_by_key(all.take(done), field_key()),
        decreases fields@.len(),
    {
        let ghost before = fields@;
        let f = fields.remove(0);
        proof {
            assert(before =~= seq![f] + fields@);
            assert(fields_view(before) =~= seq![field_view(f)] + fields_view(fields@));
            assert(all.skip(done)[0] == field_view(f));
            assert(fields_view(fields@) =~= fields_view(before).skip(1));
            assert(all.skip(done).skip(1) =~= all.skip(done + 1));
            assert(all.take(done + 1).drop_last() =~= all.take(done));
        }
        let mut k: usize = res.len();
        while k > 0 && res[k - 1].position > f.position
            invariant
                k <= res@.len(),
                forall|j: int| k <= j < res@.len() ==> res@[j].position > f.position,
            decreases k,
        {
            k = k - 1;
        }
        proof {
            let s = fields_view(res@);
            assert forall|j: int| k <= j < s.len() implies (field_key())(#[trigger] s[j]) > (field_key())(field_view(f)) by {
                assert(res@[j].position > f.position);
            }
            lemma_insert_by_key(s, field_view(f), field_key(), k as int);
            assert(fields_view(res@.insert(k as int, f)) =~= s.insert(k as int, field_view(f)));
        }
        res.insert(k, f);
        proof { done = done + 1; }
    }
    assert(all.take(all.len() as int) =~= all);
    res
}


pub struct TupleView {
    pub position: u32,
    pub type_id: TypeId,
}

pub open spec fn tuple_view(f: TupleFieldASTNode) -> TupleView {
    TupleView { position: f.position, type_id: f.type_id@ }
}

pub open spec fn tuples_view(s: Seq<TupleFieldASTNode>) -> Seq<TupleView> {
    s.map_values(|f: TupleFieldASTNode| tuple_view(f))
}

pub open spec fn tuple_key() -> spec_fn(TupleView) -> u32 {
    |f: TupleView| f.position
}

/// The values of a tuple variant from `i`, as `fields_at` reads fields.
pub open spec fn tuples_at(t: Seq<TokenView>, i: nat, acc: Seq<TupleView>, ps: Seq<u32>, a: u32) -> Option<(Seq<TupleView>, nat)>
    decreases t.len() - i, 1nat,
{
    if i >= t.len() {
        None
    } else if is_sym(t, i, '#') {
        match position_at(t, i) {
            Some((p, k)) => if ps.contains(p) { None } else { tuple_after(t, i, k, p, acc, ps.push(p), a) },
            None => None,
        }
    } else {
        tuple_after(t, i, i, a, acc, ps, a)
    }
}

/// The value at `k`: a type, which starts with a name.
pub open spec fn tuple_after(t: Seq<TokenView>, i: nat, k: nat, p: u32, acc: Seq<TupleView>, ps: Seq<u32>, a: u32) -> Option<(Seq<TupleView>, nat)>
    decreases t.len() - i, 0nat,
{
    if tk(t, k) is Id {
        match type_at(t, k) {
            Some((ty, m)) => {
                let acc2 = acc.push(TupleView { position: p, type_id: ty });
                match auto_after(ps, a) {
                    Some(a2) => if is_sym(t, m, ',') && i <= m < t.len() {
                        tuples_at(t, m + 1, acc2, ps, a2)
                    } else {
                        Some((acc2, m))
                    },
                    None => None,
                }
            },
            None => None,
        }
    } else {
        Some((acc, k))
    }
}

/// The values of a tuple variant, ordered by position.
pub open spec fn tuple_fields_at(t: Seq<TokenView>, i: nat) -> Option<(Seq<TupleView>, nat)> {
    match tuples_at(t, i, Seq::empty(), Seq::empty(), 0) {
        Some((fs, m)) => Some((sort_by_key(fs, tuple_key()), m)),
        None => None,
    }
}

fn parse_tuple_fields(lexer: &mut Lexer, acc: Vec<TupleFieldASTNode>, ps: Vec<u32>, a: u32) -> (res: Result<Vec<TupleFieldASTNode>, ParseError>)
    requires
        ends_well(old(lexer).tokens()),
    ensures
        final(lexer).tokens() == old(lexer).tokens(),
        match tuples_at(old(lexer).tokens(), old(lexer).position(), tuples_view(acc@), ps@, a) {
            Some((v, m)) => res matches Ok(r) && tuples_view(r@) == v && final(lexer).position() == m,
            None => res is Err,
        },
        res is Ok ==> final(lexer).position() >= old(lexer).position(),
    decreases old(lexer).tokens().len() - old(lexer).position(),
{
    let ghost t = lexer.tokens();
    let c = lexer.cursor();
    if c >= lexer.tokens_len() {
        return Err(error_at(lexer));
    }
    let mut ps = ps;
    let p = match parse_field_position(lexer, &mut ps, a) {
        Ok(p) => p,
        Err(e) => { return Err(e); },
    };
    if current_id(lexer).is_none() {
        return Ok(acc);
    }
    let type_id = match parse_type_id(lexer) {
        Ok(ty) => ty,
        Err(e) => { return Err(e); },
    };
    let mut acc = acc;
    let value = TupleFieldASTNode { position: p, type_id };
    proof { assert(tuples_view(acc@.push(value)) =~= tuples_view(acc@).push(tuple_view(value))); }
    acc.push(value);
    let a2 = match next_auto(&ps, a) {
        Some(a2) => a2,
        None => { return Err(error_at(lexer)); },
    };
    if at_sym(lexer, ',') {
        proof { lemma_not_end(t, lexer.position()); }
        advance(lexer);
        parse_tuple_fields(lexer, acc, ps, a2)
    } else {
        Ok(acc)
    }
}

/// Orders tuple values by position, keeping the order of equal ones.
fn sort_tuple_fields(fields: Vec<TupleFieldASTNode>) -> (res: Vec<TupleFieldASTNode>)
    ensures
        tuples_view(res@) == sort_by_key(tuples_view(fields@), tuple_key()),
{
    let mut res: Vec<TupleFieldASTNode> = Vec::new();
    let mut fields = fields;
    let ghost all = tuples_view(fields@);
    let ghost mut done: int = 0;
    while fields.len() > 0
        invariant
            0 <= done <= all.len(),
            tuples_view(fields@) == all.skip(done),
            tuples_view(res@) == sort_by_key(all.take(done), tuple_key()),
        decreases fields@.len(),
    {
        let ghost before = fields@;
        let f = fields.remove(0);
        proof {
            assert(before =~= seq![f] + fields@);
            assert(tuples_view(before) =~= seq![tuple_view(f)] + tuples_view(fields@));
            assert(all.skip(done)[0] == tuple_view(f));
            assert(tuples_view(fields@) =~= tuples_view(before).skip(1));
            assert(all.skip(done).skip(1) =~= all.skip(done + 1));
            assert(all.take(done + 1).drop_last() =~= all.take(done));
        }
        let mut k: usize = res.len();
        while k > 0 && res[k - 1].position > f.position
            invariant
                k <= res@.len(),
                forall|j: int| k <= j < res@.len() ==> res@[j].position > f.position,
            decreases k,
        {
            k = k - 1;
        }
        proof {
            let s = tuples_view(res@);
            assert forall|j: int| k <= j < s.len() implies (tuple_key())(#[trigger] s[j]) > (tuple_key())(tuple_view(f)) by {
                assert(res@[j].position > f.position);
            }
            lemma_insert_by_key(s, tuple_view(f), tuple_key(), k as int);
            assert(tuples_view(res@.insert(k as int, f)) =~= s.insert(k as int, tuple_view(f)));
        }
        res.insert(k, f);
        proof { done = done + 1; }
    }
    assert(all.take(all.len() as int) =~= all);
    res
}
pub fn parse_struct_parameters(lexer: &mut Lexer) -> (res: Result<Vec<StructFieldASTNode>, ParseError>)
    ensures
        final(lexer).tokens() == old(lexer).tokens(),
        match struct_fields_at(old(lexer).tokens(), old(lexer).position()) {
            Some((v, m)) => res matches Ok(r) && fields_view(r@) == v && final(lexer).position() == m,
            None => res is Err,
        },
        res is Ok ==> final(lexer).position() >= old(lexer).position(),
{
    lexer.current_token();
    proof { assert(fields_view(Seq::<StructFieldASTNode>::empty()) =~= Seq::<FieldView>::empty()); }
    match parse_struct_fields(lexer, Vec::new(), Vec::new(), 0) {
        Ok(fs) => Ok(sort_struct_fields(fs)),
        Err(e) => Err(e),
    }
}

pub fn parse_tuple_parameters(lexer: &mut Lexer) -> (res: Result<Vec<TupleFieldASTNode>, ParseError>)
    ensures
        final(lexer).tokens() == old(lexer).tokens(),
        match tuple_fields_at(old(lexer).tokens(), old(lexer).position()) {
            Some((v, m)) => res matches Ok(r) && tuples_view(r@) == v && final(lexer).position() == m,
            None => res is Err,
        },
        res is Ok ==> final(lexer).position() >= old(lexer).position(),
{
    lexer.current_token();
    proof { assert(tuples_view(Seq::<TupleFieldASTNode>::empty()) =~= Seq::<TupleView>::empty()); }
    match parse_tuple_fields(lexer, Vec::new(), Vec::new(), 0) {
        Ok(fs) => Ok(sort_tuple_fields(fs)),
        Err(e) => Err(e),
    }
}

// ---------------------------------------------------------------------------
// Enums and structs.

pub enum ItemView {
    Empty { position: u32, id: Seq<char> },
    Tuple { position: u32, id: Seq<char>, values: Seq<TupleView> },
    Struct { position: u32, id: Seq<char>, fields: Seq<FieldView> },
}

pub open spec fn item_view(item: EnumItemASTNode) -> ItemView {
    match item {
        EnumItemASTNode::Empty { position, id } => ItemView::Empty { position, id: id@ },
        EnumItemASTNode::Tuple { position, id, values } => ItemView::Tuple { position, id: id@, values: tuples_view(values@) },
        EnumItemASTNode::Struct { position, id, fields } => ItemView::Struct { position, id: id@, fields: fields_view(fields@) },
    }
}

pub open spec fn items_view(s: Seq<EnumItemASTNode>) -> Seq<ItemView> {
    s.map_values(|i: EnumItemASTNode| item_view(i))
}

/// The body of the variant named at `k`: `(values)`, `{ fields }` or
/// nothing.
pub open spec fn variant_at(t: Seq<TokenView>, k: nat, p: u32, name: Seq<char>) -> Option<(ItemView, nat)> {
    if is_sym(t, k + 1, '(') {
        match tuple_fields_at(t, k + 2) {
            Some((vs, m)) => if is_sym(t, m, ')') { Some((ItemView::Tuple { position: p, id: name, values: vs }, m + 1)) } else { None },
            None => None,
        }
    } else if is_sym(t, k + 1, '{') {
        match struct_fields_at(t, k + 2) {
            Some((fs, m)) => if is_sym(t, m, '}') { Some((ItemView::Struct { position: p, id: name, fields: fs }, m + 1)) } else { None },
            None => None,
        }
    } else {
        Some((ItemView::Empty { position: p, id: name }, k + 1))
    }
}

/// The variants of an enum from `i`, as `fields_at` reads fields.
pub open spec fn items_at(t: Seq<TokenView>, i: nat, acc: Seq<ItemView>, ps: Seq<u32>, a: u32) -> Option<(Seq<ItemView>, nat)>
    decreases t.len() - i, 1nat,
{
    if i >= t.len() {
        None
    } else if is_sym(t, i, '#') {
        match position_at(t, i) {
            Some((p, k)) => if ps.contains(p) { None } else { item_after(t, i, k, p, acc, ps.push(p), a) },
            None => None,
        }
    } else {
        item_after(t, i, i, a, acc, ps, a)
    }
}

pub open spec fn item_after(t: Seq<TokenView>, i: nat, k: nat, p: u32, acc: Seq<ItemView>, ps: Seq<u32>, a: u32) -> Option<(Seq<ItemView>, nat)>
    decreases t.len() - i, 0nat,
{
    match tk(t, k) {
        TokenView::Id(name) => match variant_at(t, k, p, name) {
            Some((item, m)) => match auto_after(ps, a) {
                Some(a2) => {
                    let acc2 = acc.push(item);
                    if is_sym(t, m, ',') && i <= m < t.len() { items_at(t, m + 1, acc2, ps, a2) } else { Some((acc2, m)) }
                },
                None => None,
            },
            None => None,
        },
        _ => Some((acc, k)),
    }
}

fn parse_variant(lexer: &mut Lexer, p: u32, name: String) -> (res: Result<EnumItemASTNode, ParseError>)
    requires
        ends_well(old(lexer).tokens()),
        old(lexer).position() + 1 < old(lexer).tokens().len(),
    ensures
        final(lexer).tokens() == old(lexer).tokens(),
        match variant_at(old(lexer).tokens(), old(lexer).position(), p, name@) {
            Some((v, m)) => res matches Ok(r) && item_view(r) == v && final(lexer).position() == m,
            None => res is Err,
        },
        res is Ok ==> final(lexer).position() > old(lexer).position(),
{
    let ghost t = lexer.tokens();
    let ghost k = lexer.position();
    advance(lexer);
    if at_sym(lexer, '(') {
        proof { lemma_not_end(t, k + 1); }
        advance(lexer);
        let values = match parse_tuple_parameters(lexer) {
            Ok(v) => v,
            Err(e) => { return Err(e); },
        };
        if !at_sym(lexer, ')') {
            return Err(error_at(lexer));
        }
        proof { lemma_not_end(t, lexer.position()); }
        advance(lexer);
        Ok(EnumItemASTNode::Tuple { position: p, id: name, values })
    } else if at_sym(lexer, '{') {
        proof { lemma_not_end(t, k + 1); }
        advance(lexer);
        let fields = match parse_struct_parameters(lexer) {
            Ok(v) => v,
            Err(e) => { return Err(e); },
        };
        if !at_sym(lexer, '}') {
            return Err(error_at(lexer));
        }
        proof { lemma_not_end(t, lexer.position()); }
        advance(lexer);
        Ok(EnumItemASTNode::Struct { position: p, id: name, fields })
    } else {
        Ok(EnumItemASTNode::Empty { position: p, id: name })
    }
}

fn parse_enum_items(lexer: &mut Lexer, acc: Vec<EnumItemASTNode>, ps: Vec<u32>, a: u32) -> (res: Result<Vec<EnumItemASTNode>, ParseError>)
    requires
        ends_well(old(lexer).tokens()),
    ensures
        final(lexer).tokens() == old(lexer).tokens(),
        match items_at(old(lexer).tokens(), old(lexer).position(), items_view(acc@), ps@, a) {
            Some((v, m)) => res matches Ok(r) && items_view(r@) == v && final(lexer).position() == m,
            None => res is Err,
        },
        res is Ok ==> final(lexer).position() >= old(lexer).position(),
    decreases old(lexer).tokens().len() - old(lexer).position(),
{
    let ghost t = lexer.tokens();
    let c = lexer.cursor();
    if c >= lexer.tokens_len() {
        return Err(error_at(lexer));
    }
    let mut ps = ps;
    let p = match parse_field_position(lexer, &mut ps, a) {
        Ok(p) => p,
        Err(e) => { return Err(e); },
    };
    let name = match current_id(lexer) {
        Some(n) => n,
        None => { return Ok(acc); },
    };
    proof { lemma_not_end(t, lexer.position()); }
    let item = match parse_variant(lexer, p, name) {
        Ok(item) => item,
        Err(e) => { return Err(e); },
    };
    let a2 = match next_auto(&ps, a) {
        Some(a2) => a2,
        None => { return Err(error_at(lexer)); },
    };
    let mut acc = acc;
    proof { assert(items_view(acc@.push(item)) =~= items_view(acc@).push(item_view(item))); }
    acc.push(item);
    if at_sym(lexer, ',') {
        proof { lemma_not_end(t, lexer.position()); }
        advance(lexer);
        parse_enum_items(lexer, acc, ps, a2)
    } else {
        Ok(acc)
    }
}

/// Whether the body of a struct or an enum can start at `i`: a position or
/// a name.
pub open spec fn body_starts(t: Seq<TokenView>, i: nat) -> bool {
    is_sym(t, i, '#') || tk(t, i) is Id
}

/// `enum Name { variants }` with the word `enum` at `i`.
pub open spec fn enum_at(t: Seq<TokenView>, i: nat) -> Option<(Seq<char>, Seq<ItemView>, nat)> {
    match tk(t, i + 1) {
        TokenView::Id(name) => if is_sym(t, i + 2, '{') && body_starts(t, i + 3) {
            match items_at(t, i + 3, Seq::empty(), Seq::empty(), 0) {
                Some((items, m)) => if is_sym(t, m, '}') { Some((name, items, m + 1)) } else { None },
                None => None,
            }
        } else {
            None
        },
        _ => None,
    }
}

/// `struct Name;` or `struct Name { fields }` with `struct` at `i`.
pub open spec fn struct_at(t: Seq<TokenView>, i: nat) -> Option<(Seq<char>, Seq<FieldView>, nat)> {
    match tk(t, i + 1) {
        TokenView::Id(name) => if is_sym(t, i + 2, ';') {
            Some((name, Seq::empty(), i + 3))
        } else if is_sym(t, i + 2, '{') && body_starts(t, i + 3) {
            match struct_fields_at(t, i + 3) {
                Some((fs, m)) => if is_sym(t, m, '}') { Some((name, fs, m + 1)) } else { None },
                None => None,
            }
        } else {
            None
        },
        _ => None,
    }
}

/// Checks that the body of a struct or an enum can start at the cursor.
fn at_body(lexer: &Lexer) -> (res: bool)
    ensures
        res == body_starts(lexer.tokens(), lexer.position()),
        ends_well(lexer.tokens()),
{
    if at_sym(lexer, '#') {
        true
    } else {
        current_id(lexer).is_some()
    }
}

fn parse_enum(lexer: &mut Lexer) -> (res: Result<EnumASTNode, ParseError>)
    requires
        ends_well(old(lexer).tokens()),
        is_word(old(lexer).tokens(), old(lexer).position(), "enum"@),
    ensures
        final(lexer).tokens() == old(lexer).tokens(),
        match enum_at(old(lexer).tokens(), old(lexer).position()) {
            Some((name, items, m)) => res matches Ok(r) && r.id@ == name && items_view(r.items@) == items
                && final(lexer).position() == m,
            None => res is Err,
        },
{
    let ghost t = lexer.tokens();
    let ghost i = lexer.position();
    proof { lemma_not_end(t, i); }
    advance(lexer);
    let id = match current_id(lexer) {
        Some(n) => n,
        None => { return Err(error_at(lexer)); },
    };
    proof { lemma_not_end(t, i + 1); }
    advance(lexer);
    if !at_sym(lexer, '{') {
        return Err(error_at(lexer));
    }
    proof { lemma_not_end(t, i + 2); }
    advance(lexer);
    if !at_body(lexer) {
        return Err(error_at(lexer));
    }
    proof { assert(items_view(Seq::<EnumItemASTNode>::empty()) =~= Seq::<ItemView>::empty()); }
    let items = match parse_enum_items(lexer, Vec::new(), Vec::new(), 0) {
        Ok(v) => v,
        Err(e) => { return Err(e); },
    };
    if !at_sym(lexer, '}') {
        return Err(error_at(lexer));
    }
    proof { lemma_not_end(t, lexer.position()); }
    advance(lexer);
    Ok(EnumASTNode { id, items })
}

fn parse_struct(lexer: &mut Lexer) -> (res: Result<StructASTNode, ParseError>)
    requires
        ends_well(old(lexer).tokens()),
        tk(old(lexer).tokens(), old(lexer).position()) == TokenView::Struct,
    ensures
        final(lexer).tokens() == old(lexer).tokens(),
        match struct_at(old(lexer).tokens(), old(lexer).position()) {
            Some((name, fields, m)) => res matches Ok(r) && r.id@ == name && fields_view(r.fields@) == fields
                && r.emplace_buffers && r.into_buffers && final(lexer).position() == m,
            None => res is Err,
        },
{
    let ghost t = lexer.tokens();
    let ghost i = lexer.position();
    proof { lemma_not_end(t, i); }
    advance(lexer);
    let id = match current_id(lexer) {
        Some(n) => n,
        None => { return Err(error_at(lexer)); },
    };
    proof { lemma_not_end(t, i + 1); }
    advance(lexer);
    if at_sym(lexer, ';') {
        proof { lemma_not_end(t, i + 2); }
        advance(lexer);
        let fields: Vec<StructFieldASTNode> = Vec::new();
        proof { assert(fields_view(fields@) =~= Seq::<FieldView>::empty()); }
        return Ok(StructASTNode { id, fields, emplace_buffers: true, into_buffers: true });
    }
    if !at_sym(lexer, '{') {
        return Err(error_at(lexer));
    }
    proof { lemma_not_end(t, i + 2); }
    advance(lexer);
    if !at_body(lexer) {
        return Err(error_at(lexer));
    }
    let fields = match parse_struct_parameters(lexer) {
        Ok(v) => v,
        Err(e) => { return Err(e); },
    };
    if !at_sym(lexer, '}') {
        return Err(error_at(lexer));
    }
    proof { lemma_not_end(t, lexer.position()); }
    advance(lexer);
    Ok(StructASTNode { id, fields, emplace_buffers: true, into_buffers: true })
}

// ---------------------------------------------------------------------------
// Constant blocks.

pub struct ConstView {
    pub id: Seq<char>,
    pub items: Seq<ConstItemView>,
}

pub enum ConstItemView {
    Value { id: Seq<char>, type_id: TypeId, value: ValueView },
    Node { node: ConstView },
}

pub open spec fn const_view(c: ConstASTNode) -> ConstView
    decreases c, 1nat,
{
    ConstView { id: c.id@, items: const_items_view(c.items@) }
}

pub open spec fn const_items_view(s: Seq<ConstItemASTNode>) -> Seq<ConstItemView>
    decreases s, 0nat,
{
    if s.len() == 0 {
        Seq::empty()
    } else {
        const_items_view(s.drop_last()).push(match s.last() {
            ConstItemASTNode::Value { id, type_id, value } => ConstItemView::Value {
                id: id@,
                type_id: type_id@,
                value: value_view(value),
            },
            ConstItemASTNode::ConstNode { node } => ConstItemView::Node { node: const_view(node) },
        })
    }
}

/// `const Name { items }` with the word `const` at `i`.
pub open spec fn const_at(t: Seq<TokenView>, i: nat) -> Option<(ConstView, nat)>
    decreases t.len() - i, 0nat,
{
    match tk(t, i + 1) {
        TokenView::Id(id) => if is_sym(t, i + 2, '{') && i + 3 <= t.len() {
            match const_items_at(t, i + 3, Seq::empty()) {
                Some((items, m)) => Some((ConstView { id, items }, m)),
                None => None,
            }
        } else {
            None
        },
        _ => None,
    }
}

/// The items of a constant block from `j`, with `acc` read so far, up to
/// and past its closing brace: `name: type = value;` or a nested block.
pub open spec fn const_items_at(t: Seq<TokenView>, j: nat, acc: Seq<ConstItemView>) -> Option<(Seq<ConstItemView>, nat)>
    decreases t.len() - j, 1nat,
{
    if j >= t.len() {
        None
    } else if is_sym(t, j, '}') {
        Some((acc, j + 1))
    } else if is_word(t, j, "const"@) {
        match const_at(t, j) {
            Some((c, m)) => if j < m <= t.len() { const_items_at(t, m, acc.push(ConstItemView::Node { node: c })) } else { None },
            None => None,
        }
    } else {
        match t[j as int] {
            TokenView::Id(name) => if is_sym(t, j + 1, ':') {
                match type_at(t, j + 2) {
                    Some((ty, m)) => if is_sym(t, m, '=') && is_sym(t, m + 2, ';') && j < m && m + 3 <= t.len() {
                        match value_at(t, m + 1) {
                            Some(v) => const_items_at(t, m + 3, acc.push(ConstItemView::Value { id: name, type_id: ty, value: v })),
                            None => None,
                        }
                    } else {
                        None
                    },
                    None => None,
                }
            } else {
                None
            },
            _ => None,
        }
    }
}

proof fn lemma_const_items_push(s: Seq<ConstItemASTNode>, x: ConstItemASTNode)
    ensures
        const_items_view(s.push(x)) == const_items_view(s).push(match x {
            ConstItemASTNode::Value { id, type_id, value } => ConstItemView::Value {
                id: id@,
                type_id: type_id@,
                value: value_view(value),
            },
            ConstItemASTNode::ConstNode { node } => ConstItemView::Node { node: const_view(node) },
        }),
{
    assert(s.push(x).drop_last() =~= s);
}

/// A constant block; the cursor stands on its keyword, which is not read.
pub fn parse_const(lexer: &mut Lexer) -> (res: Result<ConstASTNode, ParseError>)
    ensures
        final(lexer).tokens() == old(lexer).tokens(),
        match const_at(old(lexer).tokens(), old(lexer).position()) {
            Some((c, m)) => res matches Ok(r) && const_view(r) == c && final(lexer).position() == m,
            None => res is Err,
        },
    decreases old(lexer).tokens().len() - old(lexer).position(), 0nat,
{
    lexer.current_token();
    let ghost t = lexer.tokens();
    let ghost i = lexer.position();
    let c = lexer.cursor();
    let n = lexer.tokens_len();
    if c >= n || n - c <= 1 {
        return Err(error_at(lexer));
    }
    advance(lexer);
    let id = match current_id(lexer) {
        Some(n) => n,
        None => { return Err(error_at(lexer)); },
    };
    proof { lemma_not_end(t, i + 1); }
    advance(lexer);
    if !at_sym(lexer, '{') {
        return Err(error_at(lexer));
    }
    proof { lemma_not_end(t, i + 2); }
    advance(lexer);
    proof { assert(const_items_view(Seq::<ConstItemASTNode>::empty()) =~= Seq::<ConstItemView>::empty()); }
    let items = match parse_const_items(lexer, Vec::new()) {
        Ok(v) => v,
        Err(e) => { return Err(e); },
    };
    Ok(ConstASTNode { id, items })
}

fn parse_const_items(lexer: &mut Lexer, acc: Vec<ConstItemASTNode>) -> (res: Result<Vec<ConstItemASTNode>, ParseError>)
    requires
        ends_well(old(lexer).tokens()),
    ensures
        final(lexer).tokens() == old(lexer).tokens(),
        match const_items_at(old(lexer).tokens(), old(lexer).position(), const_items_view(acc@)) {
            Some((v, m)) => res matches Ok(r) && const_items_view(r@) == v && final(lexer).position() == m,
            None => res is Err,
        },
    decreases old(lexer).tokens().len() - old(lexer).position(), 1nat,
{
    let ghost t = lexer.tokens();
    let ghost j = lexer.position();
    let c = lexer.cursor();
    if c >= lexer.tokens_len() {
        return Err(error_at(lexer));
    }
    let mut acc = acc;
    if at_sym(lexer, '}') {
        proof { lemma_not_end(t, j); }
        advance(lexer);
        return Ok(acc);
    }
    if at_word(lexer, "const") {
        let node = match parse_const(lexer) {
            Ok(node) => node,
            Err(e) => { return Err(e); },
        };
        let m = lexer.cursor();
        if m <= c || m > lexer.tokens_len() {
            return Err(error_at(lexer));
        }
        let item = ConstItemASTNode::ConstNode { node };
        proof { lemma_const_items_push(acc@, item); }
        acc.push(item);
        return parse_const_items(lexer, acc);
    }
    let id = match current_id(lexer) {
        Some(n) => n,
        None => { return Err(error_at(lexer)); },
    };
    proof { lemma_not_end(t, j); }
    advance(lexer);
    if !at_sym(lexer, ':') {
        return Err(error_at(lexer));
    }
    proof { lemma_not_end(t, j + 1); }
    advance(lexer);
    let type_id = match parse_type_id(lexer) {
        Ok(ty) => ty,
        Err(e) => { return Err(e); },
    };
    let ghost m = lexer.position();
    if !at_sym(lexer, '=') {
        return Err(error_at(lexer));
    }
    proof { lemma_not_end(t, m); }
    advance(lexer);
    let value = match parse_const_value(lexer) {
        Ok(v) => v,
        Err(e) => { return Err(e); },
    };
    proof { lemma_current_is_tk(*lexer); lemma_not_end(t, m + 1); }
    advance(lexer);
    if !at_sym(lexer, ';') {
        return Err(error_at(lexer));
    }
    proof { lemma_not_end(t, m + 2); }
    advance(lexer);
    let item = ConstItemASTNode::Value { id, type_id, value };
    proof { lemma_const_items_push(acc@, item); }
    acc.push(item);
    parse_const_items(lexer, acc)
}

// ---------------------------------------------------------------------------
// Descriptions.

pub enum NodeView {
    Enum { id: Seq<char>, items: Seq<ItemView> },
    Struct { id: Seq<char>, fields: Seq<FieldView>, emplace_buffers: bool, into_buffers: bool },
    Fn(FnView),
    Directive(DirectiveView),
    Const(ConstView),
}

pub open spec fn node_view(n: ASTNode) -> NodeView {
    match n {
        ASTNode::Enum(e) => NodeView::Enum { id: e.id@, items: items_view(e.items@) },
        ASTNode::Struct(s) => NodeView::Struct {
            id: s.id@,
            fields: fields_view(s.fields@),
            emplace_buffers: s.emplace_buffers,
            into_buffers: s.into_buffers,
        },
        ASTNode::Fn(f) => NodeView::Fn(fn_view(f)),
        ASTNode::Directive(d) => NodeView::Directive(directive_view(d)),
        ASTNode::Const(c) => NodeView::Const(const_view(c)),
    }
}

pub open spec fn ast_views(s: Seq<ASTNode>) -> Seq<NodeView> {
    s.map_values(|n: ASTNode| node_view(n))
}

/// Whether a method starts at `i`.
pub open spec fn method_starts(t: Seq<TokenView>, i: nat) -> bool {
    is_word(t, i, "fn"@) || is_word(t, i, "signal"@) || is_word(t, i, "async"@)
}

/// The declaration at `i`; a method there gets the number `count`.
pub open spec fn node_at(t: Seq<TokenView>, i: nat, count: u32) -> Option<(NodeView, nat)> {
    if tk(t, i) == TokenView::Struct {
        match struct_at(t, i) {
            Some((id, fields, m)) => Some((NodeView::Struct { id, fields, emplace_buffers: true, into_buffers: true }, m)),
            None => None,
        }
    } else if is_word(t, i, "enum"@) {
        match enum_at(t, i) {
            Some((id, items, m)) => Some((NodeView::Enum { id, items }, m)),
            None => None,
        }
    } else if method_starts(t, i) {
        match method_at(t, i, count) {
            Some((f, m)) => Some((NodeView::Fn(f), m)),
            None => None,
        }
    } else if is_word(t, i, "const"@) {
        match const_at(t, i) {
            Some((c, m)) => Some((NodeView::Const(c), m)),
            None => None,
        }
    } else if is_sym(t, i, '#') {
        match directive_at(t, i) {
            Some((d, m)) => Some((NodeView::Directive(d), m)),
            None => None,
        }
    } else {
        None
    }
}

/// The declarations from `i` up to the end, with `acc` read so far and
/// `count` methods among them; methods are numbered in their order.
pub open spec fn nodes_at(t: Seq<TokenView>, i: nat, acc: Seq<NodeView>, count: u32) -> Option<Seq<NodeView>>
    decreases t.len() - i,
{
    if i >= t.len() {
        None
    } else if t[i as int] == TokenView::Eof {
        Some(acc)
    } else {
        match node_at(t, i, count) {
            Some((n, m)) => {
                let next = if method_starts(t, i) { count + 1 } else { count as int };
                if i < m <= t.len() && next <= u32::MAX { nodes_at(t, m, acc.push(n), next as u32) } else { None }
            },
            None => None,
        }
    }
}

/// The declarations that the tokens from `i` describe, if they form a
/// description.
pub open spec fn parse_spec(t: Seq<TokenView>, i: nat) -> Option<Seq<NodeView>> {
    nodes_at(t, i, Seq::empty(), 0)
}

/// Whether the tokens from `i` form a description.
pub open spec fn parses(t: Seq<TokenView>, i: nat) -> bool {
    parse_spec(t, i) is Some
}

fn parse_node(lexer: &mut Lexer, count: u32) -> (res: Result<ASTNode, ParseError>)
    requires
        ends_well(old(lexer).tokens()),
    ensures
        final(lexer).tokens() == old(lexer).tokens(),
        match node_at(old(lexer).tokens(), old(lexer).position(), count) {
            Some((n, m)) => res matches Ok(r) && node_view(r) == n && final(lexer).position() == m,
            None => res is Err,
        },
{
    let ghost t = lexer.tokens();
    let ghost i = lexer.position();
    let is_struct = match lexer.current_token() {
        Token::Struct => true,
        _ => false,
    };
    proof { lemma_current_is_tk(*lexer); }
    if is_struct {
        match parse_struct(lexer) {
            Ok(s) => Ok(ASTNode::Struct(s)),
            Err(e) => Err(e),
        }
    } else if at_word(lexer, "enum") {
        match parse_enum(lexer) {
            Ok(e) => Ok(ASTNode::Enum(e)),
            Err(e) => Err(e),
        }
    } else if at_word(lexer, "fn") || at_word(lexer, "signal") || at_word(lexer, "async") {
        match parse_method(lexer, count) {
            Ok(f) => Ok(ASTNode::Fn(f)),
            Err(e) => Err(e),
        }
    } else if at_word(lexer, "const") {
        match parse_const(lexer) {
            Ok(c) => Ok(ASTNode::Const(c)),
            Err(e) => Err(e),
        }
    } else if at_sym(lexer, '#') {
        match parse_directive(lexer) {
            Ok(d) => Ok(ASTNode::Directive(d)),
            Err(e) => Err(e),
        }
    } else {
        Err(error_at(lexer))
    }
}

/// Reads the declarations from the lexer's position to the end of its
/// tokens: structs, enums, methods and signals, constant blocks and
/// directives. Methods are numbered in their order from 0. The result is
/// an error exactly where the tokens do not follow the grammar.
pub fn parse(lexer: &mut Lexer) -> (res: Result<Vec<ASTNode>, ParseError>)
    ensures
        final(lexer).tokens() == old(lexer).tokens(),
        match parse_spec(old(lexer).tokens(), old(lexer).position()) {
            Some(nodes) => res matches Ok(ast) && ast_views(ast@) == nodes,
            None => res is Err,
        },
        res is Err <==> !parses(old(lexer).tokens(), old(lexer).position()),
        res is Ok ==> final(lexer).spec_current_token() == TokenView::Eof,
{
    lexer.current_token();
    let ghost t = lexer.tokens();
    let ghost start = lexer.position();
    let mut ast: Vec<ASTNode> = Vec::new();
    let mut count: u32 = 0;
    proof { assert(ast_views(ast@) =~= Seq::<NodeView>::empty()); }
    loop
        invariant
            ends_well(t),
            lexer.tokens() == t,
            t == old(lexer).tokens(),
            start == old(lexer).position(),
            parse_spec(t, start) == nodes_at(t, lexer.position(), ast_views(ast@), count),
        decreases t.len() - lexer.position(),
    {
        let c = lexer.cursor();
        if c >= lexer.tokens_len() {
            return Err(error_at(lexer));
        }
        let at_end = match lexer.current_token() {
            Token::EOF => true,
            _ => false,
        };
        proof { lemma_current_is_tk(*lexer); }
        if at_end {
            return Ok(ast);
        }
        let is_method = at_word(lexer, "fn") || at_word(lexer, "signal") || at_word(lexer, "async");
        let node = match parse_node(lexer, count) {
            Ok(n) => n,
            Err(e) => { return Err(e); },
        };
        if lexer.cursor() <= c || lexer.cursor() > lexer.tokens_len() {
            return Err(error_at(lexer));
        }
        if is_method {
            if count == u32::MAX {
                return Err(error_at(lexer));
            }
            count = count + 1;
        }
        proof { assert(ast_views(ast@.push(node)) =~= ast_views(ast@).push(node_view(node))); }
        ast.push(node);
    }
}

/// The methods among the declarations, in their order.
pub open spec fn method_views(nodes: Seq<NodeView>) -> Seq<FnView>
    decreases nodes.len(),
{
    if nodes.len() == 0 {
        Seq::empty()
    } else {
        match nodes.last() {
            NodeView::Fn(f) => method_views(nodes.drop_last()).push(f),
            _ => method_views(nodes.drop_last()),
        }
    }
}

proof fn lemma_nodes_numbered(t: Seq<TokenView>, i: nat, acc: Seq<NodeView>, count: u32)
    requires
        method_views(acc).len() == count,
        forall|k: int| 0 <= k < method_views(acc).len() ==> #[trigger] method_views(acc)[k].position == k,
    ensures
        nodes_at(t, i, acc, count) matches Some(ns) ==> forall|k: int| 0 <= k < method_views(ns).len()
            ==> #[trigger] method_views(ns)[k].position == k,
    decreases t.len() - i,
{
    if i < t.len() && t[i as int] != TokenView::Eof {
        if let Some((n, m)) = node_at(t, i, count) {
            let next = if method_starts(t, i) { count + 1 } else { count as int };
            if i < m <= t.len() && next <= u32::MAX {
                let acc2 = acc.push(n);
                assert(acc2.drop_last() =~= acc);
                if method_starts(t, i) {
                    reveal_strlit("enum");
                    reveal_strlit("fn");
                    reveal_strlit("signal");
                    reveal_strlit("async");
                    assert(tk(t, i) != TokenView::Struct);
                    assert("enum"@ != "fn"@ && "enum"@ != "signal"@ && "enum"@ != "async"@) by {
                        assert("enum"@[0] != "fn"@[0]);
                        assert("enum"@.len() != "signal"@.len());
                        assert("enum"@[0] != "async"@[0]);
                    }
                    assert(!is_word(t, i, "enum"@));
                    let (f, _) = method_at(t, i, count).unwrap();
                    if is_word(t, i, "fn"@) {
                        assert(f.position == count);
                    } else if is_word(t, i, "signal"@) {
                        assert(f.position == count);
                    } else {
                        assert(f.position == count);
                    }
                    assert(n == NodeView::Fn(f));
                } else {
                    assert(!(n is Fn));
                }
                lemma_nodes_numbered(t, m, acc2, next as u32);
            }
        }
    }
}

/// Methods and signals are numbered in their order from 0: in a parsed
/// description, the `k`-th method has the position `k`.
pub proof fn lemma_methods_numbered_in_order(t: Seq<TokenView>, i: nat)
    ensures
        parse_spec(t, i) matches Some(ns) ==> forall|k: int| 0 <= k < method_views(ns).len()
            ==> #[trigger] method_views(ns)[k].position == k,
{
    lemma_nodes_numbered(t, i, Seq::empty(), 0);
}


/// The names of the integer types: `i` (signed) or `u` (unsigned), then a
/// width in bits of 8, 32 or 64.
pub open spec fn integer_type_name(name: Seq<char>) -> bool {
    &&& name.len() >= 2
    &&& (name[0] == 'i' || name[0] == 'u')
    &&& (name.skip(1) == "8"@ || name.skip(1) == "32"@ || name.skip(1) == "64"@)
}

/// An integer type name stands for an integer type that is signed exactly
/// when the name starts with `i`, and whose size in bytes is the width in
/// bits that the name gives, divided by 8.
pub proof fn lemma_integer_type_names(name: Seq<char>)
    requires
        integer_type_name(name),
    ensures
        named_type(name) == (TypeId::Integer {
            id: name,
            size: (digits_value(name.skip(1), 10) / 8) as usize,
            signed: name[0] == 'i',
        }),
{
    reveal_strlit("i8");
    reveal_strlit("i32");
    reveal_strlit("i64");
    reveal_strlit("u8");
    reveal_strlit("u32");
    reveal_strlit("u64");
    reveal_strlit("8");
    reveal_strlit("32");
    reveal_strlit("64");
    reveal_with_fuel(digits_value, 3);
    let w = name.skip(1);
    assert(name =~= seq![name[0]] + w);
    if w == "8"@ {
        assert(digits_value(w, 10) == 8) by {
            assert(w.drop_last() =~= Seq::<char>::empty());
        }
        if name[0] == 'i' { assert(name =~= "i8"@); } else { assert(name =~= "u8"@); }
    } else if w == "32"@ {
        assert(digits_value(w, 10) == 32) by {
            assert(w.drop_last() =~= seq!['3']);
            assert(w.drop_last().drop_last() =~= Seq::<char>::empty());
        }
        if name[0] == 'i' { assert(name =~= "i32"@); } else { assert(name =~= "u32"@); }
    } else {
        assert(digits_value(w, 10) == 64) by {
            assert(w.drop_last() =~= seq!['6']);
            assert(w.drop_last().drop_last() =~= Seq::<char>::empty());
        }
        if name[0] == 'i' { assert(name =~= "i64"@); } else { assert(name =~= "u64"@); }
    }
}

/// Parsing an integer type name without type arguments gives that integer
/// type (see `lemma_integer_type_names`) and moves past the name.
pub proof fn lemma_parsed_integer_type(t: Seq<TokenView>, i: nat, name: Seq<char>)
    requires
        i < t.len(),
        t[i as int] == TokenView::Id(name),
        integer_type_name(name),
        !is_sym(t, i + 1, '<'),
    ensures
        type_at(t, i) == Some((TypeId::Integer {
            id: name,
            size: (digits_value(name.skip(1), 10) / 8) as usize,
            signed: name[0] == 'i',
        }, i + 1)),
{
    lemma_integer_type_names(name);
}


/// The other primitive names: `f32` and `f64` are numbers of 4 and 8
/// bytes, `bool` is the boolean type and `char` the character type; any
/// other name without type arguments is a type of its own by that name.
pub proof fn lemma_other_type_names(name: Seq<char>)
    ensures
        name == "f32"@ ==> named_type(name) == (TypeId::Number { id: name, size: 4 }),
        name == "f64"@ ==> named_type(name) == (TypeId::Number { id: name, size: 8 }),
        name == "bool"@ ==> named_type(name) == (TypeId::Bool { id: name }),
        name == "char"@ ==> named_type(name) == (TypeId::Char { id: name }),
        !integer_type_name(name) && name != "f32"@ && name != "f64"@ && name != "bool"@ && name != "char"@
            ==> named_type(name) == (TypeId::Other { id: name }),
{
    reveal_strlit("i8");
    reveal_strlit("i32");
    reveal_strlit("i64");
    reveal_strlit("u8");
    reveal_strlit("u32");
    reveal_strlit("u64");
    reveal_strlit("f32");
    reveal_strlit("f64");
    reveal_strlit("bool");
    reveal_strlit("char");
    reveal_strlit("8");
    reveal_strlit("32");
    reveal_strlit("64");
    if name == "i8"@ || name == "u8"@ {
        assert(name.skip(1) =~= "8"@);
    }
    if name == "i32"@ || name == "u32"@ {
        assert(name.skip(1) =~= "32"@);
    }
    if name == "i64"@ || name == "u64"@ {
        assert(name.skip(1) =~= "64"@);
    }
    if name == "f32"@ || name == "f64"@ {
        assert(name[0] == 'f');
        assert(name != "i8"@ && name != "u8"@ && name != "i32"@ && name != "u32"@ && name != "i64"@ && name != "u64"@);
    }
    if name == "f64"@ {
        assert(name[1] == '6');
        assert(name != "f32"@);
    }
    if name == "bool"@ {
        assert(name[0] == 'b' && name.len() == 4);
        assert(name != "i8"@ && name != "u8"@ && name != "i32"@ && name != "u32"@ && name != "i64"@ && name != "u64"@);
        assert(name != "f32"@ && name != "f64"@);
    }
    if name == "char"@ {
        assert(name[0] == 'c' && name.len() == 4);
        assert(name != "i8"@ && name != "u8"@ && name != "i32"@ && name != "u32"@ && name != "i64"@ && name != "u64"@);
        assert(name != "f32"@ && name != "f64"@ && name != "bool"@);
    }
}

} // verus!
