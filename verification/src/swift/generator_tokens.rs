use vstd::prelude::*;
use crate::ast::{ConstValueASTNode, TypeIDASTNode, TypeId};
use crate::swift::ir::{literal_text, swift_const_supported, swift_const_text};
use crate::swift::types::{generate_type_id, generics_text, swift_plain_type_supported, swift_plain_type_text, swift_plain_types_supported, swift_plain_types_text};
use crate::text::{cat, cat3, copy_str, str_eq, to_case, case_converted, TextCase};
use crate::writer::{Writer, WriterState, default_writer_state, grows};

verus! {

/// A piece of Swift source for the constant and model declarations.
pub enum SwiftGeneratorToken {
    Struct { id: String, body: Vec<SwiftGeneratorToken> },
    StructConstField { id: String, type_id: TypeIDASTNode, value: ConstValueASTNode },
    StructField { id: String, type_id: TypeIDASTNode },
    StructMethod {
        id: String,
        is_static: bool,
        return_type_id: TypeIDASTNode,
        arguments: Vec<SwiftGeneratorToken>,
        body: Vec<SwiftGeneratorToken>,
    },
    FunctionArgument { id: String, named: bool, type_id: TypeIDASTNode },
    ReturnStatement { body: Box<SwiftGeneratorToken> },
    NewInstance { type_id: TypeIDASTNode, body: Vec<SwiftGeneratorToken> },
    StructAssignArgumentInConstructor { id: String, type_id: TypeIDASTNode, value: Option<Box<SwiftGeneratorToken>> },
    StaticCall { type_id: TypeIDASTNode, method: Box<SwiftGeneratorToken> },
    Call { id: String, arguments: Vec<SwiftGeneratorToken> },
}

/// Whether a blank line stands between a token and the one after it.
pub open spec fn token_gap(last: SwiftGeneratorToken, token: SwiftGeneratorToken) -> bool {
    ||| token is Struct && (last is Struct || last is StructConstField)
    ||| token is StructMethod && (last is StructMethod || last is StructConstField || last is StructField)
    ||| last is Struct && token is StructConstField
    ||| last is StructMethod && (token is StructConstField || token is StructField)
}

/// Whether the type has a default value here: generic types other than
/// `Vec` need arguments that all have a Swift name.
pub open spec fn default_supported(t: TypeId) -> bool {
    match t {
        TypeId::Generic { id, generics } => id == "Vec"@ || swift_plain_types_supported(generics),
        _ => true,
    }
}

/// The default value of a type, as a constructor argument.
pub open spec fn default_text(t: TypeId) -> Seq<char> {
    match t {
        TypeId::Integer { .. } => "0"@,
        TypeId::Number { .. } => "0"@,
        TypeId::Bool { .. } => "false"@,
        TypeId::Char { .. } => "0"@,
        TypeId::Other { id } => id + ".createDefault()"@,
        TypeId::Generic { id, generics } => {
            if id == "Vec"@ {
                "[]"@
            } else {
                id + "<"@ + swift_plain_types_text(generics) + ">.createDefault()"@
            }
        },
    }
}

/// The constant `node` written in Swift as a value of type `type_id`.
pub fn generate_const_value(node: &ConstValueASTNode, type_id: &TypeIDASTNode) -> (res: String)
    requires
        swift_const_supported(type_id@, node@.literal),
    ensures
        res@ == swift_const_text(type_id@, node@.literal),
{
    match node {
        ConstValueASTNode::Literal { literal, .. } => literal_text(type_id, literal),
    }
}

/// The default value of a type, as a constructor argument.
pub fn generate_default_const_value(type_id: &TypeIDASTNode) -> (res: String)
    requires
        default_supported(type_id@),
    ensures
        res@ == default_text(type_id@),
{
    match type_id {
        TypeIDASTNode::Integer { .. } => String::from_str("0"),
        TypeIDASTNode::Number { .. } => String::from_str("0"),
        TypeIDASTNode::Bool { .. } => String::from_str("false"),
        TypeIDASTNode::Char { .. } => String::from_str("0"),
        TypeIDASTNode::Other { id } => cat(id.as_str(), ".createDefault()"),
        TypeIDASTNode::Generic { id, generics } => {
            if str_eq(id.as_str(), "Vec") {
                String::from_str("[]")
            } else {
                let inner = generics_text(generics);
                let mut res = cat(id.as_str(), "<");
                res.append(inner.as_str());
                res.append(">.createDefault()");
                res
            }
        },
    }
}

/// What writing one token does to a writer.
pub open spec fn token_write(s: WriterState, t: SwiftGeneratorToken) -> WriterState
    decreases t, 0nat,
{
    match t {
        SwiftGeneratorToken::Struct { id, body } => {
            let s1 = s.wrote_line("struct "@ + case_converted(id@, TextCase::Pascal) + " {"@).pushed();
            tokens_write(s1, body@).popped().wrote_line("}"@)
        },
        SwiftGeneratorToken::StructConstField { id, type_id, value } => {
            s.wrote_line(
                "static let "@ + case_converted(id@, TextCase::Camel) + ": "@ + swift_plain_type_text(type_id@)
                    + " = "@ + swift_const_text(type_id@, value@.literal),
            )
        },
        SwiftGeneratorToken::StructField { id, type_id } => {
            s.wrote_line("var "@ + case_converted(id@, TextCase::Camel) + ": "@ + swift_plain_type_text(type_id@))
        },
        SwiftGeneratorToken::StructMethod { id, is_static, return_type_id, body, .. } => {
            let head = (if is_static { "static func "@ } else { "func "@ }) + case_converted(id@, TextCase::Camel)
                + "() -> "@ + swift_plain_type_text(return_type_id@) + " {"@;
            tokens_write(s.wrote_line(head).pushed(), body@).popped().wrote_line("}"@)
        },
        SwiftGeneratorToken::FunctionArgument { .. } => s,
        SwiftGeneratorToken::ReturnStatement { body } => token_write(s.tabbed().wrote("return "@), *body).new_lined(),
        SwiftGeneratorToken::NewInstance { type_id, body } => {
            let s1 = s.wrote(swift_plain_type_text(type_id@));
            if body@.len() == 0 {
                s1.wrote("()"@)
            } else {
                arguments_write(s1.wrote("("@).new_lined().pushed(), body@).popped().tabbed().wrote(")"@)
            }
        },
        SwiftGeneratorToken::StructAssignArgumentInConstructor { id, type_id, value } => {
            match value {
                Some(v) => token_write(s.wrote(case_converted(id@, TextCase::Camel) + ": "@), *v),
                None => s.wrote(case_converted(id@, TextCase::Camel) + ": "@ + default_text(type_id@)),
            }
        },
        SwiftGeneratorToken::StaticCall { .. } => s,
        SwiftGeneratorToken::Call { .. } => s,
    }
}

/// Tokens one after another, with a blank line where `token_gap` puts one.
pub open spec fn tokens_write(s: WriterState, ts: Seq<SwiftGeneratorToken>) -> WriterState
    decreases ts, 0nat,
{
    if ts.len() == 0 {
        s
    } else {
        let s1 = tokens_write(s, ts.drop_last());
        let s2 = if ts.len() > 1 && token_gap(ts[ts.len() - 2], ts.last()) { s1.new_lined() } else { s1 };
        token_write(s2, ts.last())
    }
}

/// Constructor arguments, each on an indented line of its own, each but the
/// last followed by a comma.
pub open spec fn arguments_write(s: WriterState, ts: Seq<SwiftGeneratorToken>) -> WriterState
    decreases ts, 1nat,
{
    if ts.len() == 0 {
        s
    } else {
        token_write(arguments_with_commas(s, ts.drop_last()).tabbed(), ts.last()).new_lined()
    }
}

/// Constructor arguments, each on an indented line and followed by a comma.
pub open spec fn arguments_with_commas(s: WriterState, ts: Seq<SwiftGeneratorToken>) -> WriterState
    decreases ts, 0nat,
{
    if ts.len() == 0 {
        s
    } else {
        token_write(arguments_with_commas(s, ts.drop_last()).tabbed(), ts.last()).wrote(","@).new_lined()
    }
}

/// Writing a token keeps all that was written before: the earlier text is
/// a prefix of the later one, and the unit of indentation is unchanged.
pub proof fn lemma_token_write_keeps_text(s: WriterState, t: SwiftGeneratorToken)
    ensures
        s.text.is_prefix_of(token_write(s, t).text),
        token_write(s, t).tab == s.tab,
{
    lemma_token_grows(s, t);
    assert(s.text =~= token_write(s, t).text.subrange(0, s.text.len() as int));
}

proof fn lemma_token_grows(s: WriterState, t: SwiftGeneratorToken)
    ensures
        grows(s, token_write(s, t)),
    decreases t, 0nat,
{
    match t {
        SwiftGeneratorToken::Struct { id, body } => {
            let s1 = s.wrote_line("struct "@ + case_converted(id@, TextCase::Pascal) + " {"@).pushed();
            lemma_tokens_grow(s1, body@);
        },
        SwiftGeneratorToken::StructMethod { id, is_static, return_type_id, body, .. } => {
            let head = (if is_static { "static func "@ } else { "func "@ }) + case_converted(id@, TextCase::Camel)
                + "() -> "@ + swift_plain_type_text(return_type_id@) + " {"@;
            lemma_tokens_grow(s.wrote_line(head).pushed(), body@);
        },
        SwiftGeneratorToken::ReturnStatement { body } => lemma_token_grows(s.tabbed().wrote("return "@), *body),
        SwiftGeneratorToken::NewInstance { type_id, body } => {
            if body@.len() > 0 {
                lemma_arguments_grow(s.wrote(swift_plain_type_text(type_id@)).wrote("("@).new_lined().pushed(), body@);
            }
        },
        SwiftGeneratorToken::StructAssignArgumentInConstructor { id, type_id, value } => {
            match value {
                Some(v) => lemma_token_grows(s.wrote(case_converted(id@, TextCase::Camel) + ": "@), *v),
                None => {},
            }
        },
        _ => {},
    }
}

proof fn lemma_tokens_grow(s: WriterState, ts: Seq<SwiftGeneratorToken>)
    ensures
        grows(s, tokens_write(s, ts)),
    decreases ts, 0nat,
{
    if ts.len() > 0 {
        lemma_tokens_grow(s, ts.drop_last());
        let s1 = tokens_write(s, ts.drop_last());
        let s2 = if ts.len() > 1 && token_gap(ts[ts.len() - 2], ts.last()) { s1.new_lined() } else { s1 };
        lemma_token_grows(s2, ts.last());
    }
}

proof fn lemma_arguments_grow(s: WriterState, ts: Seq<SwiftGeneratorToken>)
    ensures
        grows(s, arguments_write(s, ts)),
    decreases ts, 1nat,
{
    if ts.len() > 0 {
        lemma_commas_grow(s, ts.drop_last());
        lemma_token_grows(arguments_with_commas(s, ts.drop_last()).tabbed(), ts.last());
    }
}

proof fn lemma_commas_grow(s: WriterState, ts: Seq<SwiftGeneratorToken>)
    ensures
        grows(s, arguments_with_commas(s, ts)),
    decreases ts, 0nat,
{
    if ts.len() > 0 {
        lemma_commas_grow(s, ts.drop_last());
        lemma_token_grows(arguments_with_commas(s, ts.drop_last()).tabbed(), ts.last());
    }
}

/// Whether a token can be written by a writer with `room` more indentation
/// levels to spare: its types and constants have a Swift form, each
/// argument without a value has a default, and its blocks nest no deeper
/// than `room`.
pub open spec fn token_fits(t: SwiftGeneratorToken, room: nat) -> bool
    decreases t, 0nat,
{
    match t {
        SwiftGeneratorToken::Struct { body, .. } => room >= 1 && tokens_fit(body@, (room - 1) as nat),
        SwiftGeneratorToken::StructConstField { type_id, value, .. } => {
            swift_plain_type_supported(type_id@) && swift_const_supported(type_id@, value@.literal)
        },
        SwiftGeneratorToken::StructField { type_id, .. } => swift_plain_type_supported(type_id@),
        SwiftGeneratorToken::StructMethod { return_type_id, body, .. } => {
            swift_plain_type_supported(return_type_id@) && room >= 1 && tokens_fit(body@, (room - 1) as nat)
        },
        SwiftGeneratorToken::FunctionArgument { .. } => true,
        SwiftGeneratorToken::ReturnStatement { body } => token_fits(*body, room),
        SwiftGeneratorToken::NewInstance { type_id, body } => {
            swift_plain_type_supported(type_id@) && (body@.len() > 0 ==> room >= 1 && tokens_fit(body@, (room - 1) as nat))
        },
        SwiftGeneratorToken::StructAssignArgumentInConstructor { type_id, value, .. } => {
            match value {
                Some(v) => token_fits(*v, room),
                None => default_supported(type_id@),
            }
        },
        SwiftGeneratorToken::StaticCall { .. } => true,
        SwiftGeneratorToken::Call { .. } => true,
    }
}

/// Whether every token fits (see `token_fits`).
pub open spec fn tokens_fit(ts: Seq<SwiftGeneratorToken>, room: nat) -> bool
    decreases ts, 0nat,
{
    forall|i: int| 0 <= i < ts.len() ==> token_fits(#[trigger] ts[i], room)
}

/// The room a writer has for deeper indentation.
pub open spec fn room_left(s: WriterState) -> nat {
    if s.level <= usize::MAX { (usize::MAX - s.level) as nat } else { 0 }
}

fn needs_gap(last: &SwiftGeneratorToken, token: &SwiftGeneratorToken) -> (res: bool)
    ensures
        res == token_gap(*last, *token),
{
    match token {
        SwiftGeneratorToken::Struct { .. } => matches!(last, SwiftGeneratorToken::Struct { .. })
            || matches!(last, SwiftGeneratorToken::StructConstField { .. }),
        SwiftGeneratorToken::StructMethod { .. } => matches!(last, SwiftGeneratorToken::StructMethod { .. })
            || matches!(last, SwiftGeneratorToken::StructConstField { .. })
            || matches!(last, SwiftGeneratorToken::StructField { .. }),
        SwiftGeneratorToken::StructConstField { .. } => matches!(last, SwiftGeneratorToken::Struct { .. })
            || matches!(last, SwiftGeneratorToken::StructMethod { .. }),
        SwiftGeneratorToken::StructField { .. } => matches!(last, SwiftGeneratorToken::StructMethod { .. }),
        _ => false,
    }
}

/// The tokens written out by a fresh writer, as Swift source text.
pub fn stringify_tokens(tokens: &[SwiftGeneratorToken]) -> (res: String)
    requires
        tokens_fit(tokens@, usize::MAX as nat),
    ensures
        res@ == tokens_write(default_writer_state(), tokens@).text,
{
    let mut writer = Writer::default();
    write_tokens(&mut writer, tokens);
    copy_str(writer.show())
}

/// Writes the tokens one after another, with a blank line where
/// `token_gap` puts one.
pub fn write_tokens(writer: &mut Writer, tokens: &[SwiftGeneratorToken])
    requires
        tokens_fit(tokens@, room_left(old(writer)@)),
    ensures
        final(writer)@ == tokens_write(old(writer)@, tokens@),
        final(writer)@.level == old(writer)@.level,
        final(writer)@.tab == old(writer)@.tab,
    decreases tokens@, 0nat,
{
    let ghost s0 = writer@;
    let mut i: usize = 0;
    while i < tokens.len()
        invariant
            i <= tokens@.len(),
            tokens_fit(tokens@, room_left(s0)),
            writer@ == tokens_write(s0, tokens@.take(i as int)),
            writer@.level == s0.level,
            writer@.tab == s0.tab,
        decreases tokens@.len() - i,
    {
        proof {
            assert(decreases_to!(tokens@ => tokens@[i as int]));
            assert(tokens@.take(i + 1).drop_last() =~= tokens@.take(i as int));
            assert(token_fits(tokens@[i as int], room_left(s0)));
        }
        if i > 0 && needs_gap(&tokens[i - 1], &tokens[i]) {
            writer.new_line();
        }
        write_token(writer, &tokens[i]);
        i = i + 1;
    }
    assert(tokens@.take(tokens@.len() as int) =~= tokens@);
}

fn write_arguments(writer: &mut Writer, tokens: &Vec<SwiftGeneratorToken>)
    requires
        tokens_fit(tokens@, room_left(old(writer)@)),
    ensures
        final(writer)@ == arguments_write(old(writer)@, tokens@),
        final(writer)@.level == old(writer)@.level,
        final(writer)@.tab == old(writer)@.tab,
    decreases tokens@, 1nat,
{
    let ghost s0 = writer@;
    if tokens.len() == 0 {
        return;
    }
    let last = tokens.len() - 1;
    let mut i: usize = 0;
    while i < last
        invariant
            i <= last,
            last + 1 == tokens@.len(),
            tokens_fit(tokens@, room_left(s0)),
            writer@ == arguments_with_commas(s0, tokens@.take(i as int)),
            writer@.level == s0.level,
            writer@.tab == s0.tab,
        decreases last - i,
    {
        proof {
            assert(decreases_to!(tokens@ => tokens@[i as int]));
            assert(tokens@.take(i + 1).drop_last() =~= tokens@.take(i as int));
            assert(token_fits(tokens@[i as int], room_left(s0)));
        }
        writer.write_tabs();
        write_token(writer, &tokens[i]);
        writer.write(",");
        writer.new_line();
        i = i + 1;
    }
    proof {
        assert(decreases_to!(tokens@ => tokens@[last as int]));
        assert(tokens@.drop_last() =~= tokens@.take(last as int));
        assert(token_fits(tokens@[last as int], room_left(s0)));
    }
    writer.write_tabs();
    write_token(writer, &tokens[last]);
    writer.new_line();
}

fn write_block(writer: &mut Writer, token: &SwiftGeneratorToken)
    requires
        token is Struct || token is StructMethod,
        token_fits(*token, room_left(old(writer)@)),
    ensures
        final(writer)@ == token_write(old(writer)@, *token),
        final(writer)@.level == old(writer)@.level,
        final(writer)@.tab == old(writer)@.tab,
    decreases token, 1nat,
{
    match token {
        SwiftGeneratorToken::Struct { id, body } => {
            let name = to_case(id.as_str(), TextCase::Pascal);
            writer.writeln(cat3("struct ", name.as_str(), " {").as_str());
            writer.push_tab();
            write_tokens(writer, body.as_slice());
            writer.pop_tab();
            writer.writeln("}");
        },
        SwiftGeneratorToken::StructMethod { id, is_static, return_type_id, body, .. } => {
            let name = to_case(id.as_str(), TextCase::Camel);
            let mut head = if *is_static { cat("static func ", name.as_str()) } else { cat("func ", name.as_str()) };
            head.append("() -> ");
            head.append(generate_type_id(return_type_id).as_str());
            head.append(" {");
            writer.writeln(head.as_str());
            writer.push_tab();
            write_tokens(writer, body.as_slice());
            writer.pop_tab();
            writer.writeln("}");
        },
        _ => {},
    }
}

fn write_token(writer: &mut Writer, token: &SwiftGeneratorToken)
    requires
        token_fits(*token, room_left(old(writer)@)),
    ensures
        final(writer)@ == token_write(old(writer)@, *token),
        final(writer)@.level == old(writer)@.level,
        final(writer)@.tab == old(writer)@.tab,
    decreases token, 2nat,
{
    match token {
        SwiftGeneratorToken::Struct { .. } => write_block(writer, token),
        SwiftGeneratorToken::StructMethod { .. } => write_block(writer, token),
        SwiftGeneratorToken::StructConstField { id, type_id, value } => {
            let name = to_case(id.as_str(), TextCase::Camel);
            let mut line = cat3("static let ", name.as_str(), ": ");
            line.append(generate_type_id(type_id).as_str());
            line.append(" = ");
            line.append(generate_const_value(value, type_id).as_str());
            writer.writeln(line.as_str());
        },
        SwiftGeneratorToken::StructField { id, type_id } => {
            let name = to_case(id.as_str(), TextCase::Camel);
            let mut line = cat3("var ", name.as_str(), ": ");
            line.append(generate_type_id(type_id).as_str());
            writer.writeln(line.as_str());
        },
        SwiftGeneratorToken::ReturnStatement { body } => {
            writer.write_tabs();
            writer.write("return ");
            write_token(writer, body);
            writer.new_line();
        },
        SwiftGeneratorToken::NewInstance { type_id, body } => {
            writer.write(generate_type_id(type_id).as_str());
            if body.len() == 0 {
                writer.write("()");
            } else {
                writer.write("(");
                writer.new_line();
                writer.push_tab();
                write_arguments(writer, body);
                writer.pop_tab();
                writer.write_tabs();
                writer.write(")");
            }
        },
        SwiftGeneratorToken::StructAssignArgumentInConstructor { id, type_id, value } => {
            let name = to_case(id.as_str(), TextCase::Camel);
            if let Some(value) = value {
                writer.write(cat(name.as_str(), ": ").as_str());
                write_token(writer, value);
            } else {
                let mut text = cat(name.as_str(), ": ");
                text.append(generate_default_const_value(type_id).as_str());
                writer.write(text.as_str());
            }
        },
        _ => {},
    }
}

} // verus!
