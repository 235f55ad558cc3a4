use vstd::prelude::*;
use vstd::string::StringSliceAdditionalSpecFns;
use crate::text::{push_char, str_eq};

verus! {

/// A decimal number as it is written: an optional minus sign, the digits
/// before the point and the digits after it. Well-formed values (see
/// [`Decimal::wf`]) have no leading zero before the point (but for `0`
/// itself) and no trailing zero after it, so that their text is the
/// shortest notation of the number, with no exponent.
#[derive(Debug, PartialEq)]
pub struct Decimal {
    pub negative: bool,
    pub integer: String,
    pub fraction: String,
}

pub open spec fn is_digit(c: char) -> bool {
    '0' <= c && c <= '9'
}

pub open spec fn all_digits(s: Seq<char>) -> bool {
    forall|i: int| 0 <= i < s.len() ==> is_digit(#[trigger] s[i])
}

impl Decimal {
    pub open spec fn wf(&self) -> bool {
        &&& self.integer@.len() > 0
        &&& all_digits(self.integer@)
        &&& all_digits(self.fraction@)
        &&& (self.integer@.len() > 1 ==> self.integer@[0] != '0')
        &&& (self.fraction@.len() > 0 ==> self.fraction@.last() != '0')
    }

    /// The number's text: sign, integer digits and, where there is a
    /// fraction, a point and the fraction digits.
    pub open spec fn spec_text(&self) -> Seq<char> {
        let sign = if self.negative { seq!['-'] } else { Seq::empty() };
        if self.fraction@.len() == 0 {
            sign + self.integer@
        } else {
            sign + self.integer@ + seq!['.'] + self.fraction@
        }
    }

    /// Whether the number has no fractional part.
    pub open spec fn spec_is_integral(&self) -> bool {
        self.fraction@.len() == 0
    }
}

impl Decimal {
    /// The number's text, as Rust's `Display` writes a float.
    pub fn text(&self) -> (res: String)
        ensures
            res@ == self.spec_text(),
    {
        let mut res = String::new();
        if self.negative {
            push_char(&mut res, '-');
        }
        res.append(self.integer.as_str());
        if !self.fraction.as_str().is_empty() {
            push_char(&mut res, '.');
            res.append(self.fraction.as_str());
        }
        proof {
            if self.negative {
                assert(seq!['-'] + self.integer@ =~= seq![].push('-') + self.integer@);
            }
        }
        res
    }

    /// Whether the number has no fractional part.
    pub fn is_integral(&self) -> (res: bool)
        ensures
            res == self.spec_is_integral(),
    {
        self.fraction.as_str().is_empty()
    }
}

/// A literal value of the language.
pub enum Literal {
    StringLiteral(String),
    IntLiteral(i64),
    NumberLiteral(Decimal),
    BoolLiteral(bool),
}

impl Clone for Decimal {
    fn clone(&self) -> (res: Self)
        ensures
            res == *self,
    {
        Decimal { negative: self.negative, integer: self.integer.clone(), fraction: self.fraction.clone() }
    }
}

impl Clone for Literal {
    fn clone(&self) -> (res: Self)
        ensures
            res == *self,
    {
        match self {
            Literal::StringLiteral(s) => Literal::StringLiteral(s.clone()),
            Literal::IntLiteral(v) => Literal::IntLiteral(*v),
            Literal::NumberLiteral(d) => Literal::NumberLiteral(d.clone()),
            Literal::BoolLiteral(b) => Literal::BoolLiteral(*b),
        }
    }
}

/// Reads the characters of an ASCII text one byte at a time.
pub struct StringReader<'a> {
    data: &'a str,
    cursor: usize,
}

impl<'a> StringReader<'a> {
    /// The text's length in bytes fits in `usize`.
    #[verifier::type_invariant]
    spec fn fits(&self) -> bool {
        self.data.spec_bytes().len() <= usize::MAX
    }

    pub closed spec fn data(&self) -> Seq<u8> {
        self.data.spec_bytes()
    }

    /// The length of the text in bytes, as `str::len` gives it.
    pub closed spec fn len(&self) -> nat {
        self.data().len()
    }

    pub closed spec fn cursor(&self) -> nat {
        self.cursor as nat
    }

    /// The character at position `cursor`, if there is one.
    pub open spec fn spec_current(&self) -> Option<char> {
        if self.cursor() < self.len() {
            Some(self.data()[self.cursor() as int] as char)
        } else {
            None
        }
    }

    pub fn new(data: &'a str) -> (res: Self)
        ensures
            res.data() == data.spec_bytes(),
            res.len() == data.spec_bytes().len(),
            res.cursor() == 0,
    {
        let n = data.as_bytes().len();
        Self { data, cursor: 0 }
    }

    /// Moves one position on and returns the character there.
    pub fn next(&mut self) -> (res: Option<char>)
        requires
            old(self).cursor() < usize::MAX,
        ensures
            final(self).data() == old(self).data(),
            final(self).len() == old(self).len(),
            final(self).cursor() == old(self).cursor() + 1,
            res == final(self).spec_current(),
    {
        proof {
            use_type_invariant(&*self);
        }
        self.cursor += 1;
        self.current()
    }

    pub fn current(&self) -> (res: Option<char>)
        ensures
            res == self.spec_current(),
    {
        let bytes = self.data.as_bytes();
        if self.cursor < bytes.len() {
            Some(bytes[self.cursor] as char)
        } else {
            None
        }
    }
}


/// The character that the reader gives for the byte at `i`.
pub open spec fn byte_char(b: Seq<u8>, i: int) -> char {
    b[i] as char
}

/// The characters of the bytes from `i` up to `j`.
pub open spec fn chars_between(b: Seq<u8>, i: int, j: int) -> Seq<char> {
    b.subrange(i, j).map_values(|x: u8| x as char)
}

pub open spec fn is_number_char(c: char) -> bool {
    '0' <= c && c <= '9'
}

/// Letters and `_` may start an identifier; digits may follow.
pub open spec fn is_id_char(c: char, first: bool) -> bool {
    ||| 'a' <= c && c <= 'z'
    ||| 'A' <= c && c <= 'Z'
    ||| c == '_'
    ||| !first && is_number_char(c)
}

/// The first position from `i` on that holds no identifier character.
pub open spec fn id_end(b: Seq<u8>, i: nat) -> nat
    decreases b.len() - i,
{
    if i < b.len() && is_id_char(byte_char(b, i as int), false) { id_end(b, i + 1) } else { i }
}

/// The first position from `i` on that holds no digit.
pub open spec fn digits_end(b: Seq<u8>, i: nat) -> nat
    decreases b.len() - i,
{
    if i < b.len() && is_number_char(byte_char(b, i as int)) { digits_end(b, i + 1) } else { i }
}

/// The position of the first quote from `i` on, if there is one.
pub open spec fn quote_at(b: Seq<u8>, i: nat) -> Option<nat>
    decreases b.len() - i,
{
    if i >= b.len() {
        None
    } else if byte_char(b, i as int) == '"' {
        Some(i)
    } else {
        quote_at(b, i + 1)
    }
}

pub open spec fn digit_of(c: char) -> nat {
    (c as int - '0' as int) as nat
}

/// The value of a run of digits in the given base.
pub open spec fn digits_value(s: Seq<char>, base: nat) -> nat
    decreases s.len(),
{
    if s.len() == 0 { 0 } else { digits_value(s.drop_last(), base) * base + digit_of(s.last()) }
}

/// The digits without the zeros that lead them, keeping one digit.
pub open spec fn strip_leading_zeros(s: Seq<char>) -> Seq<char>
    decreases s.len(),
{
    if s.len() > 1 && s[0] == '0' { strip_leading_zeros(s.drop_first()) } else { s }
}

/// The digits without the zeros that end them.
pub open spec fn strip_trailing_zeros(s: Seq<char>) -> Seq<char>
    decreases s.len(),
{
    if s.len() > 0 && s.last() == '0' { strip_trailing_zeros(s.drop_last()) } else { s }
}

/// A token as a mathematical value.
pub enum TokenView {
    Struct,
    Id(Seq<char>),
    StringLiteral(Seq<char>),
    IntLiteral(i64),
    NumberLiteral { negative: bool, integer: Seq<char>, fraction: Seq<char> },
    Symbol(char),
    Eof,
}

/// An identifier, or the keyword `struct`.
pub open spec fn id_token(name: Seq<char>) -> TokenView {
    if name == "struct"@ { TokenView::Struct } else { TokenView::Id(name) }
}

/// Whether the number at `i` is written in base 16: `0x` and digits.
pub open spec fn is_hex_start(b: Seq<u8>, i: nat) -> bool {
    byte_char(b, i as int) == '0' && i + 1 < b.len() && byte_char(b, (i + 1) as int) == 'x'
}

/// Whether the digits at `i` go on with a point and a fraction.
pub open spec fn has_fraction(b: Seq<u8>, i: nat) -> bool {
    digits_end(b, i) < b.len() && byte_char(b, digits_end(b, i) as int) == '.'
}

/// Where the number that starts at `i` ends: after the digits of `0x..`,
/// or after the integer digits and, where a point follows, the fraction.
pub open spec fn number_end(b: Seq<u8>, i: nat) -> nat {
    if is_hex_start(b, i) {
        digits_end(b, i + 2)
    } else if has_fraction(b, i) {
        digits_end(b, digits_end(b, i) + 1)
    } else {
        digits_end(b, i)
    }
}

/// Whether the number at `i` can be read: `0x` needs a digit after it,
/// and an integer must fit in `i64`.
pub open spec fn number_ok(b: Seq<u8>, i: nat) -> bool {
    if is_hex_start(b, i) {
        &&& digits_end(b, i + 2) > i + 2
        &&& digits_value(chars_between(b, (i + 2) as int, digits_end(b, i + 2) as int), 16) <= i64::MAX
    } else {
        has_fraction(b, i) || digits_value(chars_between(b, i as int, digits_end(b, i) as int), 10) <= i64::MAX
    }
}

/// The number at `i`: an integer in base 16 or 10, or a number with a
/// fraction, its digits without leading and trailing zeros.
pub open spec fn number_token(b: Seq<u8>, i: nat) -> TokenView {
    if is_hex_start(b, i) {
        TokenView::IntLiteral(digits_value(chars_between(b, (i + 2) as int, digits_end(b, i + 2) as int), 16) as i64)
    } else if has_fraction(b, i) {
        TokenView::NumberLiteral {
            negative: false,
            integer: strip_leading_zeros(chars_between(b, i as int, digits_end(b, i) as int)),
            fraction: strip_trailing_zeros(chars_between(b, (digits_end(b, i) + 1) as int, number_end(b, i) as int)),
        }
    } else {
        TokenView::IntLiteral(digits_value(chars_between(b, i as int, digits_end(b, i) as int), 10) as i64)
    }
}

/// What the lexer reads at position `i`: the token, if any, and the
/// position it goes on from, the first character it has not consumed;
/// `None` where it cannot go on.
pub open spec fn lex_step(b: Seq<u8>, i: nat) -> Option<(Option<TokenView>, nat)> {
    let c = byte_char(b, i as int);
    if is_id_char(c, true) {
        let j = id_end(b, i + 1);
        Some((Some(id_token(chars_between(b, i as int, j as int))), j))
    } else if c == '"' {
        if i + 1 < b.len() && quote_at(b, i + 1) is Some {
            let k = quote_at(b, i + 1).unwrap();
            Some((Some(TokenView::StringLiteral(chars_between(b, (i + 1) as int, k as int))), k + 1))
        } else {
            None
        }
    } else if is_number_char(c) {
        if number_ok(b, i) { Some((Some(number_token(b, i)), number_end(b, i))) } else { None }
    } else if c == ' ' {
        Some((None, i + 1))
    } else {
        Some((Some(TokenView::Symbol(c)), i + 1))
    }
}

pub proof fn lemma_id_end(b: Seq<u8>, i: nat)
    requires
        i <= b.len(),
    ensures
        i <= id_end(b, i) <= b.len(),
        forall|k: int| i <= k < id_end(b, i) ==> is_id_char(#[trigger] byte_char(b, k), false),
        id_end(b, i) < b.len() ==> !is_id_char(byte_char(b, id_end(b, i) as int), false),
    decreases b.len() - i,
{
    if i < b.len() && is_id_char(byte_char(b, i as int), false) {
        lemma_id_end(b, i + 1);
    }
}

pub proof fn lemma_digits_end(b: Seq<u8>, i: nat)
    requires
        i <= b.len(),
    ensures
        i <= digits_end(b, i) <= b.len(),
        forall|k: int| i <= k < digits_end(b, i) ==> is_number_char(#[trigger] byte_char(b, k)),
        digits_end(b, i) < b.len() ==> !is_number_char(byte_char(b, digits_end(b, i) as int)),
    decreases b.len() - i,
{
    if i < b.len() && is_number_char(byte_char(b, i as int)) {
        lemma_digits_end(b, i + 1);
    }
}

pub proof fn lemma_quote_at(b: Seq<u8>, i: nat)
    ensures
        quote_at(b, i) matches Some(k) ==> i <= k < b.len() && byte_char(b, k as int) == '"'
            && forall|m: int| i <= m < k ==> #[trigger] byte_char(b, m) != '"',
        quote_at(b, i) is None ==> forall|m: int| i <= m < b.len() ==> #[trigger] byte_char(b, m) != '"',
    decreases b.len() - i,
{
    if i < b.len() && byte_char(b, i as int) != '"' {
        lemma_quote_at(b, i + 1);
    }
}

pub proof fn lemma_step_advances(b: Seq<u8>, i: nat)
    requires
        i < b.len(),
    ensures
        lex_step(b, i) matches Some((_, j)) ==> i < j <= b.len() + 1,
{
    lemma_id_end(b, i + 1);
    lemma_digits_end(b, i);
    if i + 1 < b.len() {
        lemma_quote_at(b, i + 1);
    }
    if digits_end(b, i) < b.len() {
        lemma_digits_end(b, digits_end(b, i) + 1);
    }
    if i + 2 <= b.len() {
        lemma_digits_end(b, i + 2);
    }
}

/// The tokens that the lexer reads from position `i` on, or `None` where
/// it cannot read them all: a string without its closing quote, `0x`
/// without a digit, or an integer beyond `i64`.
pub open spec fn lex_from(b: Seq<u8>, i: nat) -> Option<Seq<TokenView>>
    decreases b.len() + 1 - i,
{
    if i >= b.len() {
        Some(Seq::empty())
    } else {
        proof { lemma_step_advances(b, i); }
        match lex_step(b, i) {
            None => None,
            Some((t, j)) => match lex_from(b, j) {
                None => None,
                Some(rest) => Some(
                    match t {
                        Some(t) => seq![t] + rest,
                        None => rest,
                    },
                ),
            },
        }
    }
}

/// A token of the description language.
#[derive(Debug, PartialEq)]
pub enum Token {
    Struct,
    ID { name: String },
    StringLiteral { value: String },
    IntLiteral { value: i64 },
    NumberLiteral { value: Decimal },
    Symbol { value: char },
    EOF,
}

impl View for Token {
    type V = TokenView;

    open spec fn view(&self) -> TokenView {
        match self {
            Token::Struct => TokenView::Struct,
            Token::ID { name } => TokenView::Id(name@),
            Token::StringLiteral { value } => TokenView::StringLiteral(value@),
            Token::IntLiteral { value } => TokenView::IntLiteral(*value),
            Token::NumberLiteral { value } => TokenView::NumberLiteral {
                negative: value.negative,
                integer: value.integer@,
                fraction: value.fraction@,
            },
            Token::Symbol { value } => TokenView::Symbol(*value),
            Token::EOF => TokenView::Eof,
        }
    }
}

impl Clone for Token {
    fn clone(&self) -> (res: Self)
        ensures
            res == *self,
    {
        match self {
            Token::Struct => Token::Struct,
            Token::ID { name } => Token::ID { name: name.clone() },
            Token::StringLiteral { value } => Token::StringLiteral { value: value.clone() },
            Token::IntLiteral { value } => Token::IntLiteral { value: *value },
            Token::NumberLiteral { value } => Token::NumberLiteral { value: value.clone() },
            Token::Symbol { value } => Token::Symbol { value: *value },
            Token::EOF => Token::EOF,
        }
    }
}

fn is_char_number(ch: char) -> (res: bool)
    ensures
        res == is_number_char(ch),
{
    '0' <= ch && ch <= '9'
}

fn is_char_id(ch: char, first_char: bool) -> (res: bool)
    ensures
        res == is_id_char(ch, first_char),
{
    let letter = ('a' <= ch && ch <= 'z') || ('A' <= ch && ch <= 'Z') || ch == '_';
    if first_char {
        letter
    } else {
        letter || is_char_number(ch)
    }
}

/// Reads an identifier: its first character is under the cursor; the
/// reader stops on the first character after it.
fn lex_id(reader: &mut StringReader) -> (t: Token)
    requires
        old(reader).cursor() < old(reader).len(),
        is_id_char(old(reader).spec_current().unwrap(), true),
    ensures
        final(reader).data() == old(reader).data(),
        final(reader).len() == old(reader).len(),
        final(reader).cursor() == id_end(old(reader).data(), old(reader).cursor() + 1),
        t@ == id_token(chars_between(old(reader).data(), old(reader).cursor() as int, final(reader).cursor() as int)),
{
    proof {
        use_type_invariant(&*reader);
    }
    let ghost b = reader.data();
    let ghost i = reader.cursor();
    proof {
        assert(reader.len() == b.len());
    }
    let mut name = String::new();
    let first = reader.current().unwrap();
    push_char(&mut name, first);
    let mut next = reader.next();
    proof {
        assert(name@ =~= chars_between(b, i as int, (i + 1) as int));
    }
    loop
        invariant
            reader.data() == b,
            reader.len() == b.len(),
            b.len() <= usize::MAX,
            i < reader.cursor() <= b.len(),
            next == reader.spec_current(),
            name@ == chars_between(b, i as int, reader.cursor() as int),
            id_end(b, i + 1) == id_end(b, reader.cursor()),
        ensures
            reader.data() == b,
            reader.len() == b.len(),
            reader.cursor() == id_end(b, i + 1),
            name@ == chars_between(b, i as int, reader.cursor() as int),
        decreases b.len() - reader.cursor(),
    {
        match next {
            Some(ch) => {
                if !is_char_id(ch, false) {
                    break;
                }
                let ghost c = reader.cursor();
                push_char(&mut name, ch);
                proof {
                    assert(chars_between(b, i as int, (c + 1) as int) =~= chars_between(b, i as int, c as int).push(ch));
                }
                next = reader.next();
            },
            None => {
                break;
            },
        }
    }
    if str_eq(name.as_str(), "struct") {
        Token::Struct
    } else {
        Token::ID { name }
    }
}

/// Reads a string literal: its opening quote is under the cursor; the
/// reader stops on its closing quote.
fn lex_string(reader: &mut StringReader) -> (t: Token)
    requires
        old(reader).cursor() + 1 < old(reader).len(),
        quote_at(old(reader).data(), old(reader).cursor() + 1) is Some,
    ensures
        final(reader).data() == old(reader).data(),
        final(reader).len() == old(reader).len(),
        final(reader).cursor() == quote_at(old(reader).data(), old(reader).cursor() + 1).unwrap(),
        t@ == TokenView::StringLiteral(
            chars_between(old(reader).data(), (old(reader).cursor() + 1) as int, final(reader).cursor() as int),
        ),
{
    proof {
        use_type_invariant(&*reader);
    }
    let ghost b = reader.data();
    let ghost i = reader.cursor();
    let ghost k = quote_at(b, i + 1).unwrap();
    proof {
        lemma_quote_at(b, i + 1);
        assert(reader.len() == b.len());
    }
    let mut value = String::new();
    reader.next();
    proof {
        assert(value@ =~= chars_between(b, (i + 1) as int, (i + 1) as int));
    }
    loop
        invariant
            reader.data() == b,
            reader.len() == b.len(),
            b.len() <= usize::MAX,
            i + 1 <= reader.cursor() <= k,
            k < b.len(),
            quote_at(b, reader.cursor()) == Some(k),
            value@ == chars_between(b, (i + 1) as int, reader.cursor() as int),
        ensures
            reader.data() == b,
            reader.len() == b.len(),
            reader.cursor() == k,
            value@ == chars_between(b, (i + 1) as int, reader.cursor() as int),
        decreases k - reader.cursor(),
    {
        let current = reader.current().unwrap();
        if current == '"' {
            break;
        }
        let ghost c = reader.cursor();
        proof {
            lemma_quote_at(b, (c + 1) as nat);
        }
        push_char(&mut value, current);
        proof {
            assert(chars_between(b, (i + 1) as int, (c + 1) as int) =~= chars_between(b, (i + 1) as int, c as int).push(current));
        }
        reader.next();
    }
    Token::StringLiteral { value }
}

/// Reads the digits under the cursor and after it into `out`; the reader
/// stops on the first character that is no digit.
fn read_digits(reader: &mut StringReader, out: &mut Vec<char>)
    requires
        old(reader).cursor() <= old(reader).len(),
    ensures
        final(reader).data() == old(reader).data(),
        final(reader).len() == old(reader).len(),
        final(reader).cursor() == digits_end(old(reader).data(), old(reader).cursor()),
        final(out)@ == old(out)@ + chars_between(old(reader).data(), old(reader).cursor() as int, final(reader).cursor() as int),
{
    proof {
        use_type_invariant(&*reader);
    }
    let ghost b = reader.data();
    let ghost p = reader.cursor();
    let ghost start = out@;
    proof {
        assert(reader.len() == b.len());
        assert(out@ =~= start + chars_between(b, p as int, p as int));
    }
    loop
        invariant
            reader.data() == b,
            reader.len() == b.len(),
            b.len() <= usize::MAX,
            p <= reader.cursor() <= b.len(),
            digits_end(b, p) == digits_end(b, reader.cursor()),
            out@ == start + chars_between(b, p as int, reader.cursor() as int),
        ensures
            reader.data() == b,
            reader.len() == b.len(),
            reader.cursor() == digits_end(b, p),
            out@ == start + chars_between(b, p as int, reader.cursor() as int),
        decreases b.len() - reader.cursor(),
    {
        match reader.current() {
            Some(ch) => {
                if !is_char_number(ch) {
                    break;
                }
                let ghost c = reader.cursor();
                out.push(ch);
                proof {
                    assert(chars_between(b, p as int, (c + 1) as int) =~= chars_between(b, p as int, c as int).push(ch));
                }
                reader.next();
            },
            None => {
                break;
            },
        }
    }
}

proof fn lemma_digits_value_prefix(s: Seq<char>, m: int, base: nat)
    requires
        0 <= m <= s.len(),
        base >= 1,
    ensures
        digits_value(s.take(m), base) <= digits_value(s, base),
    decreases s.len(),
{
    if m < s.len() {
        lemma_digits_value_prefix(s.drop_last(), m, base);
        assert(s.drop_last().take(m) =~= s.take(m));
        let v = digits_value(s.drop_last(), base);
        assert(v * base >= v) by (nonlinear_arith)
            requires
                base >= 1,
        ;
    } else {
        assert(s.take(m) =~= s);
    }
}

/// The value of the digits in base 10 or 16.
fn digits_to_i64(ds: &Vec<char>, base: i64) -> (res: i64)
    requires
        base == 10 || base == 16,
        forall|k: int| 0 <= k < ds@.len() ==> is_number_char(#[trigger] ds@[k]),
        digits_value(ds@, base as nat) <= i64::MAX,
    ensures
        res == digits_value(ds@, base as nat),
{
    let mut acc: i64 = 0;
    let mut k: usize = 0;
    while k < ds.len()
        invariant
            base == 10 || base == 16,
            k <= ds@.len(),
            forall|m: int| 0 <= m < ds@.len() ==> is_number_char(#[trigger] ds@[m]),
            digits_value(ds@, base as nat) <= i64::MAX,
            acc == digits_value(ds@.take(k as int), base as nat),
        decreases ds@.len() - k,
    {
        proof {
            lemma_digits_value_prefix(ds@, k + 1, base as nat);
            assert(ds@.take(k + 1).drop_last() =~= ds@.take(k as int));
        }
        let ch = ds[k];
        let d = (ch as u32 - '0' as u32) as i64;
        proof {
            assert(is_number_char(ds@[k as int]));
        }
        acc = acc * base + d;
        k = k + 1;
    }
    assert(ds@.take(ds@.len() as int) =~= ds@);
    acc
}

fn text_of(ds: &Vec<char>, lo: usize, hi: usize) -> (res: String)
    requires
        lo <= hi <= ds@.len(),
    ensures
        res@ == ds@.subrange(lo as int, hi as int),
{
    let mut res = String::new();
    let mut k: usize = lo;
    while k < hi
        invariant
            lo <= k <= hi <= ds@.len(),
            res@ == ds@.subrange(lo as int, k as int),
        decreases hi - k,
    {
        push_char(&mut res, ds[k]);
        proof {
            assert(ds@.subrange(lo as int, k + 1) =~= ds@.subrange(lo as int, k as int).push(ds@[k as int]));
        }
        k = k + 1;
    }
    res
}

/// The digits without the zeros that lead them, keeping one digit.
fn without_leading_zeros(ds: &Vec<char>) -> (res: String)
    ensures
        res@ == strip_leading_zeros(ds@),
{
    let n = ds.len();
    let mut lo: usize = 0;
    assert(ds@.subrange(0, ds@.len() as int) =~= ds@);
    while lo + 1 < n && ds[lo] == '0'
        invariant
            n == ds@.len(),
            lo < n || lo == 0,
            strip_leading_zeros(ds@) == strip_leading_zeros(ds@.subrange(lo as int, ds@.len() as int)),
        decreases ds@.len() - lo,
    {
        proof {
            assert(ds@.subrange(lo as int, ds@.len() as int).drop_first() =~= ds@.subrange(lo + 1, ds@.len() as int));
        }
        lo = lo + 1;
    }
    text_of(ds, lo, n)
}

/// The digits without the zeros that end them.
fn without_trailing_zeros(ds: &Vec<char>) -> (res: String)
    ensures
        res@ == strip_trailing_zeros(ds@),
{
    let mut hi: usize = ds.len();
    assert(ds@.subrange(0, ds@.len() as int) =~= ds@);
    while hi > 0 && ds[hi - 1] == '0'
        invariant
            hi <= ds@.len(),
            strip_trailing_zeros(ds@) == strip_trailing_zeros(ds@.subrange(0, hi as int)),
        decreases hi,
    {
        proof {
            assert(ds@.subrange(0, hi as int).drop_last() =~= ds@.subrange(0, hi - 1));
        }
        hi = hi - 1;
    }
    text_of(ds, 0, hi)
}

/// Reads a number: its first digit is under the cursor; the reader stops
/// on the first character after it. `0x` starts an integer in base 16;
/// digits with a point and a fraction make a number; other digits an
/// integer in base 10.
fn lex_number(reader: &mut StringReader) -> (t: Token)
    requires
        old(reader).cursor() < old(reader).len(),
        is_number_char(old(reader).spec_current().unwrap()),
        number_ok(old(reader).data(), old(reader).cursor()),
    ensures
        final(reader).data() == old(reader).data(),
        final(reader).len() == old(reader).len(),
        final(reader).cursor() == number_end(old(reader).data(), old(reader).cursor()),
        t@ == number_token(old(reader).data(), old(reader).cursor()),
{
    proof {
        use_type_invariant(&*reader);
    }
    let ghost b = reader.data();
    let ghost i = reader.cursor();
    proof {
        assert(reader.len() == b.len());
        lemma_digits_end(b, i);
    }
    let first = reader.current().unwrap();
    let mut digits: Vec<char> = Vec::new();
    digits.push(first);
    let next = reader.next();
    let hex = match next {
        Some(c) => first == '0' && c == 'x',
        None => false,
    };
    if hex {
        reader.next();
        let mut hex_digits: Vec<char> = Vec::new();
        read_digits(reader, &mut hex_digits);
        proof {
            lemma_digits_end(b, (i + 2) as nat);
            assert(hex_digits@ =~= chars_between(b, (i + 2) as int, reader.cursor() as int));
            assert forall|m: int| 0 <= m < hex_digits@.len() implies is_number_char(#[trigger] hex_digits@[m]) by {
                assert(hex_digits@[m] == byte_char(b, i + 2 + m));
            }
        }
        let value = digits_to_i64(&hex_digits, 16);
        return Token::IntLiteral { value };
    }
    proof {
        assert(digits@ =~= chars_between(b, i as int, (i + 1) as int));
    }
    read_digits(reader, &mut digits);
    proof {
        assert(digits@ =~= chars_between(b, i as int, reader.cursor() as int));
    }
    let point = match reader.current() {
        Some(c) => c == '.',
        None => false,
    };
    if point {
        let ghost k = reader.cursor();
        reader.next();
        proof {
            lemma_digits_end(b, (k + 1) as nat);
        }
        let mut fraction: Vec<char> = Vec::new();
        read_digits(reader, &mut fraction);
        proof {
            assert(fraction@ =~= chars_between(b, (k + 1) as int, reader.cursor() as int));
        }
        let integer = without_leading_zeros(&digits);
        let fraction = without_trailing_zeros(&fraction);
        Token::NumberLiteral { value: Decimal { negative: false, integer, fraction } }
    } else {
        proof {
            assert forall|m: int| 0 <= m < digits@.len() implies is_number_char(#[trigger] digits@[m]) by {
                assert(digits@[m] == byte_char(b, i + m));
            }
        }
        let value = digits_to_i64(&digits, 10);
        Token::IntLiteral { value }
    }
}

/// The tokens of a sequence, as values.
pub open spec fn token_views(ts: Seq<Token>) -> Seq<TokenView> {
    ts.map_values(|t: Token| t@)
}

impl<'a> StringReader<'a> {
    /// Whether a closing quote follows the character under the cursor.
    fn closing_quote_follows(&self) -> (res: bool)
        requires
            self.cursor() < self.len(),
        ensures
            res == (self.cursor() + 1 < self.len() && quote_at(self.data(), self.cursor() + 1) is Some),
    {
        proof { use_type_invariant(self); }
        let bytes = self.data.as_bytes();
        let ghost b = self.data();
        let mut k: usize = self.cursor + 1;
        while k < bytes.len()
            invariant
                b == bytes@,
                b == self.data(),
                self.cursor() + 1 <= k <= b.len(),
                quote_at(b, (self.cursor() + 1) as nat) == quote_at(b, k as nat),
            decreases b.len() - k,
        {
            if bytes[k] as char == '"' {
                assert(byte_char(b, k as int) == '"');
                assert(quote_at(b, k as nat) == Some(k as nat));
                return true;
            }
            assert(quote_at(b, k as nat) == quote_at(b, (k + 1) as nat));
            k = k + 1;
        }
        false
    }

    /// Whether the digits from `s` give a value that fits in `i64`, in the
    /// base.
    fn digits_fit(&self, s: usize, base: u128) -> (res: bool)
        requires
            s <= self.len(),
            base == 10 || base == 16,
        ensures
            res == (digits_value(chars_between(self.data(), s as int, digits_end(self.data(), s as nat) as int), base as nat) <= i64::MAX),
    {
        proof { use_type_invariant(self); }
        let bytes = self.data.as_bytes();
        let ghost b = self.data();
        proof { lemma_digits_end(b, s as nat); }
        let mut k: usize = s;
        let mut acc: u128 = 0;
        let mut over = false;
        proof { assert(chars_between(b, s as int, s as int) =~= Seq::<char>::empty()); }
        while k < bytes.len() && '0' <= bytes[k] as char && bytes[k] as char <= '9'
            invariant
                b == bytes@,
                b == self.data(),
                base == 10 || base == 16,
                s <= k <= b.len(),
                digits_end(b, s as nat) == digits_end(b, k as nat),
                !over ==> acc == digits_value(chars_between(b, s as int, k as int), base as nat) && acc <= i64::MAX,
                over ==> digits_value(chars_between(b, s as int, k as int), base as nat) > i64::MAX,
            decreases b.len() - k,
        {
            let ghost prev = chars_between(b, s as int, k as int);
            let ghost next = chars_between(b, s as int, (k + 1) as int);
            proof {
                assert(next.drop_last() =~= prev);
                assert(next.last() == byte_char(b, k as int));
                lemma_digits_value_prefix(next, prev.len() as int, base as nat);
                assert(next.take(prev.len() as int) =~= prev);
            }
            if !over {
                let d = (bytes[k] - 48u8) as u128;
                proof {
                    assert(digit_of(byte_char(b, k as int)) == d);
                }
                acc = acc * base + d;
                if acc > i64::MAX as u128 {
                    over = true;
                }
            }
            k = k + 1;
        }
        !over
    }

    /// Whether the number under the cursor can be read.
    fn number_can_be_read(&self) -> (res: bool)
        requires
            self.cursor() < self.len(),
        ensures
            res == number_ok(self.data(), self.cursor()),
    {
        proof { use_type_invariant(self); }
        let bytes = self.data.as_bytes();
        let ghost b = self.data();
        let i = self.cursor;
        proof { lemma_digits_end(b, i as nat); }
        if bytes[i] as char == '0' && i + 1 < bytes.len() && bytes[i + 1] as char == 'x' {
            proof { lemma_digits_end(b, (i + 2) as nat); }
            let mut e: usize = i + 2;
            while e < bytes.len() && '0' <= bytes[e] as char && bytes[e] as char <= '9'
                invariant
                    b == bytes@,
                    i + 2 <= e <= b.len(),
                    digits_end(b, (i + 2) as nat) == digits_end(b, e as nat),
                decreases b.len() - e,
            {
                e = e + 1;
            }
            e > i + 2 && self.digits_fit(i + 2, 16)
        } else {
            let mut e: usize = i;
            while e < bytes.len() && '0' <= bytes[e] as char && bytes[e] as char <= '9'
                invariant
                    b == bytes@,
                    i <= e <= b.len(),
                    digits_end(b, i as nat) == digits_end(b, e as nat),
                decreases b.len() - e,
            {
                e = e + 1;
            }
            (e < bytes.len() && bytes[e] as char == '.') || self.digits_fit(i, 10)
        }
    }
}

/// The tokens read from a text, and the position of the current one.
pub struct Lexer {
    cursor: usize,
    tokens: Vec<Token>,
}

impl Lexer {
    /// There is always a last token: the end of the text.
    #[verifier::type_invariant]
    spec fn has_end(self) -> bool {
        self.tokens@.len() > 0 && self.tokens@.last() is EOF
    }

    pub closed spec fn tokens(self) -> Seq<TokenView> {
        token_views(self.tokens@)
    }

    pub closed spec fn position(self) -> nat {
        self.cursor as nat
    }

    /// The token at the position, or the last one past the end.
    pub open spec fn spec_current_token(self) -> TokenView {
        if self.position() < self.tokens().len() {
            self.tokens()[self.position() as int]
        } else {
            self.tokens().last()
        }
    }

    /// Reads the tokens of a text, then the end token. Spaces separate
    /// tokens; every other character outside identifiers, numbers and
    /// strings is a symbol of its own.
    pub fn tokenize(data: &str) -> (res: Lexer)
        requires
            data.spec_bytes().len() < usize::MAX,
            lex_from(data.spec_bytes(), 0) is Some,
        ensures
            res.tokens() == lex_from(data.spec_bytes(), 0).unwrap().push(TokenView::Eof),
            res.position() == 0,
    {
        let ghost b = data.spec_bytes();
        let mut tokens: Vec<Token> = Vec::new();
        let mut string_reader = StringReader::new(data);
        proof {
            assert(token_views(tokens@) =~= Seq::<TokenView>::empty());
        }
        loop
            invariant
                string_reader.data() == b,
                string_reader.len() == b.len(),
                b.len() < usize::MAX,
                string_reader.cursor() <= b.len() + 1,
                lex_from(b, string_reader.cursor()) is Some,
                lex_from(b, 0) == Some(token_views(tokens@) + lex_from(b, string_reader.cursor()).unwrap()),
            ensures
                lex_from(b, 0) == Some(token_views(tokens@)),
            decreases b.len() + 1 - string_reader.cursor(),
        {
            let ghost i = string_reader.cursor();
            match string_reader.current() {
                Some(ch) => {
                    proof {
                        lemma_step_advances(b, i);
                    }
                    let ghost before = tokens@;
                    if is_char_id(ch, true) {
                        let token = lex_id(&mut string_reader);
                        tokens.push(token);
                    } else if ch == '"' {
                        let token = lex_string(&mut string_reader);
                        tokens.push(token);
                        string_reader.next();
                    } else if is_char_number(ch) {
                        let token = lex_number(&mut string_reader);
                        tokens.push(token);
                    } else if ch == ' ' {
                        string_reader.next();
                        continue;
                    } else {
                        tokens.push(Token::Symbol { value: ch });
                        string_reader.next();
                    }
                    proof {
                        assert(token_views(tokens@) =~= token_views(before) + seq![tokens@.last()@]);
                    }
                },
                None => {
                    break;
                },
            }
        }
        tokens.push(Token::EOF);
        proof {
            assert(token_views(tokens@) =~= lex_from(b, 0).unwrap().push(TokenView::Eof));
        }
        Lexer { tokens, cursor: 0 }
    }

    /// Reads the tokens of a text as `tokenize` does, or gives `None` where
    /// the text cannot be read: a string without its closing quote, `0x`
    /// without a digit, or an integer beyond `i64`.
    pub fn try_tokenize(data: &str) -> (res: Option<Lexer>)
        requires
            data.spec_bytes().len() < usize::MAX,
        ensures
            match lex_from(data.spec_bytes(), 0) {
                Some(ts) => res matches Some(l) && l.tokens() == ts.push(TokenView::Eof) && l.position() == 0,
                None => res is None,
            },
    {
        let ghost b = data.spec_bytes();
        let mut tokens: Vec<Token> = Vec::new();
        let mut string_reader = StringReader::new(data);
        proof {
            assert(token_views(tokens@) =~= Seq::<TokenView>::empty());
        }
        loop
            invariant
                b == data.spec_bytes(),
                string_reader.data() == b,
                string_reader.len() == b.len(),
                b.len() < usize::MAX,
                string_reader.cursor() <= b.len() + 1,
                lex_from(b, 0) == match lex_from(b, string_reader.cursor()) {
                    Some(rest) => Some(token_views(tokens@) + rest),
                    None => None::<Seq<TokenView>>,
                },
            ensures
                lex_from(b, 0) == Some(token_views(tokens@)),
            decreases b.len() + 1 - string_reader.cursor(),
        {
            let ghost i = string_reader.cursor();
            match string_reader.current() {
                Some(ch) => {
                    proof {
                        lemma_step_advances(b, i);
                    }
                    let ghost before = tokens@;
                    if is_char_id(ch, true) {
                        let token = lex_id(&mut string_reader);
                        tokens.push(token);
                    } else if ch == '"' {
                        if !string_reader.closing_quote_follows() {
                            proof {
                                assert(byte_char(b, i as int) == ch);
                                assert(lex_step(b, i) is None);
                                assert(lex_from(b, i) is None);
                            }
                            return None;
                        }
                        let token = lex_string(&mut string_reader);
                        tokens.push(token);
                        string_reader.next();
                    } else if is_char_number(ch) {
                        if !string_reader.number_can_be_read() {
                            proof {
                                assert(byte_char(b, i as int) == ch);
                                assert(lex_step(b, i) is None);
                                assert(lex_from(b, i) is None);
                            }
                            return None;
                        }
                        let token = lex_number(&mut string_reader);
                        tokens.push(token);
                    } else if ch == ' ' {
                        string_reader.next();
                        continue;
                    } else {
                        tokens.push(Token::Symbol { value: ch });
                        string_reader.next();
                    }
                    proof {
                        assert(token_views(tokens@) =~= token_views(before) + seq![tokens@.last()@]);
                    }
                },
                None => {
                    break;
                },
            }
        }
        tokens.push(Token::EOF);
        proof {
            assert(token_views(tokens@) =~= lex_from(b, 0).unwrap().push(TokenView::Eof));
        }
        Some(Lexer { tokens, cursor: 0 })
    }

    /// The position of the current token.
    pub fn cursor(&self) -> (res: usize)
        ensures
            res == self.position(),
    {
        self.cursor
    }

    /// The number of tokens.
    pub fn tokens_len(&self) -> (res: usize)
        ensures
            res == self.tokens().len(),
    {
        self.tokens.len()
    }

    /// Moves to the next token and returns it.
    pub fn next_token(&mut self) -> (t: &Token)
        requires
            old(self).position() < usize::MAX,
        ensures
            final(self).tokens() == old(self).tokens(),
            final(self).position() == old(self).position() + 1,
            t@ == final(self).spec_current_token(),
    {
        proof {
            use_type_invariant(&*self);
        }
        self.cursor += 1;
        self.current_token()
    }

    /// The current token: the one at the position, or the end token past
    /// the last.
    pub fn current_token(&self) -> (t: &Token)
        ensures
            t@ == self.spec_current_token(),
            self.tokens().len() > 0,
            self.tokens().len() <= usize::MAX,
            self.tokens().last() == TokenView::Eof,
    {
        proof {
            use_type_invariant(self);
        }
        if self.cursor >= self.tokens.len() {
            &self.tokens[self.tokens.len() - 1]
        } else {
            &self.tokens[self.cursor]
        }
    }
}


/// Past the tokens that were read, the current token is the end token,
/// however far the lexer has moved on.
pub proof fn lemma_past_end_is_eof(lexer: Lexer, read: Seq<TokenView>)
    requires
        lexer.tokens() == read.push(TokenView::Eof),
        lexer.position() >= read.len(),
    ensures
        lexer.spec_current_token() == TokenView::Eof,
{
}

} // verus!
