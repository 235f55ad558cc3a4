use vstd::prelude::*;
use convert_case::{Case, Casing};
use vstd::string::StrSliceExecFns;

verus! {

/// `s` written `n` times in a row.
pub open spec fn repeat(s: Seq<char>, n: nat) -> Seq<char>
    decreases n,
{
    if n == 0 {
        Seq::empty()
    } else {
        repeat(s, (n - 1) as nat) + s
    }
}

/// The parts joined with `sep` between each two neighbours.
pub open spec fn join(parts: Seq<Seq<char>>, sep: Seq<char>) -> Seq<char>
    decreases parts.len(),
{
    if parts.len() == 0 {
        Seq::empty()
    } else if parts.len() == 1 {
        parts[0]
    } else {
        join(parts.drop_last(), sep) + sep + parts.last()
    }
}

/// The decimal digit for `d < 10`.
pub open spec fn digit_char(d: nat) -> char {
    if d == 0 { '0' }
    else if d == 1 { '1' }
    else if d == 2 { '2' }
    else if d == 3 { '3' }
    else if d == 4 { '4' }
    else if d == 5 { '5' }
    else if d == 6 { '6' }
    else if d == 7 { '7' }
    else if d == 8 { '8' }
    else { '9' }
}

/// The decimal notation of a natural number, without leading zeros.
pub open spec fn nat_text(n: nat) -> Seq<char>
    decreases n,
{
    if n < 10 {
        seq![digit_char(n)]
    } else {
        nat_text(n / 10).push(digit_char(n % 10))
    }
}

/// The decimal notation of an integer, as Rust's `Display` writes it.
pub open spec fn int_text(v: int) -> Seq<char> {
    if v < 0 {
        seq!['-'] + nat_text((-v) as nat)
    } else {
        nat_text(v as nat)
    }
}

/// `std::string::String::push`: appends one character.
#[verifier::external_body]
pub(crate) fn push_char(s: &mut String, c: char)
    ensures
        final(s)@ == old(s)@.push(c),
{
    s.push(c)
}

/// Whether two strings hold the same text, character by character.
pub(crate) fn str_eq(a: &str, b: &str) -> (res: bool)
    ensures
        res == (a@ == b@),
{
    let n = a.unicode_len();
    if n != b.unicode_len() {
        return false;
    }
    let mut i: usize = 0;
    while i < n
        invariant
            n == a@.len(),
            n == b@.len(),
            i <= n,
            forall|k: int| 0 <= k < i ==> a@[k] == b@[k],
        decreases n - i,
    {
        if a.get_char(i) != b.get_char(i) {
            return false;
        }
        i = i + 1;
    }
    assert(a@ =~= b@);
    true
}

/// A new string holding the text of `s`.
pub fn copy_str(s: &str) -> (res: String)
    ensures
        res@ == s@,
{
    String::from_str(s)
}

/// The concatenation of `a` and `b`.
pub fn cat(a: &str, b: &str) -> (res: String)
    ensures
        res@ == a@ + b@,
{
    let mut res = String::from_str(a);
    res.append(b);
    res
}

/// The concatenation of three strings.
pub fn cat3(a: &str, b: &str, c: &str) -> (res: String)
    ensures
        res@ == a@ + b@ + c@,
{
    let mut res = String::from_str(a);
    res.append(b);
    res.append(c);
    res
}

/// `s` written `n` times in a row.
pub fn repeat_str(s: &str, n: usize) -> (res: String)
    ensures
        res@ == repeat(s@, n as nat),
{
    let mut res = String::new();
    let mut i: usize = 0;
    while i < n
        invariant
            i <= n,
            res@ == repeat(s@, i as nat),
        decreases n - i,
    {
        res.append(s);
        i = i + 1;
    }
    res
}

fn digit(d: u64) -> (c: char)
    requires
        d < 10,
    ensures
        c == digit_char(d as nat),
{
    if d == 0 { '0' }
    else if d == 1 { '1' }
    else if d == 2 { '2' }
    else if d == 3 { '3' }
    else if d == 4 { '4' }
    else if d == 5 { '5' }
    else if d == 6 { '6' }
    else if d == 7 { '7' }
    else if d == 8 { '8' }
    else { '9' }
}

/// Appends the decimal notation of `n` to `out`.
pub fn push_nat(out: &mut String, n: u64)
    ensures
        final(out)@ == old(out)@ + nat_text(n as nat),
    decreases n,
{
    if n >= 10 {
        push_nat(out, n / 10);
    }
    push_char(out, digit(n % 10));
}

/// The decimal notation of `n`.
pub fn nat_to_text(n: u64) -> (res: String)
    ensures
        res@ == nat_text(n as nat),
{
    let mut res = String::new();
    push_nat(&mut res, n);
    res
}

/// The decimal notation of `v`.
pub fn int_to_text(v: i64) -> (res: String)
    ensures
        res@ == int_text(v as int),
{
    let mut res = String::new();
    if v < 0 {
        push_char(&mut res, '-');
        let m: u64 = ((-(v + 1)) as u64) + 1;
        push_nat(&mut res, m);
    } else {
        push_nat(&mut res, v as u64);
    }
    res
}


/// Whether the text ends with two line breaks.
pub open spec fn ends_with_blank_line(s: Seq<char>) -> bool {
    s.len() >= 2 && s[s.len() - 1] == '\n' && s[s.len() - 2] == '\n'
}

/// The text without one of its final line breaks where it ends with two.
pub open spec fn trim_blank_line(s: Seq<char>) -> Seq<char> {
    if ends_with_blank_line(s) { s.drop_last() } else { s }
}

/// The text with final line breaks removed until it no longer ends with two.
pub open spec fn trim_blank_lines(s: Seq<char>) -> Seq<char>
    decreases s.len(),
{
    if ends_with_blank_line(s) { trim_blank_lines(s.drop_last()) } else { s }
}

/// Removing final blank lines leaves a prefix of the text that no longer
/// ends with a blank line, and doing it again changes nothing.
pub proof fn lemma_trim_blank_lines(s: Seq<char>)
    ensures
        !ends_with_blank_line(trim_blank_lines(s)),
        trim_blank_lines(s).is_prefix_of(s),
        trim_blank_lines(trim_blank_lines(s)) == trim_blank_lines(s),
    decreases s.len(),
{
    if ends_with_blank_line(s) {
        lemma_trim_blank_lines(s.drop_last());
        assert(s.drop_last().is_prefix_of(s));
        let t = trim_blank_lines(s.drop_last());
        assert(t.is_prefix_of(s)) by {
            assert forall|i: int| 0 <= i < t.len() implies t[i] == s[i] by {
                assert(t[i] == s.drop_last()[i]);
            }
        }
    } else {
        assert(s.is_prefix_of(s));
    }
}

pub fn has_blank_line_end(s: &str) -> (res: bool)
    ensures
        res == ends_with_blank_line(s@),
{
    let n = s.unicode_len();
    n >= 2 && s.get_char(n - 1) == '\n' && s.get_char(n - 2) == '\n'
}

/// Removes one final line break where the text ends with two.
pub fn trim_blank_line_end(s: &str) -> (res: String)
    ensures
        res@ == trim_blank_line(s@),
{
    if has_blank_line_end(s) {
        let n = s.unicode_len();
        copy_str(s.substring_char(0, n - 1))
    } else {
        copy_str(s)
    }
}

/// Removes final line breaks until the text no longer ends with two.
pub fn trim_blank_lines_end(s: &str) -> (res: String)
    ensures
        res@ == trim_blank_lines(s@),
{
    let mut res = copy_str(s);
    while has_blank_line_end(res.as_str())
        invariant
            trim_blank_lines(res@) == trim_blank_lines(s@),
        decreases res@.len(),
    {
        let n = res.as_str().unicode_len();
        res = copy_str(res.as_str().substring_char(0, n - 1));
    }
    res
}

/// The letter cases that identifiers are converted to.
pub enum TextCase {
    Camel,
    Pascal,
    Snake,
}

/// What `convert_case`'s `to_case` gives for `text` in the given case.
pub uninterp spec fn case_converted(text: Seq<char>, case: TextCase) -> Seq<char>;

/// `Casing::to_case` of `convert_case`: `text` rewritten in the given
/// case. Its result is taken to depend on `text` and `case` alone; nothing
/// more is stated of it.
#[verifier::external_body]
pub(crate) fn to_case(text: &str, case: TextCase) -> (res: String)
    ensures
        res@ == case_converted(text@, case),
{
    match case {
        TextCase::Camel => text.to_case(Case::Camel),
        TextCase::Pascal => text.to_case(Case::Pascal),
        TextCase::Snake => text.to_case(Case::Snake),
    }
}

/// `true` or `false`, as Rust's `Display` writes a boolean.
pub open spec fn bool_text(b: bool) -> Seq<char> {
    if b { "true"@ } else { "false"@ }
}

pub fn bool_to_text(b: bool) -> (res: String)
    ensures
        res@ == bool_text(b),
{
    if b { String::from_str("true") } else { String::from_str("false") }
}

/// The text between double quotes.
pub open spec fn quoted(s: Seq<char>) -> Seq<char> {
    seq!['"'] + s + seq!['"']
}

pub fn quote(s: &str) -> (res: String)
    ensures
        res@ == quoted(s@),
{
    let mut res = String::new();
    push_char(&mut res, '"');
    res.append(s);
    push_char(&mut res, '"');
    proof { assert(res@ =~= quoted(s@)); }
    res
}

} // verus!
