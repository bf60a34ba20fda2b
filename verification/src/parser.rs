//! The parser: tokens to one expression.
use vstd::prelude::*;
use crate::data_model::{link_views, list_of, Datum, Expression, Link};
use crate::error::{ParseError, ParseErrorView};
use crate::lexer::{digit, TokenBuffer, TokenKind, TokenView};
use crate::literal::{first_from, number_literal};
use crate::number::Number;
use crate::reals::{unit_ready, RealUnit};
use crate::text::{chars_of, lowercase, lowered, push_char, same_text, text_of};

verus! {

/// A hexadecimal digit.
pub open spec fn hex_digit(c: char) -> bool {
    digit(c) || ('a' <= c && c <= 'f') || ('A' <= c && c <= 'F')
}

/// The value of a hexadecimal digit.
pub open spec fn hex_digit_value(c: char) -> nat {
    if digit(c) {
        ((c as int) - 48) as nat
    } else if 'a' <= c && c <= 'f' {
        ((c as int) - 87) as nat
    } else {
        ((c as int) - 55) as nat
    }
}

/// The number written by a run of hexadecimal digits.
pub open spec fn hex_value(s: Seq<char>) -> nat
    decreases s.len(),
{
    if s.len() == 0 {
        0
    } else {
        hex_value(s.drop_last()) * 16 + hex_digit_value(s.last())
    }
}

/// Whether a code point is a character: in range and no surrogate.
pub open spec fn scalar(code: nat) -> bool {
    code <= 0xd7ff || (0xe000 <= code && code <= 0x10ffff)
}

/// The character whose code point the hexadecimal digits `s` write.
pub open spec fn hex_char(s: Seq<char>) -> Option<char> {
    if s.len() > 0 && (forall|i: int| 0 <= i < s.len() ==> hex_digit(#[trigger] s[i])) && scalar(
        hex_value(s),
    ) {
        Some(hex_value(s) as char)
    } else {
        None
    }
}

/// The character that the escape `\c` stands for, for the escapes of one
/// character.
pub open spec fn escaped(c: char) -> Option<char> {
    if c == '\\' {
        Some('\\')
    } else if c == '"' {
        Some('"')
    } else if c == 'n' {
        Some('\n')
    } else if c == 'r' {
        Some('\r')
    } else if c == 't' {
        Some('\t')
    } else if c == 'b' {
        Some('\x08')
    } else if c == 'a' {
        Some('\x07')
    } else {
        None
    }
}

/// `c` followed by what `rest` decodes to.
pub open spec fn preceded(c: char, rest: Result<Seq<char>, ParseErrorView>) -> Result<
    Seq<char>,
    ParseErrorView,
> {
    match rest {
        Ok(rest) => Ok(seq![c] + rest),
        Err(fault) => Err(fault),
    }
}

/// The characters that `s` stands for from `i` on, its escapes resolved.
/// `\x`, hexadecimal digits and `;` give the character of that code point.
/// An escape that is cut short, unknown, or names no character is a fault,
/// reported with its text.
pub open spec fn unescaped(s: Seq<char>, i: int) -> Result<Seq<char>, ParseErrorView>
    decreases s.len() - i,
{
    if i < 0 || i >= s.len() {
        Ok(Seq::empty())
    } else if s[i] != '\\' {
        preceded(s[i], unescaped(s, i + 1))
    } else if i + 1 >= s.len() {
        Err(ParseErrorView::InvalidCharacterEscape(s.subrange(i, s.len() as int)))
    } else if s[i + 1] == 'x' {
        let end = first_from(s, ';', i + 2);
        if end < i + 2 || end >= s.len() {
            Err(ParseErrorView::InvalidCharacterEscape(s.subrange(i, s.len() as int)))
        } else {
            match hex_char(s.subrange(i + 2, end)) {
                Some(c) => preceded(c, unescaped(s, end + 1)),
                None => Err(ParseErrorView::InvalidCharacterEscape(s.subrange(i, end))),
            }
        }
    } else {
        match escaped(s[i + 1]) {
            Some(c) => preceded(c, unescaped(s, i + 2)),
            None => Err(ParseErrorView::InvalidCharacterEscape(s.subrange(i, i + 2))),
        }
    }
}

/// What stands between the quotes of a string token.
pub open spec fn between_quotes(text: Seq<char>) -> Seq<char> {
    if text.len() >= 2 {
        text.subrange(1, text.len() - 1)
    } else {
        Seq::empty()
    }
}

/// The string that a string token writes.
pub open spec fn string_literal(text: Seq<char>) -> Result<Datum, ParseErrorView> {
    match unescaped(between_quotes(text), 0) {
        Ok(decoded) => Ok(Datum::String(decoded)),
        Err(fault) => Err(fault),
    }
}

/// The first position at or after `pos` where no comment stands.
pub open spec fn skip_comments(t: Seq<TokenView>, pos: int) -> int
    decreases t.len() - pos,
{
    if 0 <= pos < t.len() && t[pos].kind == TokenKind::Comment {
        skip_comments(t, pos + 1)
    } else {
        pos
    }
}

/// What parsing gives: the expression or the fault, and the position of the
/// first token not taken.
pub type Parsed = (Result<Datum, ParseErrorView>, int);

/// The list `(name x)`.
pub open spec fn tagged(name: Seq<char>, x: Datum) -> Datum {
    Datum::Pair(
        Box::new(Datum::Symbol(name)),
        Box::new(Datum::Pair(Box::new(x), Box::new(Datum::Nil))),
    )
}

/// The form that an abbreviation stands for, applied to what was parsed
/// after it.
pub open spec fn abbreviated(name: Seq<char>, rest: Parsed) -> Parsed {
    match rest.0 {
        Ok(x) => (Ok(tagged(name, x)), rest.1),
        Err(fault) => (Err(fault), rest.1),
    }
}

/// Whether the text of a boolean token writes the true value.
pub open spec fn writes_true(text: Seq<char>) -> bool {
    text == "#t"@ || text == "#true"@
}

/// The number that a number token writes.
pub open spec fn number_token<U: RealUnit>(unit: &U, text: Seq<char>) -> Result<
    Datum,
    ParseErrorView,
> {
    match number_literal(unit, text) {
        Ok(number) => Ok(Datum::Number(number)),
        Err(fault) => Err(fault),
    }
}

/// The expression that begins at `pos`, comments passed over. An identifier
/// is a symbol in lower case; a parenthesis opens a list and `#(` a vector;
/// the four abbreviations stand for `quote`, `quasiquote`, `unquote` and
/// `unquote-splicing` applied to the next expression.
pub open spec fn parsed<U: RealUnit>(unit: &U, t: Seq<TokenView>, pos: int) -> Parsed
    decreases t.len() - pos, 0int,
{
    let at = skip_comments(t, pos);
    if at < pos || at < 0 || at >= t.len() {
        (Err(ParseErrorView::EOF), at)
    } else {
        let token = t[at];
        let next = at + 1;
        match token.kind {
            TokenKind::Identifier => (Ok(Datum::Symbol(lowered(token.text))), next),
            TokenKind::Boolean => (Ok(Datum::Boolean(writes_true(token.text))), next),
            TokenKind::Number => (number_token(unit, token.text), next),
            TokenKind::String => (string_literal(token.text), next),
            TokenKind::Comment => (Err(ParseErrorView::EOF), next),
            TokenKind::OpenParenthesis => parsed_list(unit, t, next),
            TokenKind::CloseParenthesis => (Err(ParseErrorView::MissingOpenParenthesis), next),
            TokenKind::VectorOpen => parsed_vector(unit, t, next, Seq::empty()),
            TokenKind::ByteVectorOpen => (
                Err(ParseErrorView::Unimplemented("bytevector"@)),
                next,
            ),
            TokenKind::Quote => abbreviated("quote"@, parsed(unit, t, next)),
            TokenKind::BackQuote => abbreviated("quasiquote"@, parsed(unit, t, next)),
            TokenKind::Comma => abbreviated("unquote"@, parsed(unit, t, next)),
            TokenKind::CommaAt => abbreviated("unquote-splicing"@, parsed(unit, t, next)),
            TokenKind::Dot => (Err(ParseErrorView::InvalidDot), next),
        }
    }
}

/// The tail after a dot, which was parsed to `rest`: one closing
/// parenthesis must follow it.
pub open spec fn closed(t: Seq<TokenView>, rest: Parsed) -> Parsed {
    match rest.0 {
        Err(fault) => (Err(fault), rest.1),
        Ok(tail) => {
            let end = skip_comments(t, rest.1);
            if end < 0 || end >= t.len() {
                (Err(ParseErrorView::MissingCLoseParenthesis), end)
            } else if t[end].kind == TokenKind::CloseParenthesis {
                (Ok(tail), end + 1)
            } else {
                (Err(ParseErrorView::TooMoreObjects), end + 1)
            }
        },
    }
}

/// The rest of a list whose opening parenthesis has been taken, from `pos`
/// on: expressions up to the closing parenthesis; after a dot, the one
/// expression that is the tail.
pub open spec fn parsed_list<U: RealUnit>(unit: &U, t: Seq<TokenView>, pos: int) -> Parsed
    decreases t.len() - pos, 1int,
{
    let at = skip_comments(t, pos);
    if at < pos || at < 0 || at >= t.len() {
        (Err(ParseErrorView::MissingCLoseParenthesis), at)
    } else if t[at].kind == TokenKind::CloseParenthesis {
        (Ok(Datum::Nil), at + 1)
    } else if t[at].kind == TokenKind::Dot {
        closed(t, parsed(unit, t, at + 1))
    } else {
        let first = parsed(unit, t, at);
        match first.0 {
            Err(fault) => (Err(fault), first.1),
            Ok(car) => if first.1 <= at || first.1 > t.len() {
                (Err(ParseErrorView::EOF), first.1)
            } else {
                let rest = parsed_list(unit, t, first.1);
                match rest.0 {
                    Err(fault) => (Err(fault), rest.1),
                    Ok(cdr) => (Ok(Datum::Pair(Box::new(car), Box::new(cdr))), rest.1),
                }
            },
        }
    }
}

/// The rest of a vector whose opening has been taken and whose elements so
/// far are `done`, from `pos` on: expressions up to the closing parenthesis.
pub open spec fn parsed_vector<U: RealUnit>(
    unit: &U,
    t: Seq<TokenView>,
    pos: int,
    done: Seq<Datum>,
) -> Parsed
    decreases t.len() - pos, 1int,
{
    let at = skip_comments(t, pos);
    if at < pos || at < 0 || at >= t.len() {
        (Err(ParseErrorView::MissingCLoseParenthesis), at)
    } else if t[at].kind == TokenKind::CloseParenthesis {
        (Ok(Datum::Vector(done)), at + 1)
    } else {
        let first = parsed(unit, t, at);
        match first.0 {
            Err(fault) => (Err(fault), first.1),
            Ok(item) => if first.1 <= at || first.1 > t.len() {
                (Err(ParseErrorView::EOF), first.1)
            } else {
                parsed_vector(unit, t, first.1, done.push(item))
            },
        }
    }
}

pub proof fn lemma_skip_comments(t: Seq<TokenView>, pos: int)
    requires
        0 <= pos <= t.len(),
    ensures
        pos <= skip_comments(t, pos) <= t.len(),
        skip_comments(t, pos) < t.len() ==> t[skip_comments(t, pos)].kind != TokenKind::Comment,
        skip_comments(t, skip_comments(t, pos)) == skip_comments(t, pos),
    decreases t.len() - pos,
{
    if pos < t.len() && t[pos].kind == TokenKind::Comment {
        lemma_skip_comments(t, pos + 1);
    }
}

/// Parsing takes one token at least, where there is one that is no comment,
/// and never passes the end.
pub proof fn lemma_parsed_advances<U: RealUnit>(unit: &U, t: Seq<TokenView>, pos: int)
    requires
        0 <= pos <= t.len(),
    ensures
        pos <= parsed(unit, t, pos).1 <= t.len(),
        skip_comments(t, pos) < t.len() ==> skip_comments(t, pos) < parsed(unit, t, pos).1,
    decreases t.len() - pos, 0int,
{
    lemma_skip_comments(t, pos);
    let at = skip_comments(t, pos);
    if at < t.len() {
        let next = at + 1;
        match t[at].kind {
            TokenKind::OpenParenthesis => {
                lemma_parsed_list_advances(unit, t, next);
            },
            TokenKind::VectorOpen => {
                lemma_parsed_vector_advances(unit, t, next, Seq::empty());
            },
            TokenKind::Quote | TokenKind::BackQuote | TokenKind::Comma | TokenKind::CommaAt => {
                lemma_parsed_advances(unit, t, next);
            },
            _ => {},
        }
    }
}

pub proof fn lemma_parsed_list_advances<U: RealUnit>(unit: &U, t: Seq<TokenView>, pos: int)
    requires
        0 <= pos <= t.len(),
    ensures
        pos <= parsed_list(unit, t, pos).1 <= t.len(),
    decreases t.len() - pos, 1int,
{
    lemma_skip_comments(t, pos);
    let at = skip_comments(t, pos);
    if at < t.len() {
        if t[at].kind == TokenKind::CloseParenthesis {
        } else if t[at].kind == TokenKind::Dot {
            lemma_parsed_advances(unit, t, at + 1);
            let rest = parsed(unit, t, at + 1);
            lemma_skip_comments(t, rest.1);
        } else {
            lemma_parsed_advances(unit, t, at);
            let first = parsed(unit, t, at);
            if first.0 is Ok {
                lemma_parsed_list_advances(unit, t, first.1);
            }
        }
    }
}

pub proof fn lemma_parsed_vector_advances<U: RealUnit>(
    unit: &U,
    t: Seq<TokenView>,
    pos: int,
    done: Seq<Datum>,
)
    requires
        0 <= pos <= t.len(),
    ensures
        pos <= parsed_vector(unit, t, pos, done).1 <= t.len(),
    decreases t.len() - pos, 1int,
{
    lemma_skip_comments(t, pos);
    let at = skip_comments(t, pos);
    if at < t.len() {
        if t[at].kind == TokenKind::CloseParenthesis {
        } else {
            lemma_parsed_advances(unit, t, at);
            let first = parsed(unit, t, at);
            if first.0 is Ok {
                lemma_parsed_vector_advances(unit, t, first.1, done.push(first.0->Ok_0));
            }
        }
    }
}

/// The character of a code point. Stands for `char::from_u32`, which gives
/// the character where the number is a Unicode scalar value and nothing
/// where it is a surrogate or beyond the last code point.
#[verifier::external_body]
pub(crate) fn char_of(code: u32) -> (found: Option<char>)
    ensures
        match found {
            Some(c) => c == code as char && scalar(code as nat),
            None => !scalar(code as nat),
        },
{
    char::from_u32(code)
}

fn is_hex_digit(c: char) -> (yes: bool)
    ensures
        yes == hex_digit(c),
{
    crate::lexer::is_digit(c) || ('a' <= c && c <= 'f') || ('A' <= c && c <= 'F')
}

fn value_of_hex_digit(c: char) -> (value: u32)
    requires
        hex_digit(c),
    ensures
        value == hex_digit_value(c),
        value < 16,
{
    if crate::lexer::is_digit(c) {
        (c as u8 - 48u8) as u32
    } else if 'a' <= c && c <= 'f' {
        (c as u8 - 87u8) as u32
    } else {
        (c as u8 - 55u8) as u32
    }
}

proof fn lemma_hex_value_grows(s: Seq<char>, k: int)
    requires
        0 <= k <= s.len(),
    ensures
        hex_value(s.take(k)) <= hex_value(s),
    decreases s.len() - k,
{
    if k < s.len() {
        lemma_hex_value_grows(s, k + 1);
        assert(s.take(k + 1).drop_last() == s.take(k));
    } else {
        assert(s.take(k) == s);
    }
}

fn read_hex(chars: &Vec<char>, from: usize, to: usize) -> (found: Option<char>)
    requires
        from <= to <= chars.len(),
    ensures
        found == hex_char(chars@.subrange(from as int, to as int)),
{
    let ghost digits = chars@.subrange(from as int, to as int);
    if from == to {
        return None;
    }
    let mut code: u32 = 0;
    let mut index = from;
    while index < to
        invariant
            from <= index <= to <= chars.len(),
            digits == chars@.subrange(from as int, to as int),
            forall|j: int| 0 <= j < index - from ==> hex_digit(#[trigger] digits[j]),
            code == hex_value(digits.take(index - from)),
            code <= 0x10ffff,
        decreases to - index,
    {
        let c = chars[index];
        assert(c == digits[index - from]);
        if !is_hex_digit(c) {
            return None;
        }
        let d = value_of_hex_digit(c);
        assert(digits.take(index - from + 1).drop_last() == digits.take(index - from));
        assert(digits.take(index - from + 1).last() == c);
        assert(hex_value(digits.take(index - from + 1)) == code * 16 + d);
        if code * 16 + d > 0x10ffff {
            proof {
                lemma_hex_value_grows(digits, index - from + 1);
            }
            return None;
        }
        code = code * 16 + d;
        index += 1;
    }
    assert(digits.take(index - from) == digits);
    match char_of(code) {
        Some(c) => {
            assert(c == hex_value(digits) as char);
            Some(c)
        },
        None => None,
    }
}

fn find_from(chars: &Vec<char>, c: char, from: usize) -> (found: usize)
    requires
        from <= chars.len(),
    ensures
        found == first_from(chars@, c, from as int),
        from <= found <= chars.len(),
{
    let mut at: usize = from;
    while at < chars.len()
        invariant
            from <= at <= chars.len(),
            first_from(chars@, c, at as int) == first_from(chars@, c, from as int),
        decreases chars.len() - at,
    {
        if chars[at] == c {
            return at;
        }
        at += 1;
    }
    at
}

fn escape_of(c: char) -> (found: Option<char>)
    ensures
        found == escaped(c),
{
    if c == '\\' {
        Some('\\')
    } else if c == '"' {
        Some('"')
    } else if c == 'n' {
        Some('\n')
    } else if c == 'r' {
        Some('\r')
    } else if c == 't' {
        Some('\t')
    } else if c == 'b' {
        Some('\x08')
    } else if c == 'a' {
        Some('\x07')
    } else {
        None
    }
}

/// The characters `done`, followed by what the rest decodes to.
pub open spec fn joined(done: Seq<char>, rest: Result<Seq<char>, ParseErrorView>) -> Result<
    Seq<char>,
    ParseErrorView,
> {
    match rest {
        Ok(rest) => Ok(done + rest),
        Err(fault) => Err(fault),
    }
}

proof fn lemma_joined_step(done: Seq<char>, c: char, rest: Result<Seq<char>, ParseErrorView>)
    ensures
        joined(done, preceded(c, rest)) == joined(done.push(c), rest),
{
    match rest {
        Ok(r) => {
            assert(done + (seq![c] + r) =~= done.push(c) + r);
        },
        Err(_) => {},
    }
}

/// The mathematical content of a decoded string.
pub open spec fn text_result(decoded: Result<String, ParseError>) -> Result<
    Seq<char>,
    ParseErrorView,
> {
    match decoded {
        Ok(text) => Ok(text@),
        Err(fault) => Err(fault@),
    }
}

/// Resolves the escapes of `chars`.
pub fn unescape(chars: &Vec<char>) -> (decoded: Result<String, ParseError>)
    ensures
        text_result(decoded) == unescaped(chars@, 0),
{
    let length = chars.len();
    let mut result = String::new();
    let mut index: usize = 0;
    assert(joined(result@, unescaped(chars@, 0)) == unescaped(chars@, 0)) by {
        match unescaped(chars@, 0) {
            Ok(r) => {
                assert(Seq::<char>::empty() + r =~= r);
            },
            Err(_) => {},
        }
    }
    while index < length
        invariant
            index <= length,
            length == chars.len(),
            joined(result@, unescaped(chars@, index as int)) == unescaped(chars@, 0),
        decreases length - index,
    {
        let c = chars[index];
        if c != '\\' {
            proof {
                lemma_joined_step(result@, c, unescaped(chars@, index + 1));
            }
            push_char(&mut result, c);
            index += 1;
        } else if index + 1 >= length {
            return Err(ParseError::InvalidCharacterEscape(text_of(chars, index, length)));
        } else if chars[index + 1] == 'x' {
            let end = find_from(chars, ';', index + 2);
            if end >= length {
                return Err(ParseError::InvalidCharacterEscape(text_of(chars, index, length)));
            }
            match read_hex(chars, index + 2, end) {
                Some(decoded) => {
                    proof {
                        lemma_joined_step(result@, decoded, unescaped(chars@, end + 1));
                    }
                    push_char(&mut result, decoded);
                    index = end + 1;
                },
                None => {
                    return Err(ParseError::InvalidCharacterEscape(text_of(chars, index, end)));
                },
            }
        } else {
            match escape_of(chars[index + 1]) {
                Some(decoded) => {
                    proof {
                        lemma_joined_step(result@, decoded, unescaped(chars@, index + 2));
                    }
                    push_char(&mut result, decoded);
                    index += 2;
                },
                None => {
                    return Err(
                        ParseError::InvalidCharacterEscape(text_of(chars, index, index + 2)),
                    );
                },
            }
        }
    }
    assert(result@ + Seq::<char>::empty() =~= result@);
    Ok(result)
}

/// The mathematical content of a decoded literal.
pub open spec fn datum_result(decoded: Result<Link, ParseError>) -> Result<Datum, ParseErrorView> {
    match decoded {
        Ok(link) => Ok(link@),
        Err(fault) => Err(fault@),
    }
}

/// Decodes a string token.
pub fn decode_string(text: &str) -> (decoded: Result<Link, ParseError>)
    ensures
        datum_result(decoded) == string_literal(text@),
{
    let chars = chars_of(text);
    let mut content: Vec<char> = Vec::new();
    if chars.len() >= 2 {
        let mut index: usize = 1;
        while index < chars.len() - 1
            invariant
                1 <= index <= chars.len() - 1,
                content@ == chars@.subrange(1, index as int),
            decreases chars.len() - index,
        {
            content.push(chars[index]);
            index += 1;
            assert(chars@.subrange(1, index as int) == chars@.subrange(1, index - 1).push(
                chars@[index - 1],
            ));
        }
    }
    assert(content@ == between_quotes(text@));
    match unescape(&content) {
        Ok(decoded) => Ok(Link::from_string(decoded)),
        Err(fault) => Err(fault),
    }
}

/// The mathematical content of what a parsing function returns, with the
/// position it left the tokens at.
pub open spec fn parse_of(result: Result<Expression, ParseError>, position: int) -> Parsed {
    match result {
        Ok(expression) => (Ok(expression@), position),
        Err(fault) => (Err(fault@), position),
    }
}

/// No comment stands at `pos`.
pub open spec fn not_comment(t: Seq<TokenView>, pos: int) -> bool {
    t[pos].kind != TokenKind::Comment
}

fn skip(buffer: &mut TokenBuffer)
    ensures
        final(buffer)@ == old(buffer)@,
        final(buffer).position() == skip_comments(old(buffer)@, old(buffer).position()),
        0 <= old(buffer).position() <= final(buffer).position() <= final(buffer)@.len(),
        final(buffer).position() < final(buffer)@.len() ==> not_comment(
            final(buffer)@,
            final(buffer).position(),
        ),
{
    buffer.bounded();
    proof {
        lemma_skip_comments(buffer@, buffer.position());
    }
    loop
        invariant
            buffer@ == old(buffer)@,
            0 <= old(buffer).position() <= buffer.position() <= buffer@.len(),
            skip_comments(buffer@, buffer.position()) == skip_comments(
                old(buffer)@,
                old(buffer).position(),
            ),
        ensures
            buffer@ == old(buffer)@,
            buffer.position() == skip_comments(old(buffer)@, old(buffer).position()),
            old(buffer).position() <= buffer.position() <= buffer@.len(),
        decreases buffer@.len() - buffer.position(),
    {
        if buffer.is_empty() {
            break ;
        }
        let ghost here = buffer.position();
        match buffer.peek().kind() {
            TokenKind::Comment => {
                buffer.pop();
                assert(skip_comments(buffer@, here) == skip_comments(buffer@, here + 1));
            },
            _ => {
                break ;
            },
        }
    }
}

fn tag(name: &str, expression: Expression) -> (tagged_expression: Expression)
    ensures
        tagged_expression@ == tagged(name@, expression@),
{
    Expression::from_link(
        Link::new_pair(
            Link::from_symbol(name.to_owned()),
            Link::new_pair(expression.content, Link::Nil),
        ),
    )
}

fn abbreviation<U: RealUnit>(name: &str, buffer: &mut TokenBuffer, unit: &U) -> (result: Result<
    Expression,
    ParseError,
>)
    requires
        unit_ready(unit),
    ensures
        final(buffer)@ == old(buffer)@,
        parse_of(result, final(buffer).position()) == abbreviated(
            name@,
            parsed(unit, old(buffer)@, old(buffer).position()),
        ),
    decreases old(buffer)@.len() - old(buffer).position(), 1int,
{
    match parse(buffer, unit) {
        Ok(expression) => Ok(tag(name, expression)),
        Err(fault) => Err(fault),
    }
}

/// Parses the next expression.
pub fn parse<U: RealUnit>(buffer: &mut TokenBuffer, unit: &U) -> (result: Result<
    Expression,
    ParseError,
>)
    requires
        unit_ready(unit),
    ensures
        final(buffer)@ == old(buffer)@,
        parse_of(result, final(buffer).position()) == parsed(
            unit,
            old(buffer)@,
            old(buffer).position(),
        ),
    decreases old(buffer)@.len() - old(buffer).position(), 0int,
{
    skip(buffer);
    if buffer.is_empty() {
        return Err(ParseError::EOF);
    }
    let token = buffer.peek();
    let kind = token.kind();
    let text = token.to_string();
    buffer.pop();
    match kind {
        TokenKind::Identifier => Ok(
            Expression::from_link(Link::from_symbol(lowercase(text.as_str()))),
        ),
        TokenKind::Boolean => {
            let truth = same_text(text.as_str(), "#t") || same_text(text.as_str(), "#true");
            Ok(Expression::from_link(Link::from_boolean(truth)))
        },
        TokenKind::Number => match Number::try_from(text.as_str(), unit) {
            Ok(number) => Ok(Expression::from_link(Link::from_number(number))),
            Err(fault) => Err(fault),
        },
        TokenKind::String => match decode_string(text.as_str()) {
            Ok(link) => Ok(Expression::from_link(link)),
            Err(fault) => Err(fault),
        },
        TokenKind::Comment => Err(ParseError::EOF),
        TokenKind::OpenParenthesis => parse_pair(buffer, unit),
        TokenKind::CloseParenthesis => Err(ParseError::MissingOpenParenthesis),
        TokenKind::VectorOpen => {
            let slots: Vec<Link> = Vec::new();
            assert(link_views(slots@) =~= Seq::<Datum>::empty());
            parse_vector(buffer, slots, unit)
        },
        TokenKind::ByteVectorOpen => Err(ParseError::Unimplemented("bytevector".to_owned())),
        TokenKind::Quote => abbreviation("quote", buffer, unit),
        TokenKind::BackQuote => abbreviation("quasiquote", buffer, unit),
        TokenKind::Comma => abbreviation("unquote", buffer, unit),
        TokenKind::CommaAt => abbreviation("unquote-splicing", buffer, unit),
        TokenKind::Dot => Err(ParseError::InvalidDot),
    }
}

/// The list of `done` and then of what the rest of the list parses to.
pub open spec fn extended(done: Seq<Datum>, rest: Parsed) -> Parsed {
    match rest.0 {
        Ok(tail) => (Ok(list_of(done, tail)), rest.1),
        Err(fault) => (Err(fault), rest.1),
    }
}

proof fn lemma_list_of_push(done: Seq<Datum>, x: Datum, tail: Datum)
    ensures
        list_of(done.push(x), tail) == list_of(done, Datum::Pair(Box::new(x), Box::new(tail))),
    decreases done.len(),
{
    if done.len() == 0 {
        assert(done.push(x).drop_first() =~= Seq::<Datum>::empty());
        assert(list_of(Seq::<Datum>::empty(), tail) == tail);
    } else {
        assert(done.push(x).drop_first() =~= done.drop_first().push(x));
        lemma_list_of_push(done.drop_first(), x, tail);
    }
}

/// The list of the slots `elements`, ending in `tail`.
pub fn build_list(elements: &Vec<Link>, tail: Link) -> (list: Link)
    ensures
        list@ == list_of(link_views(elements@), tail@),
{
    let ghost views = link_views(elements@);
    let mut list = tail;
    let mut index = elements.len();
    assert(views.subrange(index as int, views.len() as int) =~= Seq::<Datum>::empty());
    while index > 0
        invariant
            index <= elements.len(),
            views == link_views(elements@),
            list@ == list_of(views.subrange(index as int, views.len() as int), tail@),
        decreases index,
    {
        index -= 1;
        assert(views.subrange(index as int, views.len() as int).drop_first() =~= views.subrange(
            index + 1,
            views.len() as int,
        ));
        list = Link::new_pair(elements[index].duplicate(), list);
    }
    assert(views.subrange(0, views.len() as int) =~= views);
    list
}

/// Parses the rest of a list whose opening parenthesis has been taken.
pub fn parse_pair<U: RealUnit>(buffer: &mut TokenBuffer, unit: &U) -> (result: Result<
    Expression,
    ParseError,
>)
    requires
        unit_ready(unit),
    ensures
        final(buffer)@ == old(buffer)@,
        parse_of(result, final(buffer).position()) == parsed_list(
            unit,
            old(buffer)@,
            old(buffer).position(),
        ),
    decreases old(buffer)@.len() - old(buffer).position(), 1int,
{
    let ghost tokens = buffer@;
    let ghost start = buffer.position();
    let mut elements: Vec<Link> = Vec::new();
    buffer.bounded();
    proof {
        match parsed_list(unit, tokens, start).0 {
            Ok(tail) => {
                assert(link_views(elements@) =~= Seq::<Datum>::empty());
            },
            Err(_) => {},
        }
    }
    loop
        invariant
            unit_ready(unit),
            buffer@ == tokens,
            tokens == old(buffer)@,
            start == old(buffer).position(),
            0 <= start <= buffer.position() <= tokens.len(),
            extended(link_views(elements@), parsed_list(unit, tokens, buffer.position()))
                == parsed_list(unit, tokens, start),
        decreases tokens.len() - buffer.position(),
    {
        let ghost here = buffer.position();
        let ghost before = link_views(elements@);
        skip(buffer);
        if buffer.is_empty() {
            return Err(ParseError::MissingCLoseParenthesis);
        }
        let kind = buffer.peek().kind();
        match kind {
            TokenKind::CloseParenthesis => {
                buffer.pop();
                return Ok(Expression::from_link(build_list(&elements, Link::Nil)));
            },
            TokenKind::Dot => {
                buffer.pop();
                let rest = match parse(buffer, unit) {
                    Ok(rest) => rest,
                    Err(fault) => {
                        return Err(fault);
                    },
                };
                skip(buffer);
                if buffer.is_empty() {
                    return Err(ParseError::MissingCLoseParenthesis);
                }
                let closing = buffer.peek().kind();
                buffer.pop();
                match closing {
                    TokenKind::CloseParenthesis => {
                        return Ok(Expression::from_link(build_list(&elements, rest.content)));
                    },
                    _ => {
                        return Err(ParseError::TooMoreObjects);
                    },
                }
            },
            _ => {
                let ghost at = buffer.position();
                proof {
                    lemma_parsed_advances(unit, tokens, at);
                    lemma_skip_comments(tokens, at);
                }
                let first = match parse(buffer, unit) {
                    Ok(first) => first,
                    Err(fault) => {
                        return Err(fault);
                    },
                };
                elements.push(first.content);
                proof {
                    assert(link_views(elements@) =~= before.push(first@));
                    let rest = parsed_list(unit, tokens, buffer.position());
                    match rest.0 {
                        Ok(tail) => {
                            lemma_list_of_push(before, first@, tail);
                        },
                        Err(_) => {},
                    }
                }
            },
        }
    }
}

/// Parses the rest of a vector whose opening has been taken and whose
/// elements so far are `vector`.
pub fn parse_vector<U: RealUnit>(buffer: &mut TokenBuffer, vector: Vec<Link>, unit: &U) -> (result:
    Result<Expression, ParseError>)
    requires
        unit_ready(unit),
    ensures
        final(buffer)@ == old(buffer)@,
        parse_of(result, final(buffer).position()) == parsed_vector(
            unit,
            old(buffer)@,
            old(buffer).position(),
            link_views(vector@),
        ),
    decreases old(buffer)@.len() - old(buffer).position(), 1int,
{
    let ghost tokens = buffer@;
    let ghost start = buffer.position();
    let ghost given = link_views(vector@);
    let mut slots = vector;
    buffer.bounded();
    loop
        invariant
            unit_ready(unit),
            buffer@ == tokens,
            tokens == old(buffer)@,
            start == old(buffer).position(),
            0 <= start <= buffer.position() <= tokens.len(),
            given == link_views(vector@),
            parsed_vector(unit, tokens, buffer.position(), link_views(slots@)) == parsed_vector(
                unit,
                tokens,
                start,
                given,
            ),
        decreases tokens.len() - buffer.position(),
    {
        let ghost before = link_views(slots@);
        skip(buffer);
        if buffer.is_empty() {
            return Err(ParseError::MissingCLoseParenthesis);
        }
        let kind = buffer.peek().kind();
        match kind {
            TokenKind::CloseParenthesis => {
                buffer.pop();
                return Ok(Expression::from_link(Link::from_vector(slots)));
            },
            _ => {
                let ghost at = buffer.position();
                proof {
                    lemma_parsed_advances(unit, tokens, at);
                    lemma_skip_comments(tokens, at);
                }
                let first = match parse(buffer, unit) {
                    Ok(first) => first,
                    Err(fault) => {
                        return Err(fault);
                    },
                };
                slots.push(first.content);
                proof {
                    assert(link_views(slots@) =~= before.push(first@));
                }
            },
        }
    }
}

} // verus!
