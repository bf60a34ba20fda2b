//! What holds of every expression that is read from a text: its symbols are
//! identifiers in lower case, and it holds no promise. Such an expression
//! is read back from the text it is written as, but for what its strings
//! and its inexact numbers may hold.
use vstd::prelude::*;
use crate::data_model::Datum;
use crate::lexer::{
    digit, ends, escape, initial, lemma_scan_advances, lex, lex_from, newline, numeric, scan,
    scan_comment, scan_identifier, scan_number, scan_string, subsequent, whitespace, TokenKind,
    TokenView,
};
use crate::number::Number;
use crate::parser::{
    lemma_parsed_advances, lemma_skip_comments, parsed, parsed_list, parsed_vector,
    skip_comments, tagged,
};
use crate::printer::print_datum;
use crate::reals::RealUnit;
use crate::roundtrip::{
    decimal_real, faithful, folded, identifier_text, plain, read_back, unescaped_text,
    written_text_reads_back,
};
use crate::text::lowered;

verus! {

/// The expressions whose symbols are identifiers in lower case and which
/// hold no promise.
pub open spec fn shaped(d: Datum) -> bool
    decreases d,
{
    match d {
        Datum::Symbol(name) => identifier_text(name) && folded(name),
        Datum::Pair(car, cdr) => shaped(*car) && shaped(*cdr),
        Datum::Vector(slots) => forall|i: int| 0 <= i < slots.len() ==> shaped(#[trigger] slots[i]),
        Datum::Promise(_, _) => false,
        _ => true,
    }
}

/// The expressions whose strings hold no quote and no backslash and whose
/// numbers are integers, reals that the unit reads back from what it
/// prints, or complex numbers that are read back as themselves.
pub open spec fn simple<U: RealUnit>(unit: &U, d: Datum) -> bool
    decreases d,
{
    match d {
        Datum::Number(number) => match number {
            Number::Integer(_) => true,
            Number::Real(r) => decimal_real(unit, r),
            Number::Complex(_, _) => faithful(unit, number),
        },
        Datum::String(text) => unescaped_text(text),
        Datum::Pair(car, cdr) => simple(unit, *car) && simple(unit, *cdr),
        Datum::Vector(slots) => forall|i: int|
            0 <= i < slots.len() ==> simple(unit, #[trigger] slots[i]),
        _ => true,
    }
}

/// Every identifier among the tokens is one that the lexer reads.
pub open spec fn identifiers_shaped(tokens: Seq<TokenView>) -> bool {
    forall|k: int|
        0 <= k < tokens.len() && (#[trigger] tokens[k]).kind == TokenKind::Identifier
            ==> identifier_text(tokens[k].text)
}

proof fn lemma_identifier_scanned(s: Seq<char>, start: int, i: int)
    requires
        0 <= start < i <= s.len(),
        initial(s[start]),
        forall|j: int| start < j < i ==> subsequent(#[trigger] s[j]),
    ensures
        scan_identifier(s, start, i) matches Ok((found, _)) ==> found.kind == TokenKind::Identifier
            && identifier_text(found.text),
    decreases s.len() - i,
{
    if i < s.len() && subsequent(s[i]) {
        lemma_identifier_scanned(s, start, i + 1);
    } else {
        let end = if i < s.len() {
            i
        } else {
            s.len() as int
        };
        let text = s.subrange(start, end);
        assert(text[0] == s[start]);
        assert forall|j: int| 1 <= j < text.len() implies subsequent(#[trigger] text[j]) by {
            assert(text[j] == s[start + j]);
        }
    }
}

proof fn lemma_number_scanned(s: Seq<char>, start: int, i: int)
    requires
        0 <= start < i <= s.len(),
    ensures
        scan_number(s, start, i) matches Ok((found, _)) ==> found.kind == TokenKind::Number,
    decreases s.len() - i,
{
    if i < s.len() && numeric(s[i]) {
        lemma_number_scanned(s, start, i + 1);
    }
}

proof fn lemma_string_scanned(s: Seq<char>, start: int, i: int)
    requires
        0 <= start < i <= s.len(),
    ensures
        scan_string(s, start, i) matches Ok((found, _)) ==> found.kind == TokenKind::String,
    decreases s.len() - i,
{
    if i < s.len() {
        if s[i] == '\\' {
            if i + 1 < s.len() && escape(s[i + 1]) {
                lemma_string_scanned(s, start, i + 2);
            }
        } else if s[i] != '"' {
            lemma_string_scanned(s, start, i + 1);
        }
    }
}

proof fn lemma_comment_scanned(s: Seq<char>, start: int, i: int)
    requires
        0 <= start < i <= s.len(),
    ensures
        scan_comment(s, start, i) matches Ok((found, _)) && found.kind == TokenKind::Comment,
    decreases s.len() - i,
{
    if i < s.len() && !newline(s[i]) {
        lemma_comment_scanned(s, start, i + 1);
    }
}

/// An identifier that the lexer reads at `i` is one of the peculiar
/// identifiers, or an initial character and subsequent ones.
proof fn lemma_scanned_identifier(s: Seq<char>, i: int)
    requires
        0 <= i < s.len(),
    ensures
        scan(s, i) matches Ok((Some(found), _)) ==> (found.kind == TokenKind::Identifier
            ==> identifier_text(found.text)),
{
    let c = s[i];
    if c == '.' {
        if !ends(s, i + 1) && i + 2 < s.len() && s[i + 1] == '.' && s[i + 2] == '.' && ends(
            s,
            i + 3,
        ) {
            assert(s.subrange(i, i + 3) =~= seq!['.', '.', '.']);
        }
    } else if c == '+' || c == '-' {
        if ends(s, i + 1) {
            assert(s.subrange(i, i + 1) =~= seq![c]);
        } else if i + 1 < s.len() && (digit(s[i + 1]) || s[i + 1] == 'i') {
            lemma_number_scanned(s, i, i + 2);
        }
    } else if c == ';' {
        lemma_comment_scanned(s, i, i + 1);
    } else if c == '"' {
        lemma_string_scanned(s, i, i + 1);
    } else if c == '(' || c == ')' || c == '\'' || c == '`' || c == ',' || c == '#'
        || whitespace(c) {
    } else if initial(c) {
        lemma_identifier_scanned(s, i, i + 1);
    } else if digit(c) {
        lemma_number_scanned(s, i, i + 1);
    }
}

/// Every identifier among the tokens of a text is one of the peculiar
/// identifiers, or an initial character and subsequent ones.
pub proof fn lemma_lexed_identifiers(s: Seq<char>, i: int)
    requires
        0 <= i <= s.len(),
    ensures
        lex_from(s, i) matches Ok(tokens) ==> identifiers_shaped(tokens),
    decreases s.len() - i,
{
    if i < s.len() {
        lemma_scan_advances(s, i);
        lemma_scanned_identifier(s, i);
        match scan(s, i) {
            Ok((found, next)) => {
                lemma_lexed_identifiers(s, next);
                match lex_from(s, next) {
                    Ok(rest) => {
                        match found {
                            Some(first) => {
                                let all = seq![first] + rest;
                                assert forall|k: int|
                                    0 <= k < all.len() && (#[trigger] all[k]).kind
                                        == TokenKind::Identifier implies identifier_text(
                                    all[k].text,
                                ) by {
                                    if k > 0 {
                                        assert(all[k] == rest[k - 1]);
                                    }
                                }
                            },
                            None => {},
                        }
                    },
                    Err(_) => {},
                }
            },
            Err(_) => {},
        }
    }
}

proof fn lemma_lowered_identifier(name: Seq<char>)
    requires
        identifier_text(name),
    ensures
        identifier_text(lowered(name)),
        folded(lowered(name)),
{
    let low = lowered(name);
    assert(low.len() == name.len());
    if name == seq!['+'] {
        assert(low =~= seq!['+']);
    } else if name == seq!['-'] {
        assert(low =~= seq!['-']);
    } else if name == seq!['.', '.', '.'] {
        assert(low =~= seq!['.', '.', '.']);
    } else {
        assert(initial(low[0]));
        assert forall|i: int| 1 <= i < low.len() implies subsequent(#[trigger] low[i]) by {
            assert(subsequent(name[i]));
        }
    }
}

proof fn lemma_keywords_shaped()
    ensures
        identifier_text("quote"@) && folded("quote"@),
        identifier_text("quasiquote"@) && folded("quasiquote"@),
        identifier_text("unquote"@) && folded("unquote"@),
        identifier_text("unquote-splicing"@) && folded("unquote-splicing"@),
{
    reveal_strlit("quote");
    reveal_strlit("quasiquote");
    reveal_strlit("unquote");
    reveal_strlit("unquote-splicing");
}

proof fn lemma_tagged_shaped(name: Seq<char>, x: Datum)
    requires
        identifier_text(name),
        folded(name),
        shaped(x),
    ensures
        shaped(tagged(name, x)),
{
    let tail = Datum::Pair(Box::new(x), Box::new(Datum::Nil));
    assert(shaped(Datum::Nil));
    assert(shaped(tail));
    assert(shaped(Datum::Symbol(name)));
}

/// What is parsed from tokens whose identifiers the lexer could have read
/// has symbols that are identifiers in lower case, and holds no promise.
pub proof fn lemma_parsed_shaped<U: RealUnit>(unit: &U, t: Seq<TokenView>, pos: int)
    requires
        0 <= pos <= t.len(),
        identifiers_shaped(t),
    ensures
        parsed(unit, t, pos).0 matches Ok(d) ==> shaped(d),
    decreases t.len() - pos, 0int,
{
    lemma_skip_comments(t, pos);
    lemma_keywords_shaped();
    let at = skip_comments(t, pos);
    if at < t.len() {
        let found = t[at];
        let next = at + 1;
        match found.kind {
            TokenKind::Identifier => {
                lemma_lowered_identifier(found.text);
            },
            TokenKind::Number => {},
            TokenKind::String => {},
            TokenKind::OpenParenthesis => {
                lemma_parsed_list_shaped(unit, t, next);
            },
            TokenKind::VectorOpen => {
                lemma_parsed_vector_shaped(unit, t, next, Seq::empty());
            },
            TokenKind::Quote | TokenKind::BackQuote | TokenKind::Comma | TokenKind::CommaAt => {
                lemma_parsed_shaped(unit, t, next);
                match parsed(unit, t, next).0 {
                    Ok(x) => {
                        lemma_tagged_shaped("quote"@, x);
                        lemma_tagged_shaped("quasiquote"@, x);
                        lemma_tagged_shaped("unquote"@, x);
                        lemma_tagged_shaped("unquote-splicing"@, x);
                    },
                    Err(_) => {},
                }
            },
            _ => {},
        }
    }
}

proof fn lemma_parsed_list_shaped<U: RealUnit>(unit: &U, t: Seq<TokenView>, pos: int)
    requires
        0 <= pos <= t.len(),
        identifiers_shaped(t),
    ensures
        parsed_list(unit, t, pos).0 matches Ok(d) ==> shaped(d),
    decreases t.len() - pos, 1int,
{
    lemma_skip_comments(t, pos);
    let at = skip_comments(t, pos);
    if at < t.len() {
        if t[at].kind == TokenKind::CloseParenthesis {
        } else if t[at].kind == TokenKind::Dot {
            lemma_parsed_shaped(unit, t, at + 1);
        } else {
            lemma_parsed_shaped(unit, t, at);
            lemma_parsed_advances(unit, t, at);
            let first = parsed(unit, t, at);
            if first.0 is Ok && first.1 > at && first.1 <= t.len() {
                lemma_parsed_list_shaped(unit, t, first.1);
            }
        }
    }
}

proof fn lemma_parsed_vector_shaped<U: RealUnit>(
    unit: &U,
    t: Seq<TokenView>,
    pos: int,
    done: Seq<Datum>,
)
    requires
        0 <= pos <= t.len(),
        identifiers_shaped(t),
        forall|i: int| 0 <= i < done.len() ==> shaped(#[trigger] done[i]),
    ensures
        parsed_vector(unit, t, pos, done).0 matches Ok(d) ==> shaped(d),
    decreases t.len() - pos, 1int,
{
    lemma_skip_comments(t, pos);
    let at = skip_comments(t, pos);
    if at < t.len() {
        if t[at].kind == TokenKind::CloseParenthesis {
        } else {
            lemma_parsed_shaped(unit, t, at);
            lemma_parsed_advances(unit, t, at);
            let first = parsed(unit, t, at);
            if first.0 is Ok && first.1 > at && first.1 <= t.len() {
                let longer = done.push(first.0->Ok_0);
                assert forall|i: int| 0 <= i < longer.len() implies shaped(#[trigger] longer[i]) by {
                    if i < done.len() {
                        assert(longer[i] == done[i]);
                    }
                }
                lemma_parsed_vector_shaped(unit, t, first.1, longer);
            }
        }
    }
}

proof fn lemma_shaped_and_simple<U: RealUnit>(unit: &U, d: Datum)
    requires
        shaped(d),
        simple(unit, d),
    ensures
        plain(unit, d),
    decreases d,
{
    match d {
        Datum::Pair(car, cdr) => {
            lemma_shaped_and_simple(unit, *car);
            lemma_shaped_and_simple(unit, *cdr);
        },
        Datum::Vector(slots) => {
            assert forall|i: int| 0 <= i < slots.len() implies plain(unit, #[trigger] slots[i]) by {
                lemma_shaped_and_simple(unit, slots[i]);
            }
        },
        _ => {},
    }
}

/// The expression that is read at the beginning of a text, where the text
/// has tokens and the tokens begin with an expression.
pub open spec fn read<U: RealUnit>(unit: &U, source: Seq<char>) -> Option<Datum> {
    match lex(source) {
        Ok(tokens) => match parsed(unit, tokens, 0).0 {
            Ok(expression) => Some(expression),
            Err(_) => None,
        },
        Err(_) => None,
    }
}

/// Whatever is read from a text and then written is read again as the
/// same expression, and so written as the same text, as long as its
/// strings hold no quote and no backslash and its numbers are integers,
/// reals that the unit reads back from what it prints, or complex numbers
/// that are read back as themselves: the symbols of what is read are
/// always such as are read back.
pub proof fn what_is_read_is_read_back<U: RealUnit>(unit: &U, source: Seq<char>)
    requires
        read(unit, source) matches Some(d) && simple(unit, d),
    ensures
        read(unit, source) matches Some(d) && shaped(d) && plain(unit, d) && read_back(unit, d)
            == Some(d) && read(unit, print_datum(unit, d)) == Some(d),
{
    let tokens = lex(source)->Ok_0;
    lemma_lexed_identifiers(source, 0);
    lemma_parsed_shaped(unit, tokens, 0);
    let d = read(unit, source)->Some_0;
    lemma_shaped_and_simple(unit, d);
    written_text_reads_back(unit, d);
}

} // verus!
