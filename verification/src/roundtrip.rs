//! Printing and reading back: the text that the printer writes for an
//! expression is read by the lexer and the parser as that expression.
use vstd::prelude::*;
use crate::data_model::Datum;
use crate::error::ParseErrorView;
use crate::error::TokenErrorView;
use crate::lexer::{
    delimiter, delimiter_from, digit, ends, initial, lemma_delimiter_from, lemma_scan_advances,
    lex, lex_from, lexeme, numeric, prepend, punctuation, run_end, scan, scan_identifier,
    scan_number, scan_string, subsequent, whitespace, Scan, TokenKind, TokenView,
};
use crate::printer::{print_datum, print_items, print_rest};
use crate::literal::{
    body_start, digits_end, digits_value, integer_literal, number_literal, signed,
};
use crate::number::Number;
use crate::parser::{
    closed, number_token, parsed, parsed_list, parsed_vector, preceded, skip_comments,
    string_literal, unescaped, Parsed,
};
use crate::reals::RealUnit;
use crate::text::{decimal, digit_char, integer_text, lower, lowered};

verus! {

/// A text that holds no quote and no backslash: a string of such a text is
/// written as it is.
pub open spec fn unescaped_text(s: Seq<char>) -> bool {
    forall|i: int| 0 <= i < s.len() ==> #[trigger] s[i] != '"' && s[i] != '\\'
}

/// A text without capital letters.
pub open spec fn folded(name: Seq<char>) -> bool {
    forall|i: int| 0 <= i < name.len() ==> !('A' <= #[trigger] name[i] && name[i] <= 'Z')
}

/// A text that the lexer reads as one identifier: an initial character
/// and then subsequent ones, or one of the three peculiar identifiers.
pub open spec fn identifier_text(name: Seq<char>) -> bool {
    ||| name == seq!['+']
    ||| name == seq!['-']
    ||| name == seq!['.', '.', '.']
    ||| (name.len() > 0 && crate::lexer::initial(name[0]) && forall|i: int|
        1 <= i < name.len() ==> crate::lexer::subsequent(#[trigger] name[i]))
}

/// A real that the unit writes as a decimal and reads back from it: what
/// it prints is digits, signs and points, begins as a number does, is no
/// integer literal, and is decoded to the same real.
pub open spec fn decimal_real<U: RealUnit>(unit: &U, r: crate::reals::Real) -> bool {
    let text = crate::reals::real_print(unit, r);
    &&& text.len() > 0
    &&& (digit(text[0]) || (text[0] == '-' && text.len() > 1 && digit(text[1])))
    &&& forall|j: int| 0 <= j < text.len() ==> numeric(#[trigger] text[j])
    &&& integer_literal(text) is None
    &&& crate::reals::real_decode(unit, text) == Some(r)
}

/// A text that the lexer reads as one number: digits, signs, points, `@`
/// and `i`, beginning with a digit or with a sign before a digit or an
/// `i`.
pub open spec fn number_text(text: Seq<char>) -> bool {
    &&& text.len() > 0
    &&& (digit(text[0]) || ((text[0] == '-' || text[0] == '+') && text.len() > 1 && (digit(
        text[1],
    ) || text[1] == 'i')))
    &&& forall|j: int| 0 <= j < text.len() ==> numeric(#[trigger] text[j])
}

/// A number that is read back as itself from the text it is written as.
pub open spec fn faithful<U: RealUnit>(unit: &U, number: Number) -> bool {
    number_text(number.text(unit)) && number_literal(unit, number.text(unit)) == Ok::<
        Number,
        ParseErrorView,
    >(number)
}

/// The expressions that are read back as they are written: their numbers
/// are integers, reals that the unit reads back from what it prints, or
/// complex numbers that are read back as themselves; their strings hold
/// no quote and no backslash, their symbols are identifiers in lower
/// case, and they hold no promise.
pub open spec fn plain<U: RealUnit>(unit: &U, d: Datum) -> bool
    decreases d,
{
    match d {
        Datum::Nil => true,
        Datum::Number(number) => match number {
            Number::Integer(_) => true,
            Number::Real(r) => decimal_real(unit, r),
            Number::Complex(_, _) => faithful(unit, number),
        },
        Datum::String(text) => unescaped_text(text),
        Datum::Boolean(_) => true,
        Datum::Symbol(name) => identifier_text(name) && folded(name),
        Datum::Pair(car, cdr) => plain(unit, *car) && plain(unit, *cdr),
        Datum::Vector(slots) => forall|i: int|
            0 <= i < slots.len() ==> plain(unit, #[trigger] slots[i]),
        Datum::Promise(_, _) => false,
    }
}

/// The token of kind `kind` and text `text`.
pub open spec fn token(kind: TokenKind, text: Seq<char>) -> TokenView {
    TokenView { kind, text }
}

/// The tokens that write an expression.
pub open spec fn tokens<U: RealUnit>(unit: &U, d: Datum) -> Seq<TokenView>
    decreases d, 0int,
{
    match d {
        Datum::Nil => seq![
            punctuation(TokenKind::OpenParenthesis),
            punctuation(TokenKind::CloseParenthesis),
        ],
        Datum::Number(number) => seq![token(TokenKind::Number, number.text(unit))],
        Datum::String(text) => seq![token(TokenKind::String, seq!['"'] + text + seq!['"'])],
        Datum::Boolean(boolean) => seq![
            token(
                TokenKind::Boolean,
                if boolean {
                    "#t"@
                } else {
                    "#f"@
                },
            ),
        ],
        Datum::Symbol(name) => seq![token(TokenKind::Identifier, name)],
        Datum::Pair(car, cdr) => seq![punctuation(TokenKind::OpenParenthesis)] + tokens(unit, *car)
            + rest_tokens(unit, *cdr),
        Datum::Vector(slots) => seq![punctuation(TokenKind::VectorOpen)] + item_tokens(unit, slots, 0)
            + seq![punctuation(TokenKind::CloseParenthesis)],
        Datum::Promise(_, _) => Seq::empty(),
    }
}

/// The tokens that write the rest of a list, up to its closing
/// parenthesis.
pub open spec fn rest_tokens<U: RealUnit>(unit: &U, d: Datum) -> Seq<TokenView>
    decreases d, 1int,
{
    match d {
        Datum::Nil => seq![punctuation(TokenKind::CloseParenthesis)],
        Datum::Pair(car, cdr) => tokens(unit, *car) + rest_tokens(unit, *cdr),
        other => seq![punctuation(TokenKind::Dot)] + tokens(unit, other) + seq![
            punctuation(TokenKind::CloseParenthesis),
        ],
    }
}

/// The tokens that write the elements of a vector from `from` on.
pub open spec fn item_tokens<U: RealUnit>(unit: &U, slots: Seq<Datum>, from: int) -> Seq<TokenView>
    decreases slots, slots.len() - from,
{
    if from < 0 || from >= slots.len() {
        Seq::empty()
    } else {
        tokens(unit, slots[from]) + item_tokens(unit, slots, from + 1)
    }
}

/// Where `x + y` stands at `pos` in `t`, `x` stands at `pos` and `y` after
/// it.
pub proof fn lemma_split<A>(t: Seq<A>, pos: int, x: Seq<A>, y: Seq<A>)
    requires
        0 <= pos,
        pos + x.len() + y.len() <= t.len(),
        t.subrange(pos, pos + x.len() + y.len()) == x + y,
    ensures
        t.subrange(pos, pos + x.len()) == x,
        t.subrange(pos + x.len(), pos + x.len() + y.len()) == y,
{
    let whole = t.subrange(pos, pos + x.len() + y.len());
    assert(t.subrange(pos, pos + x.len()) =~= x) by {
        assert forall|i: int| 0 <= i < x.len() implies t.subrange(pos, pos + x.len())[i] == x[i] by {
            assert(whole[i] == (x + y)[i]);
        }
    }
    let n = x.len() as int;
    let m = y.len() as int;
    assert(whole.len() == n + m);
    assert(t.subrange(pos + n, pos + n + m) =~= y) by {
        assert forall|i: int| 0 <= i < m implies t.subrange(pos + n, pos + n + m)[i] == y[i] by {
            assert(whole[n + i] == t[pos + n + i]);
            assert((x + y)[n + i] == y[i]);
        }
    }
}

proof fn lemma_decimal_digits(n: nat)
    ensures
        decimal(n).len() > 0,
        forall|i: int| 0 <= i < decimal(n).len() ==> digit(#[trigger] decimal(n)[i]),
        digits_value(decimal(n)) == n,
    decreases n,
{
    if n < 10 {
        assert(decimal(n) == seq![digit_char(n as int)]);
        assert(decimal(n).drop_last() =~= Seq::<char>::empty());
        assert(digits_value(Seq::<char>::empty()) == 0);
    } else {
        lemma_decimal_digits(n / 10);
        let head = decimal(n / 10);
        let last = digit_char((n % 10) as int);
        assert(decimal(n) == head.push(last));
        assert(decimal(n).drop_last() =~= head);
        assert(decimal(n).last() == last);
    }
}

proof fn lemma_digits_end_all(s: Seq<char>, i: int)
    requires
        0 <= i <= s.len(),
        forall|j: int| i <= j < s.len() ==> digit(#[trigger] s[j]),
    ensures
        digits_end(s, i) == s.len(),
    decreases s.len() - i,
{
    if i < s.len() {
        lemma_digits_end_all(s, i + 1);
    }
}

/// The decimal writing of a machine integer is read as that integer.
pub proof fn lemma_integer_text(i: i32)
    ensures
        integer_literal(integer_text(i as int)) == Some(i),
        integer_text(i as int).len() > 0,
        i >= 0 ==> digit(integer_text(i as int)[0]),
        i < 0 ==> integer_text(i as int)[0] == '-' && integer_text(i as int).len() > 1 && digit(
            integer_text(i as int)[1],
        ),
        forall|j: int|
            0 <= j < integer_text(i as int).len() ==> crate::lexer::numeric(
                #[trigger] integer_text(i as int)[j],
            ),
{
    let s = integer_text(i as int);
    if i < 0 {
        let body = decimal((-i) as nat);
        lemma_decimal_digits((-i) as nat);
        assert(s == seq!['-'] + body);
        assert(s[0] == '-');
        assert(signed(s));
        assert(forall|j: int| 1 <= j < s.len() ==> s[j] == body[j - 1]);
        lemma_digits_end_all(s, 1);
        assert(s.subrange(1, s.len() as int) =~= body);
    } else {
        let body = decimal(i as nat);
        lemma_decimal_digits(i as nat);
        assert(s == body);
        assert(digit(s[0]));
        assert(!signed(s));
        lemma_digits_end_all(s, 0);
        assert(s.subrange(0, s.len() as int) =~= body);
    }
}

proof fn lemma_unescaped_plain(s: Seq<char>, i: int)
    requires
        0 <= i <= s.len(),
        unescaped_text(s),
    ensures
        unescaped(s, i) == Ok::<Seq<char>, ParseErrorView>(s.subrange(i, s.len() as int)),
    decreases s.len() - i,
{
    if i < s.len() {
        lemma_unescaped_plain(s, i + 1);
        assert(s[i] != '\\');
        assert(seq![s[i]] + s.subrange(i + 1, s.len() as int) =~= s.subrange(i, s.len() as int));
    } else {
        assert(s.subrange(i, s.len() as int) =~= Seq::<char>::empty());
    }
}

/// A text without quote and backslash, between quotes, is read as the
/// string of that text.
pub proof fn lemma_string_text(s: Seq<char>)
    requires
        unescaped_text(s),
    ensures
        string_literal(seq!['"'] + s + seq!['"']) == Ok::<Datum, ParseErrorView>(Datum::String(s)),
{
    let text = seq!['"'] + s + seq!['"'];
    assert(text.subrange(1, text.len() - 1) =~= s);
    lemma_unescaped_plain(s, 0);
    assert(s.subrange(0, s.len() as int) =~= s);
}

proof fn lemma_lowered_folded(name: Seq<char>)
    requires
        folded(name),
    ensures
        lowered(name) == name,
{
    assert(lowered(name) =~= name);
}

/// An expression that is read back as written has one token at least, and
/// its first is no comment, no closing parenthesis and no dot.
pub proof fn lemma_first_token<U: RealUnit>(unit: &U, d: Datum)
    requires
        plain(unit, d),
    ensures
        tokens(unit, d).len() > 0,
        tokens(unit, d)[0].kind != TokenKind::Comment,
        tokens(unit, d)[0].kind != TokenKind::CloseParenthesis,
        tokens(unit, d)[0].kind != TokenKind::Dot,
        forall|i: int| 0 <= i < tokens(unit, d).len() ==> (#[trigger] tokens(unit, d)[i]).kind != TokenKind::Comment,
    decreases d, 0int,
{
    match d {
        Datum::Pair(car, cdr) => {
            lemma_first_token(unit, *car);
            lemma_rest_tokens(unit, *cdr);
        },
        Datum::Vector(slots) => {
            lemma_item_tokens(unit, slots, 0);
        },
        _ => {},
    }
}

proof fn lemma_rest_tokens<U: RealUnit>(unit: &U, d: Datum)
    requires
        plain(unit, d),
    ensures
        rest_tokens(unit, d).len() > 0,
        forall|i: int|
            0 <= i < rest_tokens(unit, d).len() ==> (#[trigger] rest_tokens(unit, d)[i]).kind
                != TokenKind::Comment,
    decreases d, 1int,
{
    match d {
        Datum::Nil => {},
        Datum::Pair(car, cdr) => {
            lemma_first_token(unit, *car);
            lemma_rest_tokens(unit, *cdr);
        },
        other => {
            lemma_first_token(unit, other);
        },
    }
}

proof fn lemma_item_tokens<U: RealUnit>(unit: &U, slots: Seq<Datum>, from: int)
    requires
        forall|i: int| 0 <= i < slots.len() ==> plain(unit, #[trigger] slots[i]),
    ensures
        forall|i: int|
            0 <= i < item_tokens(unit, slots, from).len() ==> (#[trigger] item_tokens(unit, slots, from)[i]).kind
                != TokenKind::Comment,
    decreases slots, slots.len() - from,
{
    if 0 <= from < slots.len() {
        lemma_first_token(unit, slots[from]);
        lemma_item_tokens(unit, slots, from + 1);
    }
}

/// The tokens of an expression, wherever they stand, are parsed as the
/// expression, and nothing more is taken.
pub proof fn lemma_parse_tokens<U: RealUnit>(unit: &U, d: Datum, t: Seq<TokenView>, pos: int)
    requires
        plain(unit, d),
        0 <= pos,
        pos + tokens(unit, d).len() <= t.len(),
        t.subrange(pos, pos + tokens(unit, d).len()) == tokens(unit, d),
    ensures
        parsed(unit, t, pos) == (Ok::<Datum, ParseErrorView>(d), pos + tokens(unit, d).len()),
    decreases d,
        (if d is Pair {
            2int
        } else {
            0int
        }),
{
    lemma_first_token(unit, d);
    let own = tokens(unit, d);
    assert(t[pos] == own[0]) by {
        assert(t.subrange(pos, pos + own.len())[0] == t[pos]);
    }
    assert(skip_comments(t, pos) == pos);
    match d {
        Datum::Nil => {
            assert(t[pos + 1] == own[1]) by {
                assert(t.subrange(pos, pos + own.len())[1] == t[pos + 1]);
            }
            assert(skip_comments(t, pos + 1) == pos + 1);
            assert(parsed_list(unit, t, pos + 1) == (
                Ok::<Datum, ParseErrorView>(Datum::Nil),
                pos + 2,
            ));
        },
        Datum::Number(number) => {
            match number {
                Number::Integer(i) => {
                    lemma_integer_text(i);
                },
                _ => {},
            }
        },
        Datum::String(text) => {
            lemma_string_text(text);
        },
        Datum::Boolean(boolean) => {
            reveal_strlit("#t");
            reveal_strlit("#f");
            reveal_strlit("#true");
            assert("#f"@[1] == 'f');
            assert("#t"@[1] == 't');
            assert("#f"@.len() == 2);
            assert("#true"@.len() == 5);
        },
        Datum::Symbol(name) => {
            lemma_lowered_folded(name);
        },
        Datum::Pair(car, cdr) => {
            let open = seq![punctuation(TokenKind::OpenParenthesis)];
            let inner = tokens(unit, *car) + rest_tokens(unit, *cdr);
            assert(own =~= open + inner);
            lemma_split(t, pos, open, inner);
            lemma_parse_rest(unit, d, t, pos + 1);
        },
        Datum::Vector(slots) => {
            let open = seq![punctuation(TokenKind::VectorOpen)];
            let inner = item_tokens(unit, slots, 0) + seq![punctuation(TokenKind::CloseParenthesis)];
            assert(own =~= open + inner);
            lemma_split(t, pos, open, inner);
            assert(slots.subrange(0, 0) =~= Seq::<Datum>::empty());
            lemma_parse_items(unit, slots, 0, t, pos + 1);
            assert(slots.subrange(0, slots.len() as int) =~= slots);
        },
        Datum::Promise(_, _) => {},
    }
}

/// The tokens of the rest of a list are parsed as that rest.
pub proof fn lemma_parse_rest<U: RealUnit>(unit: &U, d: Datum, t: Seq<TokenView>, pos: int)
    requires
        plain(unit, d),
        0 <= pos,
        pos + rest_tokens(unit, d).len() <= t.len(),
        t.subrange(pos, pos + rest_tokens(unit, d).len()) == rest_tokens(unit, d),
    ensures
        parsed_list(unit, t, pos) == (Ok::<Datum, ParseErrorView>(d), pos + rest_tokens(unit, d).len()),
    decreases d, 1int,
{
    lemma_rest_tokens(unit, d);
    let own = rest_tokens(unit, d);
    assert(t[pos] == own[0]) by {
        assert(t.subrange(pos, pos + own.len())[0] == t[pos]);
    }
    assert(skip_comments(t, pos) == pos);
    match d {
        Datum::Nil => {},
        Datum::Pair(car, cdr) => {
            lemma_first_token(unit, *car);
            lemma_split(t, pos, tokens(unit, *car), rest_tokens(unit, *cdr));
            lemma_parse_tokens(unit, *car, t, pos);
            lemma_parse_rest(unit, *cdr, t, pos + tokens(unit, *car).len());
        },
        other => {
            lemma_first_token(unit, other);
            let dot = seq![punctuation(TokenKind::Dot)];
            let close = seq![punctuation(TokenKind::CloseParenthesis)];
            let inner = tokens(unit, other) + close;
            assert(own =~= dot + inner);
            lemma_split(t, pos, dot, inner);
            lemma_split(t, pos + 1, tokens(unit, other), close);
            lemma_parse_tokens(unit, other, t, pos + 1);
            let end = pos + 1 + tokens(unit, other).len();
            assert(t[end] == close[0]) by {
                assert(t.subrange(end, end + 1)[0] == t[end]);
            }
            assert(skip_comments(t, end) == end);
        },
    }
}

/// The tokens of the elements of a vector from `from` on, and its closing
/// parenthesis, are parsed as the rest of the vector.
pub proof fn lemma_parse_items<U: RealUnit>(
    unit: &U,
    slots: Seq<Datum>,
    from: int,
    t: Seq<TokenView>,
    pos: int,
)
    requires
        forall|i: int| 0 <= i < slots.len() ==> plain(unit, #[trigger] slots[i]),
        0 <= from <= slots.len(),
        0 <= pos,
        pos + item_tokens(unit, slots, from).len() + 1 <= t.len(),
        t.subrange(pos, pos + item_tokens(unit, slots, from).len() + 1) == item_tokens(unit, slots, from)
            + seq![punctuation(TokenKind::CloseParenthesis)],
    ensures
        parsed_vector(unit, t, pos, slots.subrange(0, from)) == (
            Ok::<Datum, ParseErrorView>(Datum::Vector(slots)),
            pos + item_tokens(unit, slots, from).len() + 1,
        ),
    decreases slots, slots.len() - from,
{
    let close = seq![punctuation(TokenKind::CloseParenthesis)];
    let own = item_tokens(unit, slots, from) + close;
    if from >= slots.len() {
        assert(t[pos] == own[0]) by {
            assert(t.subrange(pos, pos + 1)[0] == t[pos]);
        }
        assert(skip_comments(t, pos) == pos);
        assert(slots.subrange(0, from) =~= slots);
    } else {
        let first = tokens(unit, slots[from]);
        let rest = item_tokens(unit, slots, from + 1);
        lemma_first_token(unit, slots[from]);
        assert(own =~= first + (rest + close));
        lemma_split(t, pos, first, rest + close);
        assert(t[pos] == first[0]) by {
            assert(t.subrange(pos, pos + first.len())[0] == t[pos]);
        }
        assert(skip_comments(t, pos) == pos);
        lemma_parse_tokens(unit, slots[from], t, pos);
        assert(slots.subrange(0, from).push(slots[from]) =~= slots.subrange(0, from + 1));
        lemma_parse_items(unit, slots, from + 1, t, pos + first.len());
    }
}

/// The text `p` stands at position `i` of `s`.
pub open spec fn placed(s: Seq<char>, i: int, p: Seq<char>) -> bool {
    0 <= i && i + p.len() <= s.len() && s.subrange(i, i + p.len()) == p
}

proof fn lemma_placed_split(s: Seq<char>, i: int, a: Seq<char>, b: Seq<char>)
    requires
        placed(s, i, a + b),
    ensures
        placed(s, i, a),
        placed(s, i + a.len(), b),
{
    assert((a + b).len() == a.len() + b.len());
    lemma_split(s, i, a, b);
}

proof fn lemma_placed_char(s: Seq<char>, i: int, p: Seq<char>, k: int)
    requires
        placed(s, i, p),
        0 <= k < p.len(),
    ensures
        s[i + k] == p[k],
{
    assert(s.subrange(i, i + p.len())[k] == s[i + k]);
}

proof fn lemma_lex_token(s: Seq<char>, i: int, found: TokenView, next: int)
    requires
        0 <= i < s.len(),
        scan(s, i) == Ok::<(Option<TokenView>, int), TokenErrorView>((Some(found), next)),
    ensures
        i < next <= s.len(),
        lex_from(s, i) == prepend(seq![found], lex_from(s, next)),
{
    lemma_scan_advances(s, i);
}

proof fn lemma_lex_space(s: Seq<char>, i: int)
    requires
        0 <= i < s.len(),
        s[i] == ' ',
    ensures
        lex_from(s, i) == lex_from(s, i + 1),
{
    assert(scan(s, i) == Ok::<(Option<TokenView>, int), TokenErrorView>((None, i + 1)));
}

proof fn lemma_prepend_twice(
    a: Seq<TokenView>,
    b: Seq<TokenView>,
    rest: Result<Seq<TokenView>, TokenErrorView>,
)
    ensures
        prepend(a, prepend(b, rest)) == prepend(a + b, rest),
{
    match rest {
        Ok(r) => {
            assert(a + (b + r) =~= (a + b) + r);
        },
        Err(_) => {},
    }
}

proof fn lemma_identifier_run(s: Seq<char>, start: int, k: int, end: int)
    requires
        0 <= start < k <= end <= s.len(),
        forall|j: int| k <= j < end ==> subsequent(#[trigger] s[j]),
        ends(s, end),
    ensures
        scan_identifier(s, start, k) == Ok::<(TokenView, int), TokenErrorView>(
            (lexeme(TokenKind::Identifier, s, start, end), end),
        ),
    decreases end - k,
{
    if k < end {
        lemma_identifier_run(s, start, k + 1, end);
    }
}

proof fn lemma_number_run(s: Seq<char>, start: int, k: int, end: int)
    requires
        0 <= start < k <= end <= s.len(),
        forall|j: int| k <= j < end ==> numeric(#[trigger] s[j]),
        ends(s, end),
    ensures
        scan_number(s, start, k) == Ok::<(TokenView, int), TokenErrorView>(
            (lexeme(TokenKind::Number, s, start, end), end),
        ),
    decreases end - k,
{
    if k < end {
        lemma_number_run(s, start, k + 1, end);
    }
}

proof fn lemma_string_run(s: Seq<char>, start: int, k: int, end: int)
    requires
        0 <= start < k <= end < s.len(),
        forall|j: int| k <= j < end ==> #[trigger] s[j] != '"' && s[j] != '\\',
        s[end] == '"',
    ensures
        scan_string(s, start, k) == Ok::<(TokenView, int), TokenErrorView>(
            (lexeme(TokenKind::String, s, start, end + 1), end + 1),
        ),
    decreases end - k,
{
    if k < end {
        lemma_string_run(s, start, k + 1, end);
    }
}

/// An identifier that stands before the end of the text or a delimiter is
/// read as one token.
proof fn lemma_scan_symbol(s: Seq<char>, i: int, name: Seq<char>)
    requires
        placed(s, i, name),
        identifier_text(name),
        ends(s, i + name.len()),
    ensures
        scan(s, i) == Ok::<(Option<TokenView>, int), TokenErrorView>(
            (Some(token(TokenKind::Identifier, name)), i + name.len()),
        ),
{
    let n = name.len() as int;
    if name == seq!['+'] || name == seq!['-'] {
        lemma_placed_char(s, i, name, 0);
        assert(s.subrange(i, i + 1) == name);
    } else if name == seq!['.', '.', '.'] {
        lemma_placed_char(s, i, name, 0);
        lemma_placed_char(s, i, name, 1);
        lemma_placed_char(s, i, name, 2);
        assert(s.subrange(i, i + 3) == name);
    } else {
        lemma_placed_char(s, i, name, 0);
        assert forall|j: int| i + 1 <= j < i + n implies subsequent(#[trigger] s[j]) by {
            lemma_placed_char(s, i, name, j - i);
        }
        lemma_identifier_run(s, i, i + 1, i + n);
    }
}

/// A text without quote and backslash, between quotes, is read as one
/// token.
proof fn lemma_scan_text(s: Seq<char>, i: int, body: Seq<char>)
    requires
        placed(s, i, seq!['"'] + body + seq!['"']),
        unescaped_text(body),
    ensures
        scan(s, i) == Ok::<(Option<TokenView>, int), TokenErrorView>(
            (Some(token(TokenKind::String, seq!['"'] + body + seq!['"'])), i + body.len() + 2),
        ),
{
    let text = seq!['"'] + body + seq!['"'];
    let n = body.len() as int;
    assert(text.len() == n + 2);
    lemma_placed_char(s, i, text, 0);
    lemma_placed_char(s, i, text, n + 1);
    assert forall|j: int| i + 1 <= j < i + n + 1 implies #[trigger] s[j] != '"' && s[j] != '\\' by {
        lemma_placed_char(s, i, text, j - i);
        assert(text[j - i] == body[j - i - 1]);
    }
    lemma_string_run(s, i, i + 1, i + n + 1);
}

/// `#t` or `#f` that stands before the end of the text or a delimiter is
/// read as one token.
proof fn lemma_scan_boolean(s: Seq<char>, i: int, boolean: bool)
    requires
        placed(
            s,
            i,
            if boolean {
                "#t"@
            } else {
                "#f"@
            },
        ),
        ends(s, i + 2),
    ensures
        scan(s, i) == Ok::<(Option<TokenView>, int), TokenErrorView>(
            (
                Some(
                    token(
                        TokenKind::Boolean,
                        if boolean {
                            "#t"@
                        } else {
                            "#f"@
                        },
                    ),
                ),
                i + 2,
            ),
        ),
{
    reveal_strlit("#t");
    reveal_strlit("#f");
    let text = if boolean {
        "#t"@
    } else {
        "#f"@
    };
    assert(text.len() == 2);
    lemma_placed_char(s, i, text, 0);
    lemma_placed_char(s, i, text, 1);
    assert(s[i] == '#');
    lemma_delimiter_from(s, i + 1);
    lemma_delimiter_from(s, i + 2);
    assert(delimiter_from(s, i + 1) == i + 2);
    assert(run_end(s, i + 1) == i + 2);
    assert(s.subrange(i + 1, i + 2) =~= seq![s[i + 1]]);
    assert(s.subrange(i, i + 2) == text);
}

/// The tokens that write the first `count` elements of a vector.
pub open spec fn front_tokens<U: RealUnit>(unit: &U, slots: Seq<Datum>, count: nat) -> Seq<TokenView>
    decreases count,
{
    if count == 0 || count > slots.len() {
        Seq::empty()
    } else {
        front_tokens(unit, slots, (count - 1) as nat) + tokens(unit, slots[count - 1])
    }
}

proof fn lemma_front_and_items<U: RealUnit>(unit: &U, slots: Seq<Datum>, count: nat)
    requires
        count <= slots.len(),
    ensures
        front_tokens(unit, slots, count) + item_tokens(unit, slots, count as int) == item_tokens(unit, slots, 0),
    decreases count,
{
    if count == 0 {
        assert(Seq::<TokenView>::empty() + item_tokens(unit, slots, 0) =~= item_tokens(unit, slots, 0));
    } else {
        lemma_front_and_items(unit, slots, (count - 1) as nat);
        let before = front_tokens(unit, slots, (count - 1) as nat);
        let own = tokens(unit, slots[count - 1]);
        let after = item_tokens(unit, slots, count as int);
        assert(item_tokens(unit, slots, count - 1) == own + after);
        assert((before + own) + after =~= before + (own + after));
    }
}

proof fn lemma_prepend_nothing(rest: Result<Seq<TokenView>, TokenErrorView>)
    ensures
        prepend(Seq::empty(), rest) == rest,
{
    match rest {
        Ok(r) => {
            assert(Seq::<TokenView>::empty() + r =~= r);
        },
        Err(_) => {},
    }
}

/// What follows the first element of a list begins, with the closing
/// parenthesis counted in, with a delimiter.
proof fn lemma_rest_begins<U: RealUnit>(unit: &U, d: Datum)
    ensures
        (print_rest(unit, d) + ")"@).len() > 0,
        delimiter((print_rest(unit, d) + ")"@)[0]),
{
    reveal_strlit(")");
    reveal_strlit(" ");
    reveal_strlit(" . ");
    match d {
        Datum::Nil => {},
        Datum::Pair(car, cdr) => {
            let text = " "@ + print_datum(unit, *car) + print_rest(unit, *cdr) + ")"@;
            assert(text[0] == ' ');
        },
        other => {
            let text = " . "@ + print_datum(unit, other) + ")"@;
            assert(text[0] == ' ');
        },
    }
}

proof fn lemma_scan_open(s: Seq<char>, i: int)
    requires
        0 <= i < s.len(),
        s[i] == '(',
    ensures
        lex_from(s, i) == prepend(
            seq![punctuation(TokenKind::OpenParenthesis)],
            lex_from(s, i + 1),
        ),
{
    lemma_lex_token(s, i, punctuation(TokenKind::OpenParenthesis), i + 1);
}

proof fn lemma_scan_close(s: Seq<char>, i: int)
    requires
        0 <= i < s.len(),
        s[i] == ')',
    ensures
        lex_from(s, i) == prepend(
            seq![punctuation(TokenKind::CloseParenthesis)],
            lex_from(s, i + 1),
        ),
{
    lemma_lex_token(s, i, punctuation(TokenKind::CloseParenthesis), i + 1);
}

/// The text of a number that stands before the end of the text or a
/// delimiter is read as one token.
proof fn lemma_scan_decimal(s: Seq<char>, i: int, text: Seq<char>)
    requires
        placed(s, i, text),
        number_text(text),
        ends(s, i + text.len()),
    ensures
        scan(s, i) == Ok::<(Option<TokenView>, int), TokenErrorView>(
            (Some(token(TokenKind::Number, text)), i + text.len()),
        ),
{
    let n = text.len() as int;
    lemma_placed_char(s, i, text, 0);
    assert forall|j: int| i <= j < i + n implies numeric(#[trigger] s[j]) by {
        lemma_placed_char(s, i, text, j - i);
    }
    if !digit(text[0]) {
        lemma_placed_char(s, i, text, 1);
        lemma_number_run(s, i, i + 2, i + n);
    } else {
        lemma_number_run(s, i, i + 1, i + n);
    }
}

/// The text of a number, standing before the end of the text or a
/// delimiter, is read as the token of the number.
proof fn lemma_lex_number<U: RealUnit>(unit: &U, number: Number, s: Seq<char>, i: int)
    requires
        plain(unit, Datum::Number(number)),
        placed(s, i, number.text(unit)),
        ends(s, i + number.text(unit).len()),
    ensures
        number.text(unit).len() > 0,
        lex_from(s, i) == prepend(
            seq![token(TokenKind::Number, number.text(unit))],
            lex_from(s, i + number.text(unit).len()),
        ),
{
    let text = number.text(unit);
    match number {
        Number::Integer(value) => {
            lemma_integer_text(value);
        },
        _ => {},
    }
    lemma_scan_decimal(s, i, text);
    lemma_lex_token(s, i, token(TokenKind::Number, text), i + text.len());
}

/// The text of an expression, standing before the end of the text or a
/// delimiter, is read as the tokens of the expression.
pub proof fn lemma_lex_datum<U: RealUnit>(unit: &U, d: Datum, s: Seq<char>, i: int)
    requires
        plain(unit, d),
        placed(s, i, print_datum(unit, d)),
        ends(s, i + print_datum(unit, d).len()),
    ensures
        print_datum(unit, d).len() > 0,
        lex_from(s, i) == prepend(tokens(unit, d), lex_from(s, i + print_datum(unit, d).len())),
    decreases d, 0int,
{
    let text = print_datum(unit, d);
    let n = text.len() as int;
    match d {
        Datum::Nil => {
            reveal_strlit("()");
            lemma_placed_char(s, i, text, 0);
            lemma_placed_char(s, i, text, 1);
            lemma_scan_open(s, i);
            lemma_scan_close(s, i + 1);
            lemma_prepend_twice(
                seq![punctuation(TokenKind::OpenParenthesis)],
                seq![punctuation(TokenKind::CloseParenthesis)],
                lex_from(s, i + 2),
            );
            assert(tokens(unit, d) =~= seq![punctuation(TokenKind::OpenParenthesis)] + seq![
                punctuation(TokenKind::CloseParenthesis),
            ]);
        },
        Datum::Number(number) => {
            lemma_lex_number(unit, number, s, i);
        },
        Datum::String(body) => {
            reveal_strlit("\"");
            assert("\""@ =~= seq!['"']);
            lemma_scan_text(s, i, body);
            lemma_lex_token(
                s,
                i,
                token(TokenKind::String, seq!['"'] + body + seq!['"']),
                i + body.len() + 2,
            );
        },
        Datum::Boolean(boolean) => {
            reveal_strlit("#t");
            reveal_strlit("#f");
            lemma_scan_boolean(s, i, boolean);
            lemma_lex_token(
                s,
                i,
                token(
                    TokenKind::Boolean,
                    if boolean {
                        "#t"@
                    } else {
                        "#f"@
                    },
                ),
                i + 2,
            );
        },
        Datum::Symbol(name) => {
            lemma_scan_symbol(s, i, name);
            lemma_lex_token(s, i, token(TokenKind::Identifier, name), i + n);
        },
        Datum::Pair(car, cdr) => {
            reveal_strlit("(");
            reveal_strlit(")");
            let open = "("@;
            let first = print_datum(unit, *car);
            let rest = print_rest(unit, *cdr);
            let close = ")"@;
            assert(text == open + first + rest + close);
            assert(text =~= open + (first + (rest + close)));
            lemma_placed_split(s, i, open, first + (rest + close));
            lemma_placed_split(s, i + 1, first, rest + close);
            lemma_placed_char(s, i, open, 0);
            lemma_scan_open(s, i);
            lemma_rest_begins(unit, *cdr);
            lemma_placed_char(s, i + 1 + first.len(), rest + close, 0);
            lemma_lex_datum(unit, *car, s, i + 1);
            lemma_lex_rest(unit, *cdr, s, i + 1 + first.len());
            let end = lex_from(s, i + n);
            assert(i + 1 + first.len() + rest.len() + 1 == i + n);
            lemma_prepend_twice(tokens(unit, *car), rest_tokens(unit, *cdr), end);
            lemma_prepend_twice(
                seq![punctuation(TokenKind::OpenParenthesis)],
                tokens(unit, *car) + rest_tokens(unit, *cdr),
                end,
            );
            assert(tokens(unit, d) =~= seq![punctuation(TokenKind::OpenParenthesis)] + (tokens(unit, *car)
                + rest_tokens(unit, *cdr)));
        },
        Datum::Vector(slots) => {
            reveal_strlit("#(");
            reveal_strlit(")");
            let open = "#("@;
            let inner = print_items(unit, slots, slots.len());
            let close = ")"@;
            assert(text == open + inner + close);
            assert(text =~= open + (inner + close));
            lemma_placed_split(s, i, open, inner + close);
            lemma_placed_split(s, i + 2, inner, close);
            lemma_placed_char(s, i, open, 0);
            lemma_placed_char(s, i, open, 1);
            lemma_placed_char(s, i + 2 + inner.len(), close, 0);
            lemma_lex_token(s, i, punctuation(TokenKind::VectorOpen), i + 2);
            lemma_lex_items(unit, slots, slots.len(), s, i + 2);
            lemma_scan_close(s, i + 2 + inner.len());
            let end = lex_from(s, i + n);
            assert(i + 2 + inner.len() + 1 == i + n);
            lemma_front_and_items(unit, slots, slots.len());
            assert(item_tokens(unit, slots, slots.len() as int) =~= Seq::<TokenView>::empty());
            assert(front_tokens(unit, slots, slots.len()) + Seq::<TokenView>::empty() =~= front_tokens(unit, 
                slots,
                slots.len(),
            ));
            lemma_prepend_twice(
                front_tokens(unit, slots, slots.len()),
                seq![punctuation(TokenKind::CloseParenthesis)],
                end,
            );
            lemma_prepend_twice(
                seq![punctuation(TokenKind::VectorOpen)],
                front_tokens(unit, slots, slots.len()) + seq![punctuation(TokenKind::CloseParenthesis)],
                end,
            );
            assert(tokens(unit, d) =~= seq![punctuation(TokenKind::VectorOpen)] + (front_tokens(unit, 
                slots,
                slots.len(),
            ) + seq![punctuation(TokenKind::CloseParenthesis)]));
        },
        Datum::Promise(_, _) => {},
    }
}

/// The text of the rest of a list, with its closing parenthesis, is read
/// as the tokens of that rest.
pub proof fn lemma_lex_rest<U: RealUnit>(unit: &U, d: Datum, s: Seq<char>, i: int)
    requires
        plain(unit, d),
        placed(s, i, print_rest(unit, d) + ")"@),
    ensures
        lex_from(s, i) == prepend(rest_tokens(unit, d), lex_from(s, i + print_rest(unit, d).len() + 1)),
    decreases d, 1int,
{
    reveal_strlit(")");
    reveal_strlit(" ");
    reveal_strlit(" . ");
    let close = ")"@;
    let text = print_rest(unit, d) + close;
    let n = print_rest(unit, d).len() as int;
    match d {
        Datum::Nil => {
            lemma_placed_char(s, i, text, 0);
            lemma_scan_close(s, i);
        },
        Datum::Pair(car, cdr) => {
            let space = " "@;
            let first = print_datum(unit, *car);
            let rest = print_rest(unit, *cdr);
            assert(text =~= space + (first + (rest + close)));
            lemma_placed_split(s, i, space, first + (rest + close));
            lemma_placed_split(s, i + 1, first, rest + close);
            lemma_placed_char(s, i, space, 0);
            lemma_lex_space(s, i);
            lemma_rest_begins(unit, *cdr);
            lemma_placed_char(s, i + 1 + first.len(), rest + close, 0);
            lemma_lex_datum(unit, *car, s, i + 1);
            lemma_lex_rest(unit, *cdr, s, i + 1 + first.len());
            assert(i + 1 + first.len() + rest.len() + 1 == i + n + 1);
            lemma_prepend_twice(tokens(unit, *car), rest_tokens(unit, *cdr), lex_from(s, i + n + 1));
        },
        other => {
            let dot = " . "@;
            let last = print_datum(unit, other);
            assert(text =~= dot + (last + close));
            lemma_placed_split(s, i, dot, last + close);
            lemma_placed_split(s, i + 3, last, close);
            lemma_placed_char(s, i, dot, 0);
            lemma_placed_char(s, i, dot, 1);
            lemma_placed_char(s, i, dot, 2);
            lemma_placed_char(s, i + 3 + last.len(), close, 0);
            lemma_lex_space(s, i);
            lemma_lex_token(s, i + 1, punctuation(TokenKind::Dot), i + 2);
            lemma_lex_space(s, i + 2);
            lemma_lex_datum(unit, other, s, i + 3);
            lemma_scan_close(s, i + 3 + last.len());
            let end = lex_from(s, i + n + 1);
            assert(i + 3 + last.len() + 1 == i + n + 1);
            lemma_prepend_twice(tokens(unit, other), seq![punctuation(TokenKind::CloseParenthesis)], end);
            lemma_prepend_twice(
                seq![punctuation(TokenKind::Dot)],
                tokens(unit, other) + seq![punctuation(TokenKind::CloseParenthesis)],
                end,
            );
            assert(rest_tokens(unit, d) =~= seq![punctuation(TokenKind::Dot)] + (tokens(unit, other) + seq![
                punctuation(TokenKind::CloseParenthesis),
            ]));
        },
    }
}

/// The text of the first `count` elements of a vector, standing before the
/// end of the text or a delimiter, is read as their tokens.
pub proof fn lemma_lex_items<U: RealUnit>(
    unit: &U,
    slots: Seq<Datum>,
    count: nat,
    s: Seq<char>,
    i: int,
)
    requires
        forall|k: int| 0 <= k < slots.len() ==> plain(unit, #[trigger] slots[k]),
        count <= slots.len(),
        placed(s, i, print_items(unit, slots, count)),
        ends(s, i + print_items(unit, slots, count).len()),
    ensures
        lex_from(s, i) == prepend(
            front_tokens(unit, slots, count),
            lex_from(s, i + print_items(unit, slots, count).len()),
        ),
    decreases slots, count,
{
    reveal_strlit(" ");
    let text = print_items(unit, slots, count);
    if count == 0 {
        lemma_prepend_nothing(lex_from(s, i));
    } else if count == 1 {
        lemma_lex_datum(unit, slots[0], s, i);
        assert(front_tokens(unit, slots, 0) == Seq::<TokenView>::empty());
        assert(front_tokens(unit, slots, 1) =~= tokens(unit, slots[0]));
    } else {
        let before = print_items(unit, slots, (count - 1) as nat);
        let space = " "@;
        let last = print_datum(unit, slots[count - 1]);
        assert(text == before + space + last);
        assert(text =~= before + (space + last));
        lemma_placed_split(s, i, before, space + last);
        lemma_placed_split(s, i + before.len(), space, last);
        lemma_placed_char(s, i + before.len(), space, 0);
        lemma_lex_items(unit, slots, (count - 1) as nat, s, i);
        lemma_lex_space(s, i + before.len());
        lemma_lex_datum(unit, slots[count - 1], s, i + before.len() + 1);
        assert(i + before.len() + 1 + last.len() == i + text.len());
        lemma_prepend_twice(
            front_tokens(unit, slots, (count - 1) as nat),
            tokens(unit, slots[count - 1]),
            lex_from(s, i + text.len()),
        );
    }
}

/// What is read back from the text written for `d`: the expression, where
/// the text has tokens and the tokens parse.
pub open spec fn read_back<U: RealUnit>(unit: &U, d: Datum) -> Option<Datum> {
    match lex(print_datum(unit, d)) {
        Ok(read) => match parsed(unit, read, 0).0 {
            Ok(expression) => Some(expression),
            Err(_) => None,
        },
        Err(_) => None,
    }
}

/// An expression whose numbers are integers, reals that the unit reads
/// back from what it prints, or complex numbers that are read back as
/// themselves, whose strings hold no quote and no backslash, and whose
/// symbols are identifiers in lower case is read back as itself from the
/// text it is written as: the text has the tokens of the expression, the
/// tokens parse as the expression with nothing left over, and so what is
/// read back is written as the same text again.
pub proof fn written_text_reads_back<U: RealUnit>(unit: &U, d: Datum)
    requires
        plain(unit, d),
    ensures
        lex(print_datum(unit, d)) == Ok::<Seq<TokenView>, TokenErrorView>(tokens(unit, d)),
        parsed(unit, tokens(unit, d), 0) == (Ok::<Datum, ParseErrorView>(d), tokens(unit, d).len() as int),
        read_back(unit, d) == Some(d),
        print_datum(unit, read_back(unit, d)->Some_0) == print_datum(unit, d),
{
    let text = print_datum(unit, d);
    assert(text.subrange(0, text.len() as int) =~= text);
    lemma_lex_datum(unit, d, text, 0);
    assert(lex_from(text, text.len() as int) == Ok::<Seq<TokenView>, TokenErrorView>(
        Seq::empty(),
    ));
    assert(tokens(unit, d) + Seq::<TokenView>::empty() =~= tokens(unit, d));
    let own = tokens(unit, d);
    assert(own.subrange(0, own.len() as int) =~= own);
    lemma_parse_tokens(unit, d, own, 0);
}

/// The tokens of `(a . b)` written with its dot, whatever `b` is.
pub open spec fn dotted_tokens<U: RealUnit>(unit: &U, a: Datum, b: Datum) -> Seq<TokenView> {
    seq![punctuation(TokenKind::OpenParenthesis)] + tokens(unit, a) + seq![
        punctuation(TokenKind::Dot),
    ] + tokens(unit, b) + seq![punctuation(TokenKind::CloseParenthesis)]
}

proof fn lemma_dotted<U: RealUnit>(unit: &U, a: Datum, b: Datum)
    requires
        plain(unit, a),
        plain(unit, b),
    ensures
        parsed(unit, dotted_tokens(unit, a, b), 0) == (
            Ok::<Datum, ParseErrorView>(Datum::Pair(Box::new(a), Box::new(b))),
            dotted_tokens(unit, a, b).len() as int,
        ),
{
    let whole = Datum::Pair(Box::new(a), Box::new(b));
    let t = dotted_tokens(unit, a, b);
    let open = seq![punctuation(TokenKind::OpenParenthesis)];
    let dot = seq![punctuation(TokenKind::Dot)];
    let close = seq![punctuation(TokenKind::CloseParenthesis)];
    lemma_first_token(unit, a);
    let n = tokens(unit, a).len() as int;
    let m = tokens(unit, b).len() as int;
    assert(t.len() == 1 + n + 1 + m + 1);
    assert(t =~= open + (tokens(unit, a) + (dot + (tokens(unit, b) + close))));
    assert(t.subrange(0, t.len() as int) =~= t);
    lemma_split(t, 0, open, tokens(unit, a) + (dot + (tokens(unit, b) + close)));
    lemma_split(t, 1, tokens(unit, a), dot + (tokens(unit, b) + close));
    lemma_split(t, 1 + n, dot, tokens(unit, b) + close);
    lemma_split(t, 2 + n, tokens(unit, b), close);
    assert(t[0] == punctuation(TokenKind::OpenParenthesis));
    assert(t[1] == tokens(unit, a)[0]) by {
        assert(t.subrange(1, 1 + n)[0] == t[1]);
    }
    assert(t[1 + n] == punctuation(TokenKind::Dot)) by {
        assert(t.subrange(1 + n, 2 + n)[0] == t[1 + n]);
    }
    assert(t[2 + n + m] == punctuation(TokenKind::CloseParenthesis)) by {
        assert(t.subrange(2 + n + m, 3 + n + m)[0] == t[2 + n + m]);
    }
    assert(skip_comments(t, 0) == 0);
    assert(skip_comments(t, 1) == 1);
    assert(skip_comments(t, 1 + n) == 1 + n);
    assert(skip_comments(t, 2 + n + m) == 2 + n + m);
    lemma_parse_tokens(unit, a, t, 1);
    lemma_parse_tokens(unit, b, t, 2 + n);
    lemma_dotted_steps(unit, a, b, t, n, m);
}

proof fn lemma_dotted_steps<U: RealUnit>(
    unit: &U,
    a: Datum,
    b: Datum,
    t: Seq<TokenView>,
    n: int,
    m: int,
)
    requires
        n >= 1,
        m >= 0,
        t.len() == 3 + n + m,
        t[0].kind == TokenKind::OpenParenthesis,
        t[1].kind != TokenKind::Comment,
        t[1].kind != TokenKind::CloseParenthesis,
        t[1].kind != TokenKind::Dot,
        t[1 + n].kind == TokenKind::Dot,
        t[2 + n + m].kind == TokenKind::CloseParenthesis,
        skip_comments(t, 0) == 0,
        skip_comments(t, 1) == 1,
        skip_comments(t, 1 + n) == 1 + n,
        skip_comments(t, 2 + n + m) == 2 + n + m,
        parsed(unit, t, 1) == (Ok::<Datum, ParseErrorView>(a), 1 + n),
        parsed(unit, t, 2 + n) == (Ok::<Datum, ParseErrorView>(b), 2 + n + m),
    ensures
        parsed(unit, t, 0) == (
            Ok::<Datum, ParseErrorView>(Datum::Pair(Box::new(a), Box::new(b))),
            3 + n + m,
        ),
{
    let tail = parsed(unit, t, 2 + n);
    assert(closed(t, tail) == (Ok::<Datum, ParseErrorView>(b), 3 + n + m));
    assert(parsed_list(unit, t, 1 + n) == (Ok::<Datum, ParseErrorView>(b), 3 + n + m));
    assert(parsed_list(unit, t, 1) == (
        Ok::<Datum, ParseErrorView>(Datum::Pair(Box::new(a), Box::new(b))),
        3 + n + m,
    ));
}

/// A pair written with a dot is read as the pair, also where what follows
/// the dot is a list: `(a . (b . (c . ())))` is read as `(a b c)` is, and
/// `(1 . (2 . 3))` as `(1 2 . 3)`.
pub proof fn a_dotted_tail_continues_the_list<U: RealUnit>(unit: &U, a: Datum, b: Datum)
    requires
        plain(unit, a),
        plain(unit, b),
    ensures
        parsed(unit, dotted_tokens(unit, a, b), 0) == (
            Ok::<Datum, ParseErrorView>(Datum::Pair(Box::new(a), Box::new(b))),
            dotted_tokens(unit, a, b).len() as int,
        ),
        parsed(unit, tokens(unit, Datum::Pair(Box::new(a), Box::new(b))), 0) == (
            Ok::<Datum, ParseErrorView>(Datum::Pair(Box::new(a), Box::new(b))),
            tokens(unit, Datum::Pair(Box::new(a), Box::new(b))).len() as int,
        ),
{
    let whole = Datum::Pair(Box::new(a), Box::new(b));
    let own = tokens(unit, whole);
    assert(own.subrange(0, own.len() as int) =~= own);
    lemma_parse_tokens(unit, whole, own, 0);
    lemma_dotted(unit, a, b);
}

} // verus!
