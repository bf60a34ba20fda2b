//! The lexer: source text to a sequence of tokens.
use vstd::prelude::*;
use crate::error::{TokenError, TokenErrorView};
use crate::text::{chars_of, push_char, text_of};

verus! {

/// What a token is, apart from the text it was read from.
#[derive(Debug, Clone, Copy, PartialEq, Eq, Structural)]
pub enum TokenKind {
    Identifier,
    Boolean,
    Number,
    String,
    Comment,
    OpenParenthesis,
    CloseParenthesis,
    VectorOpen,
    ByteVectorOpen,
    Quote,
    BackQuote,
    Comma,
    CommaAt,
    Dot,
}

/// One token. Those that stand for a stretch of source carry a copy of it,
/// not yet decoded.
#[derive(Debug, Clone, PartialEq)]
pub enum Token {
    Identifier(String),
    Boolean(String),
    Number(String),
    String(String),
    Comment(String),
    OpenParenthesis,
    CloseParenthesis,
    VectorOpen,
    ByteVectorOpen,
    Quote,
    BackQuote,
    Comma,
    CommaAt,
    Dot,
}

/// The mathematical content of a [`Token`]: its kind and its text.
pub struct TokenView {
    pub kind: TokenKind,
    pub text: Seq<char>,
}

impl View for Token {
    type V = TokenView;

    open spec fn view(&self) -> TokenView {
        match self {
            Token::Identifier(text) => TokenView { kind: TokenKind::Identifier, text: text@ },
            Token::Boolean(text) => TokenView { kind: TokenKind::Boolean, text: text@ },
            Token::Number(text) => TokenView { kind: TokenKind::Number, text: text@ },
            Token::String(text) => TokenView { kind: TokenKind::String, text: text@ },
            Token::Comment(text) => TokenView { kind: TokenKind::Comment, text: text@ },
            Token::OpenParenthesis => punctuation(TokenKind::OpenParenthesis),
            Token::CloseParenthesis => punctuation(TokenKind::CloseParenthesis),
            Token::VectorOpen => punctuation(TokenKind::VectorOpen),
            Token::ByteVectorOpen => punctuation(TokenKind::ByteVectorOpen),
            Token::Quote => punctuation(TokenKind::Quote),
            Token::BackQuote => punctuation(TokenKind::BackQuote),
            Token::Comma => punctuation(TokenKind::Comma),
            Token::CommaAt => punctuation(TokenKind::CommaAt),
            Token::Dot => punctuation(TokenKind::Dot),
        }
    }
}

/// The fixed spelling of a token kind that has one; empty for the others.
pub open spec fn spelling(kind: TokenKind) -> Seq<char> {
    match kind {
        TokenKind::OpenParenthesis => "("@,
        TokenKind::CloseParenthesis => ")"@,
        TokenKind::VectorOpen => "#("@,
        TokenKind::ByteVectorOpen => "#u8("@,
        TokenKind::Quote => "'"@,
        TokenKind::BackQuote => "`"@,
        TokenKind::Comma => ","@,
        TokenKind::CommaAt => ",@"@,
        TokenKind::Dot => "."@,
        _ => Seq::empty(),
    }
}

/// The token of a kind that has a fixed spelling.
pub open spec fn punctuation(kind: TokenKind) -> TokenView {
    TokenView { kind, text: spelling(kind) }
}

/// The token of kind `kind` read from `s[from..to]`.
pub open spec fn lexeme(kind: TokenKind, s: Seq<char>, from: int, to: int) -> TokenView {
    TokenView { kind, text: s.subrange(from, to) }
}

impl Token {
    /// The kind of the token.
    pub fn kind(&self) -> (kind: TokenKind)
        ensures
            kind == self@.kind,
    {
        match self {
            Token::Identifier(_) => TokenKind::Identifier,
            Token::Boolean(_) => TokenKind::Boolean,
            Token::Number(_) => TokenKind::Number,
            Token::String(_) => TokenKind::String,
            Token::Comment(_) => TokenKind::Comment,
            Token::OpenParenthesis => TokenKind::OpenParenthesis,
            Token::CloseParenthesis => TokenKind::CloseParenthesis,
            Token::VectorOpen => TokenKind::VectorOpen,
            Token::ByteVectorOpen => TokenKind::ByteVectorOpen,
            Token::Quote => TokenKind::Quote,
            Token::BackQuote => TokenKind::BackQuote,
            Token::Comma => TokenKind::Comma,
            Token::CommaAt => TokenKind::CommaAt,
            Token::Dot => TokenKind::Dot,
        }
    }

    /// The text of the token as it stood in the source.
    pub fn as_str(&self) -> (text: &str)
        ensures
            text@ == self@.text,
    {
        match self {
            Token::Identifier(text) => text.as_str(),
            Token::Boolean(text) => text.as_str(),
            Token::Number(text) => text.as_str(),
            Token::String(text) => text.as_str(),
            Token::Comment(text) => text.as_str(),
            Token::OpenParenthesis => "(",
            Token::CloseParenthesis => ")",
            Token::VectorOpen => "#(",
            Token::ByteVectorOpen => "#u8(",
            Token::Quote => "'",
            Token::BackQuote => "`",
            Token::Comma => ",",
            Token::CommaAt => ",@",
            Token::Dot => ".",
        }
    }

    /// The text of the token, owned.
    pub fn to_string(&self) -> (text: String)
        ensures
            text@ == self@.text,
    {
        self.as_str().to_owned()
    }
}

/// Space, tab, carriage return or line feed.
pub open spec fn whitespace(c: char) -> bool {
    c == ' ' || c == '\t' || c == '\r' || c == '\n'
}

/// A character that ends an identifier or a number.
pub open spec fn delimiter(c: char) -> bool {
    whitespace(c) || c == '(' || c == ')' || c == '"' || c == ';'
}

/// A character that ends a comment.
pub open spec fn newline(c: char) -> bool {
    c == '\n' || c == '\r'
}

/// A decimal digit.
pub open spec fn digit(c: char) -> bool {
    '0' <= c && c <= '9'
}

/// A character that may begin an identifier.
pub open spec fn initial(c: char) -> bool {
    ('a' <= c && c <= 'z') || ('A' <= c && c <= 'Z') || c == '!' || c == '$' || c == '%' || c
        == '&' || c == '*' || c == '/' || c == ':' || c == '<' || c == '=' || c == '>' || c == '?'
        || c == '^' || c == '_' || c == '~'
}

/// A character that may continue an identifier.
pub open spec fn subsequent(c: char) -> bool {
    initial(c) || digit(c) || c == '+' || c == '-' || c == '@' || c == '.'
}

/// A character that may continue a number.
pub open spec fn numeric(c: char) -> bool {
    digit(c) || c == '+' || c == '-' || c == '.' || c == '@' || c == 'i'
}

/// A character that may follow a backslash inside a string.
pub open spec fn escape(c: char) -> bool {
    c == '\\' || c == '"' || c == 'n' || c == 'r' || c == 't' || c == 'b' || c == 'a' || c == 'x'
}

pub fn is_whitespace(c: char) -> (yes: bool)
    ensures
        yes == whitespace(c),
{
    c == ' ' || c == '\t' || c == '\r' || c == '\n'
}

pub fn is_delimiter(c: char) -> (yes: bool)
    ensures
        yes == delimiter(c),
{
    is_whitespace(c) || c == '(' || c == ')' || c == '"' || c == ';'
}

pub fn is_newline(c: char) -> (yes: bool)
    ensures
        yes == newline(c),
{
    c == '\n' || c == '\r'
}

pub fn is_digit(c: char) -> (yes: bool)
    ensures
        yes == digit(c),
{
    '0' <= c && c <= '9'
}

pub fn is_initial(c: char) -> (yes: bool)
    ensures
        yes == initial(c),
{
    ('a' <= c && c <= 'z') || ('A' <= c && c <= 'Z') || c == '!' || c == '$' || c == '%' || c
        == '&' || c == '*' || c == '/' || c == ':' || c == '<' || c == '=' || c == '>' || c == '?'
        || c == '^' || c == '_' || c == '~'
}

pub fn is_subsequent(c: char) -> (yes: bool)
    ensures
        yes == subsequent(c),
{
    is_initial(c) || is_digit(c) || c == '+' || c == '-' || c == '@' || c == '.'
}

pub fn is_numeric(c: char) -> (yes: bool)
    ensures
        yes == numeric(c),
{
    is_digit(c) || c == '+' || c == '-' || c == '.' || c == '@' || c == 'i'
}

pub fn is_escape(c: char) -> (yes: bool)
    ensures
        yes == escape(c),
{
    c == '\\' || c == '"' || c == 'n' || c == 'r' || c == 't' || c == 'b' || c == 'a' || c == 'x'
}

/// The first position at or after `i` where a delimiter stands, or the
/// length of `s` where none does.
pub open spec fn delimiter_from(s: Seq<char>, i: int) -> int
    decreases s.len() - i,
{
    if i < 0 || i >= s.len() {
        s.len() as int
    } else if delimiter(s[i]) {
        i
    } else {
        delimiter_from(s, i + 1)
    }
}

/// Where the run that starts at `start` ends: before the first delimiter
/// after its first character, which belongs to the run whatever it is, or
/// at the end of the text.
pub open spec fn run_end(s: Seq<char>, start: int) -> int {
    if start >= s.len() {
        s.len() as int
    } else {
        delimiter_from(s, start + 1)
    }
}

pub proof fn lemma_delimiter_from(s: Seq<char>, i: int)
    requires
        0 <= i <= s.len(),
    ensures
        i <= delimiter_from(s, i) <= s.len(),
        forall|j: int| i <= j < delimiter_from(s, i) ==> !delimiter(#[trigger] s[j]),
        delimiter_from(s, i) < s.len() ==> delimiter(s[delimiter_from(s, i)]),
    decreases s.len() - i,
{
    if i < s.len() && !delimiter(s[i]) {
        lemma_delimiter_from(s, i + 1);
    }
}

/// The text reported with a malformed identifier or number that began at
/// `start` and whose first offending character ends at `end`: all of it,
/// and the run that starts at `end`.
pub open spec fn offending(s: Seq<char>, start: int, end: int) -> Seq<char> {
    s.subrange(start, run_end(s, end))
}

/// A source text held as characters, with a reading position.
#[derive(Debug, Clone)]
pub struct Buffer {
    chars: Vec<char>,
    cursor: usize,
}

impl View for Buffer {
    type V = Seq<char>;

    closed spec fn view(&self) -> Seq<char> {
        self.chars@
    }
}

impl Buffer {
    /// The reading position, counted in characters.
    pub closed spec fn position(&self) -> int {
        self.cursor as int
    }

    /// The position never passes the end of the text.
    pub closed spec fn well_formed(&self) -> bool {
        self.cursor <= self.chars.len()
    }

    /// The characters from the position on, at most `num` of them.
    pub open spec fn ahead(&self, num: usize) -> Seq<char> {
        if self.position() + num <= self@.len() {
            self@.subrange(self.position(), self.position() + num)
        } else {
            self@.subrange(self.position(), self@.len() as int)
        }
    }

    pub fn new(src: &str) -> (buffer: Buffer)
        ensures
            buffer@ == src@,
            buffer.position() == 0,
            buffer.well_formed(),
    {
        Buffer { chars: chars_of(src), cursor: 0 }
    }

    /// The number of characters in the text.
    pub fn length(&self) -> (length: usize)
        ensures
            length == self@.len(),
    {
        self.chars.len()
    }

    /// The next `num` characters, fewer where the text ends before.
    pub fn peek_char(&self, num: usize) -> (text: String)
        requires
            self.well_formed(),
        ensures
            text@ == self.ahead(num),
    {
        let end = if num <= self.chars.len() - self.cursor {
            self.cursor + num
        } else {
            self.chars.len()
        };
        text_of(&self.chars, self.cursor, end)
    }

    /// Takes the next `num` characters, fewer where the text ends before.
    pub fn pop_char(&mut self, num: usize) -> (text: String)
        requires
            old(self).well_formed(),
        ensures
            text@ == old(self).ahead(num),
            final(self)@ == old(self)@,
            final(self).position() == old(self).position() + text@.len(),
            final(self).well_formed(),
    {
        let text = self.peek_char(num);
        let end = if num <= self.chars.len() - self.cursor {
            self.cursor + num
        } else {
            self.chars.len()
        };
        self.cursor = end;
        text
    }

    /// Whether the position stands at the end of the text.
    pub fn is_empty(&self) -> (empty: bool)
        ensures
            empty == (self.position() >= self@.len()),
    {
        self.cursor >= self.chars.len()
    }

    /// The character at `index`, if the text has one there.
    pub fn get(&self, index: usize) -> (found: Option<char>)
        ensures
            found == if index < self@.len() {
                Some(self@[index as int])
            } else {
                None
            },
    {
        if index < self.chars.len() {
            Some(self.chars[index])
        } else {
            None
        }
    }

    /// The text of `self[from..to]`.
    pub fn slice(&self, from: usize, to: usize) -> (text: String)
        requires
            from <= to <= self@.len(),
        ensures
            text@ == self@.subrange(from as int, to as int),
    {
        text_of(&self.chars, from, to)
    }
}

/// Tokens already read, with the position of the next one to hand out.
#[derive(Debug)]
pub struct TokenBuffer {
    buffer: Vec<Token>,
    index: usize,
}

/// The contents of a list of tokens.
pub open spec fn token_views(tokens: Seq<Token>) -> Seq<TokenView> {
    Seq::new(tokens.len(), |i: int| tokens[i]@)
}

impl View for TokenBuffer {
    type V = Seq<TokenView>;

    closed spec fn view(&self) -> Seq<TokenView> {
        token_views(self.buffer@)
    }
}

impl TokenBuffer {
    #[verifier::type_invariant]
    spec fn within(self) -> bool {
        self.index <= self.buffer.len()
    }

    /// Recalls that the position never passes the end of the tokens.
    pub fn bounded(&self)
        ensures
            0 <= self.position() <= self@.len(),
    {
        proof {
            use_type_invariant(self);
        }
    }

    /// How many tokens have been handed out.
    pub closed spec fn position(&self) -> int {
        self.index as int
    }

    pub fn new(tokens: Vec<Token>) -> (buffer: TokenBuffer)
        ensures
            buffer@ == token_views(tokens@),
            buffer.position() == 0,
    {
        TokenBuffer { buffer: tokens, index: 0 }
    }

    /// The next token, left in place.
    pub fn peek(&self) -> (token: &Token)
        requires
            self.position() < self@.len(),
        ensures
            token@ == self@[self.position()],
    {
        &self.buffer[self.index]
    }

    /// The next token, which is then behind the position.
    pub fn pop(&mut self) -> (token: &Token)
        requires
            old(self).position() < old(self)@.len(),
        ensures
            token@ == old(self)@[old(self).position()],
            final(self)@ == old(self)@,
            final(self).position() == old(self).position() + 1,
    {
        let index = self.index;
        let length = self.buffer.len();
        assert(index < length);
        self.index = index + 1;
        &self.buffer[index]
    }

    /// Whether every token has been handed out.
    pub fn is_empty(&self) -> (empty: bool)
        ensures
            empty == (self.position() >= self@.len()),
    {
        self.index >= self.buffer.len()
    }

    /// The number of tokens, handed out or not.
    pub fn len(&self) -> (length: usize)
        ensures
            length == self@.len(),
    {
        self.buffer.len()
    }

    /// The token at `index`, if there is one.
    pub fn get(&self, index: usize) -> (token: Option<&Token>)
        ensures
            match token {
                Some(token) => index < self@.len() && token@ == self@[index as int],
                None => index >= self@.len(),
            },
    {
        if index < self.buffer.len() {
            Some(&self.buffer[index])
        } else {
            None
        }
    }
}

/// What reading one token gives: the token and the position after it, or
/// the fault.
pub type Scan = Result<(TokenView, int), TokenErrorView>;

/// The mathematical content of what a reading function returns.
pub open spec fn scan_of(read: Result<(Token, usize), TokenError>) -> Scan {
    match read {
        Ok((token, next)) => Ok((token@, next as int)),
        Err(fault) => Err(fault@),
    }
}

/// A comment that began at `start` and has been followed up to `i`: it runs
/// to the next newline, which is passed over, or to the end of the text.
pub open spec fn scan_comment(s: Seq<char>, start: int, i: int) -> Scan
    decreases s.len() - i,
{
    if i < 0 || i >= s.len() {
        Ok((lexeme(TokenKind::Comment, s, start, s.len() as int), s.len() as int))
    } else if newline(s[i]) {
        Ok((lexeme(TokenKind::Comment, s, start, i), i + 1))
    } else {
        scan_comment(s, start, i + 1)
    }
}

/// An identifier that began at `start` and has been followed up to `i`: it
/// takes subsequent characters, ends before a delimiter or at the end of the
/// text, and is malformed at any other character.
pub open spec fn scan_identifier(s: Seq<char>, start: int, i: int) -> Scan
    decreases s.len() - i,
{
    if i < 0 || i >= s.len() {
        Ok((lexeme(TokenKind::Identifier, s, start, s.len() as int), s.len() as int))
    } else if subsequent(s[i]) {
        scan_identifier(s, start, i + 1)
    } else if delimiter(s[i]) {
        Ok((lexeme(TokenKind::Identifier, s, start, i), i))
    } else {
        Err(TokenErrorView::InvalidIdentifier(offending(s, start, i + 1)))
    }
}

/// A number that began at `start` and has been followed up to `i`: it takes
/// digits, signs, `.`, `@` and `i`, ends before a delimiter or at the end of
/// the text, and is malformed at any other character.
pub open spec fn scan_number(s: Seq<char>, start: int, i: int) -> Scan
    decreases s.len() - i,
{
    if i < 0 || i >= s.len() {
        Ok((lexeme(TokenKind::Number, s, start, s.len() as int), s.len() as int))
    } else if numeric(s[i]) {
        scan_number(s, start, i + 1)
    } else if delimiter(s[i]) {
        Ok((lexeme(TokenKind::Number, s, start, i), i))
    } else {
        Err(TokenErrorView::InvalidNumber(offending(s, start, i + 1)))
    }
}

/// A string whose opening quote stands at `start` and which has been
/// followed up to `i`: a backslash takes the next character with it, which
/// must be one of the known escapes; the first quote not so taken closes the
/// string.
pub open spec fn scan_string(s: Seq<char>, start: int, i: int) -> Scan
    decreases s.len() - i,
{
    if i < 0 || i >= s.len() {
        Err(TokenErrorView::MissingCloseQuote)
    } else if s[i] == '\\' {
        if i + 1 >= s.len() {
            Err(TokenErrorView::MissingCloseQuote)
        } else if escape(s[i + 1]) {
            scan_string(s, start, i + 2)
        } else {
            Err(TokenErrorView::InvalidStringEscape(seq!['\\', s[i + 1]]))
        }
    } else if s[i] == '"' {
        Ok((lexeme(TokenKind::String, s, start, i + 1), i + 1))
    } else {
        scan_string(s, start, i + 1)
    }
}

/// The smaller of `i` and the length of `s`.
pub open spec fn clamp(s: Seq<char>, i: int) -> int {
    if i <= s.len() {
        i
    } else {
        s.len() as int
    }
}

/// Whether a token may end before position `i`: the text ends there, or
/// a delimiter stands there.
pub open spec fn ends(s: Seq<char>, i: int) -> bool {
    i >= s.len() || delimiter(s[i])
}

/// Whether `text` spells a boolean constant without its `#`.
pub open spec fn boolean_name(text: Seq<char>) -> bool {
    text == seq!['t'] || text == seq!['f'] || text == seq!['t', 'r', 'u', 'e'] || text
        == seq!['f', 'a', 'l', 's', 'e']
}

/// What stands at `i`, which is inside the text: a token and where it ends,
/// nothing (whitespace) and where to go on, or a fault.
pub open spec fn scan(s: Seq<char>, i: int) -> Result<(Option<TokenView>, int), TokenErrorView> {
    let c = s[i];
    let has = |k: int| i + k < s.len();
    if c == '(' {
        Ok((Some(punctuation(TokenKind::OpenParenthesis)), i + 1))
    } else if c == ')' {
        Ok((Some(punctuation(TokenKind::CloseParenthesis)), i + 1))
    } else if c == '\'' {
        Ok((Some(punctuation(TokenKind::Quote)), i + 1))
    } else if c == '`' {
        Ok((Some(punctuation(TokenKind::BackQuote)), i + 1))
    } else if c == ',' {
        if has(1) && s[i + 1] == '@' {
            Ok((Some(punctuation(TokenKind::CommaAt)), i + 2))
        } else {
            Ok((Some(punctuation(TokenKind::Comma)), i + 1))
        }
    } else if c == '.' {
        if ends(s, i + 1) {
            Ok((Some(punctuation(TokenKind::Dot)), i + 1))
        } else if has(2) && s[i + 1] == '.' && s[i + 2] == '.' && ends(s, i + 3) {
            Ok((Some(lexeme(TokenKind::Identifier, s, i, i + 3)), i + 3))
        } else {
            Err(TokenErrorView::InvalidIdentifier(offending(s, i, clamp(s, i + 3))))
        }
    } else if c == ';' {
        wrap(scan_comment(s, i, i + 1))
    } else if c == '#' {
        if has(1) && s[i + 1] == '(' {
            Ok((Some(punctuation(TokenKind::VectorOpen)), i + 2))
        } else if has(3) && s[i + 1] == 'u' && s[i + 2] == '8' && s[i + 3] == '(' {
            Ok((Some(punctuation(TokenKind::ByteVectorOpen)), i + 4))
        } else {
            let end = run_end(s, i + 1);
            if boolean_name(s.subrange(i + 1, end)) {
                Ok((Some(lexeme(TokenKind::Boolean, s, i, end)), end))
            } else {
                Err(TokenErrorView::InvalidConstant(s.subrange(i, end)))
            }
        }
    } else if c == '+' || c == '-' {
        if ends(s, i + 1) {
            Ok((Some(lexeme(TokenKind::Identifier, s, i, i + 1)), i + 1))
        } else if has(1) && (digit(s[i + 1]) || s[i + 1] == 'i') {
            wrap(scan_number(s, i, i + 2))
        } else {
            Err(TokenErrorView::InvalidIdentifier(offending(s, i, clamp(s, i + 2))))
        }
    } else if c == '"' {
        wrap(scan_string(s, i, i + 1))
    } else if whitespace(c) {
        Ok((None, i + 1))
    } else if initial(c) {
        wrap(scan_identifier(s, i, i + 1))
    } else if digit(c) {
        wrap(scan_number(s, i, i + 1))
    } else {
        Err(TokenErrorView::InvalidCharacter(seq![c]))
    }
}

/// A reading that gave a token, as a step of the lexer.
pub open spec fn wrap(read: Scan) -> Result<(Option<TokenView>, int), TokenErrorView> {
    match read {
        Ok((token, next)) => Ok((Some(token), next)),
        Err(fault) => Err(fault),
    }
}

/// The tokens of `s` from position `i` on: the readings of `scan`, one after
/// the other, up to the end of the text or the first fault.
pub open spec fn lex_from(s: Seq<char>, i: int) -> Result<Seq<TokenView>, TokenErrorView>
    decreases s.len() - i,
{
    if i < 0 || i >= s.len() {
        Ok(Seq::empty())
    } else {
        match scan(s, i) {
            Err(fault) => Err(fault),
            Ok((found, next)) => if next <= i || next > s.len() {
                Ok(Seq::empty())
            } else {
                match lex_from(s, next) {
                    Err(fault) => Err(fault),
                    Ok(rest) => match found {
                        Some(token) => Ok(seq![token] + rest),
                        None => Ok(rest),
                    },
                }
            },
        }
    }
}

/// The tokens of a source text, or the first fault in it.
pub open spec fn lex(s: Seq<char>) -> Result<Seq<TokenView>, TokenErrorView> {
    lex_from(s, 0)
}

/// Every reading ends after the place where it began, inside the text.
pub proof fn lemma_scan_advances(s: Seq<char>, i: int)
    requires
        0 <= i < s.len(),
    ensures
        scan(s, i) matches Ok((_, next)) ==> i < next <= s.len(),
{
    lemma_scan_comment_bounds(s, i, i + 1);
    lemma_scan_identifier_bounds(s, i, i + 1);
    lemma_scan_number_bounds(s, i, i + 1);
    if i + 2 <= s.len() {
        lemma_scan_number_bounds(s, i, i + 2);
    }
    lemma_scan_string_bounds(s, i, i + 1);
    if i + 2 <= s.len() {
        lemma_delimiter_from(s, i + 2);
    }
}

pub proof fn lemma_scan_comment_bounds(s: Seq<char>, start: int, i: int)
    requires
        0 <= start <= i <= s.len(),
    ensures
        scan_comment(s, start, i) matches Ok((_, next)) && i <= next <= s.len(),
    decreases s.len() - i,
{
    if i < s.len() && !newline(s[i]) {
        lemma_scan_comment_bounds(s, start, i + 1);
    }
}

pub proof fn lemma_scan_identifier_bounds(s: Seq<char>, start: int, i: int)
    requires
        0 <= start <= i <= s.len(),
    ensures
        scan_identifier(s, start, i) matches Ok((_, next)) ==> i <= next <= s.len(),
    decreases s.len() - i,
{
    if i < s.len() && subsequent(s[i]) {
        lemma_scan_identifier_bounds(s, start, i + 1);
    }
}

pub proof fn lemma_scan_number_bounds(s: Seq<char>, start: int, i: int)
    requires
        0 <= start <= i <= s.len(),
    ensures
        scan_number(s, start, i) matches Ok((_, next)) ==> i <= next <= s.len(),
    decreases s.len() - i,
{
    if i < s.len() && numeric(s[i]) {
        lemma_scan_number_bounds(s, start, i + 1);
    }
}

pub proof fn lemma_scan_string_bounds(s: Seq<char>, start: int, i: int)
    requires
        0 <= start <= i <= s.len(),
    ensures
        scan_string(s, start, i) matches Ok((_, next)) ==> i < next <= s.len(),
    decreases s.len() - i,
{
    if i < s.len() {
        if s[i] == '\\' {
            if i + 1 < s.len() && escape(s[i + 1]) {
                lemma_scan_string_bounds(s, start, i + 2);
            }
        } else if s[i] != '"' {
            lemma_scan_string_bounds(s, start, i + 1);
        }
    }
}

/// Reads the run that starts at `start_index`: its first character,
/// whatever it is, and what follows up to the next delimiter or the end of
/// the text. Gives the text read and where it ends; from the end of the
/// text on, the empty text and the length.
pub fn read_until_delimiter(buffer: &Buffer, start_index: usize) -> (read: (String, usize))
    ensures
        read.1 == run_end(buffer@, start_index as int),
        start_index < buffer@.len() ==> read.1 == delimiter_from(buffer@, start_index + 1)
            && start_index < read.1 <= buffer@.len() && read.0@ == buffer@.subrange(
            start_index as int,
            read.1 as int,
        ),
        start_index >= buffer@.len() ==> read.1 == buffer@.len() && read.0@ == Seq::<
            char,
        >::empty(),
        read.1 <= buffer@.len(),
{
    let length = buffer.length();
    if start_index >= length {
        return (String::new(), length);
    }
    let mut index = start_index + 1;
    while index < length
        invariant
            start_index < index <= length,
            length == buffer@.len(),
            delimiter_from(buffer@, index as int) == delimiter_from(buffer@, start_index + 1),
        ensures
            start_index < index <= length,
            index == delimiter_from(buffer@, start_index + 1),
        decreases length - index,
    {
        match buffer.get(index) {
            Some(c) => {
                if is_delimiter(c) {
                    break ;
                }
            },
            None => {},
        }
        index += 1;
    }
    (buffer.slice(start_index, index), index)
}

fn offending_text(buffer: &Buffer, start: usize, end: usize) -> (text: String)
    requires
        start <= end <= buffer@.len(),
    ensures
        text@ == offending(buffer@, start as int, end as int),
{
    let (_, run) = read_until_delimiter(buffer, end);
    buffer.slice(start, run)
}

/// Reads a comment that began at `start_index`, from `index` on.
pub fn read_comment(buffer: &Buffer, start_index: usize, index: usize) -> (read: Result<
    (Token, usize),
    TokenError,
>)
    requires
        start_index <= index <= buffer@.len(),
    ensures
        scan_of(read) == scan_comment(buffer@, start_index as int, index as int),
{
    let length = buffer.length();
    let mut at = index;
    while at < length
        invariant
            start_index <= at <= length,
            length == buffer@.len(),
            scan_comment(buffer@, start_index as int, at as int) == scan_comment(
                buffer@,
                start_index as int,
                index as int,
            ),
        decreases length - at,
    {
        match buffer.get(at) {
            Some(c) => {
                if is_newline(c) {
                    return Ok((Token::Comment(buffer.slice(start_index, at)), at + 1));
                }
            },
            None => {},
        }
        at += 1;
    }
    Ok((Token::Comment(buffer.slice(start_index, at)), at))
}

/// Reads an identifier that began at `start_index`, from `index` on.
pub fn read_identifier(buffer: &Buffer, start_index: usize, index: usize) -> (read: Result<
    (Token, usize),
    TokenError,
>)
    requires
        start_index <= index <= buffer@.len(),
    ensures
        scan_of(read) == scan_identifier(buffer@, start_index as int, index as int),
{
    let length = buffer.length();
    let mut at = index;
    while at < length
        invariant
            start_index <= at <= length,
            length == buffer@.len(),
            scan_identifier(buffer@, start_index as int, at as int) == scan_identifier(
                buffer@,
                start_index as int,
                index as int,
            ),
        decreases length - at,
    {
        match buffer.get(at) {
            Some(c) => {
                if is_subsequent(c) {
                } else if is_delimiter(c) {
                    return Ok((Token::Identifier(buffer.slice(start_index, at)), at));
                } else {
                    return Err(
                        TokenError::InvalidIdentifier(
                            offending_text(buffer, start_index, at + 1),
                        ),
                    );
                }
            },
            None => {},
        }
        at += 1;
    }
    Ok((Token::Identifier(buffer.slice(start_index, at)), at))
}

/// Reads a number that began at `start_index`, from `index` on.
pub fn read_number(buffer: &Buffer, start_index: usize, index: usize) -> (read: Result<
    (Token, usize),
    TokenError,
>)
    requires
        start_index <= index <= buffer@.len(),
    ensures
        scan_of(read) == scan_number(buffer@, start_index as int, index as int),
{
    let length = buffer.length();
    let mut at = index;
    while at < length
        invariant
            start_index <= at <= length,
            length == buffer@.len(),
            scan_number(buffer@, start_index as int, at as int) == scan_number(
                buffer@,
                start_index as int,
                index as int,
            ),
        decreases length - at,
    {
        match buffer.get(at) {
            Some(c) => {
                if is_numeric(c) {
                } else if is_delimiter(c) {
                    return Ok((Token::Number(buffer.slice(start_index, at)), at));
                } else {
                    return Err(
                        TokenError::InvalidNumber(offending_text(buffer, start_index, at + 1)),
                    );
                }
            },
            None => {},
        }
        at += 1;
    }
    Ok((Token::Number(buffer.slice(start_index, at)), at))
}

/// Reads a string whose opening quote stands at `start_index`, from `index`
/// on.
pub fn read_string(buffer: &Buffer, start_index: usize, index: usize) -> (read: Result<
    (Token, usize),
    TokenError,
>)
    requires
        start_index <= index <= buffer@.len(),
    ensures
        scan_of(read) == scan_string(buffer@, start_index as int, index as int),
{
    let length = buffer.length();
    let mut at = index;
    while at < length
        invariant
            start_index <= at <= length,
            length == buffer@.len(),
            scan_string(buffer@, start_index as int, at as int) == scan_string(
                buffer@,
                start_index as int,
                index as int,
            ),
        decreases length - at,
    {
        match buffer.get(at) {
            Some(c) => {
                if c == '\\' {
                    match buffer.get(at + 1) {
                        Some(escaped) => {
                            if is_escape(escaped) {
                                at += 1;
                            } else {
                                let mut text = String::new();
                                push_char(&mut text, '\\');
                                push_char(&mut text, escaped);
                                assert(text@ == seq!['\\', escaped]);
                                return Err(TokenError::InvalidStringEscape(text));
                            }
                        },
                        None => {
                            return Err(TokenError::MissingCloseQuote);
                        },
                    }
                } else if c == '"' {
                    return Ok((Token::String(buffer.slice(start_index, at + 1)), at + 1));
                }
            },
            None => {},
        }
        at += 1;
    }
    Err(TokenError::MissingCloseQuote)
}

/// The mathematical content of one step of the lexer.
pub open spec fn step_of(step: Result<(Option<Token>, usize), TokenError>) -> Result<
    (Option<TokenView>, int),
    TokenErrorView,
> {
    match step {
        Ok((Some(token), next)) => Ok((Some(token@), next as int)),
        Ok((None, next)) => Ok((None, next as int)),
        Err(fault) => Err(fault@),
    }
}

fn found(read: Result<(Token, usize), TokenError>) -> (step: Result<
    (Option<Token>, usize),
    TokenError,
>)
    ensures
        step_of(step) == wrap(scan_of(read)),
{
    match read {
        Ok((token, next)) => Ok((Some(token), next)),
        Err(fault) => Err(fault),
    }
}

fn is_boolean_name(text: &str) -> (yes: bool)
    ensures
        yes == boolean_name(text@),
{
    proof {
        reveal_strlit("t");
        reveal_strlit("f");
        reveal_strlit("true");
        reveal_strlit("false");
        assert("t"@ =~= seq!['t']);
        assert("f"@ =~= seq!['f']);
        assert("true"@ =~= seq!['t', 'r', 'u', 'e']);
        assert("false"@ =~= seq!['f', 'a', 'l', 's', 'e']);
    }
    crate::text::same_text(text, "t") || crate::text::same_text(text, "f")
        || crate::text::same_text(text, "true") || crate::text::same_text(text, "false")
}

fn has(buffer: &Buffer, index: usize, c: char) -> (yes: bool)
    ensures
        yes == (index < buffer@.len() && buffer@[index as int] == c),
{
    match buffer.get(index) {
        Some(found) => found == c,
        None => false,
    }
}

fn token_ends(buffer: &Buffer, index: usize) -> (yes: bool)
    ensures
        yes == ends(buffer@, index as int),
{
    match buffer.get(index) {
        Some(found) => is_delimiter(found),
        None => true,
    }
}

/// Reads what stands at `index`: one token, or the whitespace to pass over.
pub fn scan_at(buffer: &Buffer, index: usize) -> (step: Result<(Option<Token>, usize), TokenError>)
    requires
        index < buffer@.len(),
    ensures
        step_of(step) == scan(buffer@, index as int),
{
    let length = buffer.length();
    let c = match buffer.get(index) {
        Some(c) => c,
        None => ' ',
    };
    if c == '(' {
        Ok((Some(Token::OpenParenthesis), index + 1))
    } else if c == ')' {
        Ok((Some(Token::CloseParenthesis), index + 1))
    } else if c == '\'' {
        Ok((Some(Token::Quote), index + 1))
    } else if c == '`' {
        Ok((Some(Token::BackQuote), index + 1))
    } else if c == ',' {
        if has(buffer, index + 1, '@') {
            Ok((Some(Token::CommaAt), index + 2))
        } else {
            Ok((Some(Token::Comma), index + 1))
        }
    } else if c == '.' {
        if token_ends(buffer, index + 1) {
            Ok((Some(Token::Dot), index + 1))
        } else if length - index > 2 && has(buffer, index + 1, '.') && has(buffer, index + 2, '.')
            && token_ends(buffer, index + 3) {
            Ok((Some(Token::Identifier(buffer.slice(index, index + 3))), index + 3))
        } else {
            let end = if length - index > 3 {
                index + 3
            } else {
                length
            };
            Err(TokenError::InvalidIdentifier(offending_text(buffer, index, end)))
        }
    } else if c == ';' {
        found(read_comment(buffer, index, index + 1))
    } else if c == '#' {
        if has(buffer, index + 1, '(') {
            Ok((Some(Token::VectorOpen), index + 2))
        } else if length - index > 3 && has(buffer, index + 1, 'u') && has(buffer, index + 2, '8')
            && has(buffer, index + 3, '(') {
            Ok((Some(Token::ByteVectorOpen), index + 4))
        } else {
            let (name, end) = read_until_delimiter(buffer, index + 1);
            assert(name@ =~= buffer@.subrange(index + 1, end as int));
            if is_boolean_name(name.as_str()) {
                Ok((Some(Token::Boolean(buffer.slice(index, end))), end))
            } else {
                Err(TokenError::InvalidConstant(buffer.slice(index, end)))
            }
        }
    } else if c == '+' || c == '-' {
        if token_ends(buffer, index + 1) {
            Ok((Some(Token::Identifier(buffer.slice(index, index + 1))), index + 1))
        } else if has(buffer, index + 1, 'i') || (index + 1 < length && is_digit(
            match buffer.get(index + 1) {
                Some(next) => next,
                None => ' ',
            },
        )) {
            found(read_number(buffer, index, index + 2))
        } else {
            let end = if length - index > 2 {
                index + 2
            } else {
                length
            };
            Err(TokenError::InvalidIdentifier(offending_text(buffer, index, end)))
        }
    } else if c == '"' {
        found(read_string(buffer, index, index + 1))
    } else if is_whitespace(c) {
        Ok((None, index + 1))
    } else if is_initial(c) {
        found(read_identifier(buffer, index, index + 1))
    } else if is_digit(c) {
        found(read_number(buffer, index, index + 1))
    } else {
        let mut text = String::new();
        push_char(&mut text, c);
        assert(text@ == seq![c]);
        Err(TokenError::InvalidCharacter(text))
    }
}

/// The tokens `done`, followed by what the rest of the text gives.
pub open spec fn prepend(done: Seq<TokenView>, rest: Result<Seq<TokenView>, TokenErrorView>) -> Result<
    Seq<TokenView>,
    TokenErrorView,
> {
    match rest {
        Ok(rest) => Ok(done + rest),
        Err(fault) => Err(fault),
    }
}

/// Splits a source text into its tokens. On the first fault lexing stops
/// and the fault is all that is returned.
pub fn tokenize(src: &str) -> (tokens: Result<TokenBuffer, TokenError>)
    ensures
        match tokens {
            Ok(buffer) => lex(src@) == Ok::<Seq<TokenView>, TokenErrorView>(buffer@)
                && buffer.position() == 0,
            Err(fault) => lex(src@) == Err::<Seq<TokenView>, TokenErrorView>(fault@),
        },
{
    let buffer = Buffer::new(src);
    let length = buffer.length();
    let mut token_list: Vec<Token> = Vec::new();
    let mut index: usize = 0;
    assert(prepend(token_views(token_list@), lex_from(src@, 0)) == lex(src@)) by {
        assert(token_views(token_list@) =~= Seq::<TokenView>::empty());
        match lex_from(src@, 0) {
            Ok(rest) => {
                assert(Seq::<TokenView>::empty() + rest =~= rest);
            },
            Err(_) => {},
        }
    }
    while index < length
        invariant
            index <= length,
            length == src@.len(),
            buffer@ == src@,
            prepend(token_views(token_list@), lex_from(src@, index as int)) == lex(src@),
        decreases length - index,
    {
        proof {
            lemma_scan_advances(src@, index as int);
        }
        let ghost before = token_views(token_list@);
        match scan_at(&buffer, index) {
            Err(fault) => {
                return Err(fault);
            },
            Ok((Some(token), next)) => {
                token_list.push(token);
                proof {
                    assert(token_views(token_list@) =~= before.push(token@));
                    match lex_from(src@, next as int) {
                        Ok(rest) => {
                            assert(before + (seq![token@] + rest) =~= before.push(token@) + rest);
                        },
                        Err(_) => {},
                    }
                }
                index = next;
            },
            Ok((None, next)) => {
                index = next;
            },
        }
    }
    proof {
        match lex_from(src@, index as int) {
            Ok(rest) => {
                assert(token_views(token_list@) + rest =~= token_views(token_list@));
            },
            Err(_) => {},
        }
    }
    Ok(TokenBuffer::new(token_list))
}

} // verus!
