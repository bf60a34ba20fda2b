//! The errors of each stage and the messages they print.
use vstd::prelude::*;
use vstd::std_specs::convert::FromSpecImpl;
use crate::text::{count_text, decimal};

verus! {

/// A fault met while splitting source text into tokens.
#[derive(Debug, Clone, PartialEq)]
pub enum TokenError {
    InvalidCharacter(String),
    InvalidIdentifier(String),
    InvalidConstant(String),
    InvalidNumber(String),
    InvalidStringEscape(String),
    MissingCloseQuote,
}

/// The mathematical content of a [`TokenError`].
pub enum TokenErrorView {
    InvalidCharacter(Seq<char>),
    InvalidIdentifier(Seq<char>),
    InvalidConstant(Seq<char>),
    InvalidNumber(Seq<char>),
    InvalidStringEscape(Seq<char>),
    MissingCloseQuote,
}

impl View for TokenError {
    type V = TokenErrorView;

    open spec fn view(&self) -> TokenErrorView {
        match self {
            TokenError::InvalidCharacter(text) => TokenErrorView::InvalidCharacter(text@),
            TokenError::InvalidIdentifier(text) => TokenErrorView::InvalidIdentifier(text@),
            TokenError::InvalidConstant(text) => TokenErrorView::InvalidConstant(text@),
            TokenError::InvalidNumber(text) => TokenErrorView::InvalidNumber(text@),
            TokenError::InvalidStringEscape(text) => TokenErrorView::InvalidStringEscape(text@),
            TokenError::MissingCloseQuote => TokenErrorView::MissingCloseQuote,
        }
    }
}

impl TokenErrorView {
    /// The message shown for the error.
    pub open spec fn message(self) -> Seq<char> {
        match self {
            TokenErrorView::InvalidCharacter(text) => "invalid character: "@ + text,
            TokenErrorView::InvalidIdentifier(text) => "invalid identifier: "@ + text,
            TokenErrorView::InvalidConstant(text) => "invalid constant literal: "@ + text,
            TokenErrorView::InvalidNumber(text) => "invalid number literal: "@ + text,
            TokenErrorView::InvalidStringEscape(text) => "invalid escape in string: "@ + text,
            TokenErrorView::MissingCloseQuote => "string missing closing quote"@,
        }
    }
}

fn labelled(label: &str, text: &String) -> (message: String)
    ensures
        message@ == label@ + text@,
{
    let mut message = label.to_owned();
    message.append(text.as_str());
    message
}

impl TokenError {
    /// The message shown for the error.
    pub fn to_string(&self) -> (message: String)
        ensures
            message@ == self@.message(),
    {
        match self {
            TokenError::InvalidCharacter(text) => labelled("invalid character: ", text),
            TokenError::InvalidIdentifier(text) => labelled("invalid identifier: ", text),
            TokenError::InvalidConstant(text) => labelled("invalid constant literal: ", text),
            TokenError::InvalidNumber(text) => labelled("invalid number literal: ", text),
            TokenError::InvalidStringEscape(text) => labelled("invalid escape in string: ", text),
            TokenError::MissingCloseQuote => "string missing closing quote".to_owned(),
        }
    }
}

/// A fault met while building an expression from tokens.
#[derive(Debug, Clone, PartialEq)]
pub enum ParseError {
    EOF,
    InvalidNumber(String),
    MissingOpenParenthesis,
    MissingCLoseParenthesis,
    InvalidCharacterEscape(String),
    TooMoreObjects,
    InvalidDot,
    /// The syntax is reserved but the parser has no rule for it.
    Unimplemented(String),
}

/// The mathematical content of a [`ParseError`].
pub enum ParseErrorView {
    EOF,
    InvalidNumber(Seq<char>),
    MissingOpenParenthesis,
    MissingCLoseParenthesis,
    InvalidCharacterEscape(Seq<char>),
    TooMoreObjects,
    InvalidDot,
    Unimplemented(Seq<char>),
}

impl View for ParseError {
    type V = ParseErrorView;

    open spec fn view(&self) -> ParseErrorView {
        match self {
            ParseError::EOF => ParseErrorView::EOF,
            ParseError::InvalidNumber(text) => ParseErrorView::InvalidNumber(text@),
            ParseError::MissingOpenParenthesis => ParseErrorView::MissingOpenParenthesis,
            ParseError::MissingCLoseParenthesis => ParseErrorView::MissingCLoseParenthesis,
            ParseError::InvalidCharacterEscape(text) => ParseErrorView::InvalidCharacterEscape(
                text@,
            ),
            ParseError::TooMoreObjects => ParseErrorView::TooMoreObjects,
            ParseError::InvalidDot => ParseErrorView::InvalidDot,
            ParseError::Unimplemented(form) => ParseErrorView::Unimplemented(form@),
        }
    }
}

impl ParseErrorView {
    /// The message shown for the error.
    pub open spec fn message(self) -> Seq<char> {
        match self {
            ParseErrorView::EOF => "unexpected end of file"@,
            ParseErrorView::InvalidNumber(text) => "invalid number: "@ + text,
            ParseErrorView::MissingOpenParenthesis => "missing opening parenthesis"@,
            ParseErrorView::MissingCLoseParenthesis => "missing closing parenthesis"@,
            ParseErrorView::InvalidCharacterEscape(text) => "invalid escape in string: "@ + text,
            ParseErrorView::TooMoreObjects => "only one object is allowed after a dot"@,
            ParseErrorView::InvalidDot => "dot is only allowed in the pair"@,
            ParseErrorView::Unimplemented(form) => form + " is not implemented"@,
        }
    }
}

impl ParseError {
    /// The message shown for the error.
    pub fn to_string(&self) -> (message: String)
        ensures
            message@ == self@.message(),
    {
        match self {
            ParseError::EOF => "unexpected end of file".to_owned(),
            ParseError::InvalidNumber(text) => labelled("invalid number: ", text),
            ParseError::MissingOpenParenthesis => "missing opening parenthesis".to_owned(),
            ParseError::MissingCLoseParenthesis => "missing closing parenthesis".to_owned(),
            ParseError::InvalidCharacterEscape(text) => labelled(
                "invalid escape in string: ",
                text,
            ),
            ParseError::TooMoreObjects => "only one object is allowed after a dot".to_owned(),
            ParseError::InvalidDot => "dot is only allowed in the pair".to_owned(),
            ParseError::Unimplemented(form) => {
                let mut message = form.clone();
                message.append(" is not implemented");
                message
            },
        }
    }
}

/// What is wrong with the operands handed to a procedure or a form.
#[derive(Debug, Clone, PartialEq)]
pub enum InvalidArgument {
    InvalidType(String, String),
    TooFewArguments(String, usize, usize),
    TooManyArguments(String, usize, usize),
    InvalidNumberOfArguments(String, usize, usize),
    ZeroDivisor,
}

/// The mathematical content of an [`InvalidArgument`].
pub enum InvalidArgumentView {
    InvalidType(Seq<char>, Seq<char>),
    TooFewArguments(Seq<char>, usize, usize),
    TooManyArguments(Seq<char>, usize, usize),
    InvalidNumberOfArguments(Seq<char>, usize, usize),
    ZeroDivisor,
}

impl View for InvalidArgument {
    type V = InvalidArgumentView;

    open spec fn view(&self) -> InvalidArgumentView {
        match self {
            InvalidArgument::InvalidType(value, expected) => InvalidArgumentView::InvalidType(
                value@,
                expected@,
            ),
            InvalidArgument::TooFewArguments(name, expected, actual) => {
                InvalidArgumentView::TooFewArguments(name@, *expected, *actual)
            },
            InvalidArgument::TooManyArguments(name, expected, actual) => {
                InvalidArgumentView::TooManyArguments(name@, *expected, *actual)
            },
            InvalidArgument::InvalidNumberOfArguments(name, expected, actual) => {
                InvalidArgumentView::InvalidNumberOfArguments(name@, *expected, *actual)
            },
            InvalidArgument::ZeroDivisor => InvalidArgumentView::ZeroDivisor,
        }
    }
}

/// The sentence `<name> expects <quantity><expected> arguments, but got
/// <actual> arguments`.
pub open spec fn arity_message(
    name: Seq<char>,
    quantity: Seq<char>,
    expected: usize,
    actual: usize,
) -> Seq<char> {
    name + " expects "@ + quantity + decimal(expected as nat) + " arguments, but got "@ + decimal(
        actual as nat,
    ) + " arguments"@
}

impl InvalidArgumentView {
    /// The message shown for the error.
    pub open spec fn message(self) -> Seq<char> {
        match self {
            InvalidArgumentView::InvalidType(value, expected) => value + " is not a "@ + expected,
            InvalidArgumentView::TooFewArguments(name, expected, actual) => arity_message(
                name,
                "at least "@,
                expected,
                actual,
            ),
            InvalidArgumentView::TooManyArguments(name, expected, actual) => arity_message(
                name,
                "at most "@,
                expected,
                actual,
            ),
            InvalidArgumentView::InvalidNumberOfArguments(name, expected, actual) => arity_message(
                name,
                ""@,
                expected,
                actual,
            ),
            InvalidArgumentView::ZeroDivisor => "division by zero"@,
        }
    }
}

fn arity_text(name: &String, quantity: &str, expected: usize, actual: usize) -> (message: String)
    ensures
        message@ == arity_message(name@, quantity@, expected, actual),
{
    let mut message = name.clone();
    message.append(" expects ");
    message.append(quantity);
    message.append(count_text(expected).as_str());
    message.append(" arguments, but got ");
    message.append(count_text(actual).as_str());
    message.append(" arguments");
    message
}

impl InvalidArgument {
    /// The message shown for the error.
    pub fn to_string(&self) -> (message: String)
        ensures
            message@ == self@.message(),
    {
        match self {
            InvalidArgument::InvalidType(value, expected) => {
                let mut message = value.clone();
                message.append(" is not a ");
                message.append(expected.as_str());
                message
            },
            InvalidArgument::TooFewArguments(name, expected, actual) => arity_text(
                name,
                "at least ",
                *expected,
                *actual,
            ),
            InvalidArgument::TooManyArguments(name, expected, actual) => arity_text(
                name,
                "at most ",
                *expected,
                *actual,
            ),
            InvalidArgument::InvalidNumberOfArguments(name, expected, actual) => arity_text(
                name,
                "",
                *expected,
                *actual,
            ),
            InvalidArgument::ZeroDivisor => "division by zero".to_owned(),
        }
    }
}

/// The fault that says `value` was expected to be a number.
pub fn invalid_number(value: &str) -> (fault: InvalidArgument)
    ensures
        fault@ == InvalidArgumentView::InvalidType(value@, "number"@),
{
    InvalidArgument::InvalidType(value.to_owned(), "number".to_owned())
}

/// The fault that says `value` was expected to be a symbol.
pub fn invalid_symbol(value: &str) -> (fault: InvalidArgument)
    ensures
        fault@ == InvalidArgumentView::InvalidType(value@, "symbol"@),
{
    InvalidArgument::InvalidType(value.to_owned(), "symbol".to_owned())
}

/// What `validate_number_of_arguments` answers for a procedure `name` that
/// takes between `least_expected` and `most_expected` operands and was given
/// `actual` of them: nothing when the count fits, else the fault.
pub open spec fn arity_fault(
    name: Seq<char>,
    least_expected: usize,
    most_expected: usize,
    actual: usize,
) -> Option<InvalidArgumentView> {
    if least_expected == most_expected && actual != least_expected {
        Some(InvalidArgumentView::InvalidNumberOfArguments(name, least_expected, actual))
    } else if actual < least_expected {
        Some(InvalidArgumentView::TooFewArguments(name, least_expected, actual))
    } else if actual > most_expected {
        Some(InvalidArgumentView::TooManyArguments(name, most_expected, actual))
    } else {
        None
    }
}

/// Checks an operand count against the bounds of the procedure `name`.
pub fn validate_number_of_arguments(
    name: &str,
    least_expected: usize,
    most_expected: usize,
    actual: usize,
) -> (checked: Result<(), InvalidArgument>)
    ensures
        match checked {
            Ok(_) => arity_fault(name@, least_expected, most_expected, actual) is None,
            Err(fault) => arity_fault(name@, least_expected, most_expected, actual) == Some(
                fault@,
            ),
        },
{
    if least_expected == most_expected && actual != least_expected {
        Err(InvalidArgument::InvalidNumberOfArguments(name.to_owned(), least_expected, actual))
    } else if actual < least_expected {
        Err(InvalidArgument::TooFewArguments(name.to_owned(), least_expected, actual))
    } else if actual > most_expected {
        Err(InvalidArgument::TooManyArguments(name.to_owned(), most_expected, actual))
    } else {
        Ok(())
    }
}

/// A fault met while applying a procedure.
#[derive(Debug, Clone, PartialEq)]
pub enum ApplyError {
    InvalidArgument(InvalidArgument),
    InvalidProcedure(String),
}

/// The mathematical content of an [`ApplyError`].
pub enum ApplyErrorView {
    InvalidArgument(InvalidArgumentView),
    InvalidProcedure(Seq<char>),
}

impl View for ApplyError {
    type V = ApplyErrorView;

    open spec fn view(&self) -> ApplyErrorView {
        match self {
            ApplyError::InvalidArgument(fault) => ApplyErrorView::InvalidArgument(fault@),
            ApplyError::InvalidProcedure(value) => ApplyErrorView::InvalidProcedure(value@),
        }
    }
}

impl ApplyErrorView {
    /// The message shown for the error.
    pub open spec fn message(self) -> Seq<char> {
        match self {
            ApplyErrorView::InvalidArgument(fault) => "invalid argument: "@ + fault.message(),
            ApplyErrorView::InvalidProcedure(value) => value + " is not a procedure"@,
        }
    }
}

impl ApplyError {
    /// The message shown for the error.
    pub fn to_string(&self) -> (message: String)
        ensures
            message@ == self@.message(),
    {
        match self {
            ApplyError::InvalidArgument(fault) => {
                let detail = fault.to_string();
                labelled("invalid argument: ", &detail)
            },
            ApplyError::InvalidProcedure(value) => {
                let mut message = value.clone();
                message.append(" is not a procedure");
                message
            },
        }
    }
}

/// A fault met while evaluating an expression.
#[derive(Debug, Clone, PartialEq)]
pub enum EvalError {
    UnknownIdentifier(String),
    ApplyError(ApplyError),
    /// The form is reserved but has no evaluation rule.
    Unimplemented(String),
    /// The evaluation used up its budget of steps.
    BudgetExhausted,
}

/// The mathematical content of an [`EvalError`].
pub enum EvalErrorView {
    UnknownIdentifier(Seq<char>),
    ApplyError(ApplyErrorView),
    Unimplemented(Seq<char>),
    BudgetExhausted,
}

impl View for EvalError {
    type V = EvalErrorView;

    open spec fn view(&self) -> EvalErrorView {
        match self {
            EvalError::UnknownIdentifier(name) => EvalErrorView::UnknownIdentifier(name@),
            EvalError::ApplyError(fault) => EvalErrorView::ApplyError(fault@),
            EvalError::Unimplemented(form) => EvalErrorView::Unimplemented(form@),
            EvalError::BudgetExhausted => EvalErrorView::BudgetExhausted,
        }
    }
}

impl EvalErrorView {
    /// The message shown for the error.
    pub open spec fn message(self) -> Seq<char> {
        match self {
            EvalErrorView::UnknownIdentifier(name) => "unknown identifier: "@ + name,
            EvalErrorView::ApplyError(fault) => fault.message(),
            EvalErrorView::Unimplemented(form) => form + " is not implemented"@,
            EvalErrorView::BudgetExhausted => "evaluation budget exhausted"@,
        }
    }
}

impl EvalError {
    /// The message shown for the error.
    pub fn to_string(&self) -> (message: String)
        ensures
            message@ == self@.message(),
    {
        match self {
            EvalError::UnknownIdentifier(name) => labelled("unknown identifier: ", name),
            EvalError::ApplyError(fault) => fault.to_string(),
            EvalError::Unimplemented(form) => {
                let mut message = form.clone();
                message.append(" is not implemented");
                message
            },
            EvalError::BudgetExhausted => "evaluation budget exhausted".to_owned(),
        }
    }
}

/// Any fault on the way from text to value.
#[derive(Debug, Clone, PartialEq)]
pub enum Error {
    Unimplemented(String),
    TokenError(TokenError),
    ParseError(ParseError),
    EvalError(EvalError),
}

/// The mathematical content of an [`Error`].
pub enum ErrorView {
    Unimplemented(Seq<char>),
    TokenError(TokenErrorView),
    ParseError(ParseErrorView),
    EvalError(EvalErrorView),
}

impl View for Error {
    type V = ErrorView;

    open spec fn view(&self) -> ErrorView {
        match self {
            Error::Unimplemented(form) => ErrorView::Unimplemented(form@),
            Error::TokenError(fault) => ErrorView::TokenError(fault@),
            Error::ParseError(fault) => ErrorView::ParseError(fault@),
            Error::EvalError(fault) => ErrorView::EvalError(fault@),
        }
    }
}

impl ErrorView {
    /// The message shown for the error.
    pub open spec fn message(self) -> Seq<char> {
        match self {
            ErrorView::Unimplemented(form) => form + " is not implemented"@,
            ErrorView::TokenError(fault) => fault.message(),
            ErrorView::ParseError(fault) => fault.message(),
            ErrorView::EvalError(fault) => fault.message(),
        }
    }
}

impl Error {
    /// The message shown for the error.
    pub fn to_string(&self) -> (message: String)
        ensures
            message@ == self@.message(),
    {
        match self {
            Error::Unimplemented(form) => {
                let mut message = form.clone();
                message.append(" is not implemented");
                message
            },
            Error::TokenError(fault) => fault.to_string(),
            Error::ParseError(fault) => fault.to_string(),
            Error::EvalError(fault) => fault.to_string(),
        }
    }
}

impl From<InvalidArgument> for ApplyError {
    fn from(error: InvalidArgument) -> (converted: ApplyError) {
        ApplyError::InvalidArgument(error)
    }
}

impl FromSpecImpl<InvalidArgument> for ApplyError {
    open spec fn obeys_from_spec() -> bool {
        true
    }

    open spec fn from_spec(error: InvalidArgument) -> ApplyError {
        ApplyError::InvalidArgument(error)
    }
}

impl From<ApplyError> for EvalError {
    fn from(error: ApplyError) -> (converted: EvalError) {
        EvalError::ApplyError(error)
    }
}

impl FromSpecImpl<ApplyError> for EvalError {
    open spec fn obeys_from_spec() -> bool {
        true
    }

    open spec fn from_spec(error: ApplyError) -> EvalError {
        EvalError::ApplyError(error)
    }
}

impl From<InvalidArgument> for EvalError {
    fn from(error: InvalidArgument) -> (converted: EvalError) {
        EvalError::ApplyError(ApplyError::InvalidArgument(error))
    }
}

impl FromSpecImpl<InvalidArgument> for EvalError {
    open spec fn obeys_from_spec() -> bool {
        true
    }

    open spec fn from_spec(error: InvalidArgument) -> EvalError {
        EvalError::ApplyError(ApplyError::InvalidArgument(error))
    }
}

impl From<TokenError> for Error {
    fn from(error: TokenError) -> (converted: Error) {
        Error::TokenError(error)
    }
}

impl FromSpecImpl<TokenError> for Error {
    open spec fn obeys_from_spec() -> bool {
        true
    }

    open spec fn from_spec(error: TokenError) -> Error {
        Error::TokenError(error)
    }
}

impl From<ParseError> for Error {
    fn from(error: ParseError) -> (converted: Error) {
        match error {
            ParseError::Unimplemented(form) => Error::Unimplemented(form),
            other => Error::ParseError(other),
        }
    }
}

impl FromSpecImpl<ParseError> for Error {
    open spec fn obeys_from_spec() -> bool {
        true
    }

    open spec fn from_spec(error: ParseError) -> Error {
        match error {
            ParseError::Unimplemented(form) => Error::Unimplemented(form),
            other => Error::ParseError(other),
        }
    }
}

impl From<EvalError> for Error {
    fn from(error: EvalError) -> (converted: Error) {
        match error {
            EvalError::Unimplemented(form) => Error::Unimplemented(form),
            other => Error::EvalError(other),
        }
    }
}

impl FromSpecImpl<EvalError> for Error {
    open spec fn obeys_from_spec() -> bool {
        true
    }

    open spec fn from_spec(error: EvalError) -> Error {
        match error {
            EvalError::Unimplemented(form) => Error::Unimplemented(form),
            other => Error::EvalError(other),
        }
    }
}

impl ErrorView {
    /// A fault of the parser, among the faults from text to value: what has
    /// no rule is reported so, whatever stage met it.
    pub open spec fn of_parse(fault: ParseErrorView) -> ErrorView {
        match fault {
            ParseErrorView::Unimplemented(form) => ErrorView::Unimplemented(form),
            other => ErrorView::ParseError(other),
        }
    }

    /// A fault of the evaluator, among the faults from text to value.
    pub open spec fn of_eval(fault: EvalErrorView) -> ErrorView {
        match fault {
            EvalErrorView::Unimplemented(form) => ErrorView::Unimplemented(form),
            other => ErrorView::EvalError(other),
        }
    }
}

} // verus!
