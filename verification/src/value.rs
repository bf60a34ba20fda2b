//! Runtime values: expressions, procedures, pending tail calls, and the
//! value of forms that are evaluated for their effect.
use vstd::prelude::*;
use crate::data_model::{Datum, Expression, Link, Pair, Promise};
use crate::number::Number;
use crate::printer::print_datum;
use crate::reals::{unit_ready, RealUnit};
use crate::text::same_text;

verus! {

/// The procedures that the interpreter provides.
#[derive(Debug, Clone, Copy, PartialEq, Eq, Structural)]
pub enum Builtin {
    Add,
    Sub,
    Mul,
    Div,
    MathEqual,
    LessThan,
    LessThanOrEqual,
    GreaterThan,
    GreaterThanOrEqual,
    IsPair,
    Car,
    Cdr,
    Cons,
    IsNull,
    List,
    Length,
    Not,
    IsNumber,
    IsSymbol,
    IsString,
    IsBoolean,
    IsProcedure,
    IsVector,
    Abs,
    Min,
    Max,
    Quotient,
    Remainder,
    Modulo,
    Expt,
    IsInteger,
    IsReal,
    IsComplex,
    Append,
    Reverse,
    ListRef,
    ListTail,
    IsEq,
    IsEqv,
    IsEqual,
    StringLength,
    StringRef,
    Substring,
    StringAppend,
    StringToSymbol,
    SymbolToString,
    MakeVector,
    Vector,
    VectorLength,
    VectorRef,
    VectorToList,
    ListToVector,
}

impl Builtin {
    /// The name under which the procedure is bound in the global frame.
    pub open spec fn spec_name(self) -> Seq<char> {
        match self {
            Builtin::Add => "+"@,
            Builtin::Sub => "-"@,
            Builtin::Mul => "*"@,
            Builtin::Div => "/"@,
            Builtin::MathEqual => "="@,
            Builtin::LessThan => "<"@,
            Builtin::LessThanOrEqual => "<="@,
            Builtin::GreaterThan => ">"@,
            Builtin::GreaterThanOrEqual => ">="@,
            Builtin::IsPair => "pair?"@,
            Builtin::Car => "car"@,
            Builtin::Cdr => "cdr"@,
            Builtin::Cons => "cons"@,
            Builtin::IsNull => "null?"@,
            Builtin::List => "list"@,
            Builtin::Length => "length"@,
            Builtin::Not => "not"@,
            Builtin::IsNumber => "number?"@,
            Builtin::IsSymbol => "symbol?"@,
            Builtin::IsString => "string?"@,
            Builtin::IsBoolean => "boolean?"@,
            Builtin::IsProcedure => "procedure?"@,
            Builtin::IsVector => "vector?"@,
            Builtin::Abs => "abs"@,
            Builtin::Min => "min"@,
            Builtin::Max => "max"@,
            Builtin::Quotient => "quotient"@,
            Builtin::Remainder => "remainder"@,
            Builtin::Modulo => "modulo"@,
            Builtin::Expt => "expt"@,
            Builtin::IsInteger => "integer?"@,
            Builtin::IsReal => "real?"@,
            Builtin::IsComplex => "complex?"@,
            Builtin::Append => "append"@,
            Builtin::Reverse => "reverse"@,
            Builtin::ListRef => "list-ref"@,
            Builtin::ListTail => "list-tail"@,
            Builtin::IsEq => "eq?"@,
            Builtin::IsEqv => "eqv?"@,
            Builtin::IsEqual => "equal?"@,
            Builtin::StringLength => "string-length"@,
            Builtin::StringRef => "string-ref"@,
            Builtin::Substring => "substring"@,
            Builtin::StringAppend => "string-append"@,
            Builtin::StringToSymbol => "string->symbol"@,
            Builtin::SymbolToString => "symbol->string"@,
            Builtin::MakeVector => "make-vector"@,
            Builtin::Vector => "vector"@,
            Builtin::VectorLength => "vector-length"@,
            Builtin::VectorRef => "vector-ref"@,
            Builtin::VectorToList => "vector->list"@,
            Builtin::ListToVector => "list->vector"@,
        }
    }

    /// The name under which the procedure is bound in the global frame.
    pub fn name(&self) -> (name: &'static str)
        ensures
            name@ == self.spec_name(),
    {
        match self {
            Builtin::Add => "+",
            Builtin::Sub => "-",
            Builtin::Mul => "*",
            Builtin::Div => "/",
            Builtin::MathEqual => "=",
            Builtin::LessThan => "<",
            Builtin::LessThanOrEqual => "<=",
            Builtin::GreaterThan => ">",
            Builtin::GreaterThanOrEqual => ">=",
            Builtin::IsPair => "pair?",
            Builtin::Car => "car",
            Builtin::Cdr => "cdr",
            Builtin::Cons => "cons",
            Builtin::IsNull => "null?",
            Builtin::List => "list",
            Builtin::Length => "length",
            Builtin::Not => "not",
            Builtin::IsNumber => "number?",
            Builtin::IsSymbol => "symbol?",
            Builtin::IsString => "string?",
            Builtin::IsBoolean => "boolean?",
            Builtin::IsProcedure => "procedure?",
            Builtin::IsVector => "vector?",
            Builtin::Abs => "abs",
            Builtin::Min => "min",
            Builtin::Max => "max",
            Builtin::Quotient => "quotient",
            Builtin::Remainder => "remainder",
            Builtin::Modulo => "modulo",
            Builtin::Expt => "expt",
            Builtin::IsInteger => "integer?",
            Builtin::IsReal => "real?",
            Builtin::IsComplex => "complex?",
            Builtin::Append => "append",
            Builtin::Reverse => "reverse",
            Builtin::ListRef => "list-ref",
            Builtin::ListTail => "list-tail",
            Builtin::IsEq => "eq?",
            Builtin::IsEqv => "eqv?",
            Builtin::IsEqual => "equal?",
            Builtin::StringLength => "string-length",
            Builtin::StringRef => "string-ref",
            Builtin::Substring => "substring",
            Builtin::StringAppend => "string-append",
            Builtin::StringToSymbol => "string->symbol",
            Builtin::SymbolToString => "symbol->string",
            Builtin::MakeVector => "make-vector",
            Builtin::Vector => "vector",
            Builtin::VectorLength => "vector-length",
            Builtin::VectorRef => "vector-ref",
            Builtin::VectorToList => "vector->list",
            Builtin::ListToVector => "list->vector",
        }
    }
}

/// A procedure that the interpreter provides.
#[derive(Debug, Clone, Copy, PartialEq, Eq, Structural)]
pub struct BuiltinProcedure {
    pub function: Builtin,
}

/// The procedures that act on the canvas.
#[derive(Debug, Clone, Copy, PartialEq, Eq, Structural)]
pub enum Turtle {
    Forward,
    Backward,
    Right,
    Left,
    SetPosition,
    SetHeading,
    Position,
    Heading,
    BeginFill,
    EndFill,
    PenUp,
    PenDown,
    Reset,
    ShowTurtle,
    HideTurtle,
    IsVisible,
}

impl Turtle {
    /// The name that the procedure reports itself under.
    pub open spec fn spec_name(self) -> Seq<char> {
        match self {
            Turtle::Forward => "forward"@,
            Turtle::Backward => "backward"@,
            Turtle::Right => "right"@,
            Turtle::Left => "left"@,
            Turtle::SetPosition => "setposition"@,
            Turtle::SetHeading => "setheading"@,
            Turtle::Position => "position"@,
            Turtle::Heading => "heading"@,
            Turtle::BeginFill => "begin-fill"@,
            Turtle::EndFill => "end-fill"@,
            Turtle::PenUp => "penup"@,
            Turtle::PenDown => "pendown"@,
            Turtle::Reset => "reset"@,
            Turtle::ShowTurtle => "showturtle"@,
            Turtle::HideTurtle => "hideturtle"@,
            Turtle::IsVisible => "visible?"@,
        }
    }

    /// The name that the procedure reports itself under.
    pub fn name(&self) -> (name: &'static str)
        ensures
            name@ == self.spec_name(),
    {
        match self {
            Turtle::Forward => "forward",
            Turtle::Backward => "backward",
            Turtle::Right => "right",
            Turtle::Left => "left",
            Turtle::SetPosition => "setposition",
            Turtle::SetHeading => "setheading",
            Turtle::Position => "position",
            Turtle::Heading => "heading",
            Turtle::BeginFill => "begin-fill",
            Turtle::EndFill => "end-fill",
            Turtle::PenUp => "penup",
            Turtle::PenDown => "pendown",
            Turtle::Reset => "reset",
            Turtle::ShowTurtle => "showturtle",
            Turtle::HideTurtle => "hideturtle",
            Turtle::IsVisible => "visible?",
        }
    }
}

/// A procedure that acts on the canvas.
#[derive(Debug, Clone, Copy, PartialEq, Eq, Structural)]
pub struct GraphicProcedure {
    pub function: Turtle,
}

/// The procedures that write to the output of the session.
#[derive(Debug, Clone, Copy, PartialEq, Eq, Structural)]
pub enum Port {
    Display,
    Newline,
}

/// The procedures that evaluate or apply what they are given.
#[derive(Debug, Clone, Copy, PartialEq, Eq, Structural)]
pub enum Control {
    Force,
    MapList,
    ForEach,
}

impl Port {
    /// The name under which the procedure is bound in the global frame.
    pub open spec fn spec_name(self) -> Seq<char> {
        match self {
            Port::Display => "display"@,
            Port::Newline => "newline"@,
        }
    }

    /// The name under which the procedure is bound in the global frame.
    pub fn name(&self) -> (name: &'static str)
        ensures
            name@ == self.spec_name(),
    {
        match self {
            Port::Display => "display",
            Port::Newline => "newline",
        }
    }
}

impl Control {
    /// The name under which the procedure is bound in the global frame.
    pub open spec fn spec_name(self) -> Seq<char> {
        match self {
            Control::Force => "force"@,
            Control::MapList => "map"@,
            Control::ForEach => "for-each"@,
        }
    }

    /// The name under which the procedure is bound in the global frame.
    pub fn name(&self) -> (name: &'static str)
        ensures
            name@ == self.spec_name(),
    {
        match self {
            Control::Force => "force",
            Control::MapList => "map",
            Control::ForEach => "for-each",
        }
    }
}

/// A procedure made by `lambda`.
#[derive(Debug, Clone, PartialEq)]
pub struct LambdaProcedure {
    /// The name it was defined under, where `define` made it.
    pub name: Option<String>,
    pub formals: Vec<String>,
    /// The formal that takes the operands beyond `formals`, if any.
    pub rest: Option<String>,
    pub body: Link,
    /// The number of the frame that was current when `lambda` was
    /// evaluated.
    pub frame: usize,
}

/// What can be applied to operands: a procedure of the roster, one that
/// draws, one that writes, one that calls back into the evaluator, or one
/// that a `lambda` made.
#[derive(Debug, Clone, PartialEq)]
pub enum Procedure {
    Builtin(BuiltinProcedure),
    Graphic(GraphicProcedure),
    Port(Port),
    Control(Control),
    Lambda(LambdaProcedure),
}

/// A call in tail position, not yet made: the expression and the number of
/// the frame to evaluate it in.
#[derive(Debug, Clone, PartialEq)]
pub struct Thunk {
    pub content: Link,
    pub frame: usize,
}

/// Every value that evaluation yields.
#[derive(Debug, Clone, PartialEq)]
pub enum Value {
    Expression(Expression),
    Procedure(Procedure),
    Thunk(Thunk),
    Void,
    /// What a name of `letrec` is bound to until its own expression has
    /// been evaluated: a name so bound counts as not yet known.
    Uninitialized,
}

/// The mathematical model of a [`LambdaProcedure`].
pub struct Closure {
    pub name: Option<Seq<char>>,
    pub formals: Seq<Seq<char>>,
    pub rest: Option<Seq<char>>,
    pub body: Datum,
    pub frame: usize,
}

/// The mathematical model of a [`Value`].
pub enum Val {
    Datum(Datum),
    Builtin(Builtin),
    Graphic(Turtle),
    Port(Port),
    Control(Control),
    Lambda(Closure),
    Thunk(Datum, usize),
    Void,
    Uninitialized,
}

/// The characters of each of a run of texts.
pub open spec fn texts(names: Seq<String>) -> Seq<Seq<char>> {
    Seq::new(names.len(), |i: int| names[i]@)
}

/// The characters of a text that may be absent.
pub open spec fn optional_text(name: Option<String>) -> Option<Seq<char>> {
    match name {
        Some(name) => Some(name@),
        None => None,
    }
}

impl View for LambdaProcedure {
    type V = Closure;

    open spec fn view(&self) -> Closure {
        Closure {
            name: optional_text(self.name),
            formals: texts(self.formals@),
            rest: optional_text(self.rest),
            body: self.body@,
            frame: self.frame,
        }
    }
}

impl View for Procedure {
    type V = Val;

    open spec fn view(&self) -> Val {
        match self {
            Procedure::Builtin(builtin) => Val::Builtin(builtin.function),
            Procedure::Graphic(graphic) => Val::Graphic(graphic.function),
            Procedure::Port(port) => Val::Port(*port),
            Procedure::Control(control) => Val::Control(*control),
            Procedure::Lambda(lambda) => Val::Lambda(lambda@),
        }
    }
}

impl View for Value {
    type V = Val;

    open spec fn view(&self) -> Val {
        match self {
            Value::Expression(expression) => Val::Datum(expression@),
            Value::Procedure(procedure) => procedure@,
            Value::Thunk(thunk) => Val::Thunk(thunk.content@, thunk.frame),
            Value::Void => Val::Void,
            Value::Uninitialized => Val::Uninitialized,
        }
    }
}

/// The models of a run of values.
pub open spec fn value_views(values: Seq<Value>) -> Seq<Val> {
    Seq::new(values.len(), |i: int| values[i]@)
}

/// The text of a value that is no expression: a procedure between `#[`
/// and `]`, nothing for the void value.
pub open spec fn print_opaque(v: Val) -> Seq<char> {
    match v {
        Val::Builtin(builtin) => "#["@ + builtin.spec_name() + "]"@,
        Val::Graphic(function) => "#["@ + function.spec_name() + "]"@,
        Val::Port(port) => "#["@ + port.spec_name() + "]"@,
        Val::Control(control) => "#["@ + control.spec_name() + "]"@,
        Val::Lambda(closure) => match closure.name {
            Some(name) => "#[lambda: "@ + name + "]"@,
            None => "#[lambda]"@,
        },
        Val::Thunk(_, _) => "#[thunk]"@,
        Val::Uninitialized => "#[uninitialized]"@,
        _ => Seq::empty(),
    }
}

/// Whether a value is a procedure.
pub open spec fn applicable(v: Val) -> bool {
    v is Builtin || v is Graphic || v is Port || v is Control || v is Lambda
}

/// The text of a value.
pub open spec fn print_val<U: RealUnit>(unit: &U, v: Val) -> Seq<char> {
    match v {
        Val::Datum(d) => print_datum(unit, d),
        other => print_opaque(other),
    }
}

fn duplicate_text(name: &Option<String>) -> (copy: Option<String>)
    ensures
        optional_text(copy) == optional_text(*name),
{
    match name {
        Some(name) => Some(name.clone()),
        None => None,
    }
}

fn duplicate_texts(names: &Vec<String>) -> (copy: Vec<String>)
    ensures
        texts(copy@) == texts(names@),
{
    let mut copy: Vec<String> = Vec::new();
    let mut index: usize = 0;
    while index < names.len()
        invariant
            index <= names.len(),
            copy@.len() == index,
            forall|i: int| 0 <= i < index ==> (#[trigger] copy@[i])@ == names@[i]@,
        decreases names.len() - index,
    {
        copy.push(names[index].clone());
        index += 1;
    }
    assert(texts(copy@) =~= texts(names@));
    copy
}

impl LambdaProcedure {
    /// A copy that shares the body.
    pub fn duplicate(&self) -> (copy: LambdaProcedure)
        ensures
            copy@ == self@,
    {
        LambdaProcedure {
            name: duplicate_text(&self.name),
            formals: duplicate_texts(&self.formals),
            rest: duplicate_text(&self.rest),
            body: self.body.duplicate(),
            frame: self.frame,
        }
    }

    /// Writes the procedure.
    pub fn to_string(&self) -> (text: String)
        ensures
            text@ == print_opaque(Val::Lambda(self@)),
    {
        match &self.name {
            Some(name) => {
                let mut text = "#[lambda: ".to_owned();
                text.append(name.as_str());
                text.append("]");
                text
            },
            None => "#[lambda]".to_owned(),
        }
    }
}

fn bracketed(name: &str) -> (text: String)
    ensures
        text@ == "#["@ + name@ + "]"@,
{
    let mut text = "#[".to_owned();
    text.append(name);
    text.append("]");
    text
}

impl BuiltinProcedure {
    /// The name of the procedure.
    pub fn name(&self) -> (name: &'static str)
        ensures
            name@ == self.function.spec_name(),
    {
        self.function.name()
    }

    /// Writes the procedure.
    pub fn to_string(&self) -> (text: String)
        ensures
            text@ == print_opaque(Val::Builtin(self.function)),
    {
        let mut text = "#[".to_owned();
        text.append(self.function.name());
        text.append("]");
        text
    }
}

impl GraphicProcedure {
    /// The name of the procedure.
    pub fn name(&self) -> (name: &'static str)
        ensures
            name@ == self.function.spec_name(),
    {
        self.function.name()
    }

    /// Writes the procedure.
    pub fn to_string(&self) -> (text: String)
        ensures
            text@ == print_opaque(Val::Graphic(self.function)),
    {
        let mut text = "#[".to_owned();
        text.append(self.function.name());
        text.append("]");
        text
    }
}

impl Procedure {
    /// A copy that shares the body.
    pub fn duplicate(&self) -> (copy: Procedure)
        ensures
            copy@ == self@,
    {
        match self {
            Procedure::Builtin(builtin) => Procedure::Builtin(*builtin),
            Procedure::Graphic(graphic) => Procedure::Graphic(*graphic),
            Procedure::Port(port) => Procedure::Port(*port),
            Procedure::Control(control) => Procedure::Control(*control),
            Procedure::Lambda(lambda) => Procedure::Lambda(lambda.duplicate()),
        }
    }

    /// Writes the procedure.
    pub fn to_string(&self) -> (text: String)
        ensures
            text@ == print_opaque(self@),
    {
        match self {
            Procedure::Builtin(builtin) => builtin.to_string(),
            Procedure::Graphic(graphic) => graphic.to_string(),
            Procedure::Port(port) => bracketed(port.name()),
            Procedure::Control(control) => bracketed(control.name()),
            Procedure::Lambda(lambda) => lambda.to_string(),
        }
    }
}

impl Value {
    /// A copy that shares what the value holds.
    pub fn duplicate(&self) -> (copy: Value)
        ensures
            copy@ == self@,
    {
        match self {
            Value::Expression(expression) => Value::Expression(
                Expression::from_link(expression.content.duplicate()),
            ),
            Value::Procedure(procedure) => Value::Procedure(procedure.duplicate()),
            Value::Thunk(thunk) => Value::Thunk(
                Thunk { content: thunk.content.duplicate(), frame: thunk.frame },
            ),
            Value::Void => Value::Void,
            Value::Uninitialized => Value::Uninitialized,
        }
    }

    /// Writes the value.
    pub fn to_string<U: RealUnit>(&self, unit: &U) -> (text: String)
        requires
            unit_ready(unit),
        ensures
            text@ == print_val(unit, self@),
    {
        match self {
            Value::Expression(expression) => expression.to_string(unit),
            Value::Procedure(procedure) => procedure.to_string(),
            Value::Thunk(_) => "#[thunk]".to_owned(),
            Value::Void => String::new(),
            Value::Uninitialized => "#[uninitialized]".to_owned(),
        }
    }

    /// The value that holds the slot, an expression.
    pub fn from_link(link: Link) -> (value: Value)
        ensures
            value@ == Val::Datum(link@),
    {
        Value::Expression(Expression::from_link(link))
    }

    /// The value of a number.
    pub fn from_number(number: Number) -> (value: Value)
        ensures
            value@ == Val::Datum(Datum::Number(number)),
    {
        Value::from_link(Link::from_number(number))
    }

    /// The value of a boolean.
    pub fn from_boolean(boolean: bool) -> (value: Value)
        ensures
            value@ == Val::Datum(Datum::Boolean(boolean)),
    {
        Value::from_link(Link::from_boolean(boolean))
    }

    /// The value that is a provided procedure.
    pub fn from_builtin(function: Builtin) -> (value: Value)
        ensures
            value@ == Val::Builtin(function),
    {
        Value::Procedure(Procedure::Builtin(BuiltinProcedure { function }))
    }

    /// The value that is a procedure on the canvas.
    pub fn from_graphic(function: Turtle) -> (value: Value)
        ensures
            value@ == Val::Graphic(function),
    {
        Value::Procedure(Procedure::Graphic(GraphicProcedure { function }))
    }

    pub fn as_expression(&self) -> (expression: Option<&Expression>)
        ensures
            match expression {
                Some(expression) => *self == Value::Expression(*expression),
                None => !(self is Expression),
            },
    {
        match self {
            Value::Expression(expression) => Some(expression),
            _ => None,
        }
    }

    pub fn as_procedure(&self) -> (procedure: Option<&Procedure>)
        ensures
            match procedure {
                Some(procedure) => *self == Value::Procedure(*procedure),
                None => !(self is Procedure),
            },
    {
        match self {
            Value::Procedure(procedure) => Some(procedure),
            _ => None,
        }
    }

    pub fn as_thunk(&self) -> (thunk: Option<&Thunk>)
        ensures
            match thunk {
                Some(thunk) => *self == Value::Thunk(*thunk),
                None => !(self is Thunk),
            },
    {
        match self {
            Value::Thunk(thunk) => Some(thunk),
            _ => None,
        }
    }

    pub fn as_number(&self) -> (number: Option<&Number>)
        ensures
            match number {
                Some(number) => self@ == Val::Datum(Datum::Number(*number)),
                None => !(self@ matches Val::Datum(Datum::Number(_))),
            },
    {
        match self {
            Value::Expression(expression) => expression.as_number(),
            _ => None,
        }
    }

    pub fn as_string(&self) -> (text: Option<&str>)
        ensures
            match text {
                Some(text) => self@ == Val::Datum(Datum::String(text@)),
                None => !(self@ matches Val::Datum(Datum::String(_))),
            },
    {
        match self {
            Value::Expression(expression) => expression.as_string(),
            _ => None,
        }
    }

    pub fn as_boolean(&self) -> (boolean: Option<&bool>)
        ensures
            match boolean {
                Some(boolean) => self@ == Val::Datum(Datum::Boolean(*boolean)),
                None => !(self@ matches Val::Datum(Datum::Boolean(_))),
            },
    {
        match self {
            Value::Expression(expression) => expression.as_boolean(),
            _ => None,
        }
    }

    pub fn as_symbol(&self) -> (name: Option<&str>)
        ensures
            match name {
                Some(name) => self@ == Val::Datum(Datum::Symbol(name@)),
                None => !(self@ matches Val::Datum(Datum::Symbol(_))),
            },
    {
        match self {
            Value::Expression(expression) => expression.as_symbol(),
            _ => None,
        }
    }

    pub fn as_pair(&self) -> (pair: Option<&Pair>)
        ensures
            match pair {
                Some(pair) => self@ == Val::Datum(
                    Datum::Pair(Box::new(pair.car@), Box::new(pair.cdr@)),
                ),
                None => !(self@ matches Val::Datum(Datum::Pair(_, _))),
            },
    {
        match self {
            Value::Expression(expression) => expression.as_pair(),
            _ => None,
        }
    }

    pub fn as_vector(&self) -> (slots: Option<&Vec<Link>>)
        ensures
            match slots {
                Some(slots) => self@ == Val::Datum(
                    Datum::Vector(crate::data_model::link_views(slots@)),
                ),
                None => !(self@ matches Val::Datum(Datum::Vector(_))),
            },
    {
        match self {
            Value::Expression(expression) => expression.as_vector(),
            _ => None,
        }
    }

    pub fn as_promise(&self) -> (promise: Option<&Promise>)
        ensures
            match promise {
                Some(promise) => self@ == Val::Datum(
                    Datum::Promise(Box::new(promise.content@), promise.frame),
                ),
                None => !(self@ matches Val::Datum(Datum::Promise(_, _))),
            },
    {
        match self {
            Value::Expression(expression) => expression.as_promise(),
            _ => None,
        }
    }

    /// Whether the value counts as true: every value but `#f` does.
    pub fn is_true(&self) -> (yes: bool)
        ensures
            yes == (self@ != Val::Datum(Datum::Boolean(false))),
    {
        match self.as_boolean() {
            Some(boolean) => *boolean,
            None => true,
        }
    }
}

fn same_optional(a: &Option<String>, b: &Option<String>) -> (same: bool)
    ensures
        same == (optional_text(*a) == optional_text(*b)),
{
    match (a, b) {
        (Some(a), Some(b)) => same_text(a.as_str(), b.as_str()),
        (None, None) => true,
        _ => false,
    }
}

fn same_texts(a: &Vec<String>, b: &Vec<String>) -> (same: bool)
    ensures
        same == (texts(a@) == texts(b@)),
{
    if a.len() != b.len() {
        assert(texts(a@).len() != texts(b@).len());
        return false;
    }
    let mut index: usize = 0;
    while index < a.len()
        invariant
            index <= a@.len(),
            a@.len() == b@.len(),
            forall|i: int| 0 <= i < index ==> texts(a@)[i] == texts(b@)[i],
        decreases a.len() - index,
    {
        if !same_text(a[index].as_str(), b[index].as_str()) {
            assert(texts(a@)[index as int] != texts(b@)[index as int]);
            return false;
        }
        index += 1;
    }
    assert(texts(a@) =~= texts(b@));
    true
}

impl Value {
    /// Whether the two values are alike in every part.
    pub fn same_as(&self, other: &Value) -> (same: bool)
        ensures
            same == (self@ == other@),
    {
        match (self, other) {
            (Value::Expression(a), Value::Expression(b)) => a.content.same_as(&b.content),
            (Value::Void, Value::Void) => true,
            (Value::Uninitialized, Value::Uninitialized) => true,
            (Value::Thunk(a), Value::Thunk(b)) => a.frame == b.frame && a.content.same_as(
                &b.content,
            ),
            (Value::Procedure(a), Value::Procedure(b)) => match (a, b) {
                (Procedure::Builtin(a), Procedure::Builtin(b)) => a.function == b.function,
                (Procedure::Graphic(a), Procedure::Graphic(b)) => a.function == b.function,
                (Procedure::Port(a), Procedure::Port(b)) => *a == *b,
                (Procedure::Control(a), Procedure::Control(b)) => *a == *b,
                (Procedure::Lambda(a), Procedure::Lambda(b)) => same_optional(&a.name, &b.name)
                    && same_texts(&a.formals, &b.formals) && same_optional(&a.rest, &b.rest)
                    && a.body.same_as(&b.body) && a.frame == b.frame,
                _ => false,
            },
            _ => false,
        }
    }
}

} // verus!
