//! The values of the interpreter and their mathematical models.
use std::rc::Rc;
use vstd::prelude::*;
use crate::number::Number;
use crate::text::same_text;

verus! {

/// The mathematical model of an expression: what the parser builds and
/// what `quote` hands to a program.
pub enum Datum {
    Nil,
    Number(Number),
    String(Seq<char>),
    Boolean(bool),
    Symbol(Seq<char>),
    Pair(Box<Datum>, Box<Datum>),
    Vector(Seq<Datum>),
    /// A delayed expression and the number of the frame it was delayed in.
    Promise(Box<Datum>, usize),
}

/// An expression as the parser returns it and the evaluator takes it.
#[derive(Debug, Clone, PartialEq)]
pub struct Expression {
    pub content: Link,
}

/// A slot of a pair or a vector: the empty list, or a shared cell.
#[derive(Debug, Clone, PartialEq)]
pub enum Link {
    More(Rc<ExpressionContent>),
    Nil,
}

/// What a shared cell holds.
#[derive(Debug, Clone, PartialEq)]
pub enum ExpressionContent {
    Number(Number),
    String(String),
    Boolean(bool),
    Symbol(String),
    PairLink(Pair),
    VectorLink(Vec<Link>),
    Promise(Promise),
}

/// A pair of two slots.
#[derive(Debug, Clone, PartialEq)]
pub struct Pair {
    pub car: Link,
    pub cdr: Link,
}

/// A delayed expression with the number of the frame it was delayed in.
#[derive(Debug, Clone, PartialEq)]
pub struct Promise {
    pub content: Link,
    pub frame: usize,
}

/// The model of what `link` holds.
pub open spec fn link_datum(link: Link) -> Datum
    decreases link,
{
    match link {
        Link::Nil => Datum::Nil,
        Link::More(content) => content_datum(*content),
    }
}

/// The model of what a cell holds.
pub open spec fn content_datum(content: ExpressionContent) -> Datum
    decreases content,
{
    match content {
        ExpressionContent::Number(number) => Datum::Number(number),
        ExpressionContent::String(text) => Datum::String(text@),
        ExpressionContent::Boolean(boolean) => Datum::Boolean(boolean),
        ExpressionContent::Symbol(name) => Datum::Symbol(name@),
        ExpressionContent::PairLink(pair) => Datum::Pair(
            Box::new(link_datum(pair.car)),
            Box::new(link_datum(pair.cdr)),
        ),
        ExpressionContent::VectorLink(items) => Datum::Vector(
            Seq::new(
                items@.len(),
                |i: int|
                    if 0 <= i < items@.len() {
                        link_datum(items@[i])
                    } else {
                        Datum::Nil
                    },
            ),
        ),
        ExpressionContent::Promise(promise) => Datum::Promise(
            Box::new(link_datum(promise.content)),
            promise.frame,
        ),
    }
}

impl View for Link {
    type V = Datum;

    open spec fn view(&self) -> Datum {
        link_datum(*self)
    }
}

impl View for ExpressionContent {
    type V = Datum;

    open spec fn view(&self) -> Datum {
        content_datum(*self)
    }
}

impl View for Expression {
    type V = Datum;

    open spec fn view(&self) -> Datum {
        link_datum(self.content)
    }
}

/// Another handle on a shared cell. Stands for `Rc::clone`, which returns a
/// pointer to the same allocation and leaves the contents alone.
#[verifier::external_body]
pub(crate) fn share(cell: &Rc<ExpressionContent>) -> (shared: Rc<ExpressionContent>)
    ensures
        shared == *cell,
{
    Rc::clone(cell)
}

impl Link {
    /// A pair of the two slots, in a cell of its own.
    pub fn new_pair(car: Link, cdr: Link) -> (link: Link)
        ensures
            link@ == Datum::Pair(Box::new(car@), Box::new(cdr@)),
            link == Link::More(Rc::new(ExpressionContent::PairLink(Pair { car, cdr }))),
    {
        Link::More(Rc::new(ExpressionContent::PairLink(Pair { car, cdr })))
    }

    /// Another handle on what the slot holds.
    pub fn duplicate(&self) -> (copy: Link)
        ensures
            copy == *self,
    {
        match self {
            Link::More(cell) => Link::More(share(cell)),
            Link::Nil => Link::Nil,
        }
    }

    /// What the slot holds, where it is not the empty list.
    pub fn as_expression_content(&self) -> (content: Option<&ExpressionContent>)
        ensures
            match content {
                Some(content) => *self == Link::More(Rc::new(*content)),
                None => *self == Link::Nil,
            },
    {
        match self {
            Link::More(cell) => Some(&**cell),
            Link::Nil => None,
        }
    }
}

/// The elements of the list `d`, up to the first cell that is not a pair.
pub open spec fn items(d: Datum) -> Seq<Datum>
    decreases d,
{
    match d {
        Datum::Pair(car, cdr) => seq![*car] + items(*cdr),
        _ => Seq::empty(),
    }
}

/// What stands where the pairs of the list `d` end: the empty list for a
/// proper list.
pub open spec fn ending(d: Datum) -> Datum
    decreases d,
{
    match d {
        Datum::Pair(_, cdr) => ending(*cdr),
        other => other,
    }
}

/// The list of the elements `elements`, ending in `end`.
pub open spec fn list_of(elements: Seq<Datum>, end: Datum) -> Datum
    decreases elements.len(),
{
    if elements.len() == 0 {
        end
    } else {
        Datum::Pair(Box::new(elements[0]), Box::new(list_of(elements.drop_first(), end)))
    }
}

/// The models of a run of slots.
pub open spec fn link_views(links: Seq<Link>) -> Seq<Datum> {
    Seq::new(links.len(), |i: int| links[i]@)
}

impl Pair {
    /// Another handle on the first slot.
    pub fn car(&self) -> (car: Link)
        ensures
            car == self.car,
    {
        self.car.duplicate()
    }

    /// Another handle on the second slot.
    pub fn cdr(&self) -> (cdr: Link)
        ensures
            cdr == self.cdr,
    {
        self.cdr.duplicate()
    }
}

impl ExpressionContent {
    pub fn as_number(&self) -> (number: Option<&Number>)
        ensures
            match number {
                Some(number) => *self == ExpressionContent::Number(*number),
                None => !(self is Number),
            },
    {
        match self {
            ExpressionContent::Number(number) => Some(number),
            _ => None,
        }
    }

    pub fn as_string(&self) -> (text: Option<&str>)
        ensures
            match text {
                Some(text) => self@ == Datum::String(text@),
                None => !(self is String),
            },
    {
        match self {
            ExpressionContent::String(text) => Some(text.as_str()),
            _ => None,
        }
    }

    pub fn as_boolean(&self) -> (boolean: Option<&bool>)
        ensures
            match boolean {
                Some(boolean) => *self == ExpressionContent::Boolean(*boolean),
                None => !(self is Boolean),
            },
    {
        match self {
            ExpressionContent::Boolean(boolean) => Some(boolean),
            _ => None,
        }
    }

    pub fn as_symbol(&self) -> (name: Option<&str>)
        ensures
            match name {
                Some(name) => self@ == Datum::Symbol(name@),
                None => !(self is Symbol),
            },
    {
        match self {
            ExpressionContent::Symbol(name) => Some(name.as_str()),
            _ => None,
        }
    }

    pub fn as_pair(&self) -> (pair: Option<&Pair>)
        ensures
            match pair {
                Some(pair) => *self == ExpressionContent::PairLink(*pair),
                None => !(self is PairLink),
            },
    {
        match self {
            ExpressionContent::PairLink(pair) => Some(pair),
            _ => None,
        }
    }

    pub fn as_vector(&self) -> (items: Option<&Vec<Link>>)
        ensures
            match items {
                Some(items) => *self == ExpressionContent::VectorLink(*items),
                None => !(self is VectorLink),
            },
    {
        match self {
            ExpressionContent::VectorLink(items) => Some(items),
            _ => None,
        }
    }

    pub fn as_promise(&self) -> (promise: Option<&Promise>)
        ensures
            match promise {
                Some(promise) => *self == ExpressionContent::Promise(*promise),
                None => !(self is Promise),
            },
    {
        match self {
            ExpressionContent::Promise(promise) => Some(promise),
            _ => None,
        }
    }
}

impl Link {
    /// A cell of its own for `content`.
    pub fn from_content(content: ExpressionContent) -> (link: Link)
        ensures
            link == Link::More(Rc::new(content)),
            link@ == content@,
    {
        Link::More(Rc::new(content))
    }

    /// A slot that holds the number.
    pub fn from_number(number: Number) -> (link: Link)
        ensures
            link@ == Datum::Number(number),
    {
        Link::from_content(ExpressionContent::Number(number))
    }

    /// A slot that holds the text, a string.
    pub fn from_string(text: String) -> (link: Link)
        ensures
            link@ == Datum::String(text@),
    {
        Link::from_content(ExpressionContent::String(text))
    }

    /// A slot that holds the symbol of that name.
    pub fn from_symbol(name: String) -> (link: Link)
        ensures
            link@ == Datum::Symbol(name@),
    {
        Link::from_content(ExpressionContent::Symbol(name))
    }

    /// A slot that holds the boolean.
    pub fn from_boolean(boolean: bool) -> (link: Link)
        ensures
            link@ == Datum::Boolean(boolean),
    {
        Link::from_content(ExpressionContent::Boolean(boolean))
    }

    /// A slot that holds a vector of the slots.
    pub fn from_vector(slots: Vec<Link>) -> (link: Link)
        ensures
            link@ == Datum::Vector(link_views(slots@)),
    {
        let link = Link::from_content(ExpressionContent::VectorLink(slots));
        assert(link@->Vector_0 =~= link_views(slots@));
        link
    }

    pub fn is_number(&self) -> (yes: bool)
        ensures
            yes == (self@ is Number),
    {
        match self.as_expression_content() {
            Some(ExpressionContent::Number(_)) => true,
            _ => false,
        }
    }

    pub fn is_symbol(&self) -> (yes: bool)
        ensures
            yes == (self@ is Symbol),
    {
        match self.as_expression_content() {
            Some(ExpressionContent::Symbol(_)) => true,
            _ => false,
        }
    }

    pub fn is_string(&self) -> (yes: bool)
        ensures
            yes == (self@ is String),
    {
        match self.as_expression_content() {
            Some(ExpressionContent::String(_)) => true,
            _ => false,
        }
    }

    pub fn is_boolean(&self) -> (yes: bool)
        ensures
            yes == (self@ is Boolean),
    {
        match self.as_expression_content() {
            Some(ExpressionContent::Boolean(_)) => true,
            _ => false,
        }
    }

    pub fn is_pair(&self) -> (yes: bool)
        ensures
            yes == (self@ is Pair),
    {
        match self.as_expression_content() {
            Some(ExpressionContent::PairLink(_)) => true,
            _ => false,
        }
    }

    pub fn is_vector(&self) -> (yes: bool)
        ensures
            yes == (self@ is Vector),
    {
        match self.as_expression_content() {
            Some(ExpressionContent::VectorLink(_)) => true,
            _ => false,
        }
    }

    pub fn is_promise(&self) -> (yes: bool)
        ensures
            yes == (self@ is Promise),
    {
        match self.as_expression_content() {
            Some(ExpressionContent::Promise(_)) => true,
            _ => false,
        }
    }

    pub fn as_number(&self) -> (number: Option<&Number>)
        ensures
            match number {
                Some(number) => self@ == Datum::Number(*number),
                None => !(self@ is Number),
            },
    {
        match self.as_expression_content() {
            Some(content) => content.as_number(),
            None => None,
        }
    }

    pub fn as_string(&self) -> (text: Option<&str>)
        ensures
            match text {
                Some(text) => self@ == Datum::String(text@),
                None => !(self@ is String),
            },
    {
        match self.as_expression_content() {
            Some(content) => content.as_string(),
            None => None,
        }
    }

    pub fn as_boolean(&self) -> (boolean: Option<&bool>)
        ensures
            match boolean {
                Some(boolean) => self@ == Datum::Boolean(*boolean),
                None => !(self@ is Boolean),
            },
    {
        match self.as_expression_content() {
            Some(content) => content.as_boolean(),
            None => None,
        }
    }

    pub fn as_symbol(&self) -> (name: Option<&str>)
        ensures
            match name {
                Some(name) => self@ == Datum::Symbol(name@),
                None => !(self@ is Symbol),
            },
    {
        match self.as_expression_content() {
            Some(content) => content.as_symbol(),
            None => None,
        }
    }

    pub fn as_pair(&self) -> (pair: Option<&Pair>)
        ensures
            match pair {
                Some(pair) => self@ == Datum::Pair(Box::new(pair.car@), Box::new(pair.cdr@))
                    && *self == Link::More(Rc::new(ExpressionContent::PairLink(*pair))),
                None => !(self@ is Pair),
            },
    {
        match self.as_expression_content() {
            Some(content) => content.as_pair(),
            None => None,
        }
    }

    pub fn as_vector(&self) -> (slots: Option<&Vec<Link>>)
        ensures
            match slots {
                Some(slots) => self@ == Datum::Vector(link_views(slots@)),
                None => !(self@ is Vector),
            },
    {
        match self.as_expression_content() {
            Some(content) => {
                let slots = content.as_vector();
                proof {
                    if let Some(found) = slots {
                        assert(self@->Vector_0 =~= link_views(found@));
                    }
                }
                slots
            },
            None => None,
        }
    }

    pub fn as_promise(&self) -> (promise: Option<&Promise>)
        ensures
            match promise {
                Some(promise) => self@ == Datum::Promise(
                    Box::new(promise.content@),
                    promise.frame,
                ),
                None => !(self@ is Promise),
            },
    {
        match self.as_expression_content() {
            Some(content) => content.as_promise(),
            None => None,
        }
    }

    /// The elements of the list, up to the first cell that is not a pair.
    pub fn iter(&self) -> (elements: Vec<Link>)
        ensures
            link_views(elements@) == items(self@),
    {
        let mut elements: Vec<Link> = Vec::new();
        let mut cursor: Link = self.duplicate();
        assert(link_views(elements@) + items(cursor@) =~= items(self@));
        loop
            invariant
                link_views(elements@) + items(cursor@) == items(self@),
                cursor == *self || decreases_to!(*self => cursor),
            ensures
                link_views(elements@) == items(self@),
            decreases cursor,
        {
            let next = match cursor.as_pair() {
                Some(pair) => {
                    let ghost before = link_views(elements@);
                    elements.push(pair.car());
                    proof {
                        assert(link_views(elements@) =~= before.push(pair.car@));
                        assert(before + (seq![pair.car@] + items(pair.cdr@)) =~= before.push(
                            pair.car@,
                        ) + items(pair.cdr@));
                    }
                    pair.cdr()
                },
                None => {
                    assert(link_views(elements@) + items(cursor@) =~= link_views(elements@));
                    break ;
                },
            };
            cursor = next;
        }
        elements
    }

    /// The number of elements of the list.
    pub fn len(&self) -> (length: usize)
        ensures
            length == items(self@).len(),
    {
        let elements = self.iter();
        assert(link_views(elements@).len() == elements@.len());
        elements.len()
    }
}

impl Expression {
    pub fn is_number(&self) -> (yes: bool)
        ensures
            yes == (self@ is Number),
    {
        self.content.is_number()
    }

    pub fn is_symbol(&self) -> (yes: bool)
        ensures
            yes == (self@ is Symbol),
    {
        self.content.is_symbol()
    }

    pub fn is_string(&self) -> (yes: bool)
        ensures
            yes == (self@ is String),
    {
        self.content.is_string()
    }

    pub fn is_boolean(&self) -> (yes: bool)
        ensures
            yes == (self@ is Boolean),
    {
        self.content.is_boolean()
    }

    pub fn is_pair(&self) -> (yes: bool)
        ensures
            yes == (self@ is Pair),
    {
        self.content.is_pair()
    }

    pub fn is_vector(&self) -> (yes: bool)
        ensures
            yes == (self@ is Vector),
    {
        self.content.is_vector()
    }

    pub fn is_promise(&self) -> (yes: bool)
        ensures
            yes == (self@ is Promise),
    {
        self.content.is_promise()
    }

    /// The slot that holds the expression.
    pub fn as_link(&self) -> (link: &Link)
        ensures
            *link == self.content,
    {
        &self.content
    }

    /// What the expression holds, where it is not the empty list.
    pub fn as_content(&self) -> (content: Option<&ExpressionContent>)
        ensures
            match content {
                Some(content) => self.content == Link::More(Rc::new(*content)),
                None => self.content == Link::Nil,
            },
    {
        self.content.as_expression_content()
    }

    pub fn as_number(&self) -> (number: Option<&Number>)
        ensures
            match number {
                Some(number) => self@ == Datum::Number(*number),
                None => !(self@ is Number),
            },
    {
        self.content.as_number()
    }

    pub fn as_string(&self) -> (text: Option<&str>)
        ensures
            match text {
                Some(text) => self@ == Datum::String(text@),
                None => !(self@ is String),
            },
    {
        self.content.as_string()
    }

    pub fn as_boolean(&self) -> (boolean: Option<&bool>)
        ensures
            match boolean {
                Some(boolean) => self@ == Datum::Boolean(*boolean),
                None => !(self@ is Boolean),
            },
    {
        self.content.as_boolean()
    }

    pub fn as_symbol(&self) -> (name: Option<&str>)
        ensures
            match name {
                Some(name) => self@ == Datum::Symbol(name@),
                None => !(self@ is Symbol),
            },
    {
        self.content.as_symbol()
    }

    pub fn as_pair(&self) -> (pair: Option<&Pair>)
        ensures
            match pair {
                Some(pair) => self@ == Datum::Pair(Box::new(pair.car@), Box::new(pair.cdr@)),
                None => !(self@ is Pair),
            },
    {
        self.content.as_pair()
    }

    pub fn as_vector(&self) -> (slots: Option<&Vec<Link>>)
        ensures
            match slots {
                Some(slots) => self@ == Datum::Vector(link_views(slots@)),
                None => !(self@ is Vector),
            },
    {
        self.content.as_vector()
    }

    pub fn as_promise(&self) -> (promise: Option<&Promise>)
        ensures
            match promise {
                Some(promise) => self@ == Datum::Promise(
                    Box::new(promise.content@),
                    promise.frame,
                ),
                None => !(self@ is Promise),
            },
    {
        self.content.as_promise()
    }

    /// The expression that the slot holds.
    pub fn from_link(link: Link) -> (expression: Expression)
        ensures
            expression.content == link,
            expression@ == link@,
    {
        Expression { content: link }
    }
}

impl Link {
    /// Whether the two slots hold expressions that are alike in every
    /// part.
    pub fn same_as(&self, other: &Link) -> (same: bool)
        ensures
            same == (self@ == other@),
        decreases self,
    {
        let (mine, theirs) = match (self.as_expression_content(), other.as_expression_content()) {
            (None, None) => {
                return true;
            },
            (Some(mine), Some(theirs)) => (mine, theirs),
            (None, Some(theirs)) => {
                assert(theirs@ != Datum::Nil);
                return false;
            },
            (Some(mine), None) => {
                assert(mine@ != Datum::Nil);
                return false;
            },
        };
        match (mine, theirs) {
            (ExpressionContent::Number(a), ExpressionContent::Number(b)) => a.identical(b),
            (ExpressionContent::String(a), ExpressionContent::String(b)) => same_text(
                a.as_str(),
                b.as_str(),
            ),
            (ExpressionContent::Boolean(a), ExpressionContent::Boolean(b)) => *a == *b,
            (ExpressionContent::Symbol(a), ExpressionContent::Symbol(b)) => same_text(
                a.as_str(),
                b.as_str(),
            ),
            (ExpressionContent::PairLink(a), ExpressionContent::PairLink(b)) => a.car.same_as(
                &b.car,
            ) && a.cdr.same_as(&b.cdr),
            (ExpressionContent::VectorLink(a), ExpressionContent::VectorLink(b)) => {
                let ghost left = self@->Vector_0;
                let ghost right = other@->Vector_0;
                if a.len() != b.len() {
                    assert(left.len() != right.len());
                    return false;
                }
                let mut index: usize = 0;
                while index < a.len()
                    invariant
                        index <= a@.len(),
                        a@.len() == b@.len(),
                        self@ == Datum::Vector(left),
                        other@ == Datum::Vector(right),
                        left.len() == a@.len(),
                        right.len() == b@.len(),
                        forall|i: int| 0 <= i < a@.len() ==> left[i] == (#[trigger] a@[i])@,
                        forall|i: int| 0 <= i < b@.len() ==> right[i] == (#[trigger] b@[i])@,
                        forall|i: int| 0 <= i < a@.len() ==> decreases_to!(*self => a@[i]),
                        forall|i: int| 0 <= i < index ==> left[i] == right[i],
                    decreases a.len() - index,
                {
                    if !a[index].same_as(&b[index]) {
                        assert(left[index as int] != right[index as int]);
                        return false;
                    }
                    index += 1;
                }
                assert(left =~= right);
                true
            },
            (ExpressionContent::Promise(a), ExpressionContent::Promise(b)) => a.frame == b.frame
                && a.content.same_as(&b.content),
            _ => false,
        }
    }
}

} // verus!
