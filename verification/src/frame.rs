//! Frames: the layers of a lexical environment, kept together in one store
//! and named by their number in it.
use vstd::prelude::*;
use crate::builtin::graphic::{apply_turtle, turtle_step};
use crate::builtin::math::{applied_of, Applied};
use crate::canvas::{Canvas, CanvasModel};
use crate::error::ApplyError;
use crate::reals::{unit_ready, RealUnit};
use crate::text::same_text;
use crate::value::{
    Builtin, BuiltinProcedure, Control, GraphicProcedure, Port, Turtle, Val, Value,
};

verus! {

/// The mathematical model of one frame: its bindings, oldest first, and
/// the number of its parent.
pub struct Scope {
    pub bindings: Seq<(Seq<char>, Val)>,
    pub parent: Option<usize>,
}

/// The mathematical model of a [`Frame`]: every frame made so far, the
/// number of the current one, and the two limits of evaluation.
pub struct Env {
    pub scopes: Seq<Scope>,
    pub current: usize,
    /// How deep evaluations may nest.
    pub depth: usize,
    /// How many tail calls one call may make in a row.
    pub rounds: usize,
    /// The canvas that the procedures of the turtle act on.
    pub canvas: CanvasModel,
    /// What the program has written and the session has not yet taken.
    pub output: Seq<char>,
}

/// The nesting allowed where nothing else is asked for: enough for
/// recursion a thousand calls deep, and little enough for a thread with a
/// stack of two megabytes.
pub const DEFAULT_DEPTH: usize = 1024;

/// The tail calls in a row allowed where nothing else is asked for.
pub const DEFAULT_ROUNDS: usize = 10_000_000;

/// The first position at or after `i` where `name` is bound, or the number
/// of bindings where it is not.
pub open spec fn position_of(bindings: Seq<(Seq<char>, Val)>, name: Seq<char>, i: int) -> int
    decreases bindings.len() - i,
{
    if i < 0 || i >= bindings.len() {
        bindings.len() as int
    } else if bindings[i].0 == name {
        i
    } else {
        position_of(bindings, name, i + 1)
    }
}

impl Scope {
    /// A frame without bindings.
    pub open spec fn empty(parent: Option<usize>) -> Scope {
        Scope { bindings: Seq::empty(), parent }
    }

    /// The value bound to `name` in this frame itself.
    pub open spec fn lookup(self, name: Seq<char>) -> Option<Val> {
        let at = position_of(self.bindings, name, 0);
        if at < self.bindings.len() {
            Some(self.bindings[at].1)
        } else {
            None
        }
    }

    /// The frame with `name` bound to `value`: in place of its old
    /// binding, or as a new one.
    pub open spec fn define(self, name: Seq<char>, value: Val) -> Scope {
        let at = position_of(self.bindings, name, 0);
        if at < self.bindings.len() {
            Scope { bindings: self.bindings.update(at, (name, value)), parent: self.parent }
        } else {
            Scope { bindings: self.bindings.push((name, value)), parent: self.parent }
        }
    }
}

impl Env {
    /// The store that holds the global frame alone.
    pub open spec fn initial() -> Env {
        Env {
            scopes: seq![Scope::empty(None)],
            current: 0,
            depth: DEFAULT_DEPTH,
            rounds: DEFAULT_ROUNDS,
            canvas: CanvasModel::initial(),
            output: Seq::empty(),
        }
    }

    /// The value of `name` seen from frame `scope`: the binding of the
    /// nearest frame on the chain of parents that has one.
    pub open spec fn lookup(self, scope: int, name: Seq<char>) -> Option<Val>
        decreases scope,
    {
        if scope < 0 || scope >= self.scopes.len() {
            None
        } else {
            match self.scopes[scope].lookup(name) {
                Some(value) => Some(value),
                None => match self.scopes[scope].parent {
                    Some(parent) => if parent < scope {
                        self.lookup(parent as int, name)
                    } else {
                        None
                    },
                    None => None,
                },
            }
        }
    }

    /// The store after `name` is bound to `value` in frame `scope` itself.
    pub open spec fn define(self, scope: int, name: Seq<char>, value: Val) -> Env {
        if scope < 0 || scope >= self.scopes.len() {
            self
        } else {
            Env {
                scopes: self.scopes.update(scope, self.scopes[scope].define(name, value)),
                ..self
            }
        }
    }

    /// The number of the nearest frame on the chain of parents of `scope`
    /// that binds `name`.
    pub open spec fn home(self, scope: int, name: Seq<char>) -> Option<int>
        decreases scope,
    {
        if scope < 0 || scope >= self.scopes.len() {
            None
        } else if self.scopes[scope].lookup(name) is Some {
            Some(scope)
        } else {
            match self.scopes[scope].parent {
                Some(parent) => if parent < scope {
                    self.home(parent as int, name)
                } else {
                    None
                },
                None => None,
            }
        }
    }

    /// The store with one more frame, empty, under `parent`. Its number is
    /// the number of frames before.
    pub open spec fn push(self, parent: usize) -> Env {
        Env { scopes: self.scopes.push(Scope::empty(Some(parent))), ..self }
    }
}

proof fn lemma_position_of(bindings: Seq<(Seq<char>, Val)>, name: Seq<char>, i: int)
    requires
        0 <= i <= bindings.len(),
    ensures
        i <= position_of(bindings, name, i) <= bindings.len(),
        position_of(bindings, name, i) < bindings.len() ==> bindings[position_of(
            bindings,
            name,
            i,
        )].0 == name,
        forall|j: int| i <= j < position_of(bindings, name, i) ==> (#[trigger] bindings[j]).0 != name,
    decreases bindings.len() - i,
{
    if i < bindings.len() && bindings[i].0 != name {
        lemma_position_of(bindings, name, i + 1);
    }
}

proof fn lemma_position_found(bindings: Seq<(Seq<char>, Val)>, name: Seq<char>, i: int, at: int)
    requires
        0 <= i <= at < bindings.len(),
        bindings[at].0 == name,
        forall|j: int| i <= j < at ==> (#[trigger] bindings[j]).0 != name,
    ensures
        position_of(bindings, name, i) == at,
    decreases at - i,
{
    if i < at {
        lemma_position_found(bindings, name, i + 1, at);
    }
}

proof fn lemma_position_absent(bindings: Seq<(Seq<char>, Val)>, name: Seq<char>, i: int)
    requires
        0 <= i <= bindings.len(),
        forall|j: int| i <= j < bindings.len() ==> (#[trigger] bindings[j]).0 != name,
    ensures
        position_of(bindings, name, i) == bindings.len(),
    decreases bindings.len() - i,
{
    if i < bindings.len() {
        lemma_position_absent(bindings, name, i + 1);
    }
}

/// What a frame binds to a name is what a lookup in it finds.
pub proof fn lemma_define_then_lookup(scope: Scope, name: Seq<char>, value: Val)
    ensures
        scope.define(name, value).lookup(name) == Some(value),
{
    lemma_position_of(scope.bindings, name, 0);
    let at = position_of(scope.bindings, name, 0);
    let after = scope.define(name, value).bindings;
    lemma_position_found(after, name, 0, at);
}

/// Binding one name in a frame changes nothing for another.
pub proof fn lemma_define_keeps_others(
    scope: Scope,
    name: Seq<char>,
    value: Val,
    wanted: Seq<char>,
)
    requires
        name != wanted,
    ensures
        scope.define(name, value).lookup(wanted) == scope.lookup(wanted),
{
    lemma_position_of(scope.bindings, name, 0);
    lemma_position_of(scope.bindings, wanted, 0);
    let after = scope.define(name, value).bindings;
    let found = position_of(scope.bindings, wanted, 0);
    if found < scope.bindings.len() {
        lemma_position_found(after, wanted, 0, found);
    } else {
        lemma_position_absent(after, wanted, 0);
    }
}

/// One frame: its bindings and the number of its parent.
#[derive(Debug, Clone, PartialEq)]
pub struct FrameNode {
    data: Vec<(String, Value)>,
    parent: Option<usize>,
}

/// The models of a run of bindings.
pub open spec fn binding_views(data: Seq<(String, Value)>) -> Seq<(Seq<char>, Val)> {
    Seq::new(data.len(), |i: int| (data[i].0@, data[i].1@))
}

impl View for FrameNode {
    type V = Scope;

    closed spec fn view(&self) -> Scope {
        Scope { bindings: binding_views(self.data@), parent: self.parent }
    }
}

impl FrameNode {
    /// A frame without bindings.
    pub fn new(parent: Option<usize>) -> (node: FrameNode)
        ensures
            node@ == Scope::empty(parent),
    {
        let node = FrameNode { data: Vec::new(), parent };
        assert(binding_views(node.data@) =~= Seq::empty());
        node
    }

    /// The number of the parent frame.
    pub fn parent(&self) -> (parent: Option<usize>)
        ensures
            parent == self@.parent,
    {
        self.parent
    }

    fn find(&self, name: &str) -> (at: usize)
        ensures
            at == position_of(self@.bindings, name@, 0),
            at <= self.data@.len(),
            self@.bindings.len() == self.data@.len(),
    {
        let mut at: usize = 0;
        while at < self.data.len()
            invariant
                at <= self.data@.len(),
                position_of(self@.bindings, name@, at as int) == position_of(
                    self@.bindings,
                    name@,
                    0,
                ),
            decreases self.data.len() - at,
        {
            if same_text(self.data[at].0.as_str(), name) {
                return at;
            }
            at += 1;
        }
        at
    }

    /// Binds `name` to `value` in this frame.
    pub fn define(&mut self, name: &str, value: Value)
        ensures
            final(self)@ == old(self)@.define(name@, value@),
    {
        let at = self.find(name);
        let ghost before = self.data@;
        if at < self.data.len() {
            self.data.set(at, (name.to_owned(), value));
            assert(binding_views(self.data@) =~= binding_views(before).update(
                at as int,
                (name@, value@),
            ));
        } else {
            self.data.push((name.to_owned(), value));
            assert(binding_views(self.data@) =~= binding_views(before).push((name@, value@)));
        }
    }

    /// The value bound to `name` in this frame itself.
    pub fn lookup(&self, name: &str) -> (found: Option<&Value>)
        ensures
            match found {
                Some(value) => self@.lookup(name@) == Some(value@),
                None => self@.lookup(name@) is None,
            },
    {
        let at = self.find(name);
        if at < self.data.len() {
            Some(&self.data[at].1)
        } else {
            None
        }
    }

    /// A copy that shares what the values hold.
    pub fn duplicate(&self) -> (copy: FrameNode)
        ensures
            copy@ == self@,
    {
        let mut data: Vec<(String, Value)> = Vec::new();
        let mut index: usize = 0;
        while index < self.data.len()
            invariant
                index <= self.data@.len(),
                data@.len() == index,
                forall|i: int|
                    0 <= i < index ==> (#[trigger] data@[i]).0@ == self.data@[i].0@ && data@[i].1@
                        == self.data@[i].1@,
            decreases self.data.len() - index,
        {
            data.push((self.data[index].0.clone(), self.data[index].1.duplicate()));
            index += 1;
        }
        assert(binding_views(data@) =~= binding_views(self.data@));
        FrameNode { data, parent: self.parent }
    }
}

/// The environment of an interpreter: every frame made so far, with the
/// number of the one in which evaluation goes on, the limits of evaluation,
/// the canvas and what the program has written. A frame stays in the store
/// once it is made, so that a procedure always finds the frame it was made
/// in.
#[derive(Debug, Clone, PartialEq)]
pub struct Frame {
    nodes: Vec<FrameNode>,
    current: usize,
    depth: usize,
    rounds: usize,
    canvas: Canvas,
    output: String,
}

/// The models of a run of frames.
pub open spec fn scope_views(nodes: Seq<FrameNode>) -> Seq<Scope> {
    Seq::new(nodes.len(), |i: int| nodes[i]@)
}

impl View for Frame {
    type V = Env;

    closed spec fn view(&self) -> Env {
        Env {
            scopes: scope_views(self.nodes@),
            current: self.current,
            depth: self.depth,
            rounds: self.rounds,
            canvas: self.canvas@,
            output: self.output@,
        }
    }
}

impl Frame {
    /// A store that holds the global frame alone, with no bindings.
    pub fn new() -> (frame: Frame)
        ensures
            frame@ == Env::initial(),
    {
        let mut nodes: Vec<FrameNode> = Vec::new();
        nodes.push(FrameNode::new(None));
        let frame = Frame {
            nodes,
            current: 0,
            depth: DEFAULT_DEPTH,
            rounds: DEFAULT_ROUNDS,
            canvas: Canvas::default(),
            output: String::new(),
        };
        assert(frame@.scopes =~= seq![Scope::empty(None)]);
        frame
    }

    /// The number of the current frame.
    pub fn current(&self) -> (current: usize)
        ensures
            current == self@.current,
    {
        self.current
    }

    /// The number of frames in the store.
    pub fn size(&self) -> (size: usize)
        ensures
            size == self@.scopes.len(),
    {
        self.nodes.len()
    }

    /// How deep evaluations may nest.
    pub fn depth(&self) -> (depth: usize)
        ensures
            depth == self@.depth,
    {
        self.depth
    }

    /// How many tail calls one call may make in a row.
    pub fn rounds(&self) -> (rounds: usize)
        ensures
            rounds == self@.rounds,
    {
        self.rounds
    }

    /// Sets the two limits of evaluation.
    pub fn set_limits(&mut self, depth: usize, rounds: usize)
        ensures
            final(self)@ == (Env { depth, rounds, ..old(self)@ }),
    {
        self.depth = depth;
        self.rounds = rounds;
    }

    /// Makes `scope` the current frame.
    pub fn enter(&mut self, scope: usize)
        ensures
            final(self)@ == (Env { current: scope, ..old(self)@ }),
    {
        self.current = scope;
    }

    /// Adds an empty frame under `parent` and gives its number.
    pub fn push_scope(&mut self, parent: usize) -> (scope: usize)
        ensures
            final(self)@ == old(self)@.push(parent),
            scope == old(self)@.scopes.len(),
    {
        let scope = self.nodes.len();
        let ghost before = scope_views(self.nodes@);
        self.nodes.push(FrameNode::new(Some(parent)));
        assert(scope_views(self.nodes@) =~= before.push(Scope::empty(Some(parent))));
        scope
    }

    /// Binds `name` to `value` in frame `scope`; does nothing where the
    /// store has no such frame.
    pub fn define_in(&mut self, scope: usize, name: &str, value: Value)
        ensures
            final(self)@ == old(self)@.define(scope as int, name@, value@),
    {
        if scope < self.nodes.len() {
            let ghost before = scope_views(self.nodes@);
            let node = &mut self.nodes[scope];
            node.define(name, value);
            assert(scope_views(self.nodes@) =~= before.update(
                scope as int,
                before[scope as int].define(name@, value@),
            ));
        }
    }

    /// Binds `name` to `value` in the current frame.
    pub fn define(&mut self, name: &str, value: Value)
        ensures
            final(self)@ == old(self)@.define(old(self)@.current as int, name@, value@),
    {
        let scope = self.current;
        self.define_in(scope, name, value)
    }

    /// The value of `name` seen from frame `scope`.
    pub fn lookup_from(&self, scope: usize, name: &str) -> (found: Option<&Value>)
        ensures
            match found {
                Some(value) => self@.lookup(scope as int, name@) == Some(value@),
                None => self@.lookup(scope as int, name@) is None,
            },
    {
        let mut at = scope;
        loop
            invariant
                self@.lookup(at as int, name@) == self@.lookup(scope as int, name@),
            decreases at,
        {
            if at >= self.nodes.len() {
                return None;
            }
            match self.nodes[at].lookup(name) {
                Some(value) => {
                    return Some(value);
                },
                None => {},
            }
            match self.nodes[at].parent() {
                Some(parent) => {
                    if parent < at {
                        at = parent;
                    } else {
                        return None;
                    }
                },
                None => {
                    return None;
                },
            }
        }
    }

    /// The value of `name` seen from the current frame.
    pub fn lookup(&self, name: &str) -> (found: Option<&Value>)
        ensures
            match found {
                Some(value) => self@.lookup(self@.current as int, name@) == Some(value@),
                None => self@.lookup(self@.current as int, name@) is None,
            },
    {
        self.lookup_from(self.current, name)
    }

    /// The number of the nearest frame, seen from `scope`, that binds
    /// `name`.
    pub fn home_of(&self, scope: usize, name: &str) -> (found: Option<usize>)
        ensures
            match found {
                Some(home) => self@.home(scope as int, name@) == Some(home as int),
                None => self@.home(scope as int, name@) is None,
            },
    {
        let mut at = scope;
        loop
            invariant
                self@.home(at as int, name@) == self@.home(scope as int, name@),
            decreases at,
        {
            if at >= self.nodes.len() {
                return None;
            }
            match self.nodes[at].lookup(name) {
                Some(_) => {
                    return Some(at);
                },
                None => {},
            }
            match self.nodes[at].parent() {
                Some(parent) => {
                    if parent < at {
                        at = parent;
                    } else {
                        return None;
                    }
                },
                None => {
                    return None;
                },
            }
        }
    }

    /// A copy of the store that shares what the values hold.
    pub fn duplicate(&self) -> (copy: Frame)
        ensures
            copy@ == self@,
    {
        let mut nodes: Vec<FrameNode> = Vec::new();
        let mut index: usize = 0;
        while index < self.nodes.len()
            invariant
                index <= self.nodes@.len(),
                nodes@.len() == index,
                forall|i: int| 0 <= i < index ==> (#[trigger] nodes@[i])@ == self.nodes@[i]@,
            decreases self.nodes.len() - index,
        {
            nodes.push(self.nodes[index].duplicate());
            index += 1;
        }
        assert(scope_views(nodes@) =~= scope_views(self.nodes@));
        Frame {
            nodes,
            current: self.current,
            depth: self.depth,
            rounds: self.rounds,
            canvas: self.canvas.duplicate(),
            output: self.output.clone(),
        }
    }

    /// Makes a new, empty frame under the current one, in this store, and
    /// makes it current. Gives the number of the frame that was current:
    /// the child reads through to it, also what is bound there later.
    pub fn make_child(&mut self) -> (parent: usize)
        ensures
            parent == old(self)@.current,
            final(self)@ == (Env {
                current: old(self)@.scopes.len() as usize,
                ..old(self)@.push(old(self)@.current)
            }),
    {
        let parent = self.current;
        let scope = self.push_scope(parent);
        self.enter(scope);
        parent
    }

    /// The store `parent` with a new, empty frame under its current one,
    /// made current. The frames of `parent` stay in the store, so that the
    /// child reads through to them.
    pub fn new_with_parent(parent: Frame) -> (child: Frame)
        ensures
            child@ == (Env {
                current: parent@.scopes.len() as usize,
                ..parent@.push(parent@.current)
            }),
    {
        let mut child = parent;
        child.make_child();
        child
    }

    /// Adds `text` to what the program has written.
    pub fn write(&mut self, text: &str)
        ensures
            final(self)@ == (Env { output: old(self)@.output + text@, ..old(self)@ }),
    {
        self.output.append(text);
    }

    /// Takes what the program has written since this was last asked.
    pub fn take_output(&mut self) -> (written: String)
        ensures
            written@ == old(self)@.output,
            final(self)@ == (Env { output: Seq::empty(), ..old(self)@ }),
    {
        let mut written = String::new();
        std::mem::swap(&mut written, &mut self.output);
        written
    }

    /// The canvas.
    pub fn canvas(&self) -> (canvas: &Canvas)
        ensures
            canvas@ == self@.canvas,
    {
        &self.canvas
    }

    /// Applies a procedure of the turtle to the operands `args`: the
    /// canvas is all that it changes.
    pub fn apply_graphic<U: RealUnit>(&mut self, function: Turtle, args: Vec<Value>, unit: &U) -> (result:
        Result<Value, ApplyError>)
        requires
            unit_ready(unit),
        ensures
            applied_of(result) == turtle_step(
                unit,
                function,
                crate::value::value_views(args@),
                old(self)@.canvas,
            ).0,
            final(self)@ == (Env {
                canvas: turtle_step(
                    unit,
                    function,
                    crate::value::value_views(args@),
                    old(self)@.canvas,
                ).1,
                ..old(self)@
            }),
    {
        apply_turtle(function, args, &mut self.canvas, unit)
    }

    /// Binds a procedure of the turtle, in the current frame, under its
    /// name and under each of `aliases`.
    pub fn add_graphic(&mut self, graphic: GraphicProcedure, aliases: &Vec<&'static str>)
        ensures
            final(self)@ == aliased(
                old(self)@.define(
                    old(self)@.current as int,
                    graphic.function.spec_name(),
                    Val::Graphic(graphic.function),
                ),
                graphic.function,
                name_views(aliases@),
                0,
            ),
    {
        let scope = self.current;
        self.define_in(scope, graphic.name(), Value::from_graphic(graphic.function));
        let ghost begun = self@;
        let ghost names = name_views(aliases@);
        let mut index: usize = 0;
        while index < aliases.len()
            invariant
                index <= aliases.len(),
                names == name_views(aliases@),
                self@.current == scope,
                aliased(self@, graphic.function, names, index as int) == aliased(
                    begun,
                    graphic.function,
                    names,
                    0,
                ),
            decreases aliases.len() - index,
        {
            self.define_in(scope, aliases[index], Value::from_graphic(graphic.function));
            index += 1;
        }
    }

    /// Binds a provided procedure under its name in the current frame.
    pub fn add_builtin(&mut self, builtin: BuiltinProcedure)
        ensures
            final(self)@ == old(self)@.define(
                old(self)@.current as int,
                builtin.function.spec_name(),
                Val::Builtin(builtin.function),
            ),
    {
        self.define(builtin.name(), Value::from_builtin(builtin.function))
    }
}

/// The characters of each of a run of names.
pub open spec fn name_views(names: Seq<&'static str>) -> Seq<Seq<char>> {
    Seq::new(names.len(), |i: int| names[i]@)
}

/// The store after the procedure `function` of the turtle is bound, in the
/// current frame, under each of `names` from `i` on.
pub open spec fn aliased(env: Env, function: Turtle, names: Seq<Seq<char>>, i: int) -> Env
    decreases names.len() - i,
{
    if i < 0 || i >= names.len() {
        env
    } else {
        aliased(
            env.define(env.current as int, names[i], Val::Graphic(function)),
            function,
            names,
            i + 1,
        )
    }
}

/// How many procedures the global frame is furnished with.
pub const ROSTER_SIZE: usize = 52;

/// The procedure bound in the global frame at place `i` of the order in
/// which they are bound.
pub open spec fn roster_at(i: int) -> Builtin {
    if i == 0 {
        Builtin::Add
    }     else if i == 1 {
        Builtin::Sub
    }     else if i == 2 {
        Builtin::Mul
    }     else if i == 3 {
        Builtin::Div
    }     else if i == 4 {
        Builtin::MathEqual
    }     else if i == 5 {
        Builtin::LessThan
    }     else if i == 6 {
        Builtin::LessThanOrEqual
    }     else if i == 7 {
        Builtin::GreaterThan
    }     else if i == 8 {
        Builtin::GreaterThanOrEqual
    }     else if i == 9 {
        Builtin::IsPair
    }     else if i == 10 {
        Builtin::Car
    }     else if i == 11 {
        Builtin::Cdr
    }     else if i == 12 {
        Builtin::Cons
    }     else if i == 13 {
        Builtin::IsNull
    }     else if i == 14 {
        Builtin::List
    }     else if i == 15 {
        Builtin::Length
    }     else if i == 16 {
        Builtin::Not
    }     else if i == 17 {
        Builtin::IsNumber
    }     else if i == 18 {
        Builtin::IsSymbol
    }     else if i == 19 {
        Builtin::IsString
    }     else if i == 20 {
        Builtin::IsBoolean
    }     else if i == 21 {
        Builtin::IsProcedure
    }     else if i == 22 {
        Builtin::IsVector
    }     else if i == 23 {
        Builtin::Abs
    }     else if i == 24 {
        Builtin::Min
    }     else if i == 25 {
        Builtin::Max
    }     else if i == 26 {
        Builtin::Quotient
    }     else if i == 27 {
        Builtin::Remainder
    }     else if i == 28 {
        Builtin::Modulo
    }     else if i == 29 {
        Builtin::Expt
    }     else if i == 30 {
        Builtin::IsInteger
    }     else if i == 31 {
        Builtin::IsReal
    }     else if i == 32 {
        Builtin::IsComplex
    }     else if i == 33 {
        Builtin::Append
    }     else if i == 34 {
        Builtin::Reverse
    }     else if i == 35 {
        Builtin::ListRef
    }     else if i == 36 {
        Builtin::ListTail
    }     else if i == 37 {
        Builtin::IsEq
    }     else if i == 38 {
        Builtin::IsEqv
    }     else if i == 39 {
        Builtin::IsEqual
    }     else if i == 40 {
        Builtin::StringLength
    }     else if i == 41 {
        Builtin::StringRef
    }     else if i == 42 {
        Builtin::Substring
    }     else if i == 43 {
        Builtin::StringAppend
    }     else if i == 44 {
        Builtin::StringToSymbol
    }     else if i == 45 {
        Builtin::SymbolToString
    }     else if i == 46 {
        Builtin::MakeVector
    }     else if i == 47 {
        Builtin::Vector
    }     else if i == 48 {
        Builtin::VectorLength
    }     else if i == 49 {
        Builtin::VectorRef
    }     else if i == 50 {
        Builtin::VectorToList
    } else {
        Builtin::ListToVector
    }
}

/// The procedures bound in the global frame, in the order in which they
/// are bound.
pub open spec fn roster() -> Seq<Builtin> {
    Seq::new(ROSTER_SIZE as nat, |i: int| roster_at(i))
}

/// The store after the first `count` procedures of the roster are bound
/// under their names in the global frame.
pub open spec fn furnished(count: nat) -> Env
    decreases count,
{
    if count == 0 || count > roster().len() {
        Env::initial()
    } else {
        furnished((count - 1) as nat).define(
            0,
            roster()[count - 1].spec_name(),
            Val::Builtin(roster()[count - 1]),
        )
    }
}

/// The store that an interpreter starts from: the global frame with every
/// provided procedure bound under its name.
pub open spec fn global_env() -> Env {
    furnished(roster().len()).define(0, "display"@, Val::Port(Port::Display)).define(
        0,
        "newline"@,
        Val::Port(Port::Newline),
    ).define(0, "force"@, Val::Control(Control::Force)).define(
        0,
        "map"@,
        Val::Control(Control::MapList),
    ).define(0, "for-each"@, Val::Control(Control::ForEach))
}

fn builtin_at(i: usize) -> (function: Builtin)
    requires
        i < ROSTER_SIZE,
    ensures
        function == roster_at(i as int),
{
    if i == 0 {
        Builtin::Add
    }     else if i == 1 {
        Builtin::Sub
    }     else if i == 2 {
        Builtin::Mul
    }     else if i == 3 {
        Builtin::Div
    }     else if i == 4 {
        Builtin::MathEqual
    }     else if i == 5 {
        Builtin::LessThan
    }     else if i == 6 {
        Builtin::LessThanOrEqual
    }     else if i == 7 {
        Builtin::GreaterThan
    }     else if i == 8 {
        Builtin::GreaterThanOrEqual
    }     else if i == 9 {
        Builtin::IsPair
    }     else if i == 10 {
        Builtin::Car
    }     else if i == 11 {
        Builtin::Cdr
    }     else if i == 12 {
        Builtin::Cons
    }     else if i == 13 {
        Builtin::IsNull
    }     else if i == 14 {
        Builtin::List
    }     else if i == 15 {
        Builtin::Length
    }     else if i == 16 {
        Builtin::Not
    }     else if i == 17 {
        Builtin::IsNumber
    }     else if i == 18 {
        Builtin::IsSymbol
    }     else if i == 19 {
        Builtin::IsString
    }     else if i == 20 {
        Builtin::IsBoolean
    }     else if i == 21 {
        Builtin::IsProcedure
    }     else if i == 22 {
        Builtin::IsVector
    }     else if i == 23 {
        Builtin::Abs
    }     else if i == 24 {
        Builtin::Min
    }     else if i == 25 {
        Builtin::Max
    }     else if i == 26 {
        Builtin::Quotient
    }     else if i == 27 {
        Builtin::Remainder
    }     else if i == 28 {
        Builtin::Modulo
    }     else if i == 29 {
        Builtin::Expt
    }     else if i == 30 {
        Builtin::IsInteger
    }     else if i == 31 {
        Builtin::IsReal
    }     else if i == 32 {
        Builtin::IsComplex
    }     else if i == 33 {
        Builtin::Append
    }     else if i == 34 {
        Builtin::Reverse
    }     else if i == 35 {
        Builtin::ListRef
    }     else if i == 36 {
        Builtin::ListTail
    }     else if i == 37 {
        Builtin::IsEq
    }     else if i == 38 {
        Builtin::IsEqv
    }     else if i == 39 {
        Builtin::IsEqual
    }     else if i == 40 {
        Builtin::StringLength
    }     else if i == 41 {
        Builtin::StringRef
    }     else if i == 42 {
        Builtin::Substring
    }     else if i == 43 {
        Builtin::StringAppend
    }     else if i == 44 {
        Builtin::StringToSymbol
    }     else if i == 45 {
        Builtin::SymbolToString
    }     else if i == 46 {
        Builtin::MakeVector
    }     else if i == 47 {
        Builtin::Vector
    }     else if i == 48 {
        Builtin::VectorLength
    }     else if i == 49 {
        Builtin::VectorRef
    }     else if i == 50 {
        Builtin::VectorToList
    } else {
        Builtin::ListToVector
    }
}

/// The store that an interpreter starts from.
pub fn create_global_frame() -> (frame: Frame)
    ensures
        frame@ == global_env(),
{
    let mut frame = Frame::new();
    let mut index: usize = 0;
    while index < ROSTER_SIZE
        invariant
            index <= ROSTER_SIZE,
            frame@ == furnished(index as nat),
            frame@.current == 0,
        decreases ROSTER_SIZE - index,
    {
        frame.add_builtin(BuiltinProcedure { function: builtin_at(index) });
        index += 1;
    }
    frame.define("display", Value::Procedure(crate::value::Procedure::Port(Port::Display)));
    frame.define("newline", Value::Procedure(crate::value::Procedure::Port(Port::Newline)));
    frame.define("force", Value::Procedure(crate::value::Procedure::Control(Control::Force)));
    frame.define("map", Value::Procedure(crate::value::Procedure::Control(Control::MapList)));
    frame.define("for-each", Value::Procedure(crate::value::Procedure::Control(Control::ForEach)));
    frame
}

/// The store after the procedure `function` of the turtle is bound in the
/// current frame under its name and under each of `aliases`.
pub open spec fn with_turtle(env: Env, function: Turtle, aliases: Seq<Seq<char>>) -> Env {
    aliased(
        env.define(env.current as int, function.spec_name(), Val::Graphic(function)),
        function,
        aliases,
        0,
    )
}

/// The store that an interpreter with a canvas starts from: the global
/// frame with every provided procedure, and every procedure of the turtle
/// under its name and its short names.
pub open spec fn graphic_env() -> Env {
    let e = global_env();
    let e = with_turtle(e, Turtle::Forward, seq!["fd"@]);
    let e = with_turtle(e, Turtle::Backward, seq!["bk"@, "back"@]);
    let e = with_turtle(e, Turtle::Right, seq!["rt"@]);
    let e = with_turtle(e, Turtle::Left, seq!["lt"@]);
    let e = with_turtle(e, Turtle::SetPosition, seq!["setpos"@, "goto"@]);
    let e = with_turtle(e, Turtle::SetHeading, seq!["seth"@]);
    let e = with_turtle(e, Turtle::Position, seq!["pos"@]);
    let e = with_turtle(e, Turtle::Heading, Seq::empty());
    let e = with_turtle(e, Turtle::BeginFill, Seq::empty());
    let e = with_turtle(e, Turtle::EndFill, Seq::empty());
    let e = with_turtle(e, Turtle::PenUp, seq!["pu"@, "up"@]);
    let e = with_turtle(e, Turtle::PenDown, seq!["pd"@, "down"@]);
    let e = with_turtle(e, Turtle::Reset, Seq::empty());
    let e = with_turtle(e, Turtle::ShowTurtle, seq!["st"@]);
    let e = with_turtle(e, Turtle::HideTurtle, seq!["ht"@]);
    with_turtle(e, Turtle::IsVisible, Seq::empty())
}

fn no_alias() -> (names: Vec<&'static str>)
    ensures
        name_views(names@) == Seq::<Seq<char>>::empty(),
{
    let names: Vec<&'static str> = Vec::new();
    assert(name_views(names@) =~= Seq::<Seq<char>>::empty());
    names
}

fn one_alias(first: &'static str) -> (names: Vec<&'static str>)
    ensures
        name_views(names@) == seq![first@],
{
    let mut names: Vec<&'static str> = Vec::new();
    names.push(first);
    assert(name_views(names@) =~= seq![first@]);
    names
}

fn two_aliases(first: &'static str, second: &'static str) -> (names: Vec<&'static str>)
    ensures
        name_views(names@) == seq![first@, second@],
{
    let mut names: Vec<&'static str> = Vec::new();
    names.push(first);
    names.push(second);
    assert(name_views(names@) =~= seq![first@, second@]);
    names
}

fn equip(frame: &mut Frame, function: Turtle, aliases: Vec<&'static str>)
    ensures
        final(frame)@ == with_turtle(old(frame)@, function, name_views(aliases@)),
{
    frame.add_graphic(GraphicProcedure { function }, &aliases)
}

/// The store that an interpreter with a canvas starts from.
pub fn create_graphic_frame() -> (frame: Frame)
    ensures
        frame@ == graphic_env(),
{
    let mut frame = create_global_frame();
    equip(&mut frame, Turtle::Forward, one_alias("fd"));
    equip(&mut frame, Turtle::Backward, two_aliases("bk", "back"));
    equip(&mut frame, Turtle::Right, one_alias("rt"));
    equip(&mut frame, Turtle::Left, one_alias("lt"));
    equip(&mut frame, Turtle::SetPosition, two_aliases("setpos", "goto"));
    equip(&mut frame, Turtle::SetHeading, one_alias("seth"));
    equip(&mut frame, Turtle::Position, one_alias("pos"));
    equip(&mut frame, Turtle::Heading, no_alias());
    equip(&mut frame, Turtle::BeginFill, no_alias());
    equip(&mut frame, Turtle::EndFill, no_alias());
    equip(&mut frame, Turtle::PenUp, two_aliases("pu", "up"));
    equip(&mut frame, Turtle::PenDown, two_aliases("pd", "down"));
    equip(&mut frame, Turtle::Reset, no_alias());
    equip(&mut frame, Turtle::ShowTurtle, one_alias("st"));
    equip(&mut frame, Turtle::HideTurtle, one_alias("ht"));
    equip(&mut frame, Turtle::IsVisible, no_alias());
    frame
}

} // verus!
