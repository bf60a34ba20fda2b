//! The canvas that the turtle draws on: a cursor with a heading, and the
//! paths drawn so far. What is computed on inexact reals is asked of the
//! [`RealUnit`].
use vstd::prelude::*;
use crate::reals::{
    apply_function, arithmetic, print, real_arith, real_function, real_print, unit_ready, Real,
    RealFunction, RealOp, RealUnit, FULL_TURN_BITS, MINUS_NINETY_BITS, ONE_BITS,
};
use crate::text::{integer_text, signed_text};

verus! {

/// One drawing command of a path.
#[derive(Debug, Clone, Copy, PartialEq, Eq, Structural)]
pub enum Move {
    AbsoluteMove(Real, Real),
    RelativeMove(Real, Real),
    AbsoluteLine(Real, Real),
    RelativeLine(Real, Real),
    CompletePath,
    AbsoluteArc(Real, Real, i32, bool, bool, Real, Real),
    RelativeArc(Real, Real, i32, bool, bool, Real, Real),
}

/// `1` for a flag that is set, `0` for one that is not.
pub open spec fn flag_text(flag: bool) -> Seq<char> {
    if flag {
        "1"@
    } else {
        "0"@
    }
}

/// The letter of a command and its two coordinates.
pub open spec fn command_text<U: RealUnit>(unit: &U, letter: Seq<char>, x: Real, y: Real) -> Seq<
    char,
> {
    letter + " "@ + real_print(unit, x) + " "@ + real_print(unit, y)
}

/// The letter of an arc and its seven operands.
pub open spec fn arc_text<U: RealUnit>(
    unit: &U,
    letter: Seq<char>,
    rx: Real,
    ry: Real,
    rotation: i32,
    large: bool,
    sweep: bool,
    x: Real,
    y: Real,
) -> Seq<char> {
    letter + " "@ + real_print(unit, rx) + " "@ + real_print(unit, ry) + " "@ + integer_text(
        rotation as int,
    ) + " "@ + flag_text(large) + " "@ + flag_text(sweep) + " "@ + real_print(unit, x) + " "@
        + real_print(unit, y)
}

impl Move {
    /// The command as path data: its letter, capital for absolute
    /// coordinates, and its operands, a space between two.
    pub open spec fn text<U: RealUnit>(self, unit: &U) -> Seq<char> {
        match self {
            Move::AbsoluteMove(x, y) => command_text(unit, "M"@, x, y),
            Move::RelativeMove(x, y) => command_text(unit, "m"@, x, y),
            Move::AbsoluteLine(x, y) => command_text(unit, "L"@, x, y),
            Move::RelativeLine(x, y) => command_text(unit, "l"@, x, y),
            Move::CompletePath => "Z"@,
            Move::AbsoluteArc(rx, ry, rotation, large, sweep, x, y) => arc_text(
                unit,
                "A"@,
                rx,
                ry,
                rotation,
                large,
                sweep,
                x,
                y,
            ),
            Move::RelativeArc(rx, ry, rotation, large, sweep, x, y) => arc_text(
                unit,
                "a"@,
                rx,
                ry,
                rotation,
                large,
                sweep,
                x,
                y,
            ),
        }
    }

    /// Writes the command as path data.
    pub fn to_string<U: RealUnit>(&self, unit: &U) -> (text: String)
        requires
            unit_ready(unit),
        ensures
            text@ == self.text(unit),
    {
        match self {
            Move::AbsoluteMove(x, y) => command(unit, "M", *x, *y),
            Move::RelativeMove(x, y) => command(unit, "m", *x, *y),
            Move::AbsoluteLine(x, y) => command(unit, "L", *x, *y),
            Move::RelativeLine(x, y) => command(unit, "l", *x, *y),
            Move::CompletePath => "Z".to_owned(),
            Move::AbsoluteArc(rx, ry, rotation, large, sweep, x, y) => arc(
                unit,
                "A",
                *rx,
                *ry,
                *rotation,
                *large,
                *sweep,
                *x,
                *y,
            ),
            Move::RelativeArc(rx, ry, rotation, large, sweep, x, y) => arc(
                unit,
                "a",
                *rx,
                *ry,
                *rotation,
                *large,
                *sweep,
                *x,
                *y,
            ),
        }
    }
}

fn command<U: RealUnit>(unit: &U, letter: &str, x: Real, y: Real) -> (text: String)
    requires
        unit_ready(unit),
    ensures
        text@ == command_text(unit, letter@, x, y),
{
    let mut text = letter.to_owned();
    text.append(" ");
    text.append(print(unit, x).as_str());
    text.append(" ");
    text.append(print(unit, y).as_str());
    text
}

fn flag(set: bool) -> (text: &'static str)
    ensures
        text@ == flag_text(set),
{
    if set {
        "1"
    } else {
        "0"
    }
}

fn arc<U: RealUnit>(
    unit: &U,
    letter: &str,
    rx: Real,
    ry: Real,
    rotation: i32,
    large: bool,
    sweep: bool,
    x: Real,
    y: Real,
) -> (text: String)
    requires
        unit_ready(unit),
    ensures
        text@ == arc_text(unit, letter@, rx, ry, rotation, large, sweep, x, y),
{
    let mut text = letter.to_owned();
    text.append(" ");
    text.append(print(unit, rx).as_str());
    text.append(" ");
    text.append(print(unit, ry).as_str());
    text.append(" ");
    text.append(signed_text(rotation).as_str());
    text.append(" ");
    text.append(flag(large));
    text.append(" ");
    text.append(flag(sweep));
    text.append(" ");
    text.append(print(unit, x).as_str());
    text.append(" ");
    text.append(print(unit, y).as_str());
    text
}

/// One path: its two colours and its commands in order.
#[derive(Debug, Clone, PartialEq)]
pub struct Path {
    pub stroke: String,
    pub fill: String,
    pub moves: Vec<Move>,
}

/// The mathematical model of a [`Path`].
pub struct PathModel {
    pub stroke: Seq<char>,
    pub fill: Seq<char>,
    pub moves: Seq<Move>,
}

impl View for Path {
    type V = PathModel;

    open spec fn view(&self) -> PathModel {
        PathModel { stroke: self.stroke@, fill: self.fill@, moves: self.moves@ }
    }
}

impl PathModel {
    /// A black stroke, no fill, no commands.
    pub open spec fn initial() -> PathModel {
        PathModel { stroke: "black"@, fill: "transparent"@, moves: Seq::empty() }
    }

    /// The path with one more command.
    pub open spec fn with(self, command: Move) -> PathModel {
        PathModel { moves: self.moves.push(command), ..self }
    }

    /// The commands from `from` on as path data, a space between two.
    pub open spec fn data_from<U: RealUnit>(self, unit: &U, from: int) -> Seq<char>
        decreases self.moves.len() - from,
    {
        if from < 0 || from >= self.moves.len() {
            Seq::empty()
        } else if from == self.moves.len() - 1 {
            self.moves[from].text(unit)
        } else {
            self.moves[from].text(unit) + " "@ + self.data_from(unit, from + 1)
        }
    }

    /// The commands as path data.
    pub open spec fn data<U: RealUnit>(self, unit: &U) -> Seq<char> {
        self.data_from(unit, 0)
    }
}

impl Path {
    /// A path with a black stroke, no fill and no commands.
    pub fn default() -> (path: Path)
        ensures
            path@ == PathModel::initial(),
    {
        Path { stroke: "black".to_owned(), fill: "transparent".to_owned(), moves: Vec::new() }
    }

    /// A copy of the path.
    pub fn duplicate(&self) -> (copy: Path)
        ensures
            copy@ == self@,
    {
        let mut moves: Vec<Move> = Vec::new();
        let mut index: usize = 0;
        while index < self.moves.len()
            invariant
                index <= self.moves@.len(),
                moves@ == self.moves@.subrange(0, index as int),
            decreases self.moves.len() - index,
        {
            moves.push(self.moves[index]);
            index += 1;
            assert(self.moves@.subrange(0, index as int) == self.moves@.subrange(
                0,
                index - 1,
            ).push(self.moves@[index - 1]));
        }
        assert(self.moves@.subrange(0, self.moves@.len() as int) == self.moves@);
        Path { stroke: self.stroke.clone(), fill: self.fill.clone(), moves }
    }

    /// The commands as path data, a space between two.
    pub fn d<U: RealUnit>(&self, unit: &U) -> (text: String)
        requires
            unit_ready(unit),
        ensures
            text@ == self@.data(unit),
    {
        let ghost model = self@;
        let mut text = String::new();
        let mut index = self.moves.len();
        while index > 0
            invariant
                unit_ready(unit),
                index <= self.moves@.len(),
                model == self@,
                text@ == model.data_from(unit, index as int),
            decreases index,
        {
            index -= 1;
            let mut longer = self.moves[index].to_string(unit);
            if index + 1 < self.moves.len() {
                longer.append(" ");
                longer.append(text.as_str());
            }
            text = longer;
        }
        text
    }
}

/// The state of the canvas.
#[derive(Debug, Clone, PartialEq)]
pub struct CanvasContent {
    pub x: Real,
    pub y: Real,
    /// The heading in degrees, clockwise from east on a canvas whose `y`
    /// grows downward: minus ninety points up.
    pub angle: Real,
    pub bg_color: String,
    pub paths: Vec<Path>,
    pub fill_path: Option<Path>,
    pub pen_down: bool,
    pub turtle_visible: bool,
    pub size: Real,
}

/// The canvas.
#[derive(Debug, Clone, PartialEq)]
pub struct Canvas {
    pub content: CanvasContent,
}

/// The mathematical model of a [`Canvas`].
pub struct CanvasModel {
    pub x: Real,
    pub y: Real,
    pub angle: Real,
    pub bg_color: Seq<char>,
    pub paths: Seq<PathModel>,
    pub fill_path: Option<PathModel>,
    pub pen_down: bool,
    pub turtle_visible: bool,
    pub size: Real,
}

/// The models of a run of paths.
pub open spec fn path_views(paths: Seq<Path>) -> Seq<PathModel> {
    Seq::new(paths.len(), |i: int| paths[i]@)
}

/// The model of a path that may be absent.
pub open spec fn optional_path(path: Option<Path>) -> Option<PathModel> {
    match path {
        Some(path) => Some(path@),
        None => None,
    }
}

impl View for Canvas {
    type V = CanvasModel;

    open spec fn view(&self) -> CanvasModel {
        CanvasModel {
            x: self.content.x,
            y: self.content.y,
            angle: self.content.angle,
            bg_color: self.content.bg_color@,
            paths: path_views(self.content.paths@),
            fill_path: optional_path(self.content.fill_path),
            pen_down: self.content.pen_down,
            turtle_visible: self.content.turtle_visible,
            size: self.content.size,
        }
    }
}

impl CanvasModel {
    /// The canvas before anything is drawn, without a path.
    pub open spec fn blank() -> CanvasModel {
        CanvasModel {
            x: Real::spec_zero(),
            y: Real::spec_zero(),
            angle: Real { bits: MINUS_NINETY_BITS },
            bg_color: "white"@,
            paths: Seq::empty(),
            fill_path: None,
            pen_down: true,
            turtle_visible: true,
            size: Real { bits: ONE_BITS },
        }
    }

    /// The canvas that a session starts with: the turtle at the origin,
    /// heading up, pen down, on a white ground, and one path that begins
    /// where the turtle stands.
    pub open spec fn initial() -> CanvasModel {
        CanvasModel::blank().new_path()
    }

    /// The canvas with one more path, which begins where the turtle
    /// stands.
    pub open spec fn new_path(self) -> CanvasModel {
        CanvasModel {
            paths: self.paths.push(PathModel::initial().with(Move::AbsoluteMove(self.x, self.y))),
            ..self
        }
    }

    /// The canvas with a new path of the stroke `color`.
    pub open spec fn set_color(self, color: Seq<char>) -> CanvasModel {
        let begun = self.new_path();
        CanvasModel {
            paths: begun.paths.update(
                begun.paths.len() - 1,
                PathModel { stroke: color, ..begun.paths.last() },
            ),
            ..begun
        }
    }

    /// The canvas with one more command on its last path; a path is begun
    /// first where there is none.
    pub open spec fn drawn(self, command: Move) -> CanvasModel {
        let base = if self.paths.len() == 0 {
            self.new_path()
        } else {
            self
        };
        CanvasModel {
            paths: base.paths.update(base.paths.len() - 1, base.paths.last().with(command)),
            ..base
        }
    }

    /// The canvas after the turtle has gone to `(x, y)`: a line on the
    /// last path where the pen is down, else a move; a line on the path
    /// being filled, if there is one.
    pub open spec fn mov(self, x: Real, y: Real) -> CanvasModel {
        let traced = self.drawn(
            if self.pen_down {
                Move::AbsoluteLine(x, y)
            } else {
                Move::AbsoluteMove(x, y)
            },
        );
        CanvasModel {
            x,
            y,
            fill_path: match traced.fill_path {
                Some(path) => Some(path.with(Move::AbsoluteLine(x, y))),
                None => None,
            },
            ..traced
        }
    }

    /// Where the turtle comes to after `distance` along its heading.
    pub open spec fn ahead<U: RealUnit>(self, unit: &U, distance: Real) -> (Real, Real) {
        let radians = real_function(unit, RealFunction::Radians, self.angle);
        (
            real_arith(
                unit,
                RealOp::Add,
                self.x,
                real_arith(
                    unit,
                    RealOp::Mul,
                    distance,
                    real_function(unit, RealFunction::Cos, radians),
                ),
            ),
            real_arith(
                unit,
                RealOp::Add,
                self.y,
                real_arith(
                    unit,
                    RealOp::Mul,
                    distance,
                    real_function(unit, RealFunction::Sin, radians),
                ),
            ),
        )
    }

    /// The canvas after the turtle has gone `distance` along its heading.
    pub open spec fn forward<U: RealUnit>(self, unit: &U, distance: Real) -> CanvasModel {
        self.mov(self.ahead(unit, distance).0, self.ahead(unit, distance).1)
    }

    /// The canvas with a path to fill begun, in the stroke colour of the
    /// last path.
    pub open spec fn begin_fill(self) -> CanvasModel {
        CanvasModel {
            fill_path: Some(
                PathModel {
                    fill: if self.paths.len() == 0 {
                        PathModel::initial().stroke
                    } else {
                        self.paths.last().stroke
                    },
                    ..PathModel::initial()
                },
            ),
            ..self
        }
    }

    /// The canvas with the path being filled put under the last path.
    pub open spec fn end_fill(self) -> CanvasModel {
        match self.fill_path {
            None => self,
            Some(path) => CanvasModel {
                fill_path: None,
                paths: if self.paths.len() == 0 {
                    self.paths.push(path)
                } else {
                    self.paths.insert(self.paths.len() - 1, path)
                },
                ..self
            },
        }
    }

    /// The canvas on a ground of another colour.
    pub open spec fn set_bg(self, color: Seq<char>) -> CanvasModel {
        CanvasModel { bg_color: color, ..self }
    }

    /// The canvas after the turtle has turned by `theta` degrees to the
    /// left: the heading is kept within one turn.
    pub open spec fn rotate<U: RealUnit>(self, unit: &U, theta: Real) -> CanvasModel {
        CanvasModel {
            angle: real_arith(
                unit,
                RealOp::Rem,
                real_arith(unit, RealOp::Sub, self.angle, theta),
                Real { bits: FULL_TURN_BITS },
            ),
            ..self
        }
    }

    /// The canvas after the turtle has been turned to the heading `theta`,
    /// in degrees to the left of east.
    pub open spec fn abs_rotate<U: RealUnit>(self, unit: &U, theta: Real) -> CanvasModel {
        CanvasModel {
            angle: real_arith(unit, RealOp::Rem, theta.negated(), Real { bits: FULL_TURN_BITS }),
            ..self
        }
    }
}

impl Canvas {
    /// The canvas that a session starts with.
    pub fn default() -> (canvas: Canvas)
        ensures
            canvas@ == CanvasModel::initial(),
    {
        let mut canvas = Canvas {
            content: CanvasContent {
                x: Real::zero_value(),
                y: Real::zero_value(),
                angle: Real { bits: MINUS_NINETY_BITS },
                bg_color: "white".to_owned(),
                paths: Vec::new(),
                fill_path: None,
                pen_down: true,
                turtle_visible: true,
                size: Real { bits: ONE_BITS },
            },
        };
        assert(canvas@.paths =~= Seq::<PathModel>::empty());
        canvas.new_path();
        canvas
    }

    /// Begins a path where the turtle stands.
    pub fn new_path(&mut self)
        ensures
            final(self)@ == old(self)@.new_path(),
    {
        let mut path = Path::default();
        path.moves.push(Move::AbsoluteMove(self.content.x, self.content.y));
        let ghost before = path_views(self.content.paths@);
        let ghost added = path@;
        self.content.paths.push(path);
        assert(path_views(self.content.paths@) =~= before.push(added));
    }

    /// Puts the canvas back to what a session starts with.
    pub fn reset(&mut self)
        ensures
            final(self)@ == CanvasModel::initial(),
    {
        *self = Canvas::default();
    }

    /// Begins a path of the stroke `color`.
    pub fn set_color(&mut self, color: &str)
        ensures
            final(self)@ == old(self)@.set_color(color@),
    {
        self.new_path();
        let ghost begun = path_views(self.content.paths@);
        match self.content.paths.pop() {
            Some(mut last) => {
                last.stroke = color.to_owned();
                let ghost changed = last@;
                let ghost shorter = path_views(self.content.paths@);
                self.content.paths.push(last);
                assert(path_views(self.content.paths@) =~= begun.update(
                    begun.len() - 1,
                    changed,
                ));
            },
            None => {},
        }
    }

    fn draw(&mut self, command: Move)
        ensures
            final(self)@ == old(self)@.drawn(command),
    {
        if self.content.paths.len() == 0 {
            self.new_path();
        }
        let ghost base = path_views(self.content.paths@);
        match self.content.paths.pop() {
            Some(mut last) => {
                last.moves.push(command);
                let ghost changed = last@;
                self.content.paths.push(last);
                assert(path_views(self.content.paths@) =~= base.update(base.len() - 1, changed));
            },
            None => {},
        }
    }

    /// Takes the turtle to `(x, y)`.
    pub fn mov(&mut self, x: Real, y: Real)
        ensures
            final(self)@ == old(self)@.mov(x, y),
    {
        if self.content.pen_down {
            self.draw(Move::AbsoluteLine(x, y));
        } else {
            self.draw(Move::AbsoluteMove(x, y));
        }
        match &mut self.content.fill_path {
            Some(path) => {
                path.moves.push(Move::AbsoluteLine(x, y));
            },
            None => {},
        }
        self.content.x = x;
        self.content.y = y;
    }

    /// Takes the turtle `distance` along its heading.
    pub fn forward<U: RealUnit>(&mut self, distance: Real, unit: &U)
        requires
            unit_ready(unit),
        ensures
            final(self)@ == old(self)@.forward(unit, distance),
    {
        let radians = apply_function(unit, RealFunction::Radians, self.content.angle);
        let cos = apply_function(unit, RealFunction::Cos, radians);
        let sin = apply_function(unit, RealFunction::Sin, radians);
        let x = arithmetic(unit, RealOp::Add, self.content.x, arithmetic(unit, RealOp::Mul, distance, cos));
        let y = arithmetic(unit, RealOp::Add, self.content.y, arithmetic(unit, RealOp::Mul, distance, sin));
        self.mov(x, y);
    }

    /// Begins a path to fill, in the stroke colour of the last path.
    pub fn begin_fill(&mut self)
        ensures
            final(self)@ == old(self)@.begin_fill(),
    {
        let mut path = Path::default();
        let count = self.content.paths.len();
        if count > 0 {
            path.fill = self.content.paths[count - 1].stroke.clone();
        } else {
            path.fill = "black".to_owned();
        }
        self.content.fill_path = Some(path);
    }

    /// Puts the path being filled under the last path.
    pub fn end_fill(&mut self)
        ensures
            final(self)@ == old(self)@.end_fill(),
    {
        let filled = match &self.content.fill_path {
            Some(path) => path.duplicate(),
            None => {
                return ;
            },
        };
        self.content.fill_path = None;
        let ghost before = path_views(self.content.paths@);
        let ghost added = filled@;
        let count = self.content.paths.len();
        if count == 0 {
            self.content.paths.push(filled);
            assert(path_views(self.content.paths@) =~= before.push(added));
        } else {
            self.content.paths.insert(count - 1, filled);
            assert(path_views(self.content.paths@) =~= before.insert(count - 1, added));
        }
    }

    /// Changes the colour of the ground.
    pub fn set_bg(&mut self, color: &str)
        ensures
            final(self)@ == old(self)@.set_bg(color@),
    {
        self.content.bg_color = color.to_owned();
    }

    /// Turns the turtle by `theta` degrees to the left.
    pub fn rotate<U: RealUnit>(&mut self, theta: Real, unit: &U)
        requires
            unit_ready(unit),
        ensures
            final(self)@ == old(self)@.rotate(unit, theta),
    {
        let turned = arithmetic(unit, RealOp::Sub, self.content.angle, theta);
        self.content.angle = arithmetic(unit, RealOp::Rem, turned, Real { bits: FULL_TURN_BITS });
    }

    /// Turns the turtle to the heading `theta`, in degrees to the left of
    /// east.
    pub fn abs_rotate<U: RealUnit>(&mut self, theta: Real, unit: &U)
        requires
            unit_ready(unit),
        ensures
            final(self)@ == old(self)@.abs_rotate(unit, theta),
    {
        self.content.angle = arithmetic(
            unit,
            RealOp::Rem,
            theta.negate(),
            Real { bits: FULL_TURN_BITS },
        );
    }

    pub fn pendown(&mut self)
        ensures
            final(self)@ == (CanvasModel { pen_down: true, ..old(self)@ }),
    {
        self.content.pen_down = true;
    }

    pub fn penup(&mut self)
        ensures
            final(self)@ == (CanvasModel { pen_down: false, ..old(self)@ }),
    {
        self.content.pen_down = false;
    }

    pub fn show_turtle(&mut self)
        ensures
            final(self)@ == (CanvasModel { turtle_visible: true, ..old(self)@ }),
    {
        self.content.turtle_visible = true;
    }

    pub fn hide_turtle(&mut self)
        ensures
            final(self)@ == (CanvasModel { turtle_visible: false, ..old(self)@ }),
    {
        self.content.turtle_visible = false;
    }

    pub fn is_visible(&self) -> (visible: bool)
        ensures
            visible == self@.turtle_visible,
    {
        self.content.turtle_visible
    }

    /// A copy of the canvas.
    pub fn duplicate(&self) -> (copy: Canvas)
        ensures
            copy@ == self@,
    {
        let mut paths: Vec<Path> = Vec::new();
        let mut index: usize = 0;
        while index < self.content.paths.len()
            invariant
                index <= self.content.paths@.len(),
                paths@.len() == index,
                forall|i: int| 0 <= i < index ==> (#[trigger] paths@[i])@ == self.content.paths@[i]@,
            decreases self.content.paths.len() - index,
        {
            paths.push(self.content.paths[index].duplicate());
            index += 1;
        }
        assert(path_views(paths@) =~= path_views(self.content.paths@));
        let fill_path = match &self.content.fill_path {
            Some(path) => Some(path.duplicate()),
            None => None,
        };
        Canvas {
            content: CanvasContent {
                x: self.content.x,
                y: self.content.y,
                angle: self.content.angle,
                bg_color: self.content.bg_color.clone(),
                paths,
                fill_path,
                pen_down: self.content.pen_down,
                turtle_visible: self.content.turtle_visible,
                size: self.content.size,
            },
        }
    }
}

} // verus!
