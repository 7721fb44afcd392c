//! Path commands, their positions and parameters, and the text of one command.
use vstd::prelude::*;
use crate::number::{Number, number_text, lemma_number_text_chars};

verus! {

/// How a command's coordinates are read.
#[derive(Clone, Copy, Debug, PartialEq, Eq, Structural)]
pub enum Position {
    /// Canvas coordinates; the command letter is upper case.
    Absolute,
    /// Offsets from the current point; the command letter is lower case.
    Relative,
}

/// The numeric operands of one command, in order.
#[derive(Clone, Debug, PartialEq)]
pub struct Parameters(pub Vec<Number>);

impl View for Parameters {
    type V = Seq<Number>;

    open spec fn view(&self) -> Seq<Number> {
        self.0@
    }
}

/// One drawing instruction.
#[derive(Clone, Debug, PartialEq)]
pub enum Command {
    /// Starts a new subpath at a point (x, y).
    Move(Position, Parameters),
    /// A straight segment to a point (x, y).
    Line(Position, Parameters),
    /// A horizontal segment to x.
    HorizontalLine(Position, Parameters),
    /// A vertical segment to y.
    VerticalLine(Position, Parameters),
    /// A quadratic Bezier curve: control point, then end point (four numbers).
    QuadraticCurve(Position, Parameters),
    /// A quadratic Bezier curve whose control point is inferred: end point only.
    SmoothQuadraticCurve(Position, Parameters),
    /// A cubic Bezier curve: two control points, then end point (six numbers).
    CubicCurve(Position, Parameters),
    /// A cubic Bezier curve whose first control point is inferred (four numbers).
    SmoothCubicCurve(Position, Parameters),
    /// An elliptical arc: rx, ry, x-axis rotation, large-arc flag, sweep flag, x, y.
    EllipticalArc(Position, Parameters),
    /// Closes the current subpath.
    Close,
}

/// A value that stands for one number.
pub trait IntoNumber: Sized {
    spec fn number(&self) -> Number;

    fn into_number(self) -> (r: Number)
        ensures
            r == self.number(),
    ;
}

impl IntoNumber for Number {
    open spec fn number(&self) -> Number {
        *self
    }

    fn into_number(self) -> (r: Number) {
        self
    }
}

impl IntoNumber for i32 {
    open spec fn number(&self) -> Number {
        Number { mantissa: *self as i64, scale: 0 }
    }

    fn into_number(self) -> (r: Number) {
        Number::integer(self as i64)
    }
}

impl IntoNumber for i64 {
    open spec fn number(&self) -> Number {
        Number { mantissa: *self, scale: 0 }
    }

    fn into_number(self) -> (r: Number) {
        Number::integer(self)
    }
}

/// A value that stands for a list of parameters: one number, a tuple of
/// numbers, a vector of numbers, or the list itself.
pub trait IntoParameters: Sized {
    spec fn numbers(&self) -> Seq<Number>;

    fn into_parameters(self) -> (r: Parameters)
        ensures
            r@ == self.numbers(),
    ;
}

impl IntoParameters for Parameters {
    open spec fn numbers(&self) -> Seq<Number> {
        self@
    }

    fn into_parameters(self) -> (r: Parameters) {
        self
    }
}

impl IntoParameters for Vec<Number> {
    open spec fn numbers(&self) -> Seq<Number> {
        self@
    }

    fn into_parameters(self) -> (r: Parameters) {
        Parameters(self)
    }
}

impl<A: IntoNumber> IntoParameters for A {
    open spec fn numbers(&self) -> Seq<Number> {
        seq![self.number()]
    }

    fn into_parameters(self) -> (r: Parameters) {
        let mut v: Vec<Number> = Vec::new();
        v.push(self.into_number());
        Parameters(v)
    }
}

impl<A: IntoNumber, B: IntoNumber> IntoParameters for (A, B) {
    open spec fn numbers(&self) -> Seq<Number> {
        seq![self.0.number(), self.1.number()]
    }

    fn into_parameters(self) -> (r: Parameters) {
        let mut v: Vec<Number> = Vec::new();
        v.push(self.0.into_number());
        v.push(self.1.into_number());
        Parameters(v)
    }
}

impl<A: IntoNumber, B: IntoNumber, C: IntoNumber, D: IntoNumber> IntoParameters for (A, B, C, D) {
    open spec fn numbers(&self) -> Seq<Number> {
        seq![self.0.number(), self.1.number(), self.2.number(), self.3.number()]
    }

    fn into_parameters(self) -> (r: Parameters) {
        let mut v: Vec<Number> = Vec::new();
        v.push(self.0.into_number());
        v.push(self.1.into_number());
        v.push(self.2.into_number());
        v.push(self.3.into_number());
        Parameters(v)
    }
}

impl<
    A: IntoNumber,
    B: IntoNumber,
    C: IntoNumber,
    D: IntoNumber,
    E: IntoNumber,
    F: IntoNumber,
> IntoParameters for (A, B, C, D, E, F) {
    open spec fn numbers(&self) -> Seq<Number> {
        seq![
            self.0.number(),
            self.1.number(),
            self.2.number(),
            self.3.number(),
            self.4.number(),
            self.5.number(),
        ]
    }

    fn into_parameters(self) -> (r: Parameters) {
        let mut v: Vec<Number> = Vec::new();
        v.push(self.0.into_number());
        v.push(self.1.into_number());
        v.push(self.2.into_number());
        v.push(self.3.into_number());
        v.push(self.4.into_number());
        v.push(self.5.into_number());
        Parameters(v)
    }
}

impl<
    A: IntoNumber,
    B: IntoNumber,
    C: IntoNumber,
    D: IntoNumber,
    E: IntoNumber,
    F: IntoNumber,
    G: IntoNumber,
> IntoParameters for (A, B, C, D, E, F, G) {
    open spec fn numbers(&self) -> Seq<Number> {
        seq![
            self.0.number(),
            self.1.number(),
            self.2.number(),
            self.3.number(),
            self.4.number(),
            self.5.number(),
            self.6.number(),
        ]
    }

    fn into_parameters(self) -> (r: Parameters) {
        let mut v: Vec<Number> = Vec::new();
        v.push(self.0.into_number());
        v.push(self.1.into_number());
        v.push(self.2.into_number());
        v.push(self.3.into_number());
        v.push(self.4.into_number());
        v.push(self.5.into_number());
        v.push(self.6.into_number());
        Parameters(v)
    }
}

/// The upper-case letter of a command's kind.
pub open spec fn kind_letter(c: Command) -> char {
    match c {
        Command::Move(..) => 'M',
        Command::Line(..) => 'L',
        Command::HorizontalLine(..) => 'H',
        Command::VerticalLine(..) => 'V',
        Command::QuadraticCurve(..) => 'Q',
        Command::SmoothQuadraticCurve(..) => 'T',
        Command::CubicCurve(..) => 'C',
        Command::SmoothCubicCurve(..) => 'S',
        Command::EllipticalArc(..) => 'A',
        Command::Close => 'Z',
    }
}

/// The lower-case form of an upper-case ASCII letter.
pub open spec fn lower(c: char) -> char {
    ((c as u32) + 32) as char
}

pub open spec fn is_upper(c: char) -> bool {
    'A' <= c <= 'Z'
}

pub open spec fn is_lower(c: char) -> bool {
    'a' <= c <= 'z'
}

impl Command {
    /// The position of a coordinate-bearing command.
    pub open spec fn position(self) -> Option<Position> {
        match self {
            Command::Move(p, _) => Some(p),
            Command::Line(p, _) => Some(p),
            Command::HorizontalLine(p, _) => Some(p),
            Command::VerticalLine(p, _) => Some(p),
            Command::QuadraticCurve(p, _) => Some(p),
            Command::SmoothQuadraticCurve(p, _) => Some(p),
            Command::CubicCurve(p, _) => Some(p),
            Command::SmoothCubicCurve(p, _) => Some(p),
            Command::EllipticalArc(p, _) => Some(p),
            Command::Close => None,
        }
    }

    /// The parameters of a command; none for `Close`.
    pub open spec fn numbers(self) -> Seq<Number> {
        match self {
            Command::Move(_, q) => q@,
            Command::Line(_, q) => q@,
            Command::HorizontalLine(_, q) => q@,
            Command::VerticalLine(_, q) => q@,
            Command::QuadraticCurve(_, q) => q@,
            Command::SmoothQuadraticCurve(_, q) => q@,
            Command::CubicCurve(_, q) => q@,
            Command::SmoothCubicCurve(_, q) => q@,
            Command::EllipticalArc(_, q) => q@,
            Command::Close => seq![],
        }
    }

    /// The letter that opens the command's text: the kind's letter, lower case
    /// for a relative command and for `Close`.
    pub open spec fn letter(self) -> char {
        if self.position() == Some(Position::Absolute) {
            kind_letter(self)
        } else {
            lower(kind_letter(self))
        }
    }
}

/// The numbers of a list joined by commas.
pub open spec fn numbers_text(ns: Seq<Number>) -> Seq<char>
    decreases ns.len(),
{
    if ns.len() == 0 {
        seq![]
    } else if ns.len() == 1 {
        number_text(ns[0])
    } else {
        numbers_text(ns.drop_last()) + seq![','] + number_text(ns.last())
    }
}

/// The text of one command: its letter, then its parameters joined by commas.
pub open spec fn command_text(c: Command) -> Seq<char> {
    seq![c.letter()] + numbers_text(c.numbers())
}

impl Parameters {
    /// Appends the numbers, joined by commas, to `out`.
    pub fn write_to(&self, out: &mut String)
        ensures
            final(out)@ == old(out)@ + numbers_text(self@),
    {
        let n = self.0.len();
        let mut i: usize = 0;
        while i < n
            invariant
                n == self@.len(),
                i <= n,
                out@ == old(out)@ + numbers_text(self@.take(i as int)),
            decreases n - i,
        {
            if i > 0 {
                proof {
                    reveal_strlit(",");
                }
                out.append(",");
            }
            self.0[i].write_to(out);
            proof {
                let t = self@.take(i + 1);
                assert(t.drop_last() =~= self@.take(i as int));
                if i == 0 {
                    assert(t =~= seq![self@[0]]);
                }
            }
            i = i + 1;
        }
        assert(self@.take(n as int) =~= self@);
    }
}

impl Command {
    /// The letter of this command as a one-character string.
    fn letter_str(&self) -> (r: &'static str)
        ensures
            r@ == seq![self.letter()],
    {
        proof {
            reveal_strlit("M");
            reveal_strlit("m");
            reveal_strlit("L");
            reveal_strlit("l");
            reveal_strlit("H");
            reveal_strlit("h");
            reveal_strlit("V");
            reveal_strlit("v");
            reveal_strlit("Q");
            reveal_strlit("q");
            reveal_strlit("T");
            reveal_strlit("t");
            reveal_strlit("C");
            reveal_strlit("c");
            reveal_strlit("S");
            reveal_strlit("s");
            reveal_strlit("A");
            reveal_strlit("a");
            reveal_strlit("z");
        }
        match self {
            Command::Move(Position::Absolute, _) => "M",
            Command::Move(Position::Relative, _) => "m",
            Command::Line(Position::Absolute, _) => "L",
            Command::Line(Position::Relative, _) => "l",
            Command::HorizontalLine(Position::Absolute, _) => "H",
            Command::HorizontalLine(Position::Relative, _) => "h",
            Command::VerticalLine(Position::Absolute, _) => "V",
            Command::VerticalLine(Position::Relative, _) => "v",
            Command::QuadraticCurve(Position::Absolute, _) => "Q",
            Command::QuadraticCurve(Position::Relative, _) => "q",
            Command::SmoothQuadraticCurve(Position::Absolute, _) => "T",
            Command::SmoothQuadraticCurve(Position::Relative, _) => "t",
            Command::CubicCurve(Position::Absolute, _) => "C",
            Command::CubicCurve(Position::Relative, _) => "c",
            Command::SmoothCubicCurve(Position::Absolute, _) => "S",
            Command::SmoothCubicCurve(Position::Relative, _) => "s",
            Command::EllipticalArc(Position::Absolute, _) => "A",
            Command::EllipticalArc(Position::Relative, _) => "a",
            Command::Close => "z",
        }
    }

    /// Appends the text of this command to `out`.
    pub fn write_to(&self, out: &mut String)
        ensures
            final(out)@ == old(out)@ + command_text(*self),
    {
        out.append(self.letter_str());
        match self {
            Command::Move(_, q) => q.write_to(out),
            Command::Line(_, q) => q.write_to(out),
            Command::HorizontalLine(_, q) => q.write_to(out),
            Command::VerticalLine(_, q) => q.write_to(out),
            Command::QuadraticCurve(_, q) => q.write_to(out),
            Command::SmoothQuadraticCurve(_, q) => q.write_to(out),
            Command::CubicCurve(_, q) => q.write_to(out),
            Command::SmoothCubicCurve(_, q) => q.write_to(out),
            Command::EllipticalArc(_, q) => q.write_to(out),
            Command::Close => {},
        }
        assert(numbers_text(seq![]) == Seq::<char>::empty());
    }

    /// The text of this command: its letter, then its parameters joined by commas.
    pub fn render(&self) -> (r: String)
        ensures
            r@ == command_text(*self),
    {
        let mut out = String::new();
        self.write_to(&mut out);
        assert(out@ =~= command_text(*self));
        out
    }
}

/// The letter's case follows the position: upper case for every absolute
/// command, lower case for every relative one, and `z` for `Close`. The text
/// of a command starts with that letter.
pub proof fn lemma_letter_case(c: Command)
    ensures
        c.position() == Some(Position::Absolute) ==> is_upper(c.letter()),
        c.position() == Some(Position::Relative) ==> is_lower(c.letter()),
        c is Close ==> c.letter() == 'z',
        command_text(c)[0] == c.letter(),
{
}

proof fn lemma_numbers_text_no_space(ns: Seq<Number>)
    ensures
        !numbers_text(ns).contains(' '),
    decreases ns.len(),
{
    if ns.len() == 0 {
        return;
    }
    lemma_number_text_chars(ns.last());
    if ns.len() == 1 {
        lemma_number_text_chars(ns[0]);
        return;
    }
    lemma_numbers_text_no_space(ns.drop_last());
    let t = numbers_text(ns);
    let l = numbers_text(ns.drop_last());
    let r = number_text(ns.last());
    if t.contains(' ') {
        let i = choose|i: int| 0 <= i < t.len() && t[i] == ' ';
        if i < l.len() {
            assert(t[i] == l[i]);
        } else if i > l.len() {
            assert(t[i] == r[i - l.len() - 1]);
        }
    }
}

/// No command's text holds a space.
pub proof fn lemma_command_text_no_space(c: Command)
    ensures
        !command_text(c).contains(' '),
{
    lemma_letter_case(c);
    lemma_numbers_text_no_space(c.numbers());
    let t = command_text(c);
    if t.contains(' ') {
        let i = choose|i: int| 0 <= i < t.len() && t[i] == ' ';
        if i > 0 {
            assert(t[i] == numbers_text(c.numbers())[i - 1]);
        }
    }
}

} // verus!
