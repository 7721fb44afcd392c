//! The path data builder and the text of a whole path.
use vstd::prelude::*;
use crate::command::{Command, IntoParameters, Position, command_text, lemma_command_text_no_space};

verus! {

/// Path data: the commands of one path, in drawing order.
#[derive(Clone, Debug, PartialEq)]
pub struct Data(pub Vec<Command>);

impl View for Data {
    type V = Seq<Command>;

    open spec fn view(&self) -> Seq<Command> {
        self.0@
    }
}

/// The texts of the commands joined by single spaces.
pub open spec fn path_text(cs: Seq<Command>) -> Seq<char>
    decreases cs.len(),
{
    if cs.len() == 0 {
        seq![]
    } else if cs.len() == 1 {
        command_text(cs[0])
    } else {
        path_text(cs.drop_last()) + seq![' '] + command_text(cs.last())
    }
}

impl Data {
    /// Empty path data.
    pub fn new() -> (r: Self)
        ensures
            r@ == Seq::<Command>::empty(),
    {
        Data(Vec::new())
    }

    /// Adds a command at the end and hands the data back.
    pub fn add(self, command: Command) -> (r: Self)
        ensures
            r@ == self@.push(command),
    {
        let mut data = self;
        data.append(command);
        data
    }

    /// Appends a command at the end.
    pub fn append(&mut self, command: Command)
        ensures
            final(self)@ == old(self)@.push(command),
    {
        self.0.push(command);
    }

    /// Adds an absolute `Command::Move` with the given parameters.
    pub fn move_to<T: IntoParameters>(self, parameters: T) -> (r: Self)
        ensures
            r@.len() == self@.len() + 1,
            r@.drop_last() == self@,
            (r@.last() matches Command::Move(p, q) && p == Position::Absolute && q@ == parameters.numbers()),
    {
        let mut data = self;
        data.0.push(Command::Move(Position::Absolute, parameters.into_parameters()));
        data
    }

    /// Adds a relative `Command::Move` with the given parameters.
    pub fn move_by<T: IntoParameters>(self, parameters: T) -> (r: Self)
        ensures
            r@.len() == self@.len() + 1,
            r@.drop_last() == self@,
            (r@.last() matches Command::Move(p, q) && p == Position::Relative && q@ == parameters.numbers()),
    {
        let mut data = self;
        data.0.push(Command::Move(Position::Relative, parameters.into_parameters()));
        data
    }

    /// Adds an absolute `Command::Line` with the given parameters.
    pub fn line_to<T: IntoParameters>(self, parameters: T) -> (r: Self)
        ensures
            r@.len() == self@.len() + 1,
            r@.drop_last() == self@,
            (r@.last() matches Command::Line(p, q) && p == Position::Absolute && q@ == parameters.numbers()),
    {
        let mut data = self;
        data.0.push(Command::Line(Position::Absolute, parameters.into_parameters()));
        data
    }

    /// Adds a relative `Command::Line` with the given parameters.
    pub fn line_by<T: IntoParameters>(self, parameters: T) -> (r: Self)
        ensures
            r@.len() == self@.len() + 1,
            r@.drop_last() == self@,
            (r@.last() matches Command::Line(p, q) && p == Position::Relative && q@ == parameters.numbers()),
    {
        let mut data = self;
        data.0.push(Command::Line(Position::Relative, parameters.into_parameters()));
        data
    }

    /// Adds an absolute `Command::HorizontalLine` with the given parameters.
    pub fn horizontal_line_to<T: IntoParameters>(self, parameters: T) -> (r: Self)
        ensures
            r@.len() == self@.len() + 1,
            r@.drop_last() == self@,
            (r@.last() matches Command::HorizontalLine(p, q) && p == Position::Absolute && q@ == parameters.numbers()),
    {
        let mut data = self;
        data.0.push(Command::HorizontalLine(Position::Absolute, parameters.into_parameters()));
        data
    }

    /// Adds a relative `Command::HorizontalLine` with the given parameters.
    pub fn horizontal_line_by<T: IntoParameters>(self, parameters: T) -> (r: Self)
        ensures
            r@.len() == self@.len() + 1,
            r@.drop_last() == self@,
            (r@.last() matches Command::HorizontalLine(p, q) && p == Position::Relative && q@ == parameters.numbers()),
    {
        let mut data = self;
        data.0.push(Command::HorizontalLine(Position::Relative, parameters.into_parameters()));
        data
    }

    /// Adds an absolute `Command::VerticalLine` with the given parameters.
    pub fn vertical_line_to<T: IntoParameters>(self, parameters: T) -> (r: Self)
        ensures
            r@.len() == self@.len() + 1,
            r@.drop_last() == self@,
            (r@.last() matches Command::VerticalLine(p, q) && p == Position::Absolute && q@ == parameters.numbers()),
    {
        let mut data = self;
        data.0.push(Command::VerticalLine(Position::Absolute, parameters.into_parameters()));
        data
    }

    /// Adds a relative `Command::VerticalLine` with the given parameters.
    pub fn vertical_line_by<T: IntoParameters>(self, parameters: T) -> (r: Self)
        ensures
            r@.len() == self@.len() + 1,
            r@.drop_last() == self@,
            (r@.last() matches Command::VerticalLine(p, q) && p == Position::Relative && q@ == parameters.numbers()),
    {
        let mut data = self;
        data.0.push(Command::VerticalLine(Position::Relative, parameters.into_parameters()));
        data
    }

    /// Adds an absolute `Command::QuadraticCurve` with the given parameters.
    pub fn quadratic_curve_to<T: IntoParameters>(self, parameters: T) -> (r: Self)
        ensures
            r@.len() == self@.len() + 1,
            r@.drop_last() == self@,
            (r@.last() matches Command::QuadraticCurve(p, q) && p == Position::Absolute && q@ == parameters.numbers()),
    {
        let mut data = self;
        data.0.push(Command::QuadraticCurve(Position::Absolute, parameters.into_parameters()));
        data
    }

    /// Adds a relative `Command::QuadraticCurve` with the given parameters.
    pub fn quadratic_curve_by<T: IntoParameters>(self, parameters: T) -> (r: Self)
        ensures
            r@.len() == self@.len() + 1,
            r@.drop_last() == self@,
            (r@.last() matches Command::QuadraticCurve(p, q) && p == Position::Relative && q@ == parameters.numbers()),
    {
        let mut data = self;
        data.0.push(Command::QuadraticCurve(Position::Relative, parameters.into_parameters()));
        data
    }

    /// Adds an absolute `Command::SmoothQuadraticCurve` with the given parameters.
    pub fn smooth_quadratic_curve_to<T: IntoParameters>(self, parameters: T) -> (r: Self)
        ensures
            r@.len() == self@.len() + 1,
            r@.drop_last() == self@,
            (r@.last() matches Command::SmoothQuadraticCurve(p, q) && p == Position::Absolute && q@ == parameters.numbers()),
    {
        let mut data = self;
        data.0.push(Command::SmoothQuadraticCurve(Position::Absolute, parameters.into_parameters()));
        data
    }

    /// Adds a relative `Command::SmoothQuadraticCurve` with the given parameters.
    pub fn smooth_quadratic_curve_by<T: IntoParameters>(self, parameters: T) -> (r: Self)
        ensures
            r@.len() == self@.len() + 1,
            r@.drop_last() == self@,
            (r@.last() matches Command::SmoothQuadraticCurve(p, q) && p == Position::Relative && q@ == parameters.numbers()),
    {
        let mut data = self;
        data.0.push(Command::SmoothQuadraticCurve(Position::Relative, parameters.into_parameters()));
        data
    }

    /// Adds an absolute `Command::CubicCurve` with the given parameters.
    pub fn cubic_curve_to<T: IntoParameters>(self, parameters: T) -> (r: Self)
        ensures
            r@.len() == self@.len() + 1,
            r@.drop_last() == self@,
            (r@.last() matches Command::CubicCurve(p, q) && p == Position::Absolute && q@ == parameters.numbers()),
    {
        let mut data = self;
        data.0.push(Command::CubicCurve(Position::Absolute, parameters.into_parameters()));
        data
    }

    /// Adds a relative `Command::CubicCurve` with the given parameters.
    pub fn cubic_curve_by<T: IntoParameters>(self, parameters: T) -> (r: Self)
        ensures
            r@.len() == self@.len() + 1,
            r@.drop_last() == self@,
            (r@.last() matches Command::CubicCurve(p, q) && p == Position::Relative && q@ == parameters.numbers()),
    {
        let mut data = self;
        data.0.push(Command::CubicCurve(Position::Relative, parameters.into_parameters()));
        data
    }

    /// Adds an absolute `Command::SmoothCubicCurve` with the given parameters.
    pub fn smooth_cubic_curve_to<T: IntoParameters>(self, parameters: T) -> (r: Self)
        ensures
            r@.len() == self@.len() + 1,
            r@.drop_last() == self@,
            (r@.last() matches Command::SmoothCubicCurve(p, q) && p == Position::Absolute && q@ == parameters.numbers()),
    {
        let mut data = self;
        data.0.push(Command::SmoothCubicCurve(Position::Absolute, parameters.into_parameters()));
        data
    }

    /// Adds a relative `Command::SmoothCubicCurve` with the given parameters.
    pub fn smooth_cubic_curve_by<T: IntoParameters>(self, parameters: T) -> (r: Self)
        ensures
            r@.len() == self@.len() + 1,
            r@.drop_last() == self@,
            (r@.last() matches Command::SmoothCubicCurve(p, q) && p == Position::Relative && q@ == parameters.numbers()),
    {
        let mut data = self;
        data.0.push(Command::SmoothCubicCurve(Position::Relative, parameters.into_parameters()));
        data
    }

    /// Adds an absolute `Command::EllipticalArc` with the given parameters.
    pub fn elliptical_arc_to<T: IntoParameters>(self, parameters: T) -> (r: Self)
        ensures
            r@.len() == self@.len() + 1,
            r@.drop_last() == self@,
            (r@.last() matches Command::EllipticalArc(p, q) && p == Position::Absolute && q@ == parameters.numbers()),
    {
        let mut data = self;
        data.0.push(Command::EllipticalArc(Position::Absolute, parameters.into_parameters()));
        data
    }

    /// Adds a relative `Command::EllipticalArc` with the given parameters.
    pub fn elliptical_arc_by<T: IntoParameters>(self, parameters: T) -> (r: Self)
        ensures
            r@.len() == self@.len() + 1,
            r@.drop_last() == self@,
            (r@.last() matches Command::EllipticalArc(p, q) && p == Position::Relative && q@ == parameters.numbers()),
    {
        let mut data = self;
        data.0.push(Command::EllipticalArc(Position::Relative, parameters.into_parameters()));
        data
    }

    /// Adds a `Command::Close`.
    pub fn close(self) -> (r: Self)
        ensures
            r@ == self@.push(Command::Close),
    {
        let mut data = self;
        data.0.push(Command::Close);
        data
    }

    /// The text of the whole path: the commands' texts joined by single spaces.
    /// Consumes the data.
    pub fn into_string(self) -> (r: String)
        ensures
            r@ == path_text(self@),
    {
        let mut out = String::new();
        let n = self.0.len();
        let mut i: usize = 0;
        while i < n
            invariant
                n == self@.len(),
                i <= n,
                out@ == path_text(self@.take(i as int)),
            decreases n - i,
        {
            if i > 0 {
                proof {
                    reveal_strlit(" ");
                }
                out.append(" ");
            }
            self.0[i].write_to(&mut out);
            proof {
                let t = self@.take(i + 1);
                assert(t.drop_last() =~= self@.take(i as int));
                if i == 0 {
                    assert(t =~= seq![self@[0]]);
                }
            }
            i = i + 1;
        }
        assert(self@.take(n as int) =~= self@);
        out
    }
}

impl std::ops::Deref for Data {
    type Target = [Command];

    /// The commands, in order, without giving up the data.
    fn deref(&self) -> (r: &[Command])
        ensures
            r@ == self@,
    {
        self.0.as_slice()
    }
}

impl Default for Data {
    fn default() -> (r: Self)
        ensures
            r@ == Seq::<Command>::empty(),
    {
        Data::new()
    }
}

impl From<Vec<Command>> for Data {
    fn from(commands: Vec<Command>) -> (r: Self) {
        Data(commands)
    }
}

impl vstd::std_specs::convert::FromSpecImpl<Vec<Command>> for Data {
    open spec fn obeys_from_spec() -> bool {
        true
    }

    open spec fn from_spec(commands: Vec<Command>) -> Data {
        Data(commands)
    }
}

impl From<Data> for Vec<Command> {
    fn from(data: Data) -> (r: Self) {
        data.0
    }
}

impl vstd::std_specs::convert::FromSpecImpl<Data> for Vec<Command> {
    open spec fn obeys_from_spec() -> bool {
        true
    }

    open spec fn from_spec(data: Data) -> Vec<Command> {
        data.0
    }
}

/// The pieces of `s` between single spaces, in order; a text without spaces is
/// one piece.
pub open spec fn split_spaces(s: Seq<char>) -> Seq<Seq<char>>
    decreases s.len(),
{
    if s.len() == 0 {
        seq![seq![]]
    } else {
        let t = split_spaces(s.drop_last());
        if s.last() == ' ' {
            t.push(seq![])
        } else {
            t.update(t.len() - 1, t.last().push(s.last()))
        }
    }
}

proof fn lemma_split_spaces_nonempty(s: Seq<char>)
    ensures
        split_spaces(s).len() > 0,
    decreases s.len(),
{
    if s.len() > 0 {
        lemma_split_spaces_nonempty(s.drop_last());
    }
}

/// Text without spaces, written after `a`, lengthens the last piece of `a`.
proof fn lemma_split_spaces_extend(a: Seq<char>, b: Seq<char>)
    requires
        !b.contains(' '),
    ensures
        split_spaces(a + b) == split_spaces(a).update(
            split_spaces(a).len() - 1,
            split_spaces(a).last() + b,
        ),
    decreases b.len(),
{
    lemma_split_spaces_nonempty(a);
    let t = split_spaces(a);
    if b.len() == 0 {
        assert(a + b =~= a);
        assert(t.last() + b =~= t.last());
        assert(t.update(t.len() - 1, t.last()) =~= t);
    } else {
        let b0 = b.drop_last();
        assert(!b0.contains(' ')) by {
            if b0.contains(' ') {
                let i = choose|i: int| 0 <= i < b0.len() && b0[i] == ' ';
                assert(b[i] == ' ');
            }
        }
        lemma_split_spaces_extend(a, b0);
        assert((a + b).drop_last() =~= a + b0);
        assert((a + b).last() == b.last());
        assert(b.last() != ' ') by {
            assert(b[b.len() - 1] == b.last());
        }
        assert((t.last() + b0).push(b.last()) =~= t.last() + b);
        assert(split_spaces(a + b) =~= t.update(t.len() - 1, t.last() + b));
    }
}

/// The pieces of a path's text between single spaces are exactly the texts of
/// its commands, in the commands' order.
pub proof fn lemma_path_tokens(cs: Seq<Command>)
    requires
        cs.len() > 0,
    ensures
        split_spaces(path_text(cs)) == cs.map_values(|c: Command| command_text(c)),
    decreases cs.len(),
{
    let last = cs.last();
    lemma_command_text_no_space(last);
    if cs.len() == 1 {
        assert(path_text(cs) == command_text(cs[0]));
        lemma_split_spaces_extend(seq![], command_text(last));
        assert(Seq::<char>::empty() + command_text(last) =~= command_text(last));
        assert(split_spaces(seq![]) == seq![Seq::<char>::empty()]);
        assert(split_spaces(path_text(cs)) =~= cs.map_values(|c: Command| command_text(c)));
    } else {
        let head = cs.drop_last();
        lemma_path_tokens(head);
        let p = path_text(head) + seq![' '];
        assert(p.drop_last() =~= path_text(head));
        assert(split_spaces(p) == split_spaces(path_text(head)).push(seq![]));
        lemma_split_spaces_extend(p, command_text(last));
        assert(Seq::<char>::empty() + command_text(last) =~= command_text(last));
        assert(split_spaces(path_text(cs)) =~= cs.map_values(|c: Command| command_text(c)));
    }
}

/// Whether `perm` lists each index below `n` exactly once.
pub open spec fn is_permutation(perm: Seq<int>, n: nat) -> bool {
    &&& perm.len() == n
    &&& forall|i: int| 0 <= i < n ==> 0 <= #[trigger] perm[i] < n
    &&& forall|i: int, j: int| 0 <= i < j < n ==> #[trigger] perm[i] != #[trigger] perm[j]
}

/// Rendering keeps order: when the commands are permuted, the pieces of the
/// text between single spaces are permuted the same way.
pub proof fn lemma_tokens_follow_order(cs: Seq<Command>, perm: Seq<int>)
    requires
        is_permutation(perm, cs.len()),
    ensures
        ({
            let ds = Seq::new(cs.len(), |i: int| cs[perm[i]]);
            &&& split_spaces(path_text(ds)).len() == split_spaces(path_text(cs)).len()
            &&& forall|i: int|
                0 <= i < cs.len() ==> #[trigger] split_spaces(path_text(ds))[i] == split_spaces(
                    path_text(cs),
                )[perm[i]]
        }),
{
    let ds = Seq::new(cs.len(), |i: int| cs[perm[i]]);
    if cs.len() == 0 {
        assert(ds =~= cs);
    } else {
        lemma_path_tokens(cs);
        lemma_path_tokens(ds);
    }
}

/// Appending a command and then reading the commands gives one more command
/// than before, the new one last, with the earlier ones unchanged.
pub proof fn lemma_append_then_read(before: Seq<Command>, command: Command)
    ensures
        before.push(command).len() == before.len() + 1,
        before.push(command).last() == command,
        before.push(command).drop_last() == before,
{
    assert(before.push(command).drop_last() =~= before);
}

/// Chaining `add` twice gives the same commands as appending the two in turn:
/// the earlier commands, then the first, then the second.
pub proof fn lemma_add_chain_matches_append(start: Seq<Command>, first: Command, second: Command)
    ensures
        start.push(first).push(second) == start + seq![first, second],
{
    assert(start.push(first).push(second) =~= start + seq![first, second]);
}

} // verus!
