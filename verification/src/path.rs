//! Tracing drawing commands into closed rings.

use vstd::prelude::*;
use crate::position::{coord_in_range, Position, COORD_LIMIT};

verus! {

/// One drawing command of an outline.
#[derive(Debug)]
pub enum PathCommand {
    /// Moves the pen once for every pair `x, y` of `parameters`; a number
    /// left over at the end is not used.
    Move { relative: bool, parameters: Vec<i64> },
    /// Closes the ring that is being drawn.
    Close,
    /// Any command that does not shape a ring.
    Other,
}

/// Why an outline could not be read.
#[derive(Clone, Copy, Debug, PartialEq, Eq, Structural)]
pub enum ParseError {
    /// The drawing commands were not well formed.
    Syntax,
    /// The pen was moved beyond the coordinate range.
    OutOfRange,
}

/// The state of tracing: where the pen is, the ring being drawn, and the
/// rings drawn so far.
pub struct Trace {
    pub pen: Position,
    pub current: Seq<Position>,
    pub rings: Seq<Seq<Position>>,
}

/// Tracing starts with the pen at the origin and nothing drawn.
pub open spec fn trace_start() -> Trace {
    Trace { pen: Position { x: 0, y: 0 }, current: Seq::empty(), rings: Seq::empty() }
}

/// One move of the pen: by `(x, y)` if `relative`, to `(x, y)` otherwise. The
/// point reached joins the ring being drawn. `None` if it is out of range.
pub open spec fn trace_move(t: Trace, relative: bool, x: int, y: int) -> Option<Trace> {
    let tx = if relative { t.pen.x + x } else { x };
    let ty = if relative { t.pen.y + y } else { y };
    if coord_in_range(tx) && coord_in_range(ty) {
        let p = Position { x: tx as i64, y: ty as i64 };
        Some(Trace { pen: p, current: t.current.push(p), rings: t.rings })
    } else {
        None
    }
}

/// The point at which the ring being drawn began; the pen's place if
/// nothing has been drawn since the last close.
pub open spec fn trace_origin(t: Trace) -> Position {
    if t.current.len() > 0 {
        t.current[0]
    } else {
        t.pen
    }
}

/// Closing: the ring being drawn returns to its origin and is finished, and
/// the pen waits at that origin for the next ring.
pub open spec fn trace_close(t: Trace) -> Trace {
    let origin = trace_origin(t);
    Trace { pen: origin, current: Seq::empty(), rings: t.rings.push(t.current.push(origin)) }
}

/// The state after the first `pairs` pairs of a move command.
pub open spec fn trace_pairs(t: Trace, relative: bool, parameters: Seq<i64>, pairs: nat) -> Option<
    Trace,
>
    decreases pairs,
{
    if pairs == 0 {
        Some(t)
    } else {
        match trace_pairs(t, relative, parameters, (pairs - 1) as nat) {
            Some(before) => trace_move(
                before,
                relative,
                parameters[2 * (pairs - 1)] as int,
                parameters[2 * (pairs - 1) + 1] as int,
            ),
            None => None,
        }
    }
}

/// The state after one command.
pub open spec fn trace_command(t: Trace, command: PathCommand) -> Option<Trace> {
    match command {
        PathCommand::Move { relative, parameters } => trace_pairs(
            t,
            relative,
            parameters@,
            parameters@.len() / 2,
        ),
        PathCommand::Close => Some(trace_close(t)),
        PathCommand::Other => Some(t),
    }
}

/// The state after the first `count` commands.
pub open spec fn trace_commands(commands: Seq<PathCommand>, count: nat) -> Option<Trace>
    decreases count,
{
    if count == 0 {
        Some(trace_start())
    } else {
        match trace_commands(commands, (count - 1) as nat) {
            Some(before) => trace_command(before, commands[count - 1]),
            None => None,
        }
    }
}

/// The rings that a command sequence draws: those that were closed. `None`
/// if the pen leaves the coordinate range on the way.
pub open spec fn traced_rings(commands: Seq<PathCommand>) -> Option<Seq<Seq<Position>>> {
    match trace_commands(commands, commands.len()) {
        Some(t) => Some(t.rings),
        None => None,
    }
}

/// A ring as the tracer emits it: it has a point, ends where it began, and
/// stays in range.
pub open spec fn closed_ring(ring: Seq<Position>) -> bool {
    &&& ring.len() >= 1
    &&& ring[0] == ring[ring.len() - 1]
    &&& forall|i: int| 0 <= i < ring.len() ==> (#[trigger] ring[i]).in_range()
}

/// What holds of every state that tracing reaches.
pub open spec fn trace_inv(t: Trace) -> bool {
    &&& t.pen.in_range()
    &&& forall|i: int| 0 <= i < t.current.len() ==> (#[trigger] t.current[i]).in_range()
    &&& forall|k: int| 0 <= k < t.rings.len() ==> closed_ring(#[trigger] t.rings[k])
}

proof fn lemma_move_keeps_inv(t: Trace, relative: bool, x: int, y: int)
    requires
        trace_inv(t),
        trace_move(t, relative, x, y) is Some,
    ensures
        trace_inv(trace_move(t, relative, x, y).unwrap()),
{
    let next = trace_move(t, relative, x, y).unwrap();
    assert forall|i: int| 0 <= i < next.current.len() implies (
    #[trigger] next.current[i]).in_range() by {
        if i < t.current.len() {
            assert(next.current[i] == t.current[i]);
        }
    }
}

proof fn lemma_close_keeps_inv(t: Trace)
    requires
        trace_inv(t),
    ensures
        trace_inv(trace_close(t)),
{
    let next = trace_close(t);
    let origin = trace_origin(t);
    let ring = t.current.push(origin);
    assert(origin.in_range()) by {
        if t.current.len() > 0 {
            assert(t.current[0].in_range());
        }
    }
    assert forall|i: int| 0 <= i < ring.len() implies (#[trigger] ring[i]).in_range() by {
        if i < t.current.len() {
            assert(ring[i] == t.current[i]);
        }
    }
    assert(closed_ring(ring));
    assert forall|k: int| 0 <= k < next.rings.len() implies closed_ring(
        #[trigger] next.rings[k],
    ) by {
        if k < t.rings.len() {
            assert(next.rings[k] == t.rings[k]);
        }
    }
}

proof fn lemma_pairs_keep_inv(t: Trace, relative: bool, parameters: Seq<i64>, pairs: nat)
    requires
        trace_inv(t),
        trace_pairs(t, relative, parameters, pairs) is Some,
    ensures
        trace_inv(trace_pairs(t, relative, parameters, pairs).unwrap()),
    decreases pairs,
{
    if pairs > 0 {
        lemma_pairs_keep_inv(t, relative, parameters, (pairs - 1) as nat);
        lemma_move_keeps_inv(
            trace_pairs(t, relative, parameters, (pairs - 1) as nat).unwrap(),
            relative,
            parameters[2 * (pairs - 1)] as int,
            parameters[2 * (pairs - 1) + 1] as int,
        );
    }
}

proof fn lemma_commands_keep_inv(commands: Seq<PathCommand>, count: nat)
    requires
        trace_commands(commands, count) is Some,
    ensures
        trace_inv(trace_commands(commands, count).unwrap()),
    decreases count,
{
    if count > 0 {
        lemma_commands_keep_inv(commands, (count - 1) as nat);
        let before = trace_commands(commands, (count - 1) as nat).unwrap();
        match commands[count - 1] {
            PathCommand::Move { relative, parameters } => {
                lemma_pairs_keep_inv(before, relative, parameters@, parameters@.len() / 2);
            },
            PathCommand::Close => {
                lemma_close_keeps_inv(before);
            },
            PathCommand::Other => {},
        }
    }
}

/// Every ring that tracing emits is closed: it ends with the point at which
/// it began.
pub proof fn lemma_traced_rings_closed(commands: Seq<PathCommand>)
    requires
        traced_rings(commands) is Some,
    ensures
        forall|k: int|
            0 <= k < traced_rings(commands).unwrap().len() ==> closed_ring(
                #[trigger] traced_rings(commands).unwrap()[k],
            ),
{
    lemma_commands_keep_inv(commands, commands.len());
}

/// How many of the first `count` commands close a ring.
pub open spec fn close_count(commands: Seq<PathCommand>, count: nat) -> nat
    decreases count,
{
    if count == 0 {
        0
    } else {
        let before = close_count(commands, (count - 1) as nat);
        match commands[count - 1] {
            PathCommand::Close => before + 1,
            _ => before,
        }
    }
}

proof fn lemma_pairs_keep_rings(t: Trace, relative: bool, parameters: Seq<i64>, pairs: nat)
    requires
        trace_pairs(t, relative, parameters, pairs) is Some,
    ensures
        trace_pairs(t, relative, parameters, pairs).unwrap().rings == t.rings,
    decreases pairs,
{
    if pairs > 0 {
        lemma_pairs_keep_rings(t, relative, parameters, (pairs - 1) as nat);
    }
}

proof fn lemma_ring_count_upto(commands: Seq<PathCommand>, count: nat)
    requires
        trace_commands(commands, count) is Some,
    ensures
        trace_commands(commands, count).unwrap().rings.len() == close_count(commands, count),
    decreases count,
{
    if count > 0 {
        lemma_ring_count_upto(commands, (count - 1) as nat);
        let before = trace_commands(commands, (count - 1) as nat).unwrap();
        match commands[count - 1] {
            PathCommand::Move { relative, parameters } => {
                lemma_pairs_keep_rings(before, relative, parameters@, parameters@.len() / 2);
            },
            _ => {},
        }
    }
}

/// Tracing emits one ring for every close command.
pub proof fn lemma_one_ring_per_close(commands: Seq<PathCommand>)
    requires
        traced_rings(commands) is Some,
    ensures
        traced_rings(commands).unwrap().len() == close_count(commands, commands.len()),
{
    lemma_ring_count_upto(commands, commands.len());
}

proof fn lemma_pairs_fail_onward(
    t: Trace,
    relative: bool,
    parameters: Seq<i64>,
    failed: nat,
    pairs: nat,
)
    requires
        failed <= pairs,
        trace_pairs(t, relative, parameters, failed) is None,
    ensures
        trace_pairs(t, relative, parameters, pairs) is None,
    decreases pairs,
{
    if pairs > failed {
        lemma_pairs_fail_onward(t, relative, parameters, failed, (pairs - 1) as nat);
    }
}

proof fn lemma_commands_fail_onward(commands: Seq<PathCommand>, failed: nat, count: nat)
    requires
        failed <= count,
        trace_commands(commands, failed) is None,
    ensures
        trace_commands(commands, count) is None,
    decreases count,
{
    if count > failed {
        lemma_commands_fail_onward(commands, failed, (count - 1) as nat);
    }
}

/// The views of a list of point lists.
pub open spec fn ring_views(rings: Seq<Vec<Position>>) -> Seq<Seq<Position>> {
    rings.map_values(|r: Vec<Position>| r@)
}

/// Where the pen goes on one axis, if that is in range.
fn move_axis(pen: i64, relative: bool, by: i64) -> (target: Option<i64>)
    requires
        coord_in_range(pen as int),
    ensures
        ({
            let t = if relative { pen + by } else { by as int };
            match target {
                Some(v) => v == t && coord_in_range(t),
                None => !coord_in_range(t),
            }
        }),
{
    if relative {
        if by < -2 * COORD_LIMIT || by > 2 * COORD_LIMIT {
            None
        } else {
            let t = pen + by;
            if -COORD_LIMIT <= t && t <= COORD_LIMIT {
                Some(t)
            } else {
                None
            }
        }
    } else {
        if -COORD_LIMIT <= by && by <= COORD_LIMIT {
            Some(by)
        } else {
            None
        }
    }
}

/// Traces a command sequence into closed rings.
///
/// A relative move adds to the pen's position and an absolute one sets it.
/// The first point after a close, or at the start, is the ring's origin; a
/// close appends that origin to the ring, finishes it and leaves the pen
/// there. Points drawn after the last close belong to no ring. The only
/// failure is a move that takes the pen out of the coordinate range.
pub fn parse_svg_path(commands: &Vec<PathCommand>) -> (rings: Result<
    Vec<Vec<Position>>,
    ParseError,
>)
    ensures
        match traced_rings(commands@) {
            Some(expected) => rings is Ok && ring_views(rings.unwrap()@) == expected,
            None => rings == Err::<Vec<Vec<Position>>, ParseError>(ParseError::OutOfRange),
        },
        rings is Ok ==> forall|k: int|
            0 <= k < rings.unwrap()@.len() ==> closed_ring(#[trigger] rings.unwrap()@[k]@),
{
    let mut lines: Vec<Vec<Position>> = Vec::new();
    let mut pen = Position { x: 0, y: 0 };
    let mut current: Vec<Position> = Vec::new();
    let ghost mut t = trace_start();
    let n = commands.len();
    let mut i: usize = 0;
    proof {
        assert(ring_views(lines@) =~= t.rings);
    }
    while i < n
        invariant
            i <= n,
            n == commands@.len(),
            trace_commands(commands@, i as nat) == Some(t),
            trace_inv(t),
            pen == t.pen,
            current@ == t.current,
            ring_views(lines@) == t.rings,
        decreases n - i,
    {
        let ghost before = t;
        match &commands[i] {
            PathCommand::Move { relative, parameters } => {
                let count = parameters.len();
                let pairs = count / 2;
                let mut j: usize = 0;
                while j < pairs
                    invariant
                        j <= pairs,
                        count == parameters@.len(),
                        pairs == count / 2,
                        i < n,
                        n == commands@.len(),
                        commands@[i as int] == (PathCommand::Move {
                            relative: *relative,
                            parameters: *parameters,
                        }),
                        trace_commands(commands@, i as nat) == Some(before),
                        trace_pairs(before, *relative, parameters@, j as nat) == Some(t),
                        trace_inv(t),
                        pen == t.pen,
                        current@ == t.current,
                        ring_views(lines@) == t.rings,
                    decreases pairs - j,
                {
                    let x = parameters[2 * j];
                    let y = parameters[2 * j + 1];
                    let tx = move_axis(pen.x, *relative, x);
                    let ty = move_axis(pen.y, *relative, y);
                    match (tx, ty) {
                        (Some(px), Some(py)) => {
                            pen = Position { x: px, y: py };
                            current.push(pen);
                            proof {
                                let next = trace_move(t, *relative, x as int, y as int);
                                assert(next is Some);
                                lemma_move_keeps_inv(t, *relative, x as int, y as int);
                                t = next.unwrap();
                            }
                        },
                        _ => {
                            proof {
                                assert(trace_move(t, *relative, x as int, y as int) is None);
                                assert(trace_pairs(before, *relative, parameters@, (j + 1) as nat)
                                    is None);
                                lemma_pairs_fail_onward(
                                    before,
                                    *relative,
                                    parameters@,
                                    (j + 1) as nat,
                                    pairs as nat,
                                );
                                assert(trace_commands(commands@, (i + 1) as nat) is None);
                                lemma_commands_fail_onward(commands@, (i + 1) as nat, n as nat);
                            }
                            return Err(ParseError::OutOfRange);
                        },
                    }
                    j += 1;
                }
            },
            PathCommand::Close => {
                let origin = if current.len() > 0 {
                    current[0]
                } else {
                    pen
                };
                current.push(origin);
                let ghost closed = current@;
                let ghost drawn = lines@;
                lines.push(current);
                current = Vec::new();
                pen = origin;
                proof {
                    lemma_close_keeps_inv(t);
                    t = trace_close(t);
                    assert(ring_views(lines@) =~= ring_views(drawn).push(closed));
                    assert(current@ =~= t.current);
                }
            },
            PathCommand::Other => {},
        }
        i += 1;
    }
    proof {
        assert forall|k: int| 0 <= k < lines@.len() implies closed_ring(#[trigger] lines@[k]@) by {
            assert(ring_views(lines@)[k] == lines@[k]@);
            assert(closed_ring(t.rings[k]));
        }
    }
    Ok(lines)
}

/// The rings of an outline whose commands may have failed to parse: an
/// outline that could not be read or traced has none.
pub fn outline_rings(parsed: &Result<Vec<PathCommand>, ParseError>) -> (rings: Vec<Vec<Position>>)
    ensures
        match *parsed {
            Ok(commands) => match traced_rings(commands@) {
                Some(expected) => ring_views(rings@) == expected,
                None => rings@.len() == 0,
            },
            Err(_) => rings@.len() == 0,
        },
{
    match parsed {
        Ok(commands) => match parse_svg_path(commands) {
            Ok(rings) => rings,
            Err(_) => Vec::new(),
        },
        Err(_) => Vec::new(),
    }
}

} // verus!
