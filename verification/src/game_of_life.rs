use vstd::prelude::*;
use vstd::arithmetic::div_mod::lemma_small_mod;
use crate::frame::{cell_at, square_at, Frame, Square};

verus! {

/// The state of a node in a GOL
#[derive(Clone, Copy, Debug, PartialEq, Eq, Structural)]
pub enum State {
    Alive,
    Dead,
}

impl Default for State {
    /// A node starts out dead.
    fn default() -> (r: State)
        ensures
            r == State::Dead,
    {
        State::Dead
    }
}

/// The eight Moore neighbors of `(x, y)` in `f`, column by column.
pub open spec fn moore_values(f: &Frame<State>, x: int, y: int) -> Seq<State> {
    seq![
        cell_at(f, x, y, -1, -1),
        cell_at(f, x, y, -1, 0),
        cell_at(f, x, y, -1, 1),
        cell_at(f, x, y, 0, -1),
        cell_at(f, x, y, 0, 1),
        cell_at(f, x, y, 1, -1),
        cell_at(f, x, y, 1, 0),
        cell_at(f, x, y, 1, 1),
    ]
}

/// How many states of `s` are alive.
pub open spec fn count_alive(s: Seq<State>) -> nat
    decreases s.len(),
{
    if s.len() == 0 {
        0
    } else {
        count_alive(s.drop_last()) + (if s.last() == State::Alive {
            1nat
        } else {
            0nat
        })
    }
}

/// Counting alive states over one more element of `s`.
proof fn lemma_count_alive_step(s: Seq<State>, i: int)
    requires
        0 <= i < s.len(),
    ensures
        count_alive(s.take(i + 1)) == count_alive(s.take(i)) + (if s[i] == State::Alive {
            1nat
        } else {
            0nat
        }),
{
    assert(s.take(i + 1).drop_last() =~= s.take(i));
    assert(s.take(i + 1).last() == s[i]);
}

/// How many of the eight Moore neighbors of `(x, y)` are alive.
pub open spec fn spec_alive_count(f: &Frame<State>, x: int, y: int) -> nat {
    count_alive(moore_values(f, x, y))
}

/// What the Game-of-Life rule yields at `(x, y)`: an alive cell survives on
/// 2 or 3 alive Moore neighbors; a dead cell is born on exactly 3.
pub open spec fn spec_rule(f: &Frame<State>, x: int, y: int) -> State {
    let n = spec_alive_count(f, x, y);
    if f@[x][y] == State::Alive {
        if n == 2 || n == 3 {
            State::Alive
        } else {
            State::Dead
        }
    } else {
        if n == 3 {
            State::Alive
        } else {
            State::Dead
        }
    }
}

impl<'a> Square<'a, State> {
    /// Return the nodes adjacent to this square
    pub fn adjacent_nodes(&self) -> (r: Vec<State>)
        requires
            self.wf(),
            1 < self.frame.spec_width(),
            1 < self.frame.spec_height(),
        ensures
            r@ == moore_values(self.frame, self.point.0 as int, self.point.1 as int),
    {
        let mut nodes: Vec<State> = Vec::new();
        nodes.push(*self.get(-1, -1));
        nodes.push(*self.get(-1, 0));
        nodes.push(*self.get(-1, 1));
        nodes.push(*self.get(0, -1));
        nodes.push(*self.get(0, 1));
        nodes.push(*self.get(1, -1));
        nodes.push(*self.get(1, 0));
        nodes.push(*self.get(1, 1));
        proof {
            assert(nodes@ =~= moore_values(
                self.frame,
                self.point.0 as int,
                self.point.1 as int,
            ));
        }
        nodes
    }

    /// Return the number of nodes alive surrounding this number
    pub fn alive_count(&self) -> (r: usize)
        requires
            self.wf(),
            1 < self.frame.spec_width(),
            1 < self.frame.spec_height(),
        ensures
            r == spec_alive_count(self.frame, self.point.0 as int, self.point.1 as int),
    {
        let nodes = self.adjacent_nodes();
        let mut count: usize = 0;
        let mut i: usize = 0;
        while i < nodes.len()
            invariant
                i <= nodes@.len(),
                count <= i,
                count == count_alive(nodes@.take(i as int)),
            decreases nodes@.len() - i,
        {
            proof {
                lemma_count_alive_step(nodes@, i as int);
            }
            if nodes[i] == State::Alive {
                count += 1;
            }
            i += 1;
        }
        proof {
            assert(nodes@.take(nodes@.len() as int) =~= nodes@);
        }
        count
    }
}

/// The rule for Conway's Game of Life
pub fn rule(square: Square<State>) -> (r: State)
    requires
        square.wf(),
        1 < square.frame.spec_width(),
        1 < square.frame.spec_height(),
    ensures
        r == spec_rule(square.frame, square.point.0 as int, square.point.1 as int),
{
    proof {
        lemma_small_mod(square.point.0 as nat, square.frame.spec_width() as nat);
        lemma_small_mod(square.point.1 as nat, square.frame.spec_height() as nat);
    }
    let current = *square.get(0, 0);
    let count = square.alive_count();
    if current == State::Alive {
        match count {
            2 | 3 => State::Alive,
            _ => State::Dead,
        }
    } else {
        match count {
            3 => State::Alive,
            _ => State::Dead,
        }
    }
}

/// Advance a whole frame by the Game-of-Life rule: every cell of the result
/// is `spec_rule` of the source frame at that coordinate.
pub fn advance(frame: &Frame<State>) -> (r: Frame<State>)
    requires
        frame.wf(),
        1 < frame.spec_width(),
        1 < frame.spec_height(),
    ensures
        r.wf(),
        r.spec_width() == frame.spec_width(),
        r.spec_height() == frame.spec_height(),
        forall|x: int, y: int|
            0 <= x < frame@.len() && 0 <= y < frame@[x].len() ==> #[trigger] r@[x][y] == spec_rule(
                frame,
                x,
                y,
            ),
{
    let result = frame.next_frame(rule);
    proof {
        assert forall|x: int, y: int|
            0 <= x < frame@.len() && 0 <= y < frame@[x].len() implies #[trigger] result@[x][y]
            == spec_rule(frame, x, y) by {
            let ux = x as usize;
            let uy = y as usize;
            let sq = square_at(frame, ux, uy);
            assert(call_ensures(rule, (sq,), result@[ux as int][uy as int]));
        }
    }
    result
}

} // verus!
