use vstd::prelude::*;
use vstd::arithmetic::div_mod::lemma_small_mod;
use crate::frame::{ortholinear_at, Frame, Square};

verus! {

/// The state of a node in averaging rainbow life: alive with a color value,
/// or dead
#[derive(Clone, Copy, Debug, PartialEq, Eq, Structural)]
pub enum State {
    Alive(u8),
    Dead,
}

impl Default for State {
    /// A node starts out dead.
    fn default() -> (r: State)
        ensures
            r == State::Dead,
    {
        State::Dead
    }
}

/// How many states of `s` are alive at all.
pub open spec fn count_live(s: Seq<State>) -> nat
    decreases s.len(),
{
    if s.len() == 0 {
        0
    } else {
        count_live(s.drop_last()) + (if s.last() == State::Dead {
            0nat
        } else {
            1nat
        })
    }
}

/// The summed color values of the live states of `s`.
pub open spec fn live_color_sum(s: Seq<State>) -> int
    decreases s.len(),
{
    if s.len() == 0 {
        0
    } else {
        live_color_sum(s.drop_last()) + match s.last() {
            State::Alive(color) => color as int,
            State::Dead => 0,
        }
    }
}

/// Counting and summing live states over one more element of `s`.
proof fn lemma_live_step(s: Seq<State>, i: int)
    requires
        0 <= i < s.len(),
    ensures
        count_live(s.take(i + 1)) == count_live(s.take(i)) + (if s[i] == State::Dead {
            0nat
        } else {
            1nat
        }),
        live_color_sum(s.take(i + 1)) == live_color_sum(s.take(i)) + match s[i] {
            State::Alive(color) => color as int,
            State::Dead => 0,
        },
{
    assert(s.take(i + 1).drop_last() =~= s.take(i));
    assert(s.take(i + 1).last() == s[i]);
}

/// What the averaging rule yields at `(x, y)`: an alive cell keeps its color
/// on 2 or 3 live cardinal neighbors and dies otherwise; a dead cell revives
/// on exactly 3 live cardinal neighbors, colored with the integer-truncated
/// mean of those three neighbors' color values.
pub open spec fn spec_rule(f: &Frame<State>, x: int, y: int) -> State {
    let neighbors = ortholinear_at(f, x, y, 1);
    let n = count_live(neighbors);
    match f@[x][y] {
        State::Alive(color) => if n == 2 || n == 3 {
            State::Alive(color)
        } else {
            State::Dead
        },
        State::Dead => if n == 3 {
            State::Alive((live_color_sum(neighbors) / 3) as u8)
        } else {
            State::Dead
        },
    }
}

/// The rule for averaging rainbow life
pub fn rule(square: Square<State>) -> (r: State)
    requires
        square.wf(),
        1 < square.frame.spec_width(),
        1 < square.frame.spec_height(),
    ensures
        r == spec_rule(square.frame, square.point.0 as int, square.point.1 as int),
{
    proof {
        lemma_small_mod(square.point.0 as nat, square.frame.spec_width() as nat);
        lemma_small_mod(square.point.1 as nat, square.frame.spec_height() as nat);
    }
    let current = *square.get(0, 0);
    let neighbors = square.within_ortholinear(1);
    proof {
        assert(neighbors@.len() == 4);
    }
    let mut count: usize = 0;
    let mut sum: usize = 0;
    let mut i: usize = 0;
    while i < neighbors.len()
        invariant
            neighbors@.len() == 4,
            i <= neighbors@.len(),
            count <= i,
            sum <= 255 * count,
            count == count_live(neighbors@.take(i as int)),
            sum == live_color_sum(neighbors@.take(i as int)),
        decreases neighbors@.len() - i,
    {
        proof {
            lemma_live_step(neighbors@, i as int);
        }
        match neighbors[i] {
            State::Alive(color) => {
                count += 1;
                sum += color as usize;
            },
            State::Dead => {},
        }
        i += 1;
    }
    proof {
        assert(neighbors@.take(neighbors@.len() as int) =~= neighbors@);
    }
    match current {
        State::Alive(color) => match count {
            2 | 3 => State::Alive(color),
            _ => State::Dead,
        },
        State::Dead => match count {
            3 => State::Alive((sum / 3) as u8),
            _ => State::Dead,
        },
    }
}

} // verus!
