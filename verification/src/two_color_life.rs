use vstd::prelude::*;
use vstd::arithmetic::div_mod::lemma_small_mod;
use crate::frame::{ortholinear_at, Frame, Square};

verus! {

/// The state of a node in two-color life: alive with an intensity, or dead
#[derive(Clone, Copy, Debug, PartialEq, Eq, Structural)]
pub enum State {
    Alive(u8),
    Dead,
}

impl Default for State {
    /// A node starts out dead.
    fn default() -> (r: State)
        ensures
            r == State::Dead,
    {
        State::Dead
    }
}

/// How many states of `s` are alive at all.
pub open spec fn count_live(s: Seq<State>) -> nat
    decreases s.len(),
{
    if s.len() == 0 {
        0
    } else {
        count_live(s.drop_last()) + (if s.last() == State::Dead {
            0nat
        } else {
            1nat
        })
    }
}

/// Counting live states over one more element of `s`.
proof fn lemma_count_live_step(s: Seq<State>, i: int)
    requires
        0 <= i < s.len(),
    ensures
        count_live(s.take(i + 1)) == count_live(s.take(i)) + (if s[i] == State::Dead {
            0nat
        } else {
            1nat
        }),
{
    assert(s.take(i + 1).drop_last() =~= s.take(i));
    assert(s.take(i + 1).last() == s[i]);
}

/// What the two-color rule yields at `(x, y)`: an alive cell keeps its
/// intensity on 2 or 3 live cardinal neighbors and dies otherwise; a dead
/// cell stays dead, since this variant has no birth rule.
pub open spec fn spec_rule(f: &Frame<State>, x: int, y: int) -> State {
    let n = count_live(ortholinear_at(f, x, y, 1));
    match f@[x][y] {
        State::Alive(intensity) => if n == 2 || n == 3 {
            State::Alive(intensity)
        } else {
            State::Dead
        },
        State::Dead => State::Dead,
    }
}

impl<'a> Square<'a, State> {
    /// Return the number of live nodes among the four cardinal neighbors
    pub fn alive_count(&self) -> (r: usize)
        requires
            self.wf(),
            1 < self.frame.spec_width(),
            1 < self.frame.spec_height(),
        ensures
            r == count_live(ortholinear_at(self.frame, self.point.0 as int, self.point.1 as int, 1)),
    {
        let nodes = self.within_ortholinear(1);
        let mut count: usize = 0;
        let mut i: usize = 0;
        while i < nodes.len()
            invariant
                i <= nodes@.len(),
                count <= i,
                count == count_live(nodes@.take(i as int)),
            decreases nodes@.len() - i,
        {
            proof {
                lemma_count_live_step(nodes@, i as int);
            }
            match nodes[i] {
                State::Alive(_) => {
                    count += 1;
                },
                State::Dead => {},
            }
            i += 1;
        }
        proof {
            assert(nodes@.take(nodes@.len() as int) =~= nodes@);
        }
        count
    }
}

/// The rule for two-color life: survival only, intensity carried over
pub fn rule(square: Square<State>) -> (r: State)
    requires
        square.wf(),
        1 < square.frame.spec_width(),
        1 < square.frame.spec_height(),
    ensures
        r == spec_rule(square.frame, square.point.0 as int, square.point.1 as int),
{
    proof {
        lemma_small_mod(square.point.0 as nat, square.frame.spec_width() as nat);
        lemma_small_mod(square.point.1 as nat, square.frame.spec_height() as nat);
    }
    let current = *square.get(0, 0);
    match current {
        State::Alive(intensity) => match square.alive_count() {
            2 | 3 => State::Alive(intensity),
            _ => State::Dead,
        },
        State::Dead => State::Dead,
    }
}

} // verus!
