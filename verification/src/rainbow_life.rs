use vstd::prelude::*;
use vstd::arithmetic::div_mod::lemma_small_mod;
use crate::frame::{ortholinear_at, Frame, Square};
use rand::seq::IndexedRandom;

verus! {

/// Enum for a game of life that is multicolored with more complex rules
#[derive(Clone, Copy, Debug, PartialEq, Eq, Hash, Structural)]
pub enum State {
    Red,
    Green,
    Blue,
    Dead,
}

impl State {
    /// The fixed pairwise opposition among the live colors.
    pub open spec fn spec_enemy(self) -> State {
        match self {
            State::Red => State::Blue,
            State::Blue => State::Green,
            State::Green => State::Red,
            State::Dead => State::Dead,
        }
    }

    /// The color this one counts as antagonistic
    pub fn enemy(&self) -> (r: State)
        ensures
            r == self.spec_enemy(),
    {
        match *self {
            State::Red => State::Blue,
            State::Blue => State::Green,
            State::Green => State::Red,
            State::Dead => State::Dead,
        }
    }
}

impl Default for State {
    /// A node starts out dead.
    fn default() -> (r: State)
        ensures
            r == State::Dead,
    {
        State::Dead
    }
}

/// How many states of `s` are live and not the enemy color of `me`.
pub open spec fn count_friendly(s: Seq<State>, me: State) -> nat
    decreases s.len(),
{
    if s.len() == 0 {
        0
    } else {
        count_friendly(s.drop_last(), me) + (if s.last() != State::Dead && s.last()
            != me.spec_enemy() {
            1nat
        } else {
            0nat
        })
    }
}

/// Counting friendly states over one more element of `s`.
proof fn lemma_count_friendly_step(s: Seq<State>, me: State, i: int)
    requires
        0 <= i < s.len(),
    ensures
        count_friendly(s.take(i + 1), me) == count_friendly(s.take(i), me) + (if s[i]
            != State::Dead && s[i] != me.spec_enemy() {
            1nat
        } else {
            0nat
        }),
{
    assert(s.take(i + 1).drop_last() =~= s.take(i));
    assert(s.take(i + 1).last() == s[i]);
}

/// How many states of `s` equal `c`.
pub open spec fn count_of(s: Seq<State>, c: State) -> nat
    decreases s.len(),
{
    if s.len() == 0 {
        0
    } else {
        count_of(s.drop_last(), c) + (if s.last() == c {
            1nat
        } else {
            0nat
        })
    }
}

/// Counting occurrences of `c` over one more element of `s`.
proof fn lemma_count_of_step(s: Seq<State>, c: State, i: int)
    requires
        0 <= i < s.len(),
    ensures
        count_of(s.take(i + 1), c) == count_of(s.take(i), c) + (if s[i] == c {
            1nat
        } else {
            0nat
        }),
{
    assert(s.take(i + 1).drop_last() =~= s.take(i));
    assert(s.take(i + 1).last() == s[i]);
}

/// The live states of `s`, kept in order.
pub open spec fn live_values(s: Seq<State>) -> Seq<State>
    decreases s.len(),
{
    if s.len() == 0 {
        Seq::empty()
    } else if s.last() == State::Dead {
        live_values(s.drop_last())
    } else {
        live_values(s.drop_last()).push(s.last())
    }
}

/// Collecting live states over one more element of `s`.
proof fn lemma_live_values_step(s: Seq<State>, i: int)
    requires
        0 <= i < s.len(),
    ensures
        live_values(s.take(i + 1)) == if s[i] == State::Dead {
            live_values(s.take(i))
        } else {
            live_values(s.take(i)).push(s[i])
        },
{
    assert(s.take(i + 1).drop_last() =~= s.take(i));
    assert(s.take(i + 1).last() == s[i]);
}

/// `c` occurs in `s` strictly more often than every other state does.
pub open spec fn is_strict_mode(s: Seq<State>, c: State) -> bool {
    forall|d: State| d != c ==> count_of(s, d) < count_of(s, c)
}

/// What `mode` may return for `s`: the strict mode where there is one, and
/// some live color where the top count is tied or `s` is empty.
pub open spec fn mode_post(s: Seq<State>, r: State) -> bool {
    &&& forall|c: State| is_strict_mode(s, c) ==> r == c
    &&& !(exists|c: State| is_strict_mode(s, c)) ==> (r == State::Red || r == State::Green || r
        == State::Blue)
}

/// Relies on `rand::seq::IndexedRandom::choose` with the thread-local
/// generator from `rand::rng()`: on a non-empty slice it returns `Some` of
/// one of the slice's elements, so the result is always one of the three
/// live colors.
#[verifier::external_body]
fn random_color() -> (r: State)
    ensures
        r == State::Red || r == State::Green || r == State::Blue,
{
    match [State::Red, State::Blue, State::Green].choose(&mut rand::rng()) {
        Some(color) => *color,
        None => State::Red,
    }
}

/// Return the most frequent thing in the slice. Break ties randomly or based
/// on some other metric
pub fn mode(data: &[State]) -> (r: State)
    ensures
        mode_post(data@, r),
{
    let mut red: usize = 0;
    let mut green: usize = 0;
    let mut blue: usize = 0;
    let mut dead: usize = 0;
    let mut i: usize = 0;
    while i < data.len()
        invariant
            i <= data@.len(),
            red == count_of(data@.take(i as int), State::Red),
            green == count_of(data@.take(i as int), State::Green),
            blue == count_of(data@.take(i as int), State::Blue),
            dead == count_of(data@.take(i as int), State::Dead),
            red <= i && green <= i && blue <= i && dead <= i,
        decreases data@.len() - i,
    {
        proof {
            lemma_count_of_step(data@, State::Red, i as int);
            lemma_count_of_step(data@, State::Green, i as int);
            lemma_count_of_step(data@, State::Blue, i as int);
            lemma_count_of_step(data@, State::Dead, i as int);
        }
        match data[i] {
            State::Red => {
                red += 1;
            },
            State::Green => {
                green += 1;
            },
            State::Blue => {
                blue += 1;
            },
            State::Dead => {
                dead += 1;
            },
        }
        i += 1;
    }
    proof {
        assert(data@.take(data@.len() as int) =~= data@);
    }
    // keep the state with the greatest count, noting how many states tie it
    let mut best: State = State::Red;
    let mut best_count: usize = red;
    let mut ties: usize = 1;
    if green > best_count {
        best = State::Green;
        best_count = green;
        ties = 1;
    } else if green == best_count {
        ties += 1;
    }
    if blue > best_count {
        best = State::Blue;
        best_count = blue;
        ties = 1;
    } else if blue == best_count {
        ties += 1;
    }
    if dead > best_count {
        best = State::Dead;
        best_count = dead;
        ties = 1;
    } else if dead == best_count {
        ties += 1;
    }
    if ties == 1 {
        proof {
            assert(is_strict_mode(data@, best)) by {
                assert forall|d: State| d != best implies count_of(data@, d) < count_of(
                    data@,
                    best,
                ) by {
                    assert(d == State::Red || d == State::Green || d == State::Blue || d
                        == State::Dead);
                }
            }
            assert forall|c: State| is_strict_mode(data@, c) implies best == c by {
                if c != best {
                    assert(count_of(data@, c) < count_of(data@, best));
                    assert(count_of(data@, best) < count_of(data@, c));
                }
            }
        }
        best
    } else {
        proof {
            assert forall|c: State| !is_strict_mode(data@, c) by {
                if is_strict_mode(data@, c) {
                    assert(c != State::Red ==> count_of(data@, State::Red) < count_of(data@, c));
                    assert(c != State::Green ==> count_of(data@, State::Green) < count_of(
                        data@,
                        c,
                    ));
                    assert(c != State::Blue ==> count_of(data@, State::Blue) < count_of(data@, c));
                    assert(c != State::Dead ==> count_of(data@, State::Dead) < count_of(data@, c));
                    assert(c == State::Red || c == State::Green || c == State::Blue || c
                        == State::Dead);
                    assert(false);
                }
            }
        }
        random_color()
    }
}

/// How many of the four cardinal neighbors of `(x, y)` count for the cell
/// there: live and not its enemy color.
pub open spec fn spec_alive_count(f: &Frame<State>, x: int, y: int) -> nat {
    count_friendly(ortholinear_at(f, x, y, 1), f@[x][y])
}

impl<'a> Square<'a, State> {
    /// Return the number of nodes alive surrounding this number
    pub fn alive_count(&self) -> (r: usize)
        requires
            self.wf(),
            1 < self.frame.spec_width(),
            1 < self.frame.spec_height(),
        ensures
            r == spec_alive_count(self.frame, self.point.0 as int, self.point.1 as int),
    {
        proof {
            lemma_small_mod(self.point.0 as nat, self.frame.spec_width() as nat);
            lemma_small_mod(self.point.1 as nat, self.frame.spec_height() as nat);
        }
        let this = *self.get(0, 0);
        let hostile = this.enemy();
        let nodes = self.within_ortholinear(1);
        let mut count: usize = 0;
        let mut i: usize = 0;
        while i < nodes.len()
            invariant
                i <= nodes@.len(),
                count <= i,
                count == count_friendly(nodes@.take(i as int), this),
                hostile == this.spec_enemy(),
            decreases nodes@.len() - i,
        {
            proof {
                lemma_count_friendly_step(nodes@, this, i as int);
            }
            let node = nodes[i];
            if node != State::Dead && node != hostile {
                count += 1;
            }
            i += 1;
        }
        proof {
            assert(nodes@.take(nodes@.len() as int) =~= nodes@);
        }
        count
    }
}

/// What the voting rule may yield at `(x, y)`: a live cell survives on 2 or 3
/// friendly cardinal neighbors keeping its color; a dead cell with exactly 3
/// live cardinal neighbors takes their mode color, ties broken by a random
/// live color; every other cell is dead.
pub open spec fn spec_rule_post(f: &Frame<State>, x: int, y: int, r: State) -> bool {
    let cur = f@[x][y];
    let n = spec_alive_count(f, x, y);
    if cur != State::Dead {
        r == (if n == 2 || n == 3 {
            cur
        } else {
            State::Dead
        })
    } else if n == 3 {
        mode_post(live_values(ortholinear_at(f, x, y, 1)), r)
    } else {
        r == State::Dead
    }
}

/// The rule for voting rainbow life
pub fn rule(curr: Square<State>) -> (r: State)
    requires
        curr.wf(),
        1 < curr.frame.spec_width(),
        1 < curr.frame.spec_height(),
    ensures
        spec_rule_post(curr.frame, curr.point.0 as int, curr.point.1 as int, r),
{
    proof {
        lemma_small_mod(curr.point.0 as nat, curr.frame.spec_width() as nat);
        lemma_small_mod(curr.point.1 as nat, curr.frame.spec_height() as nat);
    }
    let curr_val = *curr.get(0, 0);
    if curr_val != State::Dead {
        match curr.alive_count() {
            2 | 3 => curr_val,
            _ => State::Dead,
        }
    } else {
        match curr.alive_count() {
            3 => {
                let all_neighbors = curr.within_ortholinear(1);
                let mut live: Vec<State> = Vec::new();
                let mut i: usize = 0;
                while i < all_neighbors.len()
                    invariant
                        i <= all_neighbors@.len(),
                        live@ == live_values(all_neighbors@.take(i as int)),
                    decreases all_neighbors@.len() - i,
                {
                    proof {
                        lemma_live_values_step(all_neighbors@, i as int);
                    }
                    let node = all_neighbors[i];
                    if node != State::Dead {
                        live.push(node);
                    }
                    i += 1;
                }
                proof {
                    assert(all_neighbors@.take(all_neighbors@.len() as int) =~= all_neighbors@);
                }
                mode(live.as_slice())
            },
            _ => State::Dead,
        }
    }
}

} // verus!
