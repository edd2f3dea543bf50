//! The enumeration of every rotation of the four turning layers, in the
//! order of an odometer with four digits in base 12.

use crate::puzzle::Rotation;
use vstd::prelude::*;

verus! {

/// The number of rotations there are: 12 to the fourth power.
pub const ROTATIONS: usize = 20736;

/// Every component of the rotation is a position of a ring, 0 to 11.
pub open spec fn in_range(rotation: Rotation) -> bool {
    rotation.0 < 12 && rotation.1 < 12 && rotation.2 < 12 && rotation.3 < 12
}

/// The rotation that the enumeration hands out after `i` others: the digits
/// of `i` in base 12, the last component being the least significant.
pub open spec fn nth(i: int) -> Rotation {
    ((i / 1728) as usize, ((i / 144) % 12) as usize, ((i / 12) % 12) as usize, (i % 12) as usize)
}

/// The number of rotations that the enumeration hands out before this one.
pub open spec fn rank(rotation: Rotation) -> int {
    rotation.0 * 1728 + rotation.1 * 144 + rotation.2 * 12 + rotation.3
}

/// One step of the odometer: the last component advances, and a component
/// that passes 11 returns to 0 and carries into the one before it.
pub open spec fn successor(rotation: Rotation) -> Rotation {
    if rotation.1 == 11 && rotation.2 == 11 && rotation.3 == 11 {
        ((rotation.0 + 1) as usize, 0, 0, 0)
    } else if rotation.2 == 11 && rotation.3 == 11 {
        (rotation.0, (rotation.1 + 1) as usize, 0, 0)
    } else if rotation.3 == 11 {
        (rotation.0, rotation.1, (rotation.2 + 1) as usize, 0)
    } else {
        (rotation.0, rotation.1, rotation.2, (rotation.3 + 1) as usize)
    }
}

/// Hands out the rotations one by one. Once all have been handed out it has
/// no more to give; a fresh one starts over.
pub struct Solver {
    state: Rotation,
}

impl Solver {
    /// How many rotations have been handed out so far.
    pub closed spec fn position(self) -> int {
        rank(self.state)
    }

    #[verifier::type_invariant]
    pub closed spec fn on_track(self) -> bool {
        &&& self.state.0 <= 12
        &&& self.state.1 < 12
        &&& self.state.2 < 12
        &&& self.state.3 < 12
        &&& self.state.0 == 12 ==> self.state.1 == 0 && self.state.2 == 0 && self.state.3 == 0
    }

    /// A solver that has all rotations still to give.
    pub fn new() -> (solver: Self)
        ensures
            solver.position() == 0,
    {
        let state = (0, 0, 0, 0);
        Self { state }
    }

    /// The next rotation, or `None` once all of them have been handed out.
    pub fn next(&mut self) -> (item: Option<Rotation>)
        ensures
            0 <= old(self).position() <= ROTATIONS,
            old(self).position() < ROTATIONS ==> {
                &&& item == Some(nth(old(self).position()))
                &&& in_range(nth(old(self).position()))
                &&& final(self).position() == old(self).position() + 1
            },
            old(self).position() == ROTATIONS ==> {
                &&& item.is_none()
                &&& final(self).position() == ROTATIONS
            },
    {
        proof {
            use_type_invariant(&*self);
        }
        let ret = self.state;
        if ret.0 > 11 {
            return None;
        }
        proof {
            lemma_nth_of_rank(ret);
        }
        let next = match ret {
            (w, 11, 11, 11) => (w + 1, 0, 0, 0),
            (w, x, 11, 11) => (w, x + 1, 0, 0),
            (w, x, y, 11) => (w, x, y + 1, 0),
            (w, x, y, z) => (w, x, y, z + 1),
        };
        self.state = next;
        Some(ret)
    }

    /// Hands out all that is left and returns the rotation that came last:
    /// the final one of the enumeration, or `None` if nothing was left.
    pub fn last(self) -> (item: Option<Rotation>)
        ensures
            self.position() < ROTATIONS ==> item == Some((11usize, 11usize, 11usize, 11usize)),
            self.position() >= ROTATIONS ==> item.is_none(),
    {
        proof {
            use_type_invariant(&self);
        }
        let ghost start = self.position();
        let mut solver = self;
        let mut last: Option<Rotation> = None;
        loop
            invariant_except_break
                start <= solver.position() <= ROTATIONS,
                solver.position() == start ==> last.is_none(),
                solver.position() > start ==> last == Some(nth(solver.position() - 1)),
            ensures
                start < ROTATIONS ==> last == Some(nth(ROTATIONS - 1)),
                start >= ROTATIONS ==> last.is_none(),
            decreases ROTATIONS - solver.position(),
        {
            match solver.next() {
                Some(rotation) => {
                    last = Some(rotation);
                },
                None => {
                    break ;
                },
            }
        }
        last
    }
}

/// Ranking a rotation and then taking the rotation at that place gives the
/// rotation back, and the place lies within the enumeration.
pub proof fn lemma_nth_of_rank(rotation: Rotation)
    requires
        in_range(rotation),
    ensures
        0 <= rank(rotation) < ROTATIONS,
        nth(rank(rotation)) == rotation,
{
    let (a, b, c, d) = (rotation.0 as int, rotation.1 as int, rotation.2 as int, rotation.3 as int);
    let i = rank(rotation);
    vstd::arithmetic::div_mod::lemma_fundamental_div_mod_converse(i, 12, a * 144 + b * 12 + c, d);
    vstd::arithmetic::div_mod::lemma_fundamental_div_mod_converse(i / 12, 12, a * 12 + b, c);
    vstd::arithmetic::div_mod::lemma_fundamental_div_mod_converse(i, 144, a * 12 + b, c * 12 + d);
    vstd::arithmetic::div_mod::lemma_fundamental_div_mod_converse(i / 144, 12, a, b);
    vstd::arithmetic::div_mod::lemma_fundamental_div_mod_converse(i, 1728, a, b * 144 + c * 12 + d);
}

/// Taking the rotation at a place of the enumeration and ranking it gives
/// the place back, and the rotation lies within range.
pub proof fn lemma_rank_of_nth(i: int)
    requires
        0 <= i < ROTATIONS,
    ensures
        in_range(nth(i)),
        rank(nth(i)) == i,
{
    let a = i / 1728;
    let b = (i / 144) % 12;
    let c = (i / 12) % 12;
    let d = i % 12;
    let q1 = i / 12;
    let q2 = i / 144;
    assert(i == 12 * q1 + d);
    assert(q2 == q1 / 12) by {
        vstd::arithmetic::div_mod::lemma_fundamental_div_mod_converse(
            i,
            144,
            q1 / 12,
            (q1 % 12) * 12 + d,
        );
    }
    assert(q1 == 12 * q2 + c);
    assert(a == q2 / 12) by {
        vstd::arithmetic::div_mod::lemma_fundamental_div_mod_converse(
            i,
            1728,
            q2 / 12,
            (q2 % 12) * 144 + c * 12 + d,
        );
    }
    assert(q2 == 12 * a + b);
}

/// The enumeration moves like an odometer: each rotation but the last is
/// followed by its successor.
pub proof fn lemma_nth_step(i: int)
    requires
        0 <= i < ROTATIONS - 1,
    ensures
        nth(i + 1) == successor(nth(i)),
{
    lemma_rank_of_nth(i);
    let next = successor(nth(i));
    assert(in_range(next));
    assert(rank(next) == i + 1);
    lemma_nth_of_rank(next);
}

/// No rotation comes twice: two places of the enumeration that hold the
/// same rotation are one place.
pub proof fn lemma_nth_distinct(i: int, j: int)
    requires
        0 <= i < ROTATIONS,
        0 <= j < ROTATIONS,
        nth(i) == nth(j),
    ensures
        i == j,
{
    lemma_rank_of_nth(i);
    lemma_rank_of_nth(j);
}

/// The enumeration starts at (0, 0, 0, 0), ends at (11, 11, 11, 11) after
/// 20736 rotations, holds no rotation twice and leaves none out.
pub proof fn lemma_enumeration_is_exhaustive()
    ensures
        ROTATIONS == 12 * 12 * 12 * 12,
        nth(0) == (0usize, 0usize, 0usize, 0usize),
        nth(ROTATIONS - 1) == (11usize, 11usize, 11usize, 11usize),
        forall|i: int| 0 <= i < ROTATIONS ==> in_range(#[trigger] nth(i)),
        forall|i: int, j: int|
            0 <= i < ROTATIONS && 0 <= j < ROTATIONS && i != j ==> #[trigger] nth(i) != #[trigger] nth(j),
        forall|rotation: Rotation|
            in_range(rotation) ==> 0 <= #[trigger] rank(rotation) < ROTATIONS && nth(rank(rotation))
                == rotation,
{
    assert forall|i: int| 0 <= i < ROTATIONS implies in_range(#[trigger] nth(i)) by {
        lemma_rank_of_nth(i);
    }
    assert forall|i: int, j: int| 0 <= i < ROTATIONS && 0 <= j < ROTATIONS && i != j implies #[trigger] nth(i)
        != #[trigger] nth(j) by {
        if nth(i) == nth(j) {
            lemma_nth_distinct(i, j);
        }
    }
    assert forall|rotation: Rotation| in_range(rotation) implies 0 <= #[trigger] rank(rotation) < ROTATIONS
        && nth(rank(rotation)) == rotation by {
        lemma_nth_of_rank(rotation);
    }
}

} // verus!
