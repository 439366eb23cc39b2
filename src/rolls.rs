use vstd::prelude::*;
use rand::Rng;

verus! {

/// Chance rolls are whole millionths: a roll lies in `0..ROLL_SCALE`.
pub const ROLL_SCALE: u32 = 1_000_000;

/// Picks among a few sprites are made from one roll in `0..PICK_SPAN`, reduced
/// modulo the number of choices; 60 is a multiple of 2, 3, 4 and 5, so each
/// choice is equally likely.
pub const PICK_SPAN: u32 = 60;

/// Relies on rand's `thread_rng().gen_range(0..n)`: a value drawn from `0..n`,
/// which must not be empty.
#[verifier::external_body]
fn random_below(n: u32) -> (r: u32)
    requires
        n > 0,
    ensures
        r < n,
{
    rand::thread_rng().gen_range(0..n)
}

/// A pick in `0..PICK_SPAN`.
pub(crate) fn random_pick() -> (r: u32)
    ensures
        r < PICK_SPAN,
{
    random_below(PICK_SPAN)
}

/// Relies on rand's `thread_rng().gen::<u32>()`: any `u32`.
#[verifier::external_body]
pub(crate) fn random_seed() -> (r: u32) {
    rand::thread_rng().gen::<u32>()
}

/// The random draws that decide what stands on one grid position.
#[derive(Debug, Clone, Copy, PartialEq, Eq, Structural)]
pub struct TileRolls {
    /// Whether anything grows or lies here.
    pub chance: u32,
    /// Which kind of thing, where there is a choice.
    pub chance2: u32,
    /// A second such choice.
    pub chance3: u32,
    /// Which sprite among a few of the same kind.
    pub pick: u32,
}

impl TileRolls {
    pub open spec fn wf(&self) -> bool {
        &&& self.chance < ROLL_SCALE
        &&& self.chance2 < ROLL_SCALE
        &&& self.chance3 < ROLL_SCALE
        &&& self.pick < PICK_SPAN
    }

    /// Fresh rolls for one grid position.
    pub fn draw() -> (r: Self)
        ensures
            r.wf(),
    {
        TileRolls {
            chance: random_below(ROLL_SCALE),
            chance2: random_below(ROLL_SCALE),
            chance3: random_below(ROLL_SCALE),
            pick: random_below(PICK_SPAN),
        }
    }

    /// `n` fresh rolls.
    pub fn draw_many(n: usize) -> (r: Vec<Self>)
        ensures
            r@.len() == n,
            forall|i: int| 0 <= i < n ==> (#[trigger] r@[i]).wf(),
    {
        let mut r: Vec<Self> = Vec::with_capacity(n);
        let mut i: usize = 0;
        while i < n
            invariant
                i <= n,
                r@.len() == i,
                forall|k: int| 0 <= k < i ==> (#[trigger] r@[k]).wf(),
            decreases n - i,
        {
            r.push(TileRolls::draw());
            i = i + 1;
        }
        r
    }
}

} // verus!
