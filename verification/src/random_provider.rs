use vstd::prelude::*;
use rand::rngs::StdRng;
use rand::Rng;
use rand::SeedableRng;

verus! {

#[verifier::external_type_specification]
#[verifier::external_body]
pub struct ExStdRng(StdRng);

/// The draws that the game logic makes.
pub trait RandomProvider {
    /// Every draw made so far, oldest first: the range asked for, `low` and `high`, and
    /// the number drawn. A generator keeps this record in ghost state; the empty default
    /// is only for generators built outside the library, whose draws nothing checks.
    closed spec fn draws(&self) -> Seq<(usize, usize, usize)> {
        Seq::empty()
    }

    /// A number drawn from `low..=high`; the draw is recorded.
    fn gen_range(&mut self, low: usize, high: usize) -> (r: usize)
        requires
            low <= high,
        ensures
            low <= r <= high,
            final(self).draws() == old(self).draws().push((low, high, r)),
    ;
}

/// Draws from a seeded standard generator.
pub struct RealRng {
    rng: StdRng,
    history: Ghost<Seq<(usize, usize, usize)>>,
}

/// `rand`'s `SeedableRng::seed_from_u64` for `StdRng`: a generator whose stream is
/// fixed by the seed. Nothing is claimed of the stream.
#[verifier::external_body]
fn std_rng_from_seed(seed: u64) -> StdRng {
    StdRng::seed_from_u64(seed)
}

/// `rand`'s `Rng::random_range` on `low..=high`: the value drawn lies in the range, as
/// its documentation says; the range is never empty here, where it would panic.
#[verifier::external_body]
fn draw_inclusive(rng: &mut StdRng, low: usize, high: usize) -> (r: usize)
    requires
        low <= high,
    ensures
        low <= r <= high,
{
    rng.random_range(low..=high)
}

impl RealRng {
    /// A generator whose draws are fixed by `seed`, with no draws made yet.
    pub fn from_seed(seed: u64) -> (r: Self)
        ensures
            r.draws().len() == 0,
    {
        RealRng { rng: std_rng_from_seed(seed), history: Ghost(Seq::empty()) }
    }
}

impl RandomProvider for RealRng {
    closed spec fn draws(&self) -> Seq<(usize, usize, usize)> {
        self.history@
    }

    fn gen_range(&mut self, low: usize, high: usize) -> (r: usize) {
        let r = draw_inclusive(&mut self.rng, low, high);
        self.history = Ghost(self.history@.push((low, high, r)));
        r
    }
}

} // verus!
