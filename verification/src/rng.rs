//! The deterministic pseudo-random source behind the `RAND` builtin,
//! built on `oorandom::Rand32`.
use vstd::prelude::*;

verus! {

#[verifier::external_type_specification]
#[verifier::external_body]
pub struct ExRand32(oorandom::Rand32);

/// Relies on `oorandom::Rand32::new`: it builds the generator state from the
/// seed alone, by pure integer arithmetic. The state is opaque here; `Rng`
/// below tracks what determines it.
pub assume_specification[ oorandom::Rand32::new ](seed: u64) -> oorandom::Rand32;

/// The value that `oorandom::Rand32::rand_range` returns for a generator that
/// was seeded with `seed` and has already served the calls in `past` (each
/// recorded as its half-open bounds), when now asked for a value in
/// `[lo, hi)`.
pub uninterp spec fn rand_draw(seed: u64, past: Seq<(u32, u32)>, lo: u32, hi: u32) -> u32;

/// A pseudo-random generator together with the history that pins down its
/// opaque state: the seed it was built from and the bounds of every draw
/// served so far.
pub struct Rng {
    inner: oorandom::Rand32,
    seed: Ghost<u64>,
    past: Ghost<Seq<(u32, u32)>>,
}

impl Rng {
    /// The seed this generator was built from.
    pub closed spec fn seed(self) -> u64 {
        self.seed@
    }

    /// The bounds of the draws served so far, oldest first.
    pub closed spec fn past(self) -> Seq<(u32, u32)> {
        self.past@
    }

    /// A generator that has served no draws yet.
    pub fn new(seed: u64) -> (r: Self)
        ensures
            r.seed() == seed,
            r.past() == Seq::<(u32, u32)>::empty(),
    {
        Rng { inner: oorandom::Rand32::new(seed), seed: Ghost(seed), past: Ghost(Seq::empty()) }
    }

    /// Relies on `oorandom::Rand32::rand_range`: for a nonempty range it
    /// returns a value in `[lo, hi)` that is a pure function of the range and
    /// of the generator state, which the seed and the bounds of the earlier
    /// draws determine.
    #[verifier::external_body]
    pub(crate) fn draw(&mut self, lo: u32, hi: u32) -> (r: u32)
        requires
            lo < hi,
        ensures
            lo <= r < hi,
            r == rand_draw(old(self).seed(), old(self).past(), lo, hi),
            final(self).seed() == old(self).seed(),
            final(self).past() == old(self).past().push((lo, hi)),
    {
        self.inner.rand_range(lo..hi)
    }
}

} // verus!
