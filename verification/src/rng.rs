//! Random number generators: where they come from and the draws the generators make.
//!
//! Generation works on `rand::rngs::StdRng`. Its state is opaque here: a draw is known
//! only to lie in the range asked for.

use vstd::prelude::*;
use rand::Rng;
use rand::SeedableRng;
use rand::rngs::StdRng;

verus! {

#[verifier::external_type_specification]
#[verifier::external_body]
pub struct ExStdRng(rand::rngs::StdRng);

/// The generator that `StdRng::seed_from_u64` makes from `seed`.
pub uninterp spec fn seeded_std_rng(seed: u64) -> StdRng;

/// A generator seeded with `seed` (`StdRng::seed_from_u64`). The algorithm is
/// deterministic, so the generator is a function of the seed, named `seeded_std_rng`;
/// what it draws is not stated.
#[verifier::external_body]
pub(crate) fn std_rng_from_seed(seed: u64) -> (r: StdRng)
    ensures
        r == seeded_std_rng(seed),
{
    StdRng::seed_from_u64(seed)
}

/// A generator seeded from the operating system (`StdRng::from_entropy`).
#[verifier::external_body]
pub(crate) fn std_rng_from_entropy() -> StdRng {
    StdRng::from_entropy()
}

/// A random `bool` (`Rng::gen::<bool>`); either value may come.
#[verifier::external_body]
pub(crate) fn random_bool(rng: &mut StdRng) -> bool {
    rng.gen::<bool>()
}

/// A random index below `n` (`Rng::gen_range(0..n)`), which panics on an empty range.
#[verifier::external_body]
pub(crate) fn random_index(rng: &mut StdRng, n: usize) -> (r: usize)
    requires
        n > 0,
    ensures
        r < n,
{
    rng.gen_range(0..n)
}

/// A `i8` drawn uniformly from `lo..=hi` (`Rng::gen_range`), which panics on an empty range.
#[verifier::external_body]
pub(crate) fn random_i8(rng: &mut StdRng, lo: i8, hi: i8) -> (r: i8)
    requires
        lo <= hi,
    ensures
        lo <= r <= hi,
{
    rng.gen_range(lo..=hi)
}

/// A `i16` drawn uniformly from `lo..=hi` (`Rng::gen_range`), which panics on an empty range.
#[verifier::external_body]
pub(crate) fn random_i16(rng: &mut StdRng, lo: i16, hi: i16) -> (r: i16)
    requires
        lo <= hi,
    ensures
        lo <= r <= hi,
{
    rng.gen_range(lo..=hi)
}

/// A `i32` drawn uniformly from `lo..=hi` (`Rng::gen_range`), which panics on an empty range.
#[verifier::external_body]
pub(crate) fn random_i32(rng: &mut StdRng, lo: i32, hi: i32) -> (r: i32)
    requires
        lo <= hi,
    ensures
        lo <= r <= hi,
{
    rng.gen_range(lo..=hi)
}

/// A `i64` drawn uniformly from `lo..=hi` (`Rng::gen_range`), which panics on an empty range.
#[verifier::external_body]
pub(crate) fn random_i64(rng: &mut StdRng, lo: i64, hi: i64) -> (r: i64)
    requires
        lo <= hi,
    ensures
        lo <= r <= hi,
{
    rng.gen_range(lo..=hi)
}

/// A `i128` drawn uniformly from `lo..=hi` (`Rng::gen_range`), which panics on an empty range.
#[verifier::external_body]
pub(crate) fn random_i128(rng: &mut StdRng, lo: i128, hi: i128) -> (r: i128)
    requires
        lo <= hi,
    ensures
        lo <= r <= hi,
{
    rng.gen_range(lo..=hi)
}

/// A `isize` drawn uniformly from `lo..=hi` (`Rng::gen_range`), which panics on an empty range.
#[verifier::external_body]
pub(crate) fn random_isize(rng: &mut StdRng, lo: isize, hi: isize) -> (r: isize)
    requires
        lo <= hi,
    ensures
        lo <= r <= hi,
{
    rng.gen_range(lo..=hi)
}

/// A `u8` drawn uniformly from `lo..=hi` (`Rng::gen_range`), which panics on an empty range.
#[verifier::external_body]
pub(crate) fn random_u8(rng: &mut StdRng, lo: u8, hi: u8) -> (r: u8)
    requires
        lo <= hi,
    ensures
        lo <= r <= hi,
{
    rng.gen_range(lo..=hi)
}

/// A `u16` drawn uniformly from `lo..=hi` (`Rng::gen_range`), which panics on an empty range.
#[verifier::external_body]
pub(crate) fn random_u16(rng: &mut StdRng, lo: u16, hi: u16) -> (r: u16)
    requires
        lo <= hi,
    ensures
        lo <= r <= hi,
{
    rng.gen_range(lo..=hi)
}

/// A `u32` drawn uniformly from `lo..=hi` (`Rng::gen_range`), which panics on an empty range.
#[verifier::external_body]
pub(crate) fn random_u32(rng: &mut StdRng, lo: u32, hi: u32) -> (r: u32)
    requires
        lo <= hi,
    ensures
        lo <= r <= hi,
{
    rng.gen_range(lo..=hi)
}

/// A `u64` drawn uniformly from `lo..=hi` (`Rng::gen_range`), which panics on an empty range.
#[verifier::external_body]
pub(crate) fn random_u64(rng: &mut StdRng, lo: u64, hi: u64) -> (r: u64)
    requires
        lo <= hi,
    ensures
        lo <= r <= hi,
{
    rng.gen_range(lo..=hi)
}

/// A `u128` drawn uniformly from `lo..=hi` (`Rng::gen_range`), which panics on an empty range.
#[verifier::external_body]
pub(crate) fn random_u128(rng: &mut StdRng, lo: u128, hi: u128) -> (r: u128)
    requires
        lo <= hi,
    ensures
        lo <= r <= hi,
{
    rng.gen_range(lo..=hi)
}

/// A `usize` drawn uniformly from `lo..=hi` (`Rng::gen_range`), which panics on an empty range.
#[verifier::external_body]
pub(crate) fn random_usize(rng: &mut StdRng, lo: usize, hi: usize) -> (r: usize)
    requires
        lo <= hi,
    ensures
        lo <= r <= hi,
{
    rng.gen_range(lo..=hi)
}

/// Provider of random number generators.
pub trait RngProvider {
    /// Whether `rng` is a generator that this provider may give for a request for `seed`.
    spec fn provides(&self, seed: Option<u64>, rng: StdRng) -> bool;

    /// A generator for `seed`, or seeded from the system when there is none.
    fn create_rng(&self, seed: Option<u64>) -> (r: StdRng)
        ensures
            self.provides(seed, r),
    ;

    /// A generator for no particular seed: seeded from the system, or the provider's own
    /// choice.
    fn create_random_rng(&self) -> (r: StdRng)
        ensures
            self.provides(None, r),
    {
        self.create_rng(None)
    }
}

/// Default provider: `StdRng` from the seed, or from the system entropy.
#[derive(Debug, Clone, Copy)]
pub struct DefaultRngProvider;

impl RngProvider for DefaultRngProvider {
    /// A seed gives the generator seeded with it; without one, any generator seeded from
    /// the system may come.
    open spec fn provides(&self, seed: Option<u64>, rng: StdRng) -> bool {
        seed matches Some(s) ==> rng == seeded_std_rng(s)
    }

    fn create_rng(&self, seed: Option<u64>) -> StdRng {
        match seed {
            Some(s) => std_rng_from_seed(s),
            None => std_rng_from_entropy(),
        }
    }
}

/// A provider for tests: seeds from its base seed when no seed is given.
#[derive(Debug, Clone, Copy, PartialEq, Eq, Structural)]
pub struct TestRngProvider {
    /// The seed used when none is given.
    pub base_seed: u64,
}

impl TestRngProvider {
    /// A provider with base seed `base_seed`.
    pub fn new(base_seed: u64) -> (r: Self)
        ensures
            r.base_seed == base_seed,
    {
        TestRngProvider { base_seed }
    }

    /// The seed that a request for `seed` uses: `seed` itself, or the base seed.
    pub fn effective_seed(&self, seed: Option<u64>) -> (r: u64)
        ensures
            r == match seed {
                Some(s) => s,
                None => self.base_seed,
            },
    {
        match seed {
            Some(s) => s,
            None => self.base_seed,
        }
    }
}

impl RngProvider for TestRngProvider {
    /// The generator seeded with the seed asked for, or with the base seed.
    open spec fn provides(&self, seed: Option<u64>, rng: StdRng) -> bool {
        rng == seeded_std_rng(
            match seed {
                Some(s) => s,
                None => self.base_seed,
            },
        )
    }

    fn create_rng(&self, seed: Option<u64>) -> StdRng {
        std_rng_from_seed(self.effective_seed(seed))
    }
}

/// Manager of random number generators: a provider and the seed in use.
#[derive(Debug, Clone)]
pub struct RngManager<P> {
    /// The provider of generators.
    pub provider: P,
    /// The seed in use, if any.
    pub seed: Option<u64>,
}

impl<P: RngProvider> RngManager<P> {
    /// A manager with no seed.
    pub fn new(provider: P) -> (r: Self)
        ensures
            r.provider == provider,
            r.seed is None,
    {
        RngManager { provider, seed: None }
    }

    /// A manager with a seed.
    pub fn with_seed(provider: P, seed: u64) -> (r: Self)
        ensures
            r.provider == provider,
            r.seed == Some(seed),
    {
        RngManager { provider, seed: Some(seed) }
    }

    /// A generator for the manager's seed.
    pub fn get_rng(&self) -> (r: StdRng)
        ensures
            self.provider.provides(self.seed, r),
    {
        self.provider.create_rng(self.seed)
    }

    /// A generator for `seed`, whatever the manager's seed.
    pub fn create_seeded_rng(&self, seed: u64) -> (r: StdRng)
        ensures
            self.provider.provides(Some(seed), r),
    {
        self.provider.create_rng(Some(seed))
    }

    /// The seed in use.
    pub fn seed(&self) -> (r: Option<u64>)
        ensures
            r == self.seed,
    {
        self.seed
    }

    /// Sets the seed for future generators.
    pub fn set_seed(&mut self, seed: Option<u64>)
        ensures
            final(self).seed == seed,
            final(self).provider == old(self).provider,
    {
        self.seed = seed;
    }
}

/// A generator from the default provider with no seed (seeded from the system).
pub fn create_rng() -> StdRng {
    DefaultRngProvider.create_rng(None)
}

/// A generator from the default provider for `seed`: the generator seeded with it.
pub fn create_seeded_rng(seed: u64) -> (r: StdRng)
    ensures
        r == seeded_std_rng(seed),
{
    DefaultRngProvider.create_rng(Some(seed))
}

/// Asks for a global seed. The default manager keeps no seed, so this changes nothing;
/// make a manager with `RngManager::with_seed` for reproducible generators.
pub fn set_global_seed(seed: u64) {
}

/// A wrapper that holds a random number generator.
#[derive(Debug, Clone)]
pub struct RngWrapper<R> {
    inner: R,
}

impl<R> RngWrapper<R> {
    /// Wraps `rng`.
    pub fn new(rng: R) -> (r: Self)
        ensures
            r.view() == rng,
    {
        RngWrapper { inner: rng }
    }

    /// The wrapped generator.
    pub closed spec fn view(&self) -> R {
        self.inner
    }

    /// The wrapped generator, to draw from.
    pub fn inner_mut(&mut self) -> (r: &mut R)
        ensures
            *r == old(self).view(),
            final(self).view() == *final(r),
    {
        &mut self.inner
    }

    /// The wrapped generator.
    pub fn inner(&self) -> (r: &R)
        ensures
            *r == self.view(),
    {
        &self.inner
    }
}

} // verus!
