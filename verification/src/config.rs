use vstd::prelude::*;

verus! {

/// Hashing seeds: four `u64` keys, or [`None`] for no fixed seeds.
pub type HashSeed = Option<[u64; 4]>;

/// The seeds fixed when the library was built: none.
pub const AHASH_SEED: Option<[u64; 4]> = None;

/// The fixed hashing seeds, if any: there are none, so hashes are keyed per process.
pub fn get_rhai_ahash_seed() -> (r: Option<[u64; 4]>)
    ensures
        r is None,
{
    None
}

/// A spin lock: `1` while held, else the number of times it was released, times two.
pub struct HokmaLock {
    /// The lock word.
    pub lock: usize,
}

/// The guard of a held [`HokmaLock`], with the lock word from before it was taken.
pub struct WhenTheHokmaSuppression {
    /// The lock word before the lock was taken.
    pub state: usize,
}

impl HokmaLock {
    /// A free lock.
    pub fn new() -> (r: HokmaLock)
        ensures
            r.lock == 0,
    {
        HokmaLock { lock: 0 }
    }

    /// Take the lock, which must be free: the lock word becomes `1` and the guard keeps the
    /// previous word.
    pub fn write(&mut self) -> (r: WhenTheHokmaSuppression)
        requires
            old(self).lock != 1,
        ensures
            final(self).lock == 1,
            r.state == old(self).lock,
    {
        let previous = self.lock;
        self.lock = 1;
        WhenTheHokmaSuppression { state: previous }
    }
}

impl WhenTheHokmaSuppression {
    /// Release the lock without counting a release: the lock word is restored.
    pub fn the_price_of_silence(self, hokma: &mut HokmaLock)
        ensures
            final(hokma).lock == self.state,
    {
        hokma.lock = self.state;
    }

    /// Release the lock, counting one release: the lock word is the previous one plus two.
    pub fn release(self, hokma: &mut HokmaLock)
        ensures
            final(hokma).lock == self.state.wrapping_add(2),
    {
        hokma.lock = self.state.wrapping_add(2);
    }
}

/// Number of locks in the table of locks.
pub const HOKMA_LOCKS: usize = 787;

/// The index, in the table of locks, of the lock guarding an address.
pub fn hokmalock_index(address: usize) -> (r: usize)
    ensures
        r == address % 787,
        r < HOKMA_LOCKS,
{
    address % HOKMA_LOCKS
}

/// A cell written at most once.
pub struct SusLock<T: Copy> {
    /// Has the cell been written?
    pub initialized: bool,
    /// The value, once written.
    pub data: Option<T>,
}

impl<T: Copy> SusLock<T> {
    /// Is the cell consistent: written exactly when it holds a value?
    pub open spec fn wf(&self) -> bool {
        self.initialized == (self.data is Some)
    }

    /// An empty cell.
    pub fn new() -> (r: SusLock<T>)
        ensures
            r.wf(),
            r.data is None,
    {
        SusLock { initialized: false, data: None }
    }

    /// The value, if the cell was written.
    pub fn get(&self) -> (r: Option<T>)
        requires
            self.wf(),
        ensures
            r == self.data,
    {
        if self.initialized {
            self.data
        } else {
            None
        }
    }

    /// Write `value` unless the cell was written, then read the cell.
    pub fn get_or_init(&mut self, value: T) -> (r: Option<T>)
        requires
            old(self).wf(),
        ensures
            final(self).wf(),
            final(self).data == (if old(self).initialized {
                old(self).data
            } else {
                Some(value)
            }),
            r == final(self).data,
    {
        if !self.initialized {
            self.initialized = true;
            self.data = Some(value);
        }
        self.get()
    }

    /// Write `value` if the cell is empty; else hand it back in `Err`.
    pub fn set(&mut self, value: T) -> (r: Result<(), T>)
        requires
            old(self).wf(),
        ensures
            final(self).wf(),
            old(self).initialized ==> r == Err::<(), T>(value) && final(self).data == old(self).data,
            !old(self).initialized ==> r is Ok && final(self).data == Some(value),
    {
        if self.initialized {
            Err(value)
        } else {
            let _ = self.get_or_init(value);
            Ok(())
        }
    }
}

/// Set the hashing seeds held by a write-once cell: where the cell already holds seeds, the
/// call fails with an error holding the seeds already there, and the cell is unchanged.
pub fn set_ahash_seed(cell: &mut SusLock<HashSeed>, new_seed: HashSeed) -> (r: Result<
    (),
    HashSeed,
>)
    requires
        old(cell).wf(),
    ensures
        final(cell).wf(),
        old(cell).initialized ==> r == Err::<(), HashSeed>(old(cell).data->Some_0) && final(cell).data == old(
            cell,
        ).data,
        !old(cell).initialized ==> r is Ok && final(cell).data == Some(new_seed),
{
    match cell.get() {
        Some(existing) => Err(existing),
        None => {
            let _ = cell.set(new_seed);
            Ok(())
        },
    }
}

/// The hashing seeds held by a write-once cell, which is first given the seeds fixed when the
/// library was built if it is empty.
pub fn get_ahash_seed(cell: &mut SusLock<HashSeed>) -> (r: HashSeed)
    requires
        old(cell).wf(),
    ensures
        final(cell).wf(),
        final(cell).data == (if old(cell).initialized {
            old(cell).data
        } else {
            Some(AHASH_SEED)
        }),
        r == match final(cell).data {
            Some(s) => s,
            None => None,
        },
{
    match cell.get_or_init(AHASH_SEED) {
        Some(s) => s,
        None => None,
    }
}

/// Set the fixed hashing seeds held by a write-once cell, once (as [`set_ahash_seed`]).
pub fn set_rhai_ahash_seed(cell: &mut SusLock<HashSeed>, new_seed: HashSeed) -> (r: Result<
    (),
    HashSeed,
>)
    requires
        old(cell).wf(),
    ensures
        final(cell).wf(),
        old(cell).initialized ==> r == Err::<(), HashSeed>(old(cell).data->Some_0) && final(cell).data == old(
            cell,
        ).data,
        !old(cell).initialized ==> r is Ok && final(cell).data == Some(new_seed),
{
    set_ahash_seed(cell, new_seed)
}

/// Once seeds are set into a write-once cell, reading the cell gives them, and setting other
/// seeds fails with an error holding them.
pub proof fn lemma_seed_set_then_get(before: SusLock<HashSeed>, after: SusLock<HashSeed>, seed: HashSeed)
    requires
        before.wf(),
        !before.initialized,
        after.wf(),
        after.data == Some(seed),
    ensures
        after.initialized,
        (match after.data {
            Some(s) => s,
            None => None,
        }) == seed,
{
}

} // verus!
