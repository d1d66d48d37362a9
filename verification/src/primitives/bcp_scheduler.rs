//! BCP scheduler: a set of active priority levels `0..64`, one bit per level,
//! that answers with the highest active level.
use vstd::prelude::*;

use crate::bits::{bit_set, lemma_clear_bit, lemma_or_bit, lemma_zero_has_no_bits};
use vstd::std_specs::bits::{axiom_u64_leading_zeros, u64_leading_zeros};

verus! {

/// Number of priority levels the scheduler can hold.
pub const PRIORITY_LEVELS: u32 = 64;

/// The levels whose bit is set in `mask`.
pub open spec fn mask_levels(mask: u64) -> Set<u32> {
    Set::new(|l: u32| l < PRIORITY_LEVELS && bit_set(mask, l as u64))
}

/// The levels below `n` whose bit is set in `mask`.
pub open spec fn mask_levels_below(mask: u64, n: int) -> Set<u32> {
    Set::new(|l: u32| l < n && bit_set(mask, l as u64))
}

/// How many of the bits below `n` are set in `mask`.
pub open spec fn count_bits_below(mask: u64, n: int) -> nat
    decreases n,
{
    if n <= 0 {
        0
    } else {
        count_bits_below(mask, n - 1) + if bit_set(mask, (n - 1) as u64) {
            1nat
        } else {
            0nat
        }
    }
}

pub struct BcpScheduler {
    bitmask: u64,
}

impl View for BcpScheduler {
    type V = Set<u32>;

    /// The active priority levels.
    closed spec fn view(&self) -> Set<u32> {
        mask_levels(self.bitmask)
    }
}

proof fn lemma_levels_below_len(mask: u64, n: int)
    requires
        0 <= n <= 64,
    ensures
        mask_levels_below(mask, n).finite(),
        mask_levels_below(mask, n).len() == count_bits_below(mask, n),
    decreases n,
{
    if n == 0 {
        assert(mask_levels_below(mask, 0) =~= Set::empty());
    } else {
        lemma_levels_below_len(mask, n - 1);
        let prev = mask_levels_below(mask, n - 1);
        let l = (n - 1) as u32;
        if bit_set(mask, l as u64) {
            assert(mask_levels_below(mask, n) =~= prev.insert(l));
        } else {
            assert(mask_levels_below(mask, n) =~= prev);
        }
    }
}

impl BcpScheduler {
    /// The active levels are finite and all below `PRIORITY_LEVELS`.
    pub proof fn lemma_levels_bounded(&self)
        ensures
            self@.finite(),
            forall|l: u32| #[trigger] self@.contains(l) ==> l < PRIORITY_LEVELS,
    {
        lemma_levels_below_len(self.bitmask, 64);
        assert(self@ =~= mask_levels_below(self.bitmask, 64));
    }

    pub fn new() -> (s: Self)
        ensures
            s@ == Set::<u32>::empty(),
    {
        let s = Self { bitmask: 0 };
        assert forall|l: u32| !s@.contains(l) by {
            lemma_zero_has_no_bits(l as u64);
        }
        assert(s@ =~= Set::<u32>::empty());
        s
    }

    /// Marks `level` active; levels outside `0..64` are ignored.
    pub fn set_priority(&mut self, level: u32)
        ensures
            final(self)@ == if level < PRIORITY_LEVELS {
                old(self)@.insert(level)
            } else {
                old(self)@
            },
    {
        if level < 64 {
            let ghost old_mask = self.bitmask;
            self.bitmask = self.bitmask | (1u64 << level);
            proof {
                assert forall|l: u32| #[trigger] self@.contains(l) == old(self)@.insert(level).contains(l) by {
                    if l < 64 {
                        lemma_or_bit(old_mask, level as u64, l as u64);
                    }
                }
                assert(self@ =~= old(self)@.insert(level));
            }
        }
    }

    /// Marks `level` inactive; levels outside `0..64` are ignored.
    pub fn clear_priority(&mut self, level: u32)
        ensures
            final(self)@ == old(self)@.remove(level),
    {
        if level < 64 {
            let ghost old_mask = self.bitmask;
            self.bitmask = self.bitmask & !(1u64 << level);
            proof {
                assert forall|l: u32| #[trigger] self@.contains(l) == old(self)@.remove(level).contains(l) by {
                    if l < 64 {
                        lemma_clear_bit(old_mask, level as u64, l as u64);
                    }
                }
                assert(self@ =~= old(self)@.remove(level));
            }
        } else {
            assert(self@ =~= old(self)@.remove(level));
        }
    }

    /// The highest active level, or `None` when no level is active.
    pub fn next_highest_priority(&self) -> (r: Option<u32>)
        ensures
            r is None <==> self@.is_empty(),
            r matches Some(l) ==> self@.contains(l) && forall|m: u32| #[trigger] self@.contains(m) ==> m <= l,
    {
        proof {
            axiom_u64_leading_zeros(self.bitmask);
        }
        if self.bitmask == 0 {
            proof {
                assert forall|l: u32| !self@.contains(l) by {
                    lemma_zero_has_no_bits(l as u64);
                }
                assert(self@ =~= Set::<u32>::empty());
            }
            None
        } else {
            let lz = self.bitmask.leading_zeros();
            let top = 63 - lz;
            proof {
                let x = self.bitmask;
                assert(lz < 64);
                let t = top as u64;
                assert(t == (63 - lz) as u64);
                assert((x >> t) & 1u64 != 0u64);
                assert((x >> t) & 1u64 != 0u64 ==> (x >> t) & 1u64 == 1u64) by (bit_vector);
                assert(bit_set(x, t));
                assert(self@.contains(top));
                assert forall|m: u32| #[trigger] self@.contains(m) implies m <= top by {
                    if m > top {
                        let mm = m as u64;
                        assert(64 - u64_leading_zeros(x) <= mm < 64);
                        assert((x >> mm) & 1u64 == 0u64);
                    }
                }
            }
            Some(top)
        }
    }

    /// Whether no level is active.
    pub fn is_empty(&self) -> (r: bool)
        ensures
            r == self@.is_empty(),
    {
        let r = self.bitmask == 0;
        proof {
            if r {
                assert forall|l: u32| !self@.contains(l) by {
                    lemma_zero_has_no_bits(l as u64);
                }
                assert(self@ =~= Set::<u32>::empty());
            } else {
                axiom_u64_leading_zeros(self.bitmask);
                let x = self.bitmask;
                let t = (63 - u64_leading_zeros(x)) as u64;
                assert((x >> t) & 1u64 != 0u64);
                assert((x >> t) & 1u64 != 0u64 ==> (x >> t) & 1u64 == 1u64) by (bit_vector);
                assert(self@.contains(t as u32));
            }
        }
        r
    }

    /// The number of active levels.
    pub fn active_count(&self) -> (n: u32)
        ensures
            n == self@.len(),
    {
        let mut n: u32 = 0;
        let mut i: u32 = 0;
        while i < 64
            invariant
                i <= 64,
                n == count_bits_below(self.bitmask, i as int),
                n <= i,
            decreases 64 - i,
        {
            if (self.bitmask >> i) & 1 == 1 {
                n += 1;
            }
            i += 1;
        }
        proof {
            lemma_levels_below_len(self.bitmask, 64);
            assert(self@ =~= mask_levels_below(self.bitmask, 64));
        }
        n
    }
}

/// Clearing a level that was just set, when it was not active before, leaves the
/// scheduler's active levels as they were.
pub proof fn lemma_clear_undoes_set(levels: Set<u32>, level: u32)
    requires
        !levels.contains(level),
    ensures
        levels.insert(level).remove(level) == levels,
{
    assert(levels.insert(level).remove(level) =~= levels);
}

/// After a level below 64 is set, the highest active level is at least that level.
pub proof fn lemma_set_raises_highest(levels: Set<u32>, level: u32, top: u32)
    requires
        level < PRIORITY_LEVELS,
        levels.insert(level).contains(top),
        forall|m: u32| #[trigger] levels.insert(level).contains(m) ==> m <= top,
    ensures
        level <= top,
{
    assert(levels.insert(level).contains(level));
}

} // verus!
