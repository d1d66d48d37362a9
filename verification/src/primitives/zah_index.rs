//! ZAH-Index — Zero-probe Atomic Hopscotch Bit-Matrix Index
//!
//! A simplified hopscotch-style open-addressing index that stores
//! presence bits and allows insertion / lookup with bounded probes.
//!
//! The index has `SLOTS` key slots (0 marks an empty slot). A key lives within
//! `HOP` slots of its home slot, and the home slot's presence bitmap has bit `i`
//! set exactly when slot `home + i` holds a key whose home it is.
use vstd::prelude::*;

use crate::bits::{bit_set, lemma_clear_bit, lemma_or_bit, lemma_test_bit, lemma_zero_has_no_bits};

verus! {

/// Number of slots in the index (a power of two).
pub const SLOTS: usize = 64;

/// Hopscotch neighborhood size.
pub const HOP: usize = 8;

/// Multiplier of the multiplicative hash.
pub const HASH_MULTIPLIER: u64 = 0x9E3779B97F4A7C15;

/// The home slot of a key: the low bits of the key times the multiplier, modulo 2^64.
pub open spec fn home_slot(key: u64) -> int {
    ((key as nat * HASH_MULTIPLIER as nat) % 0x1_0000_0000_0000_0000nat) as int % (SLOTS as int)
}

/// The slot probed at distance `i` from `home`.
pub open spec fn probe_slot(home: int, i: int) -> int {
    (home + i) % (SLOTS as int)
}

/// Distance from `home` forward (with wrap-around) to slot `p`.
pub open spec fn probe_distance(home: int, p: int) -> int {
    (p - home + SLOTS as int) % (SLOTS as int)
}

/// The first distance `i' >= i` within the neighborhood of `home` whose slot is empty.
pub open spec fn first_free(slots: Seq<u64>, home: int, i: int) -> Option<int>
    decreases HOP - i,
{
    if i >= HOP as int || i < 0 {
        None
    } else if slots[probe_slot(home, i)] == 0 {
        Some(i)
    } else {
        first_free(slots, home, i + 1)
    }
}

/// The first distance `i' >= i` within the neighborhood of `home` whose slot holds `key`.
pub open spec fn first_match(slots: Seq<u64>, home: int, key: u64, i: int) -> Option<int>
    decreases HOP - i,
{
    if i >= HOP as int || i < 0 {
        None
    } else if slots[probe_slot(home, i)] == key {
        Some(i)
    } else {
        first_match(slots, home, key, i + 1)
    }
}

/// What an insertion does to the slots: whether it succeeds, and the slots after it.
/// The key goes into the first empty slot of its neighborhood; key 0 is refused.
pub open spec fn inserted(slots: Seq<u64>, key: u64) -> (bool, Seq<u64>) {
    if key == 0 {
        (false, slots)
    } else {
        match first_free(slots, home_slot(key), 0) {
            Some(i) => (true, slots.update(probe_slot(home_slot(key), i), key)),
            None => (false, slots),
        }
    }
}

/// What a removal does to the slots: whether it succeeds, and the slots after it.
/// The first slot of the key's neighborhood that holds the key is emptied.
pub open spec fn removed(slots: Seq<u64>, key: u64) -> (bool, Seq<u64>) {
    if key == 0 {
        (false, slots)
    } else {
        match first_match(slots, home_slot(key), key, 0) {
            Some(i) => (true, slots.update(probe_slot(home_slot(key), i), 0)),
            None => (false, slots),
        }
    }
}

/// Slots are well placed when there are `SLOTS` of them and every stored key lies
/// within `HOP` slots of its home.
pub open spec fn slots_placed(slots: Seq<u64>) -> bool {
    &&& slots.len() == SLOTS
    &&& forall|p: int|
        0 <= p < SLOTS as int && #[trigger] slots[p] != 0 ==> probe_distance(home_slot(slots[p]), p)
            < HOP as int
}

pub struct ZahIndex {
    /// Presence bitmaps for each slot.
    bitmaps: Vec<u64>,
    /// Key storage (0 means empty).
    keys: Vec<u64>,
}

impl View for ZahIndex {
    type V = Seq<u64>;

    /// The contents of the key slots, slot by slot (0 marks an empty slot).
    closed spec fn view(&self) -> Seq<u64> {
        self.keys@
    }
}

/// Hash a key into a slot index.
fn hash(key: u64) -> (slot: usize)
    ensures
        slot == home_slot(key),
        slot < SLOTS,
{
    // Simple multiplicative hash.
    let h = key.wrapping_mul(HASH_MULTIPLIER);
    let slot = (h as usize) & (SLOTS - 1);
    assert((h as usize) & 63usize == h % 64) by (bit_vector);
    slot
}

/// The slot at distance `i` from `start`.
fn probe(start: usize, i: usize) -> (idx: usize)
    requires
        start < SLOTS,
        i < HOP,
    ensures
        idx == probe_slot(start as int, i as int),
        idx < SLOTS,
{
    let s = start + i;
    assert(s & 63usize == s % 64) by (bit_vector);
    s & (SLOTS - 1)
}

/// Finds the first empty slot in the neighborhood of `start`, as a distance from it.
fn find_free(keys: &Vec<u64>, start: usize) -> (r: Option<usize>)
    requires
        keys@.len() == SLOTS,
        start < SLOTS,
    ensures
        match r {
            Some(i) => i < HOP && first_free(keys@, start as int, 0) == Some(i as int)
                && keys@[probe_slot(start as int, i as int)] == 0,
            None => first_free(keys@, start as int, 0) is None,
        },
{
    let mut i: usize = 0;
    while i < HOP
        invariant
            keys@.len() == SLOTS,
            start < SLOTS,
            i <= HOP,
            first_free(keys@, start as int, 0) == first_free(keys@, start as int, i as int),
        decreases HOP - i,
    {
        let idx = probe(start, i);
        if keys[idx] == 0 {
            return Some(i);
        }
        i += 1;
    }
    None
}

/// Finds, among the neighborhood slots that `bitmap` marks, the first one that holds `key`.
fn find_match(keys: &Vec<u64>, bitmap: u64, start: usize, key: u64) -> (r: Option<usize>)
    requires
        slots_placed(keys@),
        start < SLOTS,
        start == home_slot(key),
        key != 0,
        forall|j: int|
            0 <= j < 64 ==> (#[trigger] bit_set(bitmap, j as u64) <==> (j < HOP as int
                && keys@[probe_slot(start as int, j)] != 0 && home_slot(
                keys@[probe_slot(start as int, j)],
            ) == start as int)),
    ensures
        match r {
            Some(i) => i < HOP && first_match(keys@, start as int, key, 0) == Some(i as int)
                && keys@[probe_slot(start as int, i as int)] == key,
            None => first_match(keys@, start as int, key, 0) is None && !keys@.contains(key),
        },
{
    let mut i: usize = 0;
    while i < HOP
        invariant
            slots_placed(keys@),
            start < SLOTS,
            start == home_slot(key),
            key != 0,
            forall|j: int|
                0 <= j < 64 ==> (#[trigger] bit_set(bitmap, j as u64) <==> (j < HOP as int
                    && keys@[probe_slot(start as int, j)] != 0 && home_slot(
                    keys@[probe_slot(start as int, j)],
                ) == start as int)),
            i <= HOP,
            first_match(keys@, start as int, key, 0) == first_match(keys@, start as int, key, i as int),
            forall|j: int| 0 <= j < i ==> keys@[probe_slot(start as int, j)] != key,
        decreases HOP - i,
    {
        proof {
            lemma_test_bit(bitmap, i as u64);
        }
        if (bitmap & (1u64 << i)) != 0 {
            let idx = probe(start, i);
            if keys[idx] == key {
                return Some(i);
            }
        } else {
            assert(!bit_set(bitmap, i as u64));
        }
        i += 1;
    }
    proof {
        if keys@.contains(key) {
            let p = choose|p: int| 0 <= p < keys@.len() && keys@[p] == key;
            assert(keys@[p] != 0);
            let d = probe_distance(start as int, p);
            assert(probe_slot(start as int, d) == p);
            assert(keys@[probe_slot(start as int, d)] == key);
        }
    }
    None
}

impl ZahIndex {
    /// The index is well formed: `SLOTS` key slots and bitmaps, every key within
    /// its neighborhood, and each home bitmap marks exactly the neighborhood slots
    /// that hold one of its keys.
    #[verifier::opaque]
    pub closed spec fn wf(&self) -> bool {
        &&& self.bitmaps@.len() == SLOTS
        &&& slots_placed(self.keys@)
        &&& forall|s: int, i: int|
            0 <= s < SLOTS as int && 0 <= i < 64 ==> (#[trigger] bit_set(self.bitmaps@[s], i as u64)
                <==> (i < HOP as int && self.keys@[probe_slot(s, i)] != 0 && home_slot(
                self.keys@[probe_slot(s, i)],
            ) == s))
    }

    /// A well-formed index has `SLOTS` slots and keeps every key within `HOP`
    /// slots of its home.
    pub proof fn lemma_wf_placed(&self)
        requires
            self.wf(),
        ensures
            slots_placed(self@),
    {
        reveal(ZahIndex::wf);
    }

    pub fn new() -> (idx: Self)
        ensures
            idx.wf(),
            idx@ == Seq::new(SLOTS as nat, |p: int| 0u64),
    {
        let idx = Self { bitmaps: vec![0u64; SLOTS], keys: vec![0u64; SLOTS] };
        reveal(ZahIndex::wf);
        assert forall|s: int, i: int| 0 <= s < SLOTS as int && 0 <= i < 64 implies !#[trigger] bit_set(
            idx.bitmaps@[s],
            i as u64,
        ) by {
            lemma_zero_has_no_bits(i as u64);
        }
        assert(idx.keys@ =~= Seq::new(SLOTS as nat, |p: int| 0u64));
        idx
    }

    /// Attempt to insert a key. Returns true on success, false if the key is 0
    /// (reserved as the empty marker) or no space is found within the hopscotch
    /// neighborhood.
    pub fn insert(&mut self, key: u64) -> (ok: bool)
        requires
            old(self).wf(),
        ensures
            final(self).wf(),
            (ok, final(self)@) == inserted(old(self)@, key),
    {
        if key == 0 {
            return false;  // 0 is reserved as empty marker
        }
        let start = hash(key);
        proof {
            self.lemma_home_bitmap(start, key);
        }
        // First try to find an empty slot in the neighborhood.
        match find_free(&self.keys, start) {
            Some(i) => {
                let idx = probe(start, i);
                let ghost pre = *self;
                self.keys.set(idx, key);
                // Set the corresponding bit in the start bucket's bitmap.
                let bit = 1u64 << i;
                let b = self.bitmaps[start] | bit;
                self.bitmaps.set(start, b);
                proof {
                    self.lemma_insert_keeps_wf(pre, start, i, idx, key);
                }
                true
            },
            None => false,  // Neighborhood full
        }
    }

    proof fn lemma_insert_keeps_wf(&self, pre: Self, start: usize, i: usize, idx: usize, key: u64)
        requires
            pre.wf(),
            start < SLOTS,
            start == home_slot(key),
            key != 0,
            i < HOP,
            idx == probe_slot(start as int, i as int),
            pre.keys@[idx as int] == 0,
            self.keys@ == pre.keys@.update(idx as int, key),
            self.bitmaps@ == pre.bitmaps@.update(start as int, pre.bitmaps@[start as int] | (1u64 << i)),
        ensures
            self.wf(),
    {
        reveal(ZahIndex::wf);
        let slots = pre.keys@;
        let old_bitmaps = pre.bitmaps@;
        assert forall|p: int| 0 <= p < SLOTS as int && #[trigger] self.keys@[p] != 0 implies probe_distance(
            home_slot(self.keys@[p]),
            p,
        ) < HOP as int by {
            if p != idx as int {
                assert(slots[p] != 0);
            }
        }
        assert forall|s: int, j: int| 0 <= s < SLOTS as int && 0 <= j < 64 implies (#[trigger] bit_set(
            self.bitmaps@[s],
            j as u64,
        ) <==> (j < HOP as int && self.keys@[probe_slot(s, j)] != 0 && home_slot(
            self.keys@[probe_slot(s, j)],
        ) == s)) by {
            assert(bit_set(old_bitmaps[s], j as u64) <==> (j < HOP as int && slots[probe_slot(s, j)]
                != 0 && home_slot(slots[probe_slot(s, j)]) == s));
            if s == start as int {
                lemma_or_bit(old_bitmaps[s], i as u64, j as u64);
            }
        }
    }

    /// Check whether a key is present.
    pub fn contains(&self, key: u64) -> (found: bool)
        requires
            self.wf(),
        ensures
            found == (key != 0 && self@.contains(key)),
    {
        if key == 0 {
            return false;
        }
        let start = hash(key);
        proof {
            self.lemma_home_bitmap(start, key);
        }
        let bitmap = self.bitmaps[start];
        find_match(&self.keys, bitmap, start, key).is_some()
    }

    /// The bitmap of a key's home slot marks exactly the neighborhood slots that
    /// hold a key of that home.
    proof fn lemma_home_bitmap(&self, start: usize, key: u64)
        requires
            self.wf(),
            start == home_slot(key),
        ensures
            start < SLOTS,
            slots_placed(self.keys@),
            self.bitmaps@.len() == SLOTS,
            forall|j: int|
                0 <= j < 64 ==> (#[trigger] bit_set(self.bitmaps@[start as int], j as u64) <==> (j
                    < HOP as int && self.keys@[probe_slot(start as int, j)] != 0 && home_slot(
                    self.keys@[probe_slot(start as int, j)],
                ) == start as int)),
    {
        reveal(ZahIndex::wf);
    }

    /// Remove a key if present. Returns true if the key was found and removed.
    pub fn remove(&mut self, key: u64) -> (ok: bool)
        requires
            old(self).wf(),
        ensures
            final(self).wf(),
            (ok, final(self)@) == removed(old(self)@, key),
            ok == (key != 0 && old(self)@.contains(key)),
    {
        if key == 0 {
            return false;
        }
        let start = hash(key);
        let ghost slots = self.keys@;
        proof {
            self.lemma_home_bitmap(start, key);
        }
        let bitmap = self.bitmaps[start];
        match find_match(&self.keys, bitmap, start, key) {
            Some(i) => {
                let idx = probe(start, i);
                let ghost pre = *self;
                self.keys.set(idx, 0);
                let bit = 1u64 << i;
                let b = self.bitmaps[start] & !bit;
                self.bitmaps.set(start, b);
                proof {
                    self.lemma_remove_keeps_wf(pre, start, i, idx, key);
                    assert(slots[idx as int] == key);
                }
                true
            },
            None => false,
        }
    }

    proof fn lemma_remove_keeps_wf(&self, pre: Self, start: usize, i: usize, idx: usize, key: u64)
        requires
            pre.wf(),
            start < SLOTS,
            start == home_slot(key),
            key != 0,
            i < HOP,
            idx == probe_slot(start as int, i as int),
            pre.keys@[idx as int] == key,
            self.keys@ == pre.keys@.update(idx as int, 0),
            self.bitmaps@ == pre.bitmaps@.update(start as int, pre.bitmaps@[start as int] & ! (1u64 << i)),
        ensures
            self.wf(),
    {
        reveal(ZahIndex::wf);
        let slots = pre.keys@;
        let old_bitmaps = pre.bitmaps@;
        assert forall|p: int| 0 <= p < SLOTS as int && #[trigger] self.keys@[p] != 0 implies probe_distance(
            home_slot(self.keys@[p]),
            p,
        ) < HOP as int by {
            assert(slots[p] != 0);
        }
        assert forall|s: int, j: int| 0 <= s < SLOTS as int && 0 <= j < 64 implies (#[trigger] bit_set(
            self.bitmaps@[s],
            j as u64,
        ) <==> (j < HOP as int && self.keys@[probe_slot(s, j)] != 0 && home_slot(
            self.keys@[probe_slot(s, j)],
        ) == s)) by {
            assert(bit_set(old_bitmaps[s], j as u64) <==> (j < HOP as int && slots[probe_slot(s, j)]
                != 0 && home_slot(slots[probe_slot(s, j)]) == s));
            if s == start as int {
                lemma_clear_bit(old_bitmaps[s], i as u64, j as u64);
            }
        }
    }
}

impl Default for ZahIndex {
    fn default() -> (idx: Self)
        ensures
            idx.wf(),
            idx@ == Seq::new(SLOTS as nat, |p: int| 0u64),
    {
        Self::new()
    }
}

proof fn lemma_first_free_props(slots: Seq<u64>, home: int, i: int)
    requires
        0 <= i,
    ensures
        match first_free(slots, home, i) {
            Some(k) => i <= k < HOP as int && slots[probe_slot(home, k)] == 0 && forall|j: int|
                i <= j < k ==> slots[#[trigger] probe_slot(home, j)] != 0,
            None => forall|j: int| i <= j < HOP as int ==> slots[#[trigger] probe_slot(home, j)] != 0,
        },
    decreases HOP - i,
{
    if i < HOP as int && slots[probe_slot(home, i)] != 0 {
        lemma_first_free_props(slots, home, i + 1);
    }
}

proof fn lemma_first_match_at(slots: Seq<u64>, home: int, key: u64, i: int, k: int)
    requires
        0 <= i <= k < HOP as int,
        slots[probe_slot(home, k)] == key,
        forall|j: int| i <= j < k ==> slots[#[trigger] probe_slot(home, j)] != key,
    ensures
        first_match(slots, home, key, i) == Some(k),
    decreases k - i,
{
    if i < k {
        lemma_first_match_at(slots, home, key, i + 1, k);
    }
}

/// Insertion probes the neighborhood of the key's home slot `h`, which is
/// `key * 0x9E3779B97F4A7C15` modulo 2^64, modulo 64: the slots `p` whose forward
/// distance `(p - h + 64) % 64` from `h` is below 8, wrapping past slot 63. A
/// nonzero key is stored exactly when one of them is empty (so always in an empty
/// index); it then fills the nearest empty one and nothing else, and a refused
/// insertion changes nothing.
pub proof fn lemma_insert_probes_neighborhood(slots: Seq<u64>, key: u64, h: int)
    requires
        slots.len() == 64,
        key != 0,
        h == ((key as nat * 0x9E3779B97F4A7C15nat) % 0x1_0000_0000_0000_0000nat) as int % 64,
    ensures
        (exists|p: int| 0 <= p < 64 && (p - h + 64) % 64 < 8 && #[trigger] slots[p] == 0) ==> inserted(
            slots,
            key,
        ).0,
        inserted(slots, key).0 ==> exists|p: int|
            0 <= p < 64 && (p - h + 64) % 64 < 8 && #[trigger] slots[p] == 0 && inserted(slots, key).1
                == slots.update(p, key) && (forall|q: int|
                0 <= q < 64 && (q - h + 64) % 64 < (p - h + 64) % 64 ==> #[trigger] slots[q] != 0),
        inserted(slots, key).0 ==> inserted(slots, key).1.contains(key),
        !inserted(slots, key).0 ==> inserted(slots, key).1 == slots,
{
    assert(home_slot(key) == h);
    assert(0 <= h < 64);
    lemma_first_free_props(slots, h, 0);
    match first_free(slots, h, 0) {
        Some(k) => {
            let p = probe_slot(h, k);
            assert((p - h + 64) % 64 == k);
            assert forall|q: int|
                0 <= q < 64 && (q - h + 64) % 64 < (p - h + 64) % 64 implies #[trigger] slots[q] != 0 by {
                let j = (q - h + 64) % 64;
                assert(probe_slot(h, j) == q);
            }
            assert(inserted(slots, key).1[p] == key);
        },
        None => {
            assert forall|p: int| 0 <= p < 64 && (p - h + 64) % 64 < 8 implies #[trigger] slots[p] != 0 by {
                let j = (p - h + 64) % 64;
                assert(probe_slot(h, j) == p);
            }
        },
    }
}

/// Removal of a nonzero key empties the nearest slot of its neighborhood that
/// holds it (the slots `p` with `(p - h + 64) % 64 < 8`, where `h` is
/// `key * 0x9E3779B97F4A7C15` modulo 2^64, modulo 64). It succeeds exactly when
/// one of those slots holds the key, and a failed removal changes nothing.
pub proof fn lemma_remove_probes_neighborhood(slots: Seq<u64>, key: u64, h: int)
    requires
        slots.len() == 64,
        key != 0,
        h == ((key as nat * 0x9E3779B97F4A7C15nat) % 0x1_0000_0000_0000_0000nat) as int % 64,
    ensures
        (exists|p: int| 0 <= p < 64 && (p - h + 64) % 64 < 8 && #[trigger] slots[p] == key) ==> removed(
            slots,
            key,
        ).0,
        removed(slots, key).0 ==> exists|p: int|
            0 <= p < 64 && (p - h + 64) % 64 < 8 && #[trigger] slots[p] == key && removed(slots, key).1
                == slots.update(p, 0) && (forall|q: int|
                0 <= q < 64 && (q - h + 64) % 64 < (p - h + 64) % 64 ==> #[trigger] slots[q] != key),
        !removed(slots, key).0 ==> removed(slots, key).1 == slots,
{
    assert(home_slot(key) == h);
    assert(0 <= h < 64);
    lemma_first_match_props(slots, h, key, 0);
    match first_match(slots, h, key, 0) {
        Some(k) => {
            let p = probe_slot(h, k);
            assert((p - h + 64) % 64 == k);
            assert forall|q: int|
                0 <= q < 64 && (q - h + 64) % 64 < (p - h + 64) % 64 implies #[trigger] slots[q] != key by {
                let j = (q - h + 64) % 64;
                assert(probe_slot(h, j) == q);
            }
        },
        None => {
            assert forall|p: int| 0 <= p < 64 && (p - h + 64) % 64 < 8 implies #[trigger] slots[p] != key by {
                let j = (p - h + 64) % 64;
                assert(probe_slot(h, j) == p);
            }
        },
    }
}

/// Key 0 marks an empty slot: it is never inserted nor removed.
pub proof fn lemma_zero_key_refused(slots: Seq<u64>)
    ensures
        inserted(slots, 0) == (false, slots),
        removed(slots, 0) == (false, slots),
{
}

proof fn lemma_first_match_props(slots: Seq<u64>, home: int, key: u64, i: int)
    requires
        0 <= i,
    ensures
        match first_match(slots, home, key, i) {
            Some(k) => i <= k < HOP as int && slots[probe_slot(home, k)] == key && forall|j: int|
                i <= j < k ==> slots[#[trigger] probe_slot(home, j)] != key,
            None => forall|j: int|
                i <= j < HOP as int ==> slots[#[trigger] probe_slot(home, j)] != key,
        },
    decreases HOP - i,
{
    if i < HOP as int && slots[probe_slot(home, i)] != key {
        lemma_first_match_props(slots, home, key, i + 1);
    }
}

/// An insertion that succeeds makes the key present.
pub proof fn lemma_insert_then_contains(slots: Seq<u64>, key: u64)
    requires
        slots_placed(slots),
        inserted(slots, key).0,
    ensures
        inserted(slots, key).1.contains(key),
{
    let h = home_slot(key);
    lemma_first_free_props(slots, h, 0);
    let i = first_free(slots, h, 0)->Some_0;
    let p = probe_slot(h, i);
    assert(inserted(slots, key).1[p] == key);
}

/// Removing a key that was just inserted, when it was absent before, gives back
/// exactly the slots that the index held before the insertion.
pub proof fn lemma_remove_undoes_insert(slots: Seq<u64>, key: u64)
    requires
        slots_placed(slots),
        !slots.contains(key),
        inserted(slots, key).0,
    ensures
        removed(inserted(slots, key).1, key) == (true, slots),
{
    let h = home_slot(key);
    lemma_first_free_props(slots, h, 0);
    let i = first_free(slots, h, 0)->Some_0;
    let p = probe_slot(h, i);
    let after = inserted(slots, key).1;
    assert(after == slots.update(p, key));
    assert forall|j: int| 0 <= j < i implies after[#[trigger] probe_slot(h, j)] != key by {
        assert(probe_slot(h, j) != p);
        assert(slots[probe_slot(h, j)] != 0);
        if slots[probe_slot(h, j)] == key {
            assert(slots.contains(key));
        }
    }
    lemma_first_match_at(after, h, key, 0, i);
    assert(after.update(p, 0) =~= slots);
}

} // verus!
