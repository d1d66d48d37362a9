//! TSC-BEDR — Timestamp Counter Bounded Deferred Reclamation
//!
//! A deferred reclamation scheme that uses monotonic sequence numbers
//! (standing in for a timestamp counter) to bound the lifetime of retired
//! objects. A retired object is known by its address.
use vstd::prelude::*;

verus! {

broadcast use vstd::seq_lib::group_seq_properties;

/// Maximum number of retired objects that can be held before forced reclamation.
pub const MAX_RETIRED: usize = 64;

/// A retired object waiting for safe reclamation.
#[derive(Clone, Copy)]
struct Retired {
    addr: usize,
    retire_epoch: u64,
}

/// Whether a retired entry `(address, retire epoch)` must still be kept when
/// `safe_epoch` is the oldest epoch still considered live.
pub open spec fn still_live(entry: (usize, u64), safe_epoch: u64) -> bool {
    entry.1 >= safe_epoch
}

/// The entries that a reclaim at `safe_epoch` keeps, in their order.
pub open spec fn live_entries(entries: Seq<(usize, u64)>, safe_epoch: u64) -> Seq<(usize, u64)> {
    entries.filter(|e: (usize, u64)| still_live(e, safe_epoch))
}

/// Bounded deferred reclamation manager.
pub struct TscBedr {
    /// Global epoch / sequence counter.
    epoch: u64,
    /// Retired list, oldest first.
    retired: Vec<Retired>,
    /// Number of currently retired items.
    retired_count: usize,
}

impl TscBedr {
    /// The current epoch.
    pub closed spec fn epoch_spec(&self) -> u64 {
        self.epoch
    }

    /// The retired objects, oldest first, each with the epoch it was retired in.
    pub closed spec fn entries(&self) -> Seq<(usize, u64)> {
        self.retired@.map_values(|r: Retired| (r.addr, r.retire_epoch))
    }

    /// Well formed: the count matches the retired list, which never exceeds `MAX_RETIRED`.
    pub closed spec fn wf(&self) -> bool {
        &&& self.retired_count == self.retired@.len()
        &&& self.retired@.len() <= MAX_RETIRED
    }

    /// A well-formed manager holds at most `MAX_RETIRED` pending objects.
    pub proof fn lemma_pending_bounded(&self)
        requires
            self.wf(),
        ensures
            self.entries().len() <= MAX_RETIRED,
    {
    }

    pub fn new() -> (b: Self)
        ensures
            b.wf(),
            b.epoch_spec() == 1,
            b.entries() == Seq::<(usize, u64)>::empty(),
    {
        let b = Self { epoch: 1, retired: Vec::with_capacity(MAX_RETIRED), retired_count: 0 };
        assert(b.entries() =~= Seq::<(usize, u64)>::empty());
        b
    }

    /// Advance the global epoch and return the new value.
    pub fn tick(&mut self) -> (e: u64)
        requires
            old(self).epoch_spec() < u64::MAX,
        ensures
            e == old(self).epoch_spec() + 1,
            final(self).epoch_spec() == e,
            final(self).entries() == old(self).entries(),
            final(self).wf() == old(self).wf(),
    {
        self.epoch = self.epoch + 1;
        self.epoch
    }

    /// Current epoch.
    pub fn current_epoch(&self) -> (e: u64)
        ensures
            e == self.epoch_spec(),
    {
        self.epoch
    }

    /// Retire the object at `addr` for later reclamation.
    /// Returns true if the object was accepted, false if the retire list is full
    /// (the caller should reclaim immediately or retry).
    pub fn retire(&mut self, addr: usize) -> (accepted: bool)
        requires
            old(self).wf(),
        ensures
            final(self).wf(),
            final(self).epoch_spec() == old(self).epoch_spec(),
            accepted == (old(self).entries().len() < MAX_RETIRED),
            final(self).entries() == if accepted {
                old(self).entries().push((addr, old(self).epoch_spec()))
            } else {
                old(self).entries()
            },
    {
        let count = self.retired_count;
        if count >= MAX_RETIRED {
            return false;
        }
        let epoch = self.current_epoch();
        self.retired.push(Retired { addr, retire_epoch: epoch });
        self.retired_count = count + 1;
        assert(self.entries() =~= old(self).entries().push((addr, epoch)));
        true
    }

    /// Reclaim the objects whose retire epoch is older than `safe_epoch`, the
    /// oldest epoch still considered live by any thread. Returns how many were reclaimed.
    pub fn reclaim(&mut self, safe_epoch: u64) -> (reclaimed: usize)
        requires
            old(self).wf(),
        ensures
            final(self).wf(),
            final(self).epoch_spec() == old(self).epoch_spec(),
            final(self).entries() == live_entries(old(self).entries(), safe_epoch),
            final(self).entries() == old(self).entries().filter(|e: (usize, u64)| e.1 >= safe_epoch),
            reclaimed == old(self).entries().len() - final(self).entries().len(),
            reclaimed == old(self).entries().filter(|e: (usize, u64)| e.1 < safe_epoch).len(),
    {
        let ghost pred = |e: (usize, u64)| still_live(e, safe_epoch);
        let ghost all = self.entries();
        let mut kept: Vec<Retired> = Vec::new();
        let mut reclaimed: usize = 0;
        let n = self.retired.len();
        let mut i: usize = 0;
        while i < n
            invariant
                n == self.retired@.len(),
                all == self.entries(),
                pred == (|e: (usize, u64)| still_live(e, safe_epoch)),
                i <= n,
                kept@.map_values(|r: Retired| (r.addr, r.retire_epoch)) == all.subrange(
                    0,
                    i as int,
                ).filter(pred),
                reclaimed + kept@.len() == i,
            decreases n - i,
        {
            let item = self.retired[i];
            proof {
                assert(all[i as int] == (item.addr, item.retire_epoch));
                assert(pred(all[i as int]) == (item.retire_epoch >= safe_epoch));
                assert(all.subrange(0, i + 1) =~= all.subrange(0, i as int).push(all[i as int]));
                all.subrange(0, i as int).lemma_filter_push(all[i as int], pred);
            }
            if item.retire_epoch < safe_epoch {
                // The entry is dropped from the tracking list.
                reclaimed += 1;
            } else {
                let ghost before = kept@;
                kept.push(item);
                proof {
                    assert(kept@.map_values(|r: Retired| (r.addr, r.retire_epoch)) =~= before.map_values(
                        |r: Retired| (r.addr, r.retire_epoch),
                    ).push((item.addr, item.retire_epoch)));
                }
            }
            i += 1;
        }
        proof {
            assert(all.subrange(0, n as int) =~= all);
            all.lemma_filter_len(pred);
            lemma_reclaim_partitions(all, safe_epoch);
        }
        self.retired = kept;
        if reclaimed > 0 {
            self.retired_count = self.retired_count - reclaimed;
        }
        reclaimed
    }

    /// Number of objects currently waiting for reclamation.
    pub fn pending(&self) -> (n: usize)
        requires
            self.wf(),
        ensures
            n == self.entries().len(),
    {
        self.retired_count
    }
}

impl Default for TscBedr {
    fn default() -> (b: Self)
        ensures
            b.wf(),
            b.epoch_spec() == 1,
            b.entries() == Seq::<(usize, u64)>::empty(),
    {
        Self::new()
    }
}

/// After a reclaim at `safe_epoch`, an object remains pending exactly when it
/// was pending before and was retired at `safe_epoch` or later; the survivors
/// keep their order.
pub proof fn lemma_reclaim_keeps_exactly_live(entries: Seq<(usize, u64)>, safe_epoch: u64)
    ensures
        forall|e: (usize, u64)| #[trigger]
            live_entries(entries, safe_epoch).contains(e) <==> (entries.contains(e) && e.1 >= safe_epoch),
{
    let pred = |x: (usize, u64)| still_live(x, safe_epoch);
    assert forall|e: (usize, u64)| #[trigger] live_entries(entries, safe_epoch).contains(e) <==> (
        entries.contains(e) && e.1 >= safe_epoch) by {
        assert(live_entries(entries, safe_epoch) == entries.filter(pred));
        if entries.filter(pred).contains(e) {
            entries.lemma_filter_contains_rev(pred, e);
            let j = choose|j: int| 0 <= j < entries.filter(pred).len() && entries.filter(pred)[j] == e;
            entries.lemma_filter_pred(pred, j);
        }
        if entries.contains(e) && e.1 >= safe_epoch {
            let i = choose|i: int| 0 <= i < entries.len() && entries[i] == e;
            entries.lemma_filter_contains(pred, i);
        }
    }
}

/// A reclaim at `safe_epoch` keeps, in their order and each once, exactly the
/// entries retired at `safe_epoch` or later; the entries retired before it are
/// the ones reclaimed, so kept and reclaimed entries together are all of them.
pub proof fn lemma_reclaim_partitions(entries: Seq<(usize, u64)>, safe_epoch: u64)
    ensures
        live_entries(entries, safe_epoch) == entries.filter(|e: (usize, u64)| e.1 >= safe_epoch),
        live_entries(entries, safe_epoch).len() + entries.filter(
            |e: (usize, u64)| e.1 < safe_epoch,
        ).len() == entries.len(),
    decreases entries.len(),
{
    let keep = |e: (usize, u64)| e.1 >= safe_epoch;
    let drop = |e: (usize, u64)| e.1 < safe_epoch;
    assert(live_entries(entries, safe_epoch) =~= entries.filter(keep)) by {
        assert((|e: (usize, u64)| still_live(e, safe_epoch)) =~= keep);
    }
    if entries.len() > 0 {
        let init = entries.drop_last();
        let last = entries.last();
        lemma_reclaim_partitions(init, safe_epoch);
        assert(init.push(last) =~= entries);
        init.lemma_filter_push(last, keep);
        init.lemma_filter_push(last, drop);
    } else {
        assert(entries.filter(keep) =~= entries) by {
            reveal(Seq::filter);
        }
        assert(entries.filter(drop) =~= entries) by {
            reveal(Seq::filter);
        }
    }
}

} // verus!
