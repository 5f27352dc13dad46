//! The set of canonical k-mers seen so far, and the count of those seen at least twice.

use crate::canonical::canonical;
use crate::canonical::canonical_kmer;
use crate::table::entries;
use crate::table::table_get_mut;
use crate::table::table_insert;
use crate::table::table_len;
use crate::table::table_new;
use rustc_hash::FxHashMap;
use vstd::multiset::lemma_update_different;
use vstd::multiset::lemma_update_same;
use vstd::multiset::Multiset;
use vstd::prelude::*;
use vstd::set_lib::lemma_len_subset;

verus! {

/// The solid k-mers of a stream: those that occur in it at least twice.
pub open spec fn solid_kmers(seen: Multiset<Seq<u8>>) -> Set<Seq<u8>> {
    Set::new(|k: Seq<u8>| seen.count(k) >= 2)
}

/// The solid k-mers of a stream are among the k-mers that occur in it, so there are
/// finitely many of them, and no more than there are distinct k-mers.
pub proof fn solid_kmers_are_seen(seen: Multiset<Seq<u8>>)
    ensures
        solid_kmers(seen).subset_of(seen.dom()),
        solid_kmers(seen).finite(),
        solid_kmers(seen).len() <= seen.dom().len(),
{
    lemma_len_subset(solid_kmers(seen), seen.dom());
}

/// What one more sighting does to the solid k-mers. The second sighting of a k-mer makes
/// it solid; the first leaves it out, and a later one finds it solid already. So the number
/// of solid k-mers never falls, and rises by at most one with each sighting.
pub proof fn solid_kmers_step(seen: Multiset<Seq<u8>>, kmer: Seq<u8>)
    ensures
        seen.count(kmer) == 1 ==> !solid_kmers(seen).contains(kmer) && solid_kmers(
            seen.insert(kmer),
        ) == solid_kmers(seen).insert(kmer),
        seen.count(kmer) != 1 ==> solid_kmers(seen.insert(kmer)) == solid_kmers(seen),
        solid_kmers(seen.insert(kmer)).len() == solid_kmers(seen).len() + (if seen.count(kmer)
            == 1 {
            1int
        } else {
            0int
        }),
{
    solid_kmers_are_seen(seen);
    if seen.count(kmer) == 1 {
        assert(solid_kmers(seen.insert(kmer)) =~= solid_kmers(seen).insert(kmer));
    } else {
        assert(solid_kmers(seen.insert(kmer)) =~= solid_kmers(seen));
    }
}

/// What one k-mer adds to the number of solid k-mers of a stream: nothing if it occurs
/// once or not at all, and exactly one if it occurs twice or more, however often. The
/// stream without the k-mer is the stream with every occurrence of it taken out.
pub proof fn solid_kmers_count_each_once(seen: Multiset<Seq<u8>>, kmer: Seq<u8>)
    ensures
        solid_kmers(seen).contains(kmer) <==> seen.count(kmer) >= 2,
        solid_kmers(seen).len() == solid_kmers(seen.update(kmer, 0)).len() + (if seen.count(kmer)
            >= 2 {
            1int
        } else {
            0int
        }),
{
    let rest = seen.update(kmer, 0);
    solid_kmers_are_seen(seen);
    lemma_update_same(seen, kmer, 0);
    assert forall|k: Seq<u8>| k != kmer implies rest.count(k) == seen.count(k) by {
        lemma_update_different(seen, kmer, 0, k);
    }
    assert(solid_kmers(rest) =~= solid_kmers(seen).remove(kmer));
}

/// Seeing more k-mers never makes a solid k-mer unsolid: the solid k-mers of a stream are
/// solid in every longer stream, so their number never falls.
pub proof fn solid_kmers_monotone(seen: Multiset<Seq<u8>>, more: Multiset<Seq<u8>>)
    ensures
        solid_kmers(seen).subset_of(solid_kmers(seen.add(more))),
        solid_kmers(seen).len() <= solid_kmers(seen.add(more)).len(),
{
    solid_kmers_are_seen(seen.add(more));
    lemma_len_subset(solid_kmers(seen), solid_kmers(seen.add(more)));
}

/// The windows of length `k` of a record, from left to right: one at every offset at which
/// `k` symbols are left. A record shorter than `k` has none.
pub open spec fn windows(record: Seq<u8>, k: nat) -> Seq<Seq<u8>> {
    if record.len() < k {
        Seq::empty()
    } else {
        Seq::new((record.len() - k + 1) as nat, |i: int| record.subrange(i, i + k))
    }
}

/// The canonical k-mers of a record: the canonical form of each of its windows.
pub open spec fn canonical_windows(record: Seq<u8>, k: nat) -> Seq<Seq<u8>> {
    windows(record, k).map_values(|w: Seq<u8>| canonical(w))
}

/// Tracks which canonical k-mers have been seen, and how many of them at least twice.
///
/// Its model is the stream of canonical k-mers observed so far, without their order:
/// [`SolidityTracker::seen`]. The table holds each of them once, with a flag that is set
/// from the second sighting on.
pub struct SolidityTracker {
    table: FxHashMap<Vec<u8>, bool>,
    solid: usize,
    seen: Ghost<Multiset<Seq<u8>>>,
}

impl SolidityTracker {
    /// Every canonical k-mer observed so far, as often as it was observed.
    pub closed spec fn seen(&self) -> Multiset<Seq<u8>> {
        self.seen@
    }

    /// The table holds exactly the k-mers seen, each flagged if and only if it was seen
    /// at least twice, and the counter is the number of flagged ones.
    pub closed spec fn wf(&self) -> bool {
        &&& entries(self.table).dom() == self.seen@.dom()
        &&& forall|k: Seq<u8>| #[trigger]
            self.seen@.count(k) >= 1 ==> entries(self.table)[k] == (self.seen@.count(k) >= 2)
        &&& self.solid == solid_kmers(self.seen@).len()
    }

    /// The number of solid k-mers among those seen.
    pub open spec fn solid(&self) -> nat {
        solid_kmers(self.seen()).len()
    }

    /// A tracker that has seen nothing.
    pub fn new() -> (t: Self)
        ensures
            t.wf(),
            t.seen() == Multiset::<Seq<u8>>::empty(),
            t.solid() == 0,
    {
        let t = SolidityTracker {
            table: table_new(),
            solid: 0,
            seen: Ghost(Multiset::empty()),
        };
        proof {
            assert(t.seen@.dom() =~= Set::<Seq<u8>>::empty());
            assert(solid_kmers(t.seen@) =~= Set::<Seq<u8>>::empty());
        }
        t
    }

    /// The number of solid k-mers: the distinct canonical k-mers seen at least twice.
    pub fn solid_count(&self) -> (n: usize)
        requires
            self.wf(),
        ensures
            n == self.solid(),
    {
        self.solid
    }

    /// Observes one window: its canonical form is seen once more. The count of solid
    /// k-mers rises by one if this was its second sighting, and else stays.
    pub fn observe(&mut self, window: &[u8])
        requires
            old(self).wf(),
        ensures
            final(self).wf(),
            final(self).seen() == old(self).seen().insert(canonical(window@)),
            final(self).solid() == old(self).solid() + (if old(self).seen().count(
                canonical(window@),
            ) == 1 {
                1int
            } else {
                0int
            }),
    {
        let key = canonical_kmer(window);
        let ghost kmer = key@;
        let ghost before = self.seen@;
        let ghost held = entries(self.table);
        // The counter stays below the number of keys while some key is not flagged, so
        // it cannot overflow.
        let distinct = table_len(&self.table);
        proof {
            solid_kmers_are_seen(before);
            solid_kmers_step(before, kmer);
            if before.count(kmer) == 1 {
                lemma_len_subset(solid_kmers(before).insert(kmer), before.dom());
                assert(self.solid < distinct);
            }
        }
        match table_get_mut(&mut self.table, &key) {
            Some(flag) => {
                if !*flag {
                    *flag = true;
                    self.solid = self.solid + 1;
                }
            },
            None => {
                table_insert(&mut self.table, key, false);
            },
        }
        self.seen = Ghost(before.insert(kmer));
        proof {
            assert(self.seen@.dom() =~= before.dom().insert(kmer));
            assert(entries(self.table).dom() =~= held.dom().insert(kmer));
        }
    }

    /// Observes every window of length `k` of one record, from left to right. A record
    /// shorter than `k` has no window and changes nothing.
    pub fn observe_record(&mut self, record: &[u8], k: usize)
        requires
            old(self).wf(),
        ensures
            final(self).wf(),
            final(self).seen() == old(self).seen().add(
                canonical_windows(record@, k as nat).to_multiset(),
            ),
            old(self).solid() <= final(self).solid(),
    {
        let n: usize = record.len();
        let ghost before = self.seen@;
        let ghost kmers = canonical_windows(record@, k as nat);
        proof {
            solid_kmers_monotone(before, kmers.to_multiset());
            kmers.to_multiset_ensures();
        }
        if n < k {
            assert(before.add(kmers.to_multiset()) =~= before);
            return ;
        }
        let last: usize = n - k;
        let mut i: usize = 0;
        proof {
            kmers.take(0).to_multiset_ensures();
            assert(before.add(kmers.take(0).to_multiset()) =~= before);
        }
        loop
            invariant_except_break
                i <= last,
                self.seen@ == before.add(kmers.take(i as int).to_multiset()),
            invariant
                self.wf(),
                n == record@.len(),
                k <= n,
                last == n - k,
                kmers == canonical_windows(record@, k as nat),
                kmers.len() == last + 1,
            ensures
                self.seen@ == before.add(kmers.to_multiset()),
            decreases last - i,
        {
            self.observe(&record[i..i + k]);
            proof {
                let done = kmers.take(i as int);
                assert(kmers.take(i + 1) =~= done.push(kmers[i as int]));
                done.to_multiset_ensures();
                assert(before.add(done.to_multiset()).insert(kmers[i as int]) =~= before.add(
                    done.push(kmers[i as int]).to_multiset(),
                ));
            }
            if i == last {
                assert(kmers.take(i + 1) =~= kmers);
                break ;
            }
            i += 1;
        }
    }
}

} // verus!
