//! An ordered index from shared-virtual-memory allocation base address to
//! allocation layout, supporting insert, point-containment lookup by
//! predecessor search, and removal.
//!
//! Addresses are opaque totally-ordered integers: the table never
//! dereferences a base, it only compares. Live entries' address ranges
//! never overlap; the caller that supplies addresses guarantees this at
//! insertion time and the table maintains it from there.

use vstd::prelude::*;

verus! {

/// The layout of one shared-virtual-memory allocation: its byte size and
/// its alignment.
#[derive(Clone, Copy, PartialEq, Eq, Structural, Debug)]
pub struct SvmLayout {
    pub size: usize,
    pub align: usize,
}

/// One recorded allocation: a base address and the layout allocated there.
#[derive(Clone, Copy, PartialEq, Eq, Structural, Debug)]
struct SvmEntry {
    base: usize,
    layout: SvmLayout,
}

/// The entries are sorted by strictly increasing base address and their
/// address ranges are pairwise disjoint.
spec fn entries_wf(s: Seq<SvmEntry>) -> bool {
    forall|i: int, j: int|
        #![trigger s[i].base, s[j].base]
        0 <= i < j < s.len() ==> s[i].base < s[j].base && s[i].base + s[i].layout.size <= s[j].base
}

/// No two entries share a base address.
spec fn bases_distinct(s: Seq<SvmEntry>) -> bool {
    forall|i: int, j: int|
        #![trigger s[i].base, s[j].base]
        0 <= i < j < s.len() ==> s[i].base != s[j].base
}

/// The finite map an entry sequence denotes: each base maps to the layout
/// recorded beside it.
spec fn as_map(s: Seq<SvmEntry>) -> Map<usize, SvmLayout>
    decreases s.len(),
{
    if s.len() == 0 {
        Map::empty()
    } else {
        as_map(s.drop_last()).insert(s.last().base, s.last().layout)
    }
}

proof fn lemma_wf_distinct(s: Seq<SvmEntry>)
    requires
        entries_wf(s),
    ensures
        bases_distinct(s),
{
    assert forall|i: int, j: int|
        #![trigger s[i].base, s[j].base]
        0 <= i < j < s.len() implies s[i].base != s[j].base by {
        assert(s[i].base < s[j].base);
    }
}

/// Membership and lookup in the denoted map, characterized entry by entry.
proof fn lemma_as_map_chars(s: Seq<SvmEntry>)
    requires
        bases_distinct(s),
    ensures
        forall|b: usize| #[trigger] as_map(s).dom().contains(b)
            <==> exists|i: int| 0 <= i < s.len() && s[i].base == b,
        forall|i: int| 0 <= i < s.len() ==> as_map(s).dom().contains(#[trigger] s[i].base)
            && as_map(s)[s[i].base] == s[i].layout,
    decreases s.len(),
{
    if s.len() > 0 {
        let t = s.drop_last();
        assert(bases_distinct(t)) by {
            assert forall|i: int, j: int|
                #![trigger t[i].base, t[j].base]
                0 <= i < j < t.len() implies t[i].base != t[j].base by {
                assert(s[i].base != s[j].base);
            }
        }
        lemma_as_map_chars(t);
        let last = s.last();
        assert forall|b: usize| #[trigger] as_map(s).dom().contains(b)
            implies exists|i: int| 0 <= i < s.len() && s[i].base == b by {
            if b == last.base {
                assert(s[s.len() - 1].base == b);
            } else {
                assert(as_map(t).dom().contains(b));
                let i = choose|i: int| 0 <= i < t.len() && t[i].base == b;
                assert(s[i].base == b);
            }
        }
        assert forall|b: usize| (exists|i: int| 0 <= i < s.len() && s[i].base == b)
            implies #[trigger] as_map(s).dom().contains(b) by {
            let i = choose|i: int| 0 <= i < s.len() && s[i].base == b;
            if i < s.len() - 1 {
                assert(t[i].base == b);
                assert(as_map(t).dom().contains(b));
            }
        }
        assert forall|i: int| 0 <= i < s.len() implies as_map(s).dom().contains(
            #[trigger] s[i].base,
        ) && as_map(s)[s[i].base] == s[i].layout by {
            if i < s.len() - 1 {
                assert(t[i].base == s[i].base && t[i].layout == s[i].layout);
                assert(as_map(t).dom().contains(t[i].base) && as_map(t)[t[i].base]
                    == t[i].layout);
                assert(s[i].base != s[s.len() - 1].base);
            }
        }
    }
}

proof fn lemma_map_insert_commute(
    m: Map<usize, SvmLayout>,
    k1: usize,
    v1: SvmLayout,
    k2: usize,
    v2: SvmLayout,
)
    requires
        k1 != k2,
    ensures
        m.insert(k1, v1).insert(k2, v2) == m.insert(k2, v2).insert(k1, v1),
{
    assert(m.insert(k1, v1).insert(k2, v2) =~= m.insert(k2, v2).insert(k1, v1));
}

/// Inserting an entry with a fresh base anywhere in the sequence inserts
/// its pair into the denoted map.
proof fn lemma_as_map_insert(s: Seq<SvmEntry>, k: int, e: SvmEntry)
    requires
        0 <= k <= s.len(),
        forall|i: int| 0 <= i < s.len() ==> (#[trigger] s[i].base) != e.base,
    ensures
        as_map(s.insert(k, e)) == as_map(s).insert(e.base, e.layout),
    decreases s.len(),
{
    let t = s.insert(k, e);
    s.insert_ensures(k, e);
    if k == s.len() {
        assert(t.drop_last() =~= s);
        assert(t.last() == e);
    } else {
        assert(t.last() == s.last());
        let u = s.drop_last();
        assert(t.drop_last() =~= u.insert(k, e));
        lemma_as_map_insert(u, k, e);
        lemma_map_insert_commute(as_map(u), e.base, e.layout, s.last().base, s.last().layout);
    }
}

/// Removing the entry at an index removes its base from the denoted map.
proof fn lemma_as_map_remove(s: Seq<SvmEntry>, k: int)
    requires
        bases_distinct(s),
        0 <= k < s.len(),
    ensures
        as_map(s.remove(k)) == as_map(s).remove(s[k].base),
    decreases s.len(),
{
    let t = s.remove(k);
    s.remove_ensures(k);
    let u = s.drop_last();
    assert(bases_distinct(u)) by {
        assert forall|i: int, j: int|
            #![trigger u[i].base, u[j].base]
            0 <= i < j < u.len() implies u[i].base != u[j].base by {
            assert(s[i].base != s[j].base);
        }
    }
    if k == s.len() - 1 {
        assert(t =~= u);
        lemma_as_map_chars(u);
        // the removed base does not occur among the remaining entries, so
        // removing it from their map is a no-op
        assert(!as_map(u).dom().contains(s[k].base));
        assert(as_map(s).remove(s[k].base) =~= as_map(u));
    } else {
        assert(t.last() == s.last());
        assert(t.drop_last() =~= u.remove(k));
        lemma_as_map_remove(u, k);
        assert(u[k].base == s[k].base);
        assert(s[k].base != s.last().base);
        assert(as_map(u).remove(s[k].base).insert(s.last().base, s.last().layout)
            =~= as_map(u).insert(s.last().base, s.last().layout).remove(s[k].base));
    }
}

/// A sorted-disjoint sequence stays sorted and disjoint when an entry is
/// inserted whose range sits after everything before the insertion point
/// and before everything after it.
proof fn lemma_insert_preserves_wf(s: Seq<SvmEntry>, k: int, e: SvmEntry)
    requires
        entries_wf(s),
        0 <= k <= s.len(),
        forall|j: int| 0 <= j < k ==> (#[trigger] s[j].base) < e.base && s[j].base
            + s[j].layout.size <= e.base,
        forall|j: int| k <= j < s.len() ==> e.base < (#[trigger] s[j].base) && e.base
            + e.layout.size <= s[j].base,
    ensures
        entries_wf(s.insert(k, e)),
{
    let t = s.insert(k, e);
    s.insert_ensures(k, e);
    assert forall|p: int, q: int|
        #![trigger t[p].base, t[q].base]
        0 <= p < q < t.len() implies t[p].base < t[q].base && t[p].base + t[p].layout.size
        <= t[q].base by {
        if q < k {
            assert(t[p] == s[p] && t[q] == s[q]);
            assert(s[p].base < s[q].base);
        } else if p < k && q == k {
            assert(t[p] == s[p] && t[q] == e);
        } else if p < k && q > k {
            assert(t[p] == s[p] && t[q] == s[q - 1]);
            assert(s[p].base < s[q - 1].base || p == q - 1);
        } else if p == k {
            assert(t[p] == e && t[q] == s[q - 1]);
        } else {
            assert(t[p] == s[p - 1] && t[q] == s[q - 1]);
            assert(s[p - 1].base < s[q - 1].base);
        }
    }
}

/// A distinct-base sequence denotes a map with one key per entry.
proof fn lemma_as_map_len(s: Seq<SvmEntry>)
    requires
        bases_distinct(s),
    ensures
        as_map(s).dom().finite(),
        as_map(s).dom().len() == s.len(),
    decreases s.len(),
{
    if s.len() == 0 {
        broadcast use vstd::set::axiom_set_empty_len;

        assert(as_map(s).dom() =~= Set::<usize>::empty());
    } else {
        let t = s.drop_last();
        assert(bases_distinct(t)) by {
            assert forall|i: int, j: int|
                #![trigger t[i].base, t[j].base]
                0 <= i < j < t.len() implies t[i].base != t[j].base by {
                assert(s[i].base != s[j].base);
            }
        }
        lemma_as_map_len(t);
        lemma_as_map_chars(t);
        assert(!as_map(t).dom().contains(s.last().base)) by {
            assert forall|i: int| 0 <= i < t.len() implies (#[trigger] t[i].base) != s.last().base
                by {
                assert(s[i].base != s[s.len() - 1].base);
            }
        }
        assert(as_map(s).dom() =~= as_map(t).dom().insert(s.last().base));
        vstd::set_lib::lemma_set_insert_finite_iff(as_map(t).dom(), s.last().base);
        vstd::set::axiom_set_insert_len(as_map(t).dom(), s.last().base);
    }
}

/// An ordered index over the live shared-virtual-memory allocations of one
/// context. Operations are serialized by the owning context, which guards
/// the table with a lock at its boundary, so the methods take the table
/// exclusively.
///
/// The view of a table is the finite map from base address to layout.
pub struct SvmAllocationTable {
    entries: Vec<SvmEntry>,
}

impl View for SvmAllocationTable {
    type V = Map<usize, SvmLayout>;

    closed spec fn view(&self) -> Map<usize, SvmLayout> {
        as_map(self.entries@)
    }
}

impl SvmAllocationTable {
    #[verifier::type_invariant]
    spec fn wf(self) -> bool {
        entries_wf(self.entries@)
    }

    /// An empty table: no allocation is recorded.
    pub fn new() -> (t: Self)
        ensures
            t@ == Map::<usize, SvmLayout>::empty(),
    {
        SvmAllocationTable { entries: Vec::new() }
    }

    /// How many allocations are live.
    pub fn len(&self) -> (n: usize)
        ensures
            self@.dom().finite(),
            n == self@.dom().len(),
    {
        proof {
            use_type_invariant(self);
            lemma_wf_distinct(self.entries@);
            lemma_as_map_len(self.entries@);
        }
        self.entries.len()
    }

    /// Records a new allocation. The caller guarantees that `base` is not
    /// already present and that the new range overlaps no existing
    /// entry's range; the table does not validate this beyond what its
    /// contract demands.
    pub fn add(&mut self, base: usize, layout: SvmLayout)
        requires
            !old(self)@.dom().contains(base),
            forall|b: usize| #[trigger] old(self)@.dom().contains(b)
                ==> b + old(self)@[b].size <= base || base + layout.size <= b,
            base + layout.size <= usize::MAX,
        ensures
            final(self)@ == old(self)@.insert(base, layout),
    {
        proof {
            use_type_invariant(&*self);
            lemma_wf_distinct(self.entries@);
            lemma_as_map_chars(self.entries@);
        }
        let e = SvmEntry { base, layout };
        let ghost s0 = self.entries@;
        let mut i: usize = 0;
        while i < self.entries.len() && self.entries[i].base < base
            invariant
                0 <= i <= s0.len(),
                self.entries@ == s0,
                forall|j: int| 0 <= j < i ==> (#[trigger] s0[j].base) < base,
            decreases s0.len() - i,
        {
            i = i + 1;
        }
        proof {
            // the base is fresh, every entry before the insertion point
            // sorts (with its whole range) before it, and every entry at or
            // past the insertion point sorts after it
            assert forall|j: int| 0 <= j < s0.len() implies (#[trigger] s0[j].base) != base
                && as_map(s0).dom().contains(s0[j].base) && as_map(s0)[s0[j].base]
                == s0[j].layout by {
                assert(as_map(s0).dom().contains(s0[j].base));
            }
            lemma_as_map_insert(s0, i as int, e);
            assert forall|j: int| 0 <= j < i implies (#[trigger] s0[j].base) < e.base
                && s0[j].base + s0[j].layout.size <= e.base by {
                assert(s0[j].base < base);
            }
            assert forall|j: int| i <= j < s0.len() implies e.base < (#[trigger] s0[j].base)
                && e.base + e.layout.size <= s0[j].base by {
                if i < j {
                    assert(s0[i as int].base < s0[j].base);
                }
            }
            lemma_insert_preserves_wf(s0, i as int, e);
        }
        let mut v: Vec<SvmEntry> = Vec::new();
        core::mem::swap(&mut v, &mut self.entries);
        v.insert(i, e);
        core::mem::swap(&mut v, &mut self.entries);
    }

    /// Looks up the allocation whose address range contains `ptr`.
    ///
    /// The greatest recorded base at or below `ptr` is located by binary
    /// search; `ptr` hits iff it lies below that entry's end. A hit is
    /// returned as a `(base, layout)` pair, never as a reference into the
    /// index, so lookups cannot corrupt the table. Pointers past the end
    /// of the nearest preceding allocation, and pointers before the first
    /// allocation, miss.
    pub fn find(&self, ptr: usize) -> (r: Option<(usize, SvmLayout)>)
        ensures
            match r {
                Some(p) => self@.dom().contains(p.0) && self@[p.0] == p.1 && p.0 <= ptr < p.0
                    + p.1.size,
                None => forall|b: usize| #[trigger] self@.dom().contains(b)
                    ==> !(b <= ptr < b + self@[b].size),
            },
    {
        proof {
            use_type_invariant(self);
            lemma_wf_distinct(self.entries@);
            lemma_as_map_chars(self.entries@);
        }
        let ghost s = self.entries@;
        if self.entries.len() == 0 || self.entries[0].base > ptr {
            proof {
                assert forall|b: usize| #[trigger] as_map(s).dom().contains(b)
                    implies !(b <= ptr < b + as_map(s)[b].size) by {
                    let i = choose|i: int| 0 <= i < s.len() && s[i].base == b;
                    if 0 < i {
                        assert(s[0].base < s[i].base);
                    }
                }
            }
            return None;
        }
        let mut i1: usize = 0;
        let mut i2: usize = self.entries.len() - 1;
        while i1 < i2
            invariant
                0 <= i1 <= i2 < s.len(),
                self.entries@ == s,
                entries_wf(s),
                s[i1 as int].base <= ptr,
                i2 == s.len() - 1 || s[i2 + 1].base > ptr,
            decreases i2 - i1,
        {
            let mid: usize = i2 - (i2 - i1) / 2;
            if self.entries[mid].base <= ptr {
                i1 = mid;
            } else {
                i2 = mid - 1;
            }
        }
        let e = self.entries[i1];
        if ptr - e.base < e.layout.size {
            Some((e.base, e.layout))
        } else {
            proof {
                // no other entry covers `ptr`: later entries start past it,
                // earlier entries end at or before this entry's base
                assert forall|b: usize| #[trigger] as_map(s).dom().contains(b)
                    implies !(b <= ptr < b + as_map(s)[b].size) by {
                    let i = choose|i: int| 0 <= i < s.len() && s[i].base == b;
                    if i < i1 {
                        assert(s[i].base + s[i].layout.size <= s[i1 as int].base);
                    } else if i > i1 {
                        assert(s[i1 + 1].base <= s[i].base || i == i1 + 1);
                        assert(s[i1 + 1].base > ptr);
                    }
                }
            }
            None
        }
    }

    /// Deletes the entry with exactly this base, if one is present, and
    /// reports the removed layout. Removing a base that was never added,
    /// or was already removed, is a no-op reported as `None`, not an
    /// error.
    pub fn remove(&mut self, base: usize) -> (r: Option<SvmLayout>)
        ensures
            final(self)@ == old(self)@.remove(base),
            r == if old(self)@.dom().contains(base) {
                Some(old(self)@[base])
            } else {
                None::<SvmLayout>
            },
    {
        proof {
            use_type_invariant(&*self);
            lemma_wf_distinct(self.entries@);
            lemma_as_map_chars(self.entries@);
        }
        let ghost s = self.entries@;
        let mut i: usize = 0;
        while i < self.entries.len() && self.entries[i].base != base
            invariant
                0 <= i <= s.len(),
                self.entries@ == s,
                forall|j: int| 0 <= j < i ==> (#[trigger] s[j].base) != base,
            decreases s.len() - i,
        {
            i = i + 1;
        }
        if i == self.entries.len() {
            proof {
                assert(!as_map(s).dom().contains(base));
                assert(as_map(s).remove(base) =~= as_map(s));
            }
            None
        } else {
            proof {
                lemma_as_map_remove(s, i as int);
                s.remove_ensures(i as int);
                let t = s.remove(i as int);
                assert(entries_wf(t)) by {
                    assert forall|p: int, q: int|
                        #![trigger t[p].base, t[q].base]
                        0 <= p < q < t.len() implies t[p].base < t[q].base && t[p].base
                        + t[p].layout.size <= t[q].base by {
                        if q < i {
                            assert(t[p] == s[p] && t[q] == s[q]);
                        } else if p < i {
                            assert(t[p] == s[p] && t[q] == s[q + 1]);
                        } else {
                            assert(t[p] == s[p + 1] && t[q] == s[q + 1]);
                        }
                    }
                }
            }
            let mut v: Vec<SvmEntry> = Vec::new();
            core::mem::swap(&mut v, &mut self.entries);
            let e = v.remove(i);
            core::mem::swap(&mut v, &mut self.entries);
            Some(e.layout)
        }
    }
}

} // verus!
