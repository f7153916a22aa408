//! Bookkeeping of the GPU timestamp profiler.
//!
//! Every timed compute pass gets a `(begin, end)` pair of timestamp slots in a
//! fixed-size query set, and a kernel label. After the frame, the resolved
//! timestamps are paired back with their passes and aggregated per label.
//! The query set, the buffers and the tick-to-milliseconds conversion belong
//! to the application.

use vstd::prelude::*;

use crate::text::str_eq;

verus! {

/// Slot reservations for one profiled frame.
pub struct PassSlots {
    capacity: u32,
    labels: Vec<&'static str>,
}

/// The characters of each label.
pub open spec fn label_views(labels: Seq<&'static str>) -> Seq<Seq<char>> {
    labels.map_values(|l: &'static str| l@)
}

/// The tick count of pass `p`: its end stamp minus its begin stamp, or 0 when
/// the end reads earlier.
pub open spec fn spec_pass_ticks(ts: Seq<u64>, p: int) -> u64 {
    if ts[2 * p + 1] >= ts[2 * p] {
        (ts[2 * p + 1] - ts[2 * p]) as u64
    } else {
        0
    }
}

/// Some pass before pass `p` is in group `g`.
pub open spec fn occurs_before(group: Seq<usize>, g: int, p: int) -> bool {
    exists|q: int| 0 <= q < p && #[trigger] group[q] == g
}

proof fn lemma_occurs_before_prefix(a: Seq<usize>, b: Seq<usize>, g: int, p: int)
    requires
        0 <= p <= a.len(),
        p <= b.len(),
        forall|q: int| 0 <= q < p ==> a[q] == b[q],
        occurs_before(a, g, p),
    ensures
        occurs_before(b, g, p),
{
    let q = choose|q: int| 0 <= q < p && #[trigger] a[q] == g;
    assert(b[q] == g);
}

impl PassSlots {
    #[verifier::type_invariant]
    spec fn inv(self) -> bool {
        2 * self.labels@.len() <= self.capacity
    }

    /// How many timestamp slots the query set holds (two per pass).
    pub closed spec fn spec_capacity(self) -> nat {
        self.capacity as nat
    }

    /// The label of every reserved pass, in reservation order.
    pub closed spec fn spec_labels(self) -> Seq<Seq<char>> {
        label_views(self.labels@)
    }

    /// The next free slot.
    pub open spec fn spec_next(self) -> nat {
        2 * self.spec_labels().len()
    }

    /// Room for `max_passes` passes, none reserved.
    pub fn new(max_passes: u32) -> (s: PassSlots)
        requires
            2 * max_passes <= u32::MAX,
        ensures
            s.spec_capacity() == 2 * max_passes,
            s.spec_labels() == Seq::<Seq<char>>::empty(),
    {
        let s = PassSlots { capacity: 2 * max_passes, labels: Vec::new() };
        assert(s.spec_labels() =~= Seq::<Seq<char>>::empty());
        s
    }

    /// The slot capacity.
    pub fn capacity(&self) -> (c: u32)
        ensures
            c == self.spec_capacity(),
    {
        self.capacity
    }

    /// Slots in use: two per reserved pass.
    pub fn used(&self) -> (n: u32)
        ensures
            n == self.spec_next(),
            n <= self.spec_capacity(),
    {
        proof {
            use_type_invariant(self);
        }
        (2 * self.labels.len()) as u32
    }

    /// The labels of the reserved passes.
    pub fn labels(&self) -> (l: &Vec<&'static str>)
        ensures
            label_views(l@) == self.spec_labels(),
    {
        &self.labels
    }

    /// Reserve the `(begin, end)` slot pair of the next pass, labelled
    /// `label`; `None` once the query set is full.
    pub fn reserve(&mut self, label: &'static str) -> (r: Option<(u32, u32)>)
        ensures
            old(self).spec_next() + 2 > old(self).spec_capacity() ==> r is None
                && final(self).spec_labels() == old(self).spec_labels(),
            old(self).spec_next() + 2 <= old(self).spec_capacity() ==> r == Some(
                (old(self).spec_next() as u32, (old(self).spec_next() + 1) as u32),
            ) && final(self).spec_labels() == old(self).spec_labels().push(label@),
            final(self).spec_capacity() == old(self).spec_capacity(),
    {
        proof {
            use_type_invariant(&*self);
        }
        let i = 2 * self.labels.len() as u64;
        if i + 2 > self.capacity as u64 {
            return None;
        }
        let mut labels: Vec<&'static str> = Vec::new();
        std::mem::swap(&mut labels, &mut self.labels);
        labels.push(label);
        self.labels = labels;
        proof {
            assert(label_views(self.labels@) =~= label_views(old(self).labels@).push(label@));
        }
        Some((i as u32, (i + 1) as u32))
    }

    /// The resolved timestamps take `8 * used` bytes; nothing is resolved in
    /// a frame without passes.
    pub fn resolve_bytes(&self) -> (b: Option<u64>)
        ensures
            self.spec_next() == 0 ==> b is None,
            self.spec_next() > 0 ==> b == Some((8 * self.spec_next()) as u64),
    {
        let n = self.used();
        if n == 0 {
            None
        } else {
            Some(n as u64 * 8)
        }
    }

    /// Each pass's tick count from the resolved stamps, `ts[2p]` being its
    /// begin and `ts[2p + 1]` its end.
    pub fn pass_ticks(&self, ts: &[u64]) -> (t: Vec<u64>)
        requires
            ts@.len() >= self.spec_next(),
        ensures
            t@.len() == self.spec_labels().len(),
            forall|p: int| 0 <= p < t@.len() ==> #[trigger] t@[p] == spec_pass_ticks(ts@, p),
    {
        let n = self.labels.len();
        let tl = ts.len();
        let mut t: Vec<u64> = Vec::new();
        let mut p: usize = 0;
        while p < n
            invariant
                n == self.spec_labels().len(),
                tl == ts@.len(),
                ts@.len() >= 2 * n,
                p <= n,
                t@.len() == p,
                forall|q: int| 0 <= q < p ==> #[trigger] t@[q] == spec_pass_ticks(ts@, q),
            decreases n - p,
        {
            t.push(ts[2 * p + 1].saturating_sub(ts[2 * p]));
            p += 1;
        }
        t
    }

    /// The distinct labels in order of first appearance, and for each pass
    /// the index of its label among them. First appearance: every group below
    /// a pass's own group already has a pass before it.
    pub fn groups(&self) -> (r: (Vec<&'static str>, Vec<usize>))
        ensures
            label_views(r.0@).no_duplicates(),
            r.1@.len() == self.spec_labels().len(),
            forall|p: int|
                0 <= p < r.1@.len() ==> (#[trigger] r.1@[p]) < r.0@.len() && r.0@[r.1@[p] as int]@
                    == self.spec_labels()[p],
            forall|g: int|
                0 <= g < r.0@.len() ==> self.spec_labels().contains(#[trigger] r.0@[g]@),
            forall|p: int, g: int|
                0 <= p < r.1@.len() && 0 <= g < r.1@[p] ==> #[trigger] occurs_before(r.1@, g, p),
    {
        let n = self.labels.len();
        let mut distinct: Vec<&'static str> = Vec::new();
        let mut group: Vec<usize> = Vec::new();
        let mut p: usize = 0;
        while p < n
            invariant
                n == self.labels@.len(),
                p <= n,
                group@.len() == p,
                label_views(distinct@).no_duplicates(),
                forall|q: int|
                    0 <= q < p ==> (#[trigger] group@[q]) < distinct@.len()
                        && distinct@[group@[q] as int]@ == self.labels@[q]@,
                forall|g: int|
                    0 <= g < distinct@.len() ==> exists|q: int|
                        0 <= q < p && #[trigger] distinct@[g]@ == self.labels@[q]@,
                forall|g: int| 0 <= g < distinct@.len() ==> #[trigger] occurs_before(group@, g, p as int),
                forall|p2: int, g: int|
                    0 <= p2 < p && 0 <= g < group@[p2] ==> #[trigger] occurs_before(group@, g, p2),
            decreases n - p,
        {
            let l = self.labels[p];
            let ghost m0 = distinct@.len();
            let mut g: usize = 0;
            let m = distinct.len();
            while g < m
                invariant
                    m == distinct@.len(),
                    g <= m,
                    forall|h: int| 0 <= h < g ==> (#[trigger] distinct@[h])@ != l@,
                ensures
                    g <= m,
                    g < m ==> distinct@[g as int]@ == l@,
                    forall|h: int| 0 <= h < g ==> (#[trigger] distinct@[h])@ != l@,
                decreases m - g,
            {
                if str_eq(distinct[g], l) {
                    break;
                }
                g += 1;
            }
            if g == m {
                let ghost before = distinct@;
                distinct.push(l);
                proof {
                    assert(label_views(distinct@) =~= label_views(before).push(l@));
                    assert forall|i: int, j: int|
                        0 <= i < j < label_views(distinct@).len() implies label_views(distinct@)[i]
                        != label_views(distinct@)[j] by {
                        if j == before.len() {
                            assert(before[i]@ != l@);
                        } else {
                            assert(label_views(before)[i] != label_views(before)[j]);
                        }
                    }
                    assert forall|g2: int| 0 <= g2 < distinct@.len() implies exists|q: int|
                        0 <= q < p + 1 && #[trigger] distinct@[g2]@ == self.labels@[q]@ by {
                        if g2 == before.len() {
                            assert(distinct@[g2]@ == self.labels@[p as int]@);
                        } else {
                            assert(distinct@[g2] == before[g2]);
                        }
                    }
                }
            }
            let ghost gbefore = group@;
            group.push(g);
            proof {
                assert(l@ == self.labels@[p as int]@);
                assert forall|g2: int| 0 <= g2 < distinct@.len() implies #[trigger] occurs_before(
                    group@,
                    g2,
                    p + 1,
                ) by {
                    if g2 < m0 {
                        assert(occurs_before(gbefore, g2, p as int));
                        lemma_occurs_before_prefix(gbefore, group@, g2, p as int);
                        let q = choose|q: int| 0 <= q < p && #[trigger] group@[q] == g2;
                        assert(0 <= q < p + 1 && group@[q] == g2);
                    } else {
                        assert(group@[p as int] == g2);
                    }
                }
                assert forall|p2: int, g2: int|
                    0 <= p2 < p + 1 && 0 <= g2 < group@[p2] implies #[trigger] occurs_before(
                    group@,
                    g2,
                    p2,
                ) by {
                    if p2 < p {
                        assert(group@[p2] == gbefore[p2]);
                        assert(occurs_before(gbefore, g2, p2));
                        lemma_occurs_before_prefix(gbefore, group@, g2, p2);
                    } else {
                        assert(occurs_before(gbefore, g2, p as int));
                        lemma_occurs_before_prefix(gbefore, group@, g2, p as int);
                    }
                }
                assert forall|q: int| 0 <= q < p + 1 implies (#[trigger] group@[q]) < distinct@.len()
                    && distinct@[group@[q] as int]@ == self.labels@[q]@ by {
                    if q < p {
                        assert(group@[q] == gbefore[q]);
                    }
                }
            }
            p += 1;
        }
        proof {
            assert forall|g: int| 0 <= g < distinct@.len() implies self.spec_labels().contains(
                #[trigger] distinct@[g]@,
            ) by {
                let q = choose|q: int| 0 <= q < n && #[trigger] distinct@[g]@ == self.labels@[q]@;
                assert(self.spec_labels()[q] == distinct@[g]@);
            }
        }
        (distinct, group)
    }
}

/// How many entries of `s` are `g`.
pub open spec fn count_of(s: Seq<usize>, g: int) -> nat
    decreases s.len(),
{
    if s.len() == 0 {
        0
    } else {
        count_of(s.drop_last(), g) + if s.last() == g {
            1nat
        } else {
            0nat
        }
    }
}

proof fn lemma_count_le_len(s: Seq<usize>, g: int)
    ensures
        count_of(s, g) <= s.len(),
    decreases s.len(),
{
    if s.len() > 0 {
        lemma_count_le_len(s.drop_last(), g);
    }
}

/// How many passes fall in each of `n` groups, given each pass's group (as
/// [`PassSlots::groups`] gives them).
pub fn group_counts(group: &Vec<usize>, n: usize) -> (c: Vec<u32>)
    requires
        forall|p: int| 0 <= p < group@.len() ==> #[trigger] group@[p] < n,
        group@.len() <= u32::MAX,
    ensures
        c@.len() == n,
        forall|g: int| 0 <= g < n ==> #[trigger] c@[g] == count_of(group@, g),
{
    let mut c: Vec<u32> = Vec::new();
    let mut g: usize = 0;
    while g < n
        invariant
            g <= n,
            c@.len() == g,
            forall|h: int| 0 <= h < g ==> #[trigger] c@[h] == 0,
        decreases n - g,
    {
        c.push(0);
        g += 1;
    }
    let mut p: usize = 0;
    while p < group.len()
        invariant
            p <= group@.len(),
            group@.len() <= u32::MAX,
            forall|q: int| 0 <= q < group@.len() ==> #[trigger] group@[q] < n,
            c@.len() == n,
            forall|h: int| 0 <= h < n ==> #[trigger] c@[h] == count_of(group@.take(p as int), h),
        decreases group@.len() - p,
    {
        let gp = group[p];
        proof {
            assert(group@.take(p as int + 1).drop_last() =~= group@.take(p as int));
            lemma_count_le_len(group@.take(p as int), gp as int);
        }
        let prev = c[gp];
        c.set(gp, prev + 1);
        p += 1;
    }
    assert(group@.take(group@.len() as int) =~= group@);
    c
}

/// The `p`-th reservation is handed slots `2p` and `2p + 1` (see
/// [`PassSlots::reserve`]), and [`PassSlots::pass_ticks`] reads pass `p`'s
/// stamps from exactly those two slots; no two passes share a slot.
pub proof fn lemma_pass_slots_distinct(j: nat, k: nat)
    requires
        j != k,
    ensures
        2 * j != 2 * k,
        2 * j != 2 * k + 1,
        2 * j + 1 != 2 * k,
        2 * j + 1 != 2 * k + 1,
{
}

} // verus!
