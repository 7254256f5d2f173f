//! The bounded top-K merge collector: scored hits from every fingerprint's
//! index are offered to one shared collector that keeps at most `limit`
//! entries, evicting the weakest entry only for a strictly higher score, and
//! drains into a fully ranked list with a deterministic tie-break.

use vstd::prelude::*;

use vstd::multiset::Multiset;
use vstd::relations::sorted_by;
use vstd::relations::total_ordering;
use vstd::seq_lib::lemma_sorted_unique;

verus! {

/// One scored hit: its score key (higher ranks first), the fingerprint it
/// came from, and the engine's (segment, local doc id) address within that
/// fingerprint's index.
#[derive(Clone, Copy, Debug, PartialEq, Eq, Structural)]
pub struct Hit {
    pub score: u64,
    pub index: u64,
    pub segment: u32,
    pub doc: u32,
}

/// Strict ranking: a higher score ranks first; equal scores rank by
/// ascending (fingerprint, segment, doc id), so the order is deterministic.
pub open spec fn ranks_before(a: Hit, b: Hit) -> bool {
    ||| a.score > b.score
    ||| (a.score == b.score && addr_before(a, b))
}

/// Ascending (fingerprint, segment, doc id) order.
pub open spec fn addr_before(a: Hit, b: Hit) -> bool {
    ||| a.index < b.index
    ||| (a.index == b.index && a.segment < b.segment)
    ||| (a.index == b.index && a.segment == b.segment && a.doc < b.doc)
}

/// Ranking, or equality.
pub open spec fn ranks_before_eq(a: Hit, b: Hit) -> bool {
    ranks_before(a, b) || a == b
}

/// Ranking-or-equality, as a single ordering function shared by every
/// statement about ranked sequences.
pub open spec fn rank_leq() -> spec_fn(Hit, Hit) -> bool {
    |a: Hit, b: Hit| ranks_before_eq(a, b)
}

/// A fully ranked sequence: strongest first.
pub open spec fn sorted_ranks(s: Seq<Hit>) -> bool {
    sorted_by(s, rank_leq())
}

/// Ranking-or-equality is a total order.
pub proof fn lemma_rank_total_ordering()
    ensures
        total_ordering(rank_leq()),
{
    let leq = rank_leq();
    assert forall|x: Hit, y: Hit| x != y implies #[trigger] leq(x, y) || #[trigger] leq(
        y,
        x,
    ) by {
        assert(ranks_before(x, y) || ranks_before(y, x));
    }
    assert forall|x: Hit, y: Hit| #[trigger] leq(x, y) && #[trigger] leq(y, x) implies x
        == y by {
        if x != y {
            assert(!(ranks_before(x, y) && ranks_before(y, x)));
        }
    }
    assert forall|x: Hit, y: Hit, z: Hit| #[trigger] leq(x, y) && #[trigger] leq(
        y,
        z,
    ) implies leq(x, z) by {
        if x != y && y != z {
            assert(ranks_before(x, y) && ranks_before(y, z));
            assert(ranks_before(x, z));
        }
    }
}

/// The position of the weakest entry among the first `n`: the entry every
/// other one ranks before, the earliest of equals.
pub open spec fn weakest_upto(s: Seq<Hit>, n: int) -> int
    decreases n,
{
    if n <= 1 {
        0
    } else {
        let w = weakest_upto(s, n - 1);
        if ranks_before(s[w], s[n - 1]) {
            n - 1
        } else {
            w
        }
    }
}

/// The weakest position is in range, and everything ranks before or equals
/// it.
pub proof fn lemma_weakest_upto(s: Seq<Hit>, n: int)
    requires
        1 <= n <= s.len(),
    ensures
        0 <= weakest_upto(s, n) < n,
        forall|j: int| 0 <= j < n ==> ranks_before_eq(#[trigger] s[j], s[weakest_upto(s, n)]),
    decreases n,
{
    if n > 1 {
        lemma_weakest_upto(s, n - 1);
    }
}

/// Offering one hit: below the limit it is inserted; at the limit it
/// replaces the weakest entry exactly when its score is strictly higher,
/// and is discarded otherwise.
pub open spec fn spec_collect(limit: nat, s: Seq<Hit>, h: Hit) -> Seq<Hit> {
    if s.len() < limit {
        s.push(h)
    } else {
        let w = weakest_upto(s, s.len() as int);
        if h.score > s[w].score {
            s.update(w, h)
        } else {
            s
        }
    }
}

/// Folding a whole offer sequence into the collector, in order.
pub open spec fn run_offers(limit: nat, s: Seq<Hit>, offers: Seq<Hit>) -> Seq<Hit>
    decreases offers.len(),
{
    if offers.len() == 0 {
        s
    } else {
        run_offers(limit, spec_collect(limit, s, offers[0]), offers.subrange(1, offers.len() as int))
    }
}

/// Law: the collector is bounded. Whatever sequence of hits is offered, it
/// never retains more than `limit` entries.
pub proof fn lemma_topk_bound(limit: nat, s: Seq<Hit>, offers: Seq<Hit>)
    requires
        limit >= 1,
        s.len() <= limit,
    ensures
        run_offers(limit, s, offers).len() <= limit,
    decreases offers.len(),
{
    if offers.len() > 0 {
        if s.len() >= limit && s.len() > 0 {
            lemma_weakest_upto(s, s.len() as int);
        }
        lemma_topk_bound(limit, spec_collect(limit, s, offers[0]), offers.subrange(1, offers.len() as int));
    }
}

/// Law: once full, an offer whose score does not exceed the weakest
/// retained score is discarded and leaves the collector unchanged.
pub proof fn lemma_topk_discard(limit: nat, s: Seq<Hit>, h: Hit)
    requires
        s.len() == limit,
        limit >= 1,
        h.score <= s[weakest_upto(s, s.len() as int)].score,
    ensures
        spec_collect(limit, s, h) == s,
{
}

/// Law: once full, an offer with a strictly higher score than the weakest
/// retained one replaces exactly that weakest entry.
pub proof fn lemma_topk_replace(limit: nat, s: Seq<Hit>, h: Hit)
    requires
        s.len() == limit,
        limit >= 1,
        h.score > s[weakest_upto(s, s.len() as int)].score,
    ensures
        spec_collect(limit, s, h) == s.update(weakest_upto(s, s.len() as int), h),
        spec_collect(limit, s, h).contains(h),
{
    lemma_weakest_upto(s, s.len() as int);
    let w = weakest_upto(s, s.len() as int);
    assert(s.update(w, h)[w] == h);
}

/// Law: while the offers fit under the limit nothing is evicted: the
/// collector retains every offer, in order.
pub proof fn lemma_run_retains_all(limit: nat, s: Seq<Hit>, offers: Seq<Hit>)
    requires
        s.len() + offers.len() <= limit,
    ensures
        run_offers(limit, s, offers) == s + offers,
    decreases offers.len(),
{
    if offers.len() == 0 {
        assert(s + offers =~= s);
    } else {
        lemma_run_retains_all(limit, s.push(offers[0]), offers.subrange(1, offers.len() as int));
        assert(s.push(offers[0]) + offers.subrange(1, offers.len() as int) =~= s + offers);
    }
}

/// Law: when all offered hits fit under the limit, the final ranking is a
/// function of the set of hits alone — two offer orders holding the same
/// hits produce the same fully ranked list.
pub proof fn lemma_merge_order_independent(
    limit: nat,
    o1: Seq<Hit>,
    o2: Seq<Hit>,
    r1: Seq<Hit>,
    r2: Seq<Hit>,
)
    requires
        o1.len() <= limit,
        o1.to_multiset() == o2.to_multiset(),
        sorted_ranks(r1),
        sorted_ranks(r2),
        r1.to_multiset() == run_offers(limit, Seq::empty(), o1).to_multiset(),
        r2.to_multiset() == run_offers(limit, Seq::empty(), o2).to_multiset(),
    ensures
        r1 == r2,
{
    broadcast use vstd::seq_lib::group_to_multiset_ensures;

    assert(o1.to_multiset().len() == o1.len());
    assert(o2.to_multiset().len() == o2.len());
    lemma_run_retains_all(limit, Seq::empty(), o1);
    lemma_run_retains_all(limit, Seq::empty(), o2);
    assert(Seq::empty() + o1 =~= o1);
    assert(Seq::empty() + o2 =~= o2);
    lemma_rank_total_ordering();
    lemma_sorted_unique(r1, r2, rank_leq());
}

/// The shared bounded collector all fingerprints' hits are offered to.
pub struct MultiIndexCollector {
    pub limit: usize,
    pub entries: Vec<Hit>,
    pub segment_id: u32,
}

impl MultiIndexCollector {
    /// A collector never holds more entries than its limit.
    pub open spec fn wf(&self) -> bool {
        self.limit >= 1 && self.entries@.len() <= self.limit
    }

    /// An empty collector with room for `limit` entries. A bound of zero is
    /// meaningless for a top-K structure, so it is excluded.
    pub fn with_limit(limit: usize) -> (r: MultiIndexCollector)
        requires
            limit >= 1,
        ensures
            r.wf(),
            r.limit == limit,
            r.entries@ == Seq::<Hit>::empty(),
            r.segment_id == 0,
    {
        let r = MultiIndexCollector { limit, entries: Vec::new(), segment_id: 0 };
        proof {
            assert(r.entries@ =~= Seq::<Hit>::empty());
        }
        r
    }

    /// Whether the collector is full.
    pub fn at_capacity(&self) -> (r: bool)
        ensures
            r == (self.entries@.len() >= self.limit),
    {
        self.entries.len() >= self.limit
    }

    /// Records which segment subsequent local doc ids belong to.
    pub fn set_segment_id(&mut self, segment_id: u32)
        ensures
            final(self).segment_id == segment_id,
            final(self).entries == old(self).entries,
            final(self).limit == old(self).limit,
    {
        self.segment_id = segment_id;
    }

    /// Offers one hit, exactly as [`spec_collect`] says: inserted below the
    /// limit, replacing the weakest entry on a strictly higher score, and
    /// discarded otherwise.
    pub fn collect(&mut self, index: u64, doc: u32, score: u64)
        requires
            old(self).wf(),
        ensures
            final(self).wf(),
            final(self).limit == old(self).limit,
            final(self).segment_id == old(self).segment_id,
            final(self).entries@ == spec_collect(
                old(self).limit as nat,
                old(self).entries@,
                (Hit { score, index, segment: old(self).segment_id, doc }),
            ),
    {
        let h = Hit { score, index, segment: self.segment_id, doc };
        if self.entries.len() < self.limit {
            self.entries.push(h);
        } else {
            let ghost s = self.entries@;
            let mut w: usize = 0;
            let mut j: usize = 1;
            while j < self.entries.len()
                invariant
                    1 <= j <= s.len(),
                    s == self.entries@,
                    s.len() == self.entries@.len(),
                    w < j,
                    w == weakest_upto(s, j as int),
                decreases self.entries@.len() - j,
            {
                if rank_check(&self.entries[w], &self.entries[j]) {
                    w = j;
                }
                j += 1;
            }
            proof {
                lemma_weakest_upto(s, s.len() as int);
            }
            if score > self.entries[w].score {
                self.entries[w] = h;
                proof {
                    assert(self.entries@ =~= s.update(w as int, h));
                }
            }
        }
    }

    /// Drains the collector into a fully ranked list: strongest first, ties
    /// by ascending (fingerprint, segment, doc id); the entries themselves
    /// are kept exactly.
    pub fn top_docs(&self) -> (r: Vec<Hit>)
        ensures
            sorted_ranks(r@),
            r@.to_multiset() == self.entries@.to_multiset(),
            r@.len() == self.entries@.len(),
    {
        proof {
            broadcast use vstd::seq_lib::group_to_multiset_ensures;

        }
        let mut out: Vec<Hit> = Vec::new();
        let mut i: usize = 0;
        proof {
            assert(self.entries@.take(0) =~= Seq::<Hit>::empty());
            assert(out@.to_multiset() =~= self.entries@.take(0).to_multiset());
        }
        while i < self.entries.len()
            invariant
                i <= self.entries@.len(),
                sorted_ranks(out@),
                out@.len() == i,
                out@.to_multiset() == self.entries@.take(i as int).to_multiset(),
            decreases self.entries@.len() - i,
        {
            let e = self.entries[i];
            let ghost out0 = out@;
            let pos = insert_pos(&out, &e);
            out.insert(pos, e);
            proof {
                broadcast use vstd::seq_lib::group_to_multiset_ensures;

                lemma_insert_sorted(out0, e, pos as int);
                lemma_insert_multiset(out0, e, pos as int);
                assert(self.entries@.take(i as int + 1) =~= self.entries@.take(
                    i as int,
                ).push(self.entries@[i as int]));
            }
            i += 1;
        }
        proof {
            assert(self.entries@.take(self.entries@.len() as int) =~= self.entries@);
        }
        out
    }
}

/// Inserting at a position that everything before ranks ahead of, and that
/// ranks ahead of everything from there on, keeps the list ranked.
proof fn lemma_insert_sorted(s: Seq<Hit>, e: Hit, pos: int)
    requires
        0 <= pos <= s.len(),
        sorted_ranks(s),
        forall|k: int| 0 <= k < pos ==> ranks_before_eq(#[trigger] s[k], e),
        pos < s.len() ==> ranks_before(e, s[pos]),
    ensures
        sorted_ranks(s.insert(pos, e)),
{
    let t = s.insert(pos, e);
    let leq = rank_leq();
    assert forall|x: int, y: int| 0 <= x < y < t.len() implies leq(t[x], t[y]) by {
        if x < pos {
            assert(t[x] == s[x]);
        } else if x > pos {
            assert(t[x] == s[x - 1]);
        }
        if y < pos {
            assert(t[y] == s[y]);
        } else if y > pos {
            assert(t[y] == s[y - 1]);
        }
        if x == pos {
            assert(t[x] == e);
            assert(y > pos);
            assert(ranks_before(e, s[pos]));
            if pos < y - 1 {
                assert(leq(s[pos], s[y - 1]));
            }
            assert(ranks_before_eq(s[pos], s[y - 1]));
        }
        if y == pos {
            assert(t[y] == e);
        }
    }
}

/// Inserting adds exactly one occurrence to the multiset of entries.
proof fn lemma_insert_multiset(s: Seq<Hit>, e: Hit, pos: int)
    requires
        0 <= pos <= s.len(),
    ensures
        s.insert(pos, e).to_multiset() == s.to_multiset().insert(e),
{
    broadcast use vstd::seq_lib::group_to_multiset_ensures;

    assert(s.insert(pos, e) =~= s.take(pos) + (s.skip(pos).insert(0, e)));
    assert(s.skip(pos).insert(0, e) =~= seq![e] + s.skip(pos));
    vstd::seq_lib::lemma_multiset_commutative(s.take(pos), seq![e] + s.skip(pos));
    vstd::seq_lib::lemma_multiset_commutative(seq![e], s.skip(pos));
    vstd::seq_lib::lemma_multiset_commutative(s.take(pos), s.skip(pos));
    assert(s.take(pos) + s.skip(pos) =~= s);
    assert(seq![e].to_multiset() =~= Multiset::<Hit>::empty().insert(e));
    assert(s.insert(pos, e).to_multiset() =~= s.to_multiset().insert(e));
}

/// The position a hit belongs at in a ranked list: past everything that
/// ranks before or equals it, ahead of the first entry it outranks.
fn insert_pos(out: &Vec<Hit>, e: &Hit) -> (pos: usize)
    ensures
        pos <= out@.len(),
        forall|k: int| 0 <= k < pos ==> ranks_before_eq(#[trigger] out@[k], *e),
        pos < out@.len() ==> ranks_before(*e, out@[pos as int]),
{
    let mut pos: usize = 0;
    while pos < out.len()
        invariant
            pos <= out@.len(),
            forall|k: int| 0 <= k < pos ==> ranks_before_eq(#[trigger] out@[k], *e),
        decreases out@.len() - pos,
    {
        if rank_check(e, &out[pos]) {
            return pos;
        }
        proof {
            assert(ranks_before(out@[pos as int], *e) || out@[pos as int] == *e);
        }
        pos += 1;
    }
    pos
}

/// Whether `a` ranks strictly before `b`.
fn rank_check(a: &Hit, b: &Hit) -> (r: bool)
    ensures
        r == ranks_before(*a, *b),
{
    if a.score > b.score {
        true
    } else if a.score == b.score {
        if a.index < b.index {
            true
        } else if a.index == b.index && a.segment < b.segment {
            true
        } else if a.index == b.index && a.segment == b.segment && a.doc < b.doc {
            true
        } else {
            false
        }
    } else {
        false
    }
}

} // verus!
