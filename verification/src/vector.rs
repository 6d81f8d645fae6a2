use std::collections::BTreeMap;
use vstd::prelude::*;
use vstd::std_specs::btree::*;
use vstd::std_specs::cmp::OrdSpec;
use vstd::std_specs::iter::IteratorSpec;

verus! {

broadcast use group_btree_axioms;

/// One past the largest dimension index.
pub open spec fn index_limit() -> nat {
    0x1_0000_0000
}

/// The entries of `m` whose index is below `bound`, by ascending index.
pub open spec fn entries_below<W>(m: Map<u32, W>, bound: nat) -> Seq<(u32, W)>
    decreases bound,
{
    if bound == 0 {
        Seq::empty()
    } else {
        let index = (bound - 1) as u32;
        let lower = entries_below(m, (bound - 1) as nat);
        if bound <= index_limit() && m.contains_key(index) {
            lower.push((index, m[index]))
        } else {
            lower
        }
    }
}

/// All entries of `m`, by ascending index: the order in which a sparse
/// vector is emitted.
pub open spec fn ascending_entries<W>(m: Map<u32, W>) -> Seq<(u32, W)> {
    entries_below(m, index_limit())
}

/// Whether `s` lists each entry of `m` once, by strictly ascending index.
pub open spec fn is_ascending_enumeration<W>(s: Seq<(u32, W)>, m: Map<u32, W>) -> bool {
    &&& forall|i: int, j: int| 0 <= i < j < s.len() ==> s[i].0 < s[j].0
    &&& forall|i: int| 0 <= i < s.len() ==> m.contains_key(s[i].0) && m[s[i].0] == s[i].1
    &&& forall|k: u32| m.contains_key(k) ==> exists|i: int| 0 <= i < s.len() && s[i].0 == k
}

/// The entries below `bound` are a prefix of any ascending enumeration:
/// the `p` entries whose index is below `bound`.
proof fn lemma_entries_below_is_prefix<W>(m: Map<u32, W>, s: Seq<(u32, W)>, bound: nat) -> (p: int)
    requires
        is_ascending_enumeration(s, m),
        bound <= index_limit(),
    ensures
        0 <= p <= s.len(),
        entries_below(m, bound) == s.take(p),
        forall|i: int| 0 <= i < p ==> s[i].0 < bound,
        p < s.len() ==> s[p].0 >= bound,
    decreases bound,
{
    if bound == 0 {
        assert(s.take(0) =~= Seq::<(u32, W)>::empty());
        0
    } else {
        let index = (bound - 1) as u32;
        let q = lemma_entries_below_is_prefix(m, s, (bound - 1) as nat);
        if m.contains_key(index) {
            let i = choose|i: int| 0 <= i < s.len() && s[i].0 == index;
            assert(i == q) by {
                if i < q {
                    assert(s[i].0 < bound - 1);
                }
                if i > q {
                    assert(s[q].0 < s[i].0);
                }
            }
            assert(s.take(q + 1) =~= s.take(q).push(s[q]));
            assert forall|j: int| 0 <= j < q + 1 implies s[j].0 < bound by {
                if j < q {
                    assert(s[j].0 < bound - 1);
                }
            }
            if q + 1 < s.len() {
                assert(s[q].0 < s[q + 1].0);
            }
            q + 1
        } else {
            if q < s.len() {
                assert(m.contains_key(s[q].0));
            }
            q
        }
    }
}

/// A map has one ascending enumeration only: `ascending_entries`.
pub proof fn lemma_ascending_enumeration_is_unique<W>(m: Map<u32, W>, s: Seq<(u32, W)>)
    requires
        is_ascending_enumeration(s, m),
    ensures
        s == ascending_entries(m),
{
    let p = lemma_entries_below_is_prefix(m, s, index_limit());
    assert(p == s.len());
    assert(s.take(p) =~= s);
}

/// `ascending_entries(m)` lists each entry of `m` once, by strictly
/// ascending index.
pub proof fn lemma_ascending_entries_enumerate<W>(m: Map<u32, W>)
    ensures
        is_ascending_enumeration(ascending_entries(m), m),
{
    lemma_entries_below_enumerate(m, index_limit());
}

proof fn lemma_entries_below_enumerate<W>(m: Map<u32, W>, bound: nat)
    requires
        bound <= index_limit(),
    ensures
        forall|i: int, j: int|
            0 <= i < j < entries_below(m, bound).len() ==> entries_below(m, bound)[i].0
                < entries_below(m, bound)[j].0,
        forall|i: int|
            0 <= i < entries_below(m, bound).len() ==> {
                let e = #[trigger] entries_below(m, bound)[i];
                e.0 < bound && m.contains_key(e.0) && m[e.0] == e.1
            },
        forall|k: u32|
            m.contains_key(k) && k < bound ==> exists|i: int|
                0 <= i < entries_below(m, bound).len() && entries_below(m, bound)[i].0 == k,
    decreases bound,
{
    if bound > 0 {
        let index = (bound - 1) as u32;
        let lower = entries_below(m, (bound - 1) as nat);
        let all = entries_below(m, bound);
        lemma_entries_below_enumerate(m, (bound - 1) as nat);
        assert forall|k: u32| m.contains_key(k) && k < bound implies exists|i: int|
            0 <= i < all.len() && all[i].0 == k by {
            if k == index {
                assert(all[all.len() - 1].0 == k);
            } else {
                let i = choose|i: int| 0 <= i < lower.len() && lower[i].0 == k;
                assert(all[i].0 == k);
            }
        }
    }
}

/// The entries of `entries` with the weights replaced, in order, by those
/// of `weights`.
pub open spec fn paired<W, V>(entries: Seq<(u32, W)>, weights: Seq<V>) -> Seq<(u32, V)> {
    Seq::new(entries.len(), |i: int| (entries[i].0, weights[i]))
}

/// Where `index` stands among the indexes of `entries`.
spec fn position<W>(entries: Seq<(u32, W)>, index: u32) -> int {
    choose|j: int| 0 <= j < entries.len() && entries[j].0 == index
}

/// The map that holds, for each entry from `from` on, the weight that
/// stands at the entry's place in `weights`.
spec fn paired_from<W, V>(entries: Seq<(u32, W)>, weights: Seq<V>, from: int) -> Map<u32, V> {
    Map::new(
        |index: u32| exists|j: int| from <= j < entries.len() && entries[j].0 == index,
        |index: u32| weights[position(entries, index)],
    )
}

proof fn lemma_paired_from_step<W, V>(entries: Seq<(u32, W)>, weights: Seq<V>, from: int)
    requires
        0 <= from < entries.len(),
        forall|i: int, j: int| 0 <= i < j < entries.len() ==> entries[i].0 < entries[j].0,
    ensures
        paired_from(entries, weights, from) == paired_from(entries, weights, from + 1).insert(
            entries[from].0,
            weights[from],
        ),
{
    let index = entries[from].0;
    let p = position(entries, index);
    assert(0 <= p < entries.len() && entries[p].0 == index);
    assert(p == from) by {
        if p < from {
            assert(entries[p].0 < entries[from].0);
        }
        if p > from {
            assert(entries[from].0 < entries[p].0);
        }
    }
    let wider = paired_from(entries, weights, from);
    let narrower = paired_from(entries, weights, from + 1).insert(index, weights[from]);
    assert forall|k: u32| wider.contains_key(k) <==> narrower.contains_key(k) by {
        if wider.contains_key(k) {
            let j = choose|j: int| from <= j < entries.len() && entries[j].0 == k;
            if j != from {
                assert(from + 1 <= j < entries.len() && entries[j].0 == k);
            }
        }
        if narrower.contains_key(k) && k != index {
            let j = choose|j: int| from + 1 <= j < entries.len() && entries[j].0 == k;
            assert(from <= j < entries.len() && entries[j].0 == k);
        }
    }
    assert(wider =~= narrower);
}

proof fn lemma_paired_from_start<W, V>(entries: Seq<(u32, W)>, weights: Seq<V>)
    requires
        entries.len() == weights.len(),
        forall|i: int, j: int| 0 <= i < j < entries.len() ==> entries[i].0 < entries[j].0,
    ensures
        ascending_entries(paired_from(entries, weights, 0)) == paired(entries, weights),
{
    let m = paired_from(entries, weights, 0);
    let s = paired(entries, weights);
    assert forall|i: int| 0 <= i < s.len() implies m.contains_key(s[i].0) && m[s[i].0] == s[i].1 by {
        let index = entries[i].0;
        let p = position(entries, index);
        assert(0 <= p < entries.len() && entries[p].0 == index);
        if p < i {
            assert(entries[p].0 < entries[i].0);
        }
        if p > i {
            assert(entries[i].0 < entries[p].0);
        }
    }
    assert forall|k: u32| m.contains_key(k) implies exists|i: int|
        0 <= i < s.len() && s[i].0 == k by {
        let j = choose|j: int| 0 <= j < entries.len() && entries[j].0 == k;
        assert(s[j].0 == k);
    }
    lemma_ascending_enumeration_is_unique(m, s);
}

/// A sparse vector: one weight for each of a few dimension indexes, with
/// no index held twice. `W` is what stands for a weight: a count, a bit
/// pattern, or the text of a number.
pub struct SparseVector<W> {
    weights: BTreeMap<u32, W>,
}

impl<W> View for SparseVector<W> {
    type V = Map<u32, W>;

    closed spec fn view(&self) -> Map<u32, W> {
        self.weights@
    }
}

impl<W> SparseVector<W> {
    /// The vector that holds no weight.
    pub fn new() -> (r: Self)
        ensures
            r@ == Map::<u32, W>::empty(),
    {
        SparseVector { weights: BTreeMap::new() }
    }

    /// Sets the weight at `index`, replacing the one that was there.
    pub fn insert(&mut self, index: u32, weight: W)
        ensures
            final(self)@ == old(self)@.insert(index, weight),
    {
        self.weights.insert(index, weight);
    }

    /// The weight at `index`, if the vector holds one.
    pub fn get(&self, index: u32) -> (r: Option<&W>)
        ensures
            match r {
                Some(w) => self@.contains_key(index) && self@[index] == *w,
                None => !self@.contains_key(index),
            },
    {
        self.weights.get(&index)
    }

    /// How many weights the vector holds.
    pub fn len(&self) -> (r: usize)
        ensures
            r == self@.len(),
            self@.dom().finite(),
    {
        self.weights.len()
    }

    /// Whether the vector holds no weight.
    pub fn is_empty(&self) -> (r: bool)
        ensures
            r == (self@ == Map::<u32, W>::empty()),
    {
        let n = self.weights.len();
        proof {
            if n == 0 {
                assert(self@.dom() =~= Set::<u32>::empty());
                assert(self@ =~= Map::<u32, W>::empty());
            }
        }
        n == 0
    }

    /// The vector over the same dimensions that holds, at the dimension
    /// that comes `i`-th by ascending index, the `i`-th of `weights`; or
    /// nothing where `weights` are not as many as the dimensions.
    pub fn with_weights<V>(&self, weights: Vec<V>) -> (r: Option<SparseVector<V>>)
        ensures
            r is Some <==> weights@.len() == ascending_entries(self@).len(),
            r is Some ==> ascending_entries(r->Some_0@) == paired(
                ascending_entries(self@),
                weights@,
            ),
            r is Some ==> r->Some_0@.dom() == self@.dom(),
    {
        let entries = self.entries();
        let ghost keyed = ascending_entries(self@);
        proof {
            lemma_ascending_entries_enumerate(self@);
            assert(entries@.map_values(|e: (u32, &W)| (e.0, *e.1)).len() == entries@.len());
        }
        if entries.len() != weights.len() {
            return None;
        }
        let ghost given = weights@;
        let mut rest = weights;
        let mut out: SparseVector<V> = SparseVector::new();
        let mut i: usize = entries.len();
        proof {
            assert(out@ =~= paired_from(keyed, given, i as int));
        }
        while i > 0
            invariant
                i <= entries.len(),
                entries@.len() == given.len(),
                keyed == ascending_entries(self@),
                keyed == entries@.map_values(|e: (u32, &W)| (e.0, *e.1)),
                forall|a: int, b: int| 0 <= a < b < keyed.len() ==> keyed[a].0 < keyed[b].0,
                rest@ == given.take(i as int),
                out@ == paired_from(keyed, given, i as int),
            decreases i,
        {
            i = i - 1;
            let weight = rest.pop().unwrap();
            proof {
                assert(weight == given[i as int]);
                assert(rest@ =~= given.take(i as int));
                assert(keyed[i as int].0 == entries@[i as int].0);
                lemma_paired_from_step(keyed, given, i as int);
            }
            out.insert(entries[i].0, weight);
        }
        proof {
            lemma_paired_from_start(keyed, given);
            assert forall|k: u32| out@.contains_key(k) <==> self@.contains_key(k) by {
                if out@.contains_key(k) {
                    let j = choose|j: int| 0 <= j < keyed.len() && keyed[j].0 == k;
                    assert(self@.contains_key(keyed[j].0));
                }
                if self@.contains_key(k) {
                    let j = choose|j: int| 0 <= j < keyed.len() && keyed[j].0 == k;
                    assert(0 <= j < keyed.len() && keyed[j].0 == k);
                }
            }
            assert(out@.dom() =~= self@.dom());
        }
        Some(out)
    }

    /// The entries by ascending index, each weight by reference.
    pub fn entries(&self) -> (r: Vec<(u32, &W)>)
        ensures
            r@.map_values(|e: (u32, &W)| (e.0, *e.1)) == ascending_entries(self@),
    {
        let mut out: Vec<(u32, &W)> = Vec::new();
        for kv in it: self.weights.iter()
            invariant
                it.seq() == spec_btree_map_iter(&self.weights).remaining(),
                increasing_seq(it.seq().map_values(|kv: (&u32, &W)| *kv.0)),
                out@.len() == it.index(),
                forall|i: int|
                    0 <= i < out@.len() ==> out@[i].0 == *it.seq()[i].0 && out@[i].1
                        == it.seq()[i].1,
        {
            out.push((*kv.0, kv.1));
        }
        proof {
            let m = self@;
            let walked = spec_btree_map_iter(&self.weights).remaining();
            let keys = walked.map_values(|kv: (&u32, &W)| *kv.0);
            let s = out@.map_values(|e: (u32, &W)| (e.0, *e.1));
            assert forall|i: int, j: int| 0 <= i < j < s.len() implies s[i].0 < s[j].0 by {
                assert(keys[i] == s[i].0);
                assert(keys[j] == s[j].0);
                assert(keys[i].cmp_spec(&keys[j]) is Less);
            }
            assert forall|k: u32| m.contains_key(k) implies exists|i: int|
                0 <= i < s.len() && s[i].0 == k by {
                assert(walked.contains((&k, &m[k])));
                let i = choose|i: int| 0 <= i < walked.len() && walked[i] == (&k, &m[k]);
                assert(s[i].0 == k);
            }
            lemma_ascending_enumeration_is_unique(m, s);
        }
        out
    }
}

} // verus!
