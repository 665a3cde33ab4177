use vstd::prelude::*;
use std::collections::BTreeMap;
use crate::scalar::Scalar;
use crate::var::Id;

verus! {

/// The pointwise sum of two gradient maps: the domains are united, and a
/// key present on both sides carries the sum of the two entries.
pub open spec fn map_add<T: Scalar>(m1: Map<Id, T>, m2: Map<Id, T>) -> Map<Id, T> {
    Map::new(
        |id: Id| m1.dom().contains(id) || m2.dom().contains(id),
        |id: Id|
            if m1.dom().contains(id) && m2.dom().contains(id) {
                T::add_spec(m1[id], m2[id])
            } else if m1.dom().contains(id) {
                m1[id]
            } else {
                m2[id]
            },
    )
}

/// Every entry of `m` multiplied by `s` on the left.
pub open spec fn scale_map<T: Scalar>(s: T, m: Map<Id, T>) -> Map<Id, T> {
    m.map_values(|v: T| T::mul_spec(s, v))
}

/// One accumulation step: `g` is added into the entry at `id`, or becomes
/// the entry when the key is new.
pub open spec fn acc_entry<T: Scalar>(m: Map<Id, T>, id: Id, g: T) -> Map<Id, T> {
    if m.dom().contains(id) {
        m.insert(id, T::add_spec(m[id], g))
    } else {
        m.insert(id, g)
    }
}

/// An accumulation step equals a pointwise sum with a one-entry map.
pub proof fn lemma_acc_entry_is_map_add<T: Scalar>(m: Map<Id, T>, id: Id, g: T)
    ensures
        acc_entry(m, id, g) == map_add(m, Map::empty().insert(id, g)),
{
    assert(acc_entry(m, id, g) =~= map_add(m, Map::empty().insert(id, g)));
}

/// The empty map is the identity of the pointwise sum.
pub proof fn lemma_map_add_empty<T: Scalar>(m: Map<Id, T>)
    ensures
        map_add(Map::empty(), m) == m,
        map_add(m, Map::empty()) == m,
{
    assert(map_add(Map::empty(), m) =~= m);
    assert(map_add(m, Map::empty()) =~= m);
}

/// The pointwise sum commutes.
pub proof fn lemma_map_add_comm<T: Scalar>(m1: Map<Id, T>, m2: Map<Id, T>)
    ensures
        map_add(m1, m2) == map_add(m2, m1),
{
    assert forall|id: Id| #[trigger]
        map_add(m1, m2).dom().contains(id) implies map_add(m1, m2)[id] == map_add(m2, m1)[id] by {
        if m1.dom().contains(id) && m2.dom().contains(id) {
            T::add_comm(m1[id], m2[id]);
        }
    }
    assert(map_add(m1, m2) =~= map_add(m2, m1));
}

/// The pointwise sum associates.
pub proof fn lemma_map_add_assoc<T: Scalar>(m1: Map<Id, T>, m2: Map<Id, T>, m3: Map<Id, T>)
    ensures
        map_add(map_add(m1, m2), m3) == map_add(m1, map_add(m2, m3)),
{
    assert forall|id: Id| #[trigger]
        map_add(map_add(m1, m2), m3).dom().contains(id) implies map_add(map_add(m1, m2), m3)[id]
        == map_add(m1, map_add(m2, m3))[id] by {
        if m1.dom().contains(id) && m2.dom().contains(id) && m3.dom().contains(id) {
            T::add_assoc(m1[id], m2[id], m3[id]);
        }
    }
    assert(map_add(map_add(m1, m2), m3) =~= map_add(m1, map_add(m2, m3)));
}

/// Scaling distributes over the pointwise sum.
pub proof fn lemma_scale_map_add<T: Scalar>(s: T, m1: Map<Id, T>, m2: Map<Id, T>)
    ensures
        scale_map(s, map_add(m1, m2)) == map_add(scale_map(s, m1), scale_map(s, m2)),
{
    assert forall|id: Id| #[trigger]
        scale_map(s, map_add(m1, m2)).dom().contains(id) implies scale_map(s, map_add(m1, m2))[id]
        == map_add(scale_map(s, m1), scale_map(s, m2))[id] by {
        if m1.dom().contains(id) && m2.dom().contains(id) {
            T::mul_dist(s, m1[id], m2[id]);
        }
    }
    assert(scale_map(s, map_add(m1, m2)) =~= map_add(scale_map(s, m1), scale_map(s, m2)));
}

/// Scaling twice is scaling by the product.
pub proof fn lemma_scale_scale<T: Scalar>(a: T, b: T, m: Map<Id, T>)
    ensures
        scale_map(a, scale_map(b, m)) == scale_map(T::mul_spec(a, b), m),
{
    assert forall|id: Id| #[trigger]
        scale_map(a, scale_map(b, m)).dom().contains(id) implies scale_map(a, scale_map(b, m))[id]
        == scale_map(T::mul_spec(a, b), m)[id] by {
        T::mul_assoc(a, b, m[id]);
    }
    assert(scale_map(a, scale_map(b, m)) =~= scale_map(T::mul_spec(a, b), m));
}

/// Scaling by one changes nothing.
pub proof fn lemma_scale_one<T: Scalar>(m: Map<Id, T>)
    ensures
        scale_map(T::one_spec(), m) == m,
{
    assert forall|id: Id| #[trigger] scale_map(T::one_spec(), m).dom().contains(id) implies scale_map(
        T::one_spec(),
        m,
    )[id] == m[id] by {
        T::mul_one(m[id]);
    }
    assert(scale_map(T::one_spec(), m) =~= m);
}

/// Scaling by a sum of seeds is the pointwise sum of the two scalings.
pub proof fn lemma_scale_seed_add<T: Scalar>(s1: T, s2: T, m: Map<Id, T>)
    ensures
        scale_map(T::add_spec(s1, s2), m) == map_add(scale_map(s1, m), scale_map(s2, m)),
{
    assert forall|id: Id| #[trigger]
        scale_map(T::add_spec(s1, s2), m).dom().contains(id) implies scale_map(
        T::add_spec(s1, s2),
        m,
    )[id] == map_add(scale_map(s1, m), scale_map(s2, m))[id] by {
        let v = m[id];
        T::mul_comm(T::add_spec(s1, s2), v);
        T::mul_dist(v, s1, s2);
        T::mul_comm(v, s1);
        T::mul_comm(v, s2);
    }
    assert(scale_map(T::add_spec(s1, s2), m) =~= map_add(scale_map(s1, m), scale_map(s2, m)));
}

/// The map a sequence of entries with pairwise distinct identities stands
/// for.
pub open spec fn entries_map<T>(s: Seq<(Id, T)>) -> Map<Id, T>
    decreases s.len(),
{
    if s.len() == 0 {
        Map::empty()
    } else {
        entries_map(s.drop_last()).insert(s.last().0, s.last().1)
    }
}

/// Whether no two entries of the sequence carry the same identity.
pub open spec fn entries_unique<T>(s: Seq<(Id, T)>) -> bool {
    forall|i: int, j: int|
        0 <= i < j < s.len() ==> (#[trigger] s[i]).0 != (#[trigger] s[j]).0
}

/// A gradient map: for every input variable reached by a traversal, the
/// accumulated partial derivative of the root with respect to it.
///
/// Entries sit in a vector, in the order they were first accumulated; a
/// tree map from the identity's fields to the entry's position makes the
/// lookups logarithmic.  The view presents the entries as a map keyed by
/// [`Id`].
pub struct GradMap<T> {
    idx: BTreeMap<(usize, usize), usize>,
    entries: Vec<(Id, T)>,
}

impl<T> View for GradMap<T> {
    type V = Map<Id, T>;

    closed spec fn view(&self) -> Map<Id, T> {
        entries_map(self.entries@)
    }
}

/// What a sequence of entries with pairwise distinct identities says about
/// the map it stands for: every entry is in the map, every key of the map
/// comes from an entry, and the sizes agree.
pub proof fn lemma_entries_map_props<T>(s: Seq<(Id, T)>)
    requires
        entries_unique(s),
    ensures
        entries_map(s).dom().finite(),
        entries_map(s).dom().len() == s.len(),
        forall|i: int|
            0 <= i < s.len() ==> entries_map(s).dom().contains((#[trigger] s[i]).0)
                && entries_map(s)[s[i].0] == s[i].1,
        forall|id: Id| #[trigger]
            entries_map(s).dom().contains(id) ==> exists|i: int|
                0 <= i < s.len() && (#[trigger] s[i]).0 == id,
    decreases s.len(),
{
    if s.len() > 0 {
        let d = s.drop_last();
        assert(entries_unique(d));
        lemma_entries_map_props(d);
        let lastp = s.last();
        if entries_map(d).dom().contains(lastp.0) {
            let i = choose|i: int| 0 <= i < d.len() && (#[trigger] d[i]).0 == lastp.0;
            assert((s[i]).0 == (s[s.len() - 1]).0);
            assert(false);
        }
        assert(entries_map(s).dom() =~= entries_map(d).dom().insert(lastp.0));
        assert forall|i: int| 0 <= i < s.len() implies entries_map(s).dom().contains(
            (#[trigger] s[i]).0,
        ) && entries_map(s)[s[i].0] == s[i].1 by {
            if i < s.len() - 1 {
                assert(d[i] == s[i]);
                assert((s[i]).0 != (s[s.len() - 1]).0);
            }
        }
        assert forall|id: Id| #[trigger]
            entries_map(s).dom().contains(id) implies exists|i: int|
            0 <= i < s.len() && (#[trigger] s[i]).0 == id by {
            if id == lastp.0 {
                assert((s[s.len() - 1]).0 == id);
            } else {
                let i = choose|i: int| 0 <= i < d.len() && (#[trigger] d[i]).0 == id;
                assert((s[i]).0 == id);
            }
        }
    }
}

impl<T> GradMap<T> {
    /// The position key an identity is filed under.
    spec fn key_of(id: Id) -> (usize, usize) {
        (id.group, id.num)
    }

    /// The index is exactly the positions of the entries: every entry is
    /// filed under its identity's key, and every filed key points back at
    /// its entry.
    #[verifier::type_invariant]
    closed spec fn wf(self) -> bool {
        &&& entries_unique(self.entries@)
        &&& forall|i: int|
            0 <= i < self.entries@.len() ==> self.idx@.dom().contains(
                Self::key_of((#[trigger] self.entries@[i]).0),
            ) && self.idx@[Self::key_of(self.entries@[i].0)] == i
        &&& forall|k: (usize, usize)| #[trigger]
            self.idx@.dom().contains(k) ==> self.idx@[k] < self.entries@.len() && Self::key_of(
                self.entries@[self.idx@[k] as int].0,
            ) == k
    }

    pub fn new() -> (r: Self)
        ensures
            r@ == Map::<Id, T>::empty(),
    {
        let r = GradMap { idx: BTreeMap::new(), entries: Vec::new() };
        proof {
            assert(r@ =~= Map::<Id, T>::empty());
        }
        r
    }

    /// How many distinct variables the map holds.
    pub fn len(&self) -> (r: usize)
        ensures
            r == self@.dom().len(),
    {
        proof {
            use_type_invariant(self);
            lemma_entries_map_props(self.entries@);
        }
        self.entries.len()
    }

    /// Whether the map holds no variable at all.
    pub fn is_empty(&self) -> (r: bool)
        ensures
            r == (self@.dom() =~= Set::<Id>::empty()),
    {
        proof {
            use_type_invariant(self);
            lemma_entries_map_props(self.entries@);
            if self.entries@.len() > 0 {
                assert(self@.dom().contains(self.entries@[0].0));
            }
        }
        self.entries.len() == 0
    }

    /// The entry at `id`, if the map holds one.
    pub fn get(&self, id: &Id) -> (r: Option<&T>)
        ensures
            match r {
                Some(v) => self@.dom().contains(*id) && *v == self@[*id],
                None => !self@.dom().contains(*id),
            },
    {
        proof {
            use_type_invariant(self);
            lemma_entries_map_props(self.entries@);
        }
        match self.idx.get(&(id.group, id.num)) {
            Some(i) => {
                let i = *i;
                proof {
                    assert(self.entries@[i as int].0 == *id);
                }
                Some(&self.entries[i].1)
            },
            None => {
                proof {
                    if self@.dom().contains(*id) {
                        let j = choose|j: int|
                            0 <= j < self.entries@.len() && (#[trigger] self.entries@[j]).0 == *id;
                        assert(self.idx@.dom().contains(Self::key_of(self.entries@[j].0)));
                        assert(false);
                    }
                }
                None
            },
        }
    }

    /// The entries, in the order the variables were first accumulated: each
    /// one is an entry of the map, each variable of the map appears exactly
    /// once, and the length is the size of the map.
    pub fn entries(&self) -> (r: &Vec<(Id, T)>)
        ensures
            entries_unique(r@),
            r@.len() == self@.dom().len(),
            forall|i: int|
                0 <= i < r@.len() ==> self@.dom().contains((#[trigger] r@[i]).0) && self@[r@[i].0]
                    == r@[i].1,
            forall|id: Id| #[trigger]
                self@.dom().contains(id) ==> exists|i: int|
                    0 <= i < r@.len() && (#[trigger] r@[i]).0 == id,
    {
        proof {
            use_type_invariant(self);
            lemma_entries_map_props(self.entries@);
        }
        &self.entries
    }
}

impl<T: Scalar> GradMap<T> {
    /// Adds `g` into the entry at `id`, starting one when the key is new.
    pub fn insert_add(&mut self, id: Id, g: T)
        ensures
            final(self)@ == acc_entry(old(self)@, id, g),
    {
        proof {
            use_type_invariant(&*self);
            lemma_entries_map_props(self.entries@);
        }
        let k = (id.group, id.num);
        let found: Option<usize> = match self.idx.get(&k) {
            Some(i) => Some(*i),
            None => None,
        };
        let mut tmp = GradMap::new();
        std::mem::swap(self, &mut tmp);
        let GradMap { idx: mut ix, entries: mut ev } = tmp;
        match found {
            Some(i) => {
                proof {
                    assert(ev@[i as int].0 == id);
                }
                let cur = ev[i].1;
                let nv = cur.add(&g);
                proof {
                    lemma_entries_update(ev@, i as int, nv);
                }
                ev[i] = (id, nv);
            },
            None => {
                proof {
                    if entries_map(ev@).dom().contains(id) {
                        let j = choose|j: int|
                            0 <= j < ev@.len() && (#[trigger] ev@[j]).0 == id;
                        assert(ix@.dom().contains(Self::key_of(ev@[j].0)));
                        assert(false);
                    }
                }
                let n = ev.len();
                ev.push((id, g));
                ix.insert(k, n);
                proof {
                    assert(ev@.drop_last() == old(self).entries@);
                    assert forall|i: int| 0 <= i < ev@.len() implies ix@.dom().contains(
                        Self::key_of((#[trigger] ev@[i]).0),
                    ) && ix@[Self::key_of(ev@[i].0)] == i by {
                        if i < n {
                            assert(Self::key_of(ev@[i].0) != k);
                        }
                    }
                }
            },
        }
        *self = GradMap { idx: ix, entries: ev };
    }

    /// Adds every entry of `src`, multiplied by `factor`, into this map.
    pub fn add_scaled_from(&mut self, factor: T, src: &GradMap<T>)
        ensures
            final(self)@ == map_add(old(self)@, scale_map(factor, src@)),
    {
        proof {
            use_type_invariant(src);
            lemma_entries_map_props(src.entries@);
            lemma_map_add_empty(old(self)@);
            assert(src.entries@.take(0) =~= Seq::<(Id, T)>::empty());
            assert(map_add(old(self)@, scale_map(factor, entries_map(src.entries@.take(0)))) =~= old(
                self,
            )@);
        }
        let n = src.entries.len();
        for pos in it: 0..n
            invariant
                n == src.entries@.len(),
                entries_unique(src.entries@),
                self@ == map_add(
                    old(self)@,
                    scale_map(factor, entries_map(src.entries@.take(pos as int))),
                ),
        {
            let p = src.entries[pos];
            self.insert_add(p.0, factor.mul(&p.1));
            proof {
                lemma_take_step(src.entries@, pos as int);
                lemma_acc_scaled_step(
                    old(self)@,
                    factor,
                    src.entries@.take(pos as int),
                    src.entries@[pos as int],
                );
            }
        }
        proof {
            assert(src.entries@.take(n as int) =~= src.entries@);
        }
    }
}

impl<T: Scalar> Clone for GradMap<T> {
    /// A clone carries the same entries.
    fn clone(&self) -> (r: Self)
        ensures
            r@ == self@,
    {
        let mut r = GradMap::new();
        r.add_scaled_from(T::one(), self);
        proof {
            lemma_scale_one(self@);
            lemma_map_add_empty(scale_map(T::one_spec(), self@));
        }
        r
    }
}

/// Updating the entry at `i` to a pair with the same identity turns the
/// entry map's value at that identity into the new one.
proof fn lemma_entries_update<T>(s: Seq<(Id, T)>, i: int, v: T)
    requires
        entries_unique(s),
        0 <= i < s.len(),
    ensures
        entries_unique(s.update(i, (s[i].0, v))),
        entries_map(s.update(i, (s[i].0, v))) == entries_map(s).insert(s[i].0, v),
    decreases s.len(),
{
    lemma_entries_map_props(s);
    let s2 = s.update(i, (s[i].0, v));
    assert(entries_unique(s2));
    if i == s.len() - 1 {
        assert(s2.drop_last() == s.drop_last());
        assert(entries_map(s2) =~= entries_map(s).insert(s[i].0, v));
    } else {
        let d = s.drop_last();
        assert(entries_unique(d));
        lemma_entries_update(d, i, v);
        assert(s2.drop_last() == d.update(i, (s[i].0, v)));
        lemma_entries_map_props(d);
        assert(entries_map(s2) =~= entries_map(s).insert(s[i].0, v));
    }
}

/// Taking one more entry extends the taken prefix by that entry.
proof fn lemma_take_step<T>(s: Seq<(Id, T)>, i: int)
    requires
        0 <= i < s.len(),
    ensures
        s.take(i + 1) == s.take(i).push(s[i]),
        entries_map(s.take(i + 1)) == entries_map(s.take(i)).insert(s[i].0, s[i].1),
{
    assert(s.take(i + 1) =~= s.take(i).push(s[i]));
    assert(s.take(i + 1).drop_last() == s.take(i));
    assert(s.take(i + 1).last() == s[i]);
}

/// One accumulation of a scaled entry whose identity the prefix does not
/// yet hold extends the scaled prefix by that entry.
proof fn lemma_acc_scaled_step<T: Scalar>(base: Map<Id, T>, factor: T, pre: Seq<(Id, T)>, p: (Id, T))
    requires
        entries_unique(pre),
        forall|i: int| 0 <= i < pre.len() ==> (#[trigger] pre[i]).0 != p.0,
    ensures
        acc_entry(
            map_add(base, scale_map(factor, entries_map(pre))),
            p.0,
            T::mul_spec(factor, p.1),
        ) == map_add(base, scale_map(factor, entries_map(pre).insert(p.0, p.1))),
{
    lemma_entries_map_props(pre);
    if entries_map(pre).dom().contains(p.0) {
        assert(false);
    }
    assert(acc_entry(
        map_add(base, scale_map(factor, entries_map(pre))),
        p.0,
        T::mul_spec(factor, p.1),
    ) =~= map_add(base, scale_map(factor, entries_map(pre).insert(p.0, p.1))));
}

} // verus!
