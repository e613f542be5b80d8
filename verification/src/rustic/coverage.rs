//! Coverage reached by an execution, and sets of coverage identified by the
//! trace they followed.
use vstd::prelude::*;
use crate::rustic::types::{duplicate_types, types_view, Type, TypeV};

verus! {

/// A location of the Cairo VM memory: a segment and an offset in it.
#[derive(Debug, Clone, Copy, PartialEq, Eq, Structural)]
pub struct Relocatable {
    pub segment_index: isize,
    pub offset: usize,
}

/// The coverage of one execution: whether it failed, the inputs it ran on
/// and the trace it followed.
#[derive(Debug)]
pub struct Coverage {
    pub failure: bool,
    pub inputs: Vec<Type>,
    pub data: Vec<(Relocatable, usize)>,
}

/// What identifies a coverage in a set: its trace.
pub open spec fn coverage_key(c: Coverage) -> Seq<(Relocatable, usize)> {
    c.data@
}

/// Whether two traces are the same.
pub fn data_eq(a: &Vec<(Relocatable, usize)>, b: &Vec<(Relocatable, usize)>) -> (r: bool)
    ensures
        r == (a@ == b@),
{
    if a.len() != b.len() {
        return false;
    }
    let mut i: usize = 0;
    while i < a.len()
        invariant
            a.len() == b.len(),
            i <= a.len(),
            forall|j: int| 0 <= j < i ==> a@[j] == b@[j],
        decreases a.len() - i,
    {
        let (ra, na) = a[i];
        let (rb, nb) = b[i];
        if !(ra == rb && na == nb) {
            return false;
        }
        i += 1;
    }
    assert(a@ =~= b@);
    true
}

impl Coverage {
    /// A copy of the coverage.
    pub fn duplicate(&self) -> (r: Coverage)
        ensures
            r.failure == self.failure,
            types_view(r.inputs@) == types_view(self.inputs@),
            r.data@ == self.data@,
    {
        let mut data: Vec<(Relocatable, usize)> = Vec::new();
        let mut i: usize = 0;
        while i < self.data.len()
            invariant
                i <= self.data.len(),
                data@ == self.data@.subrange(0, i as int),
            decreases self.data.len() - i,
        {
            data.push(self.data[i]);
            assert(data@ =~= self.data@.subrange(0, i + 1));
            i += 1;
        }
        assert(self.data@.subrange(0, self.data.len() as int) =~= self.data@);
        Coverage { failure: self.failure, inputs: duplicate_types(&self.inputs), data }
    }
}

/// A set of coverage, at most one per trace.
pub struct CoverageSet {
    items: Vec<Coverage>,
}

/// The abstract value of a coverage: whether the execution failed, the
/// inputs it ran on and its trace.
pub open spec fn coverage_view(c: Coverage) -> (bool, Seq<TypeV>, Seq<(Relocatable, usize)>) {
    (c.failure, types_view(c.inputs@), c.data@)
}

/// The abstract values of a list of coverage.
pub open spec fn listing_view(s: Seq<Coverage>) -> Seq<(bool, Seq<TypeV>, Seq<(Relocatable, usize)>)> {
    s.map_values(|c: Coverage| coverage_view(c))
}

/// The traces of a list of abstract coverage values.
pub open spec fn view_keys(s: Seq<(bool, Seq<TypeV>, Seq<(Relocatable, usize)>)>) -> Seq<Seq<(Relocatable, usize)>> {
    s.map_values(|v: (bool, Seq<TypeV>, Seq<(Relocatable, usize)>)| v.2)
}

/// The entries of `s` whose trace is not in `other`, in order.
pub open spec fn keep_new(s: Seq<(bool, Seq<TypeV>, Seq<(Relocatable, usize)>)>, other: Set<Seq<(Relocatable, usize)>>) -> Seq<(bool, Seq<TypeV>, Seq<(Relocatable, usize)>)>
    decreases s.len(),
{
    if s.len() == 0 {
        s
    } else {
        let p = keep_new(s.drop_last(), other);
        if other.contains(s.last().2) {
            p
        } else {
            p.push(s.last())
        }
    }
}

/// The entries `base` has after adding the entries of `items` in turn, each
/// one only when its trace is not yet there.
pub open spec fn extend_entries(
    base: Seq<(bool, Seq<TypeV>, Seq<(Relocatable, usize)>)>,
    items: Seq<(bool, Seq<TypeV>, Seq<(Relocatable, usize)>)>,
) -> Seq<(bool, Seq<TypeV>, Seq<(Relocatable, usize)>)>
    decreases items.len(),
{
    if items.len() == 0 {
        base
    } else {
        let p = extend_entries(base, items.drop_last());
        if view_keys(p).contains(items.last().2) {
            p
        } else {
            p.push(items.last())
        }
    }
}

/// Adding entries with distinct traces to nothing gives those entries.
proof fn lemma_extend_nothing(items: Seq<(bool, Seq<TypeV>, Seq<(Relocatable, usize)>)>)
    requires
        view_keys(items).no_duplicates(),
    ensures
        extend_entries(Seq::empty(), items) == items,
    decreases items.len(),
{
    if items.len() > 0 {
        let d = items.drop_last();
        let k = view_keys(items);
        assert(view_keys(d) =~= k.drop_last());
        assert(view_keys(d).no_duplicates()) by {
            assert forall|i: int, j: int| 0 <= i < j < view_keys(d).len() implies view_keys(d)[i] != view_keys(d)[j] by {
                assert(view_keys(d)[i] == k[i] && view_keys(d)[j] == k[j]);
            }
        }
        lemma_extend_nothing(d);
        assert forall|j: int| 0 <= j < view_keys(d).len() implies view_keys(d)[j] != items.last().2 by {
            assert(view_keys(d)[j] == k[j]);
            assert(k[items.len() - 1] == items.last().2);
        }
        assert(!view_keys(d).contains(items.last().2));
        assert(d.push(items.last()) =~= items);
    }
}

/// The traces of a list of coverage.
pub open spec fn keys_of(items: Seq<Coverage>) -> Seq<Seq<(Relocatable, usize)>> {
    items.map_values(|c: Coverage| coverage_key(c))
}

impl View for CoverageSet {
    type V = Set<Seq<(Relocatable, usize)>>;

    closed spec fn view(&self) -> Set<Seq<(Relocatable, usize)>> {
        keys_of(self.items@).to_set()
    }
}

impl CoverageSet {
    /// The coverage of the set, in the order it is listed.
    pub closed spec fn listing(&self) -> Seq<Coverage> {
        self.items@
    }

    /// The abstract values of the coverage of the set, in listing order.
    pub open spec fn entries(&self) -> Seq<(bool, Seq<TypeV>, Seq<(Relocatable, usize)>)> {
        listing_view(self.listing())
    }

    /// The traces of the set are those of its entries.
    pub proof fn lemma_view_is_entry_keys(&self)
        ensures
            self@ == view_keys(self.entries()).to_set(),
            keys_of(self.listing()) == view_keys(self.entries()),
    {
        assert(keys_of(self.items@) =~= view_keys(self.entries()));
    }

    /// No trace is held twice.
    pub closed spec fn wf(&self) -> bool {
        keys_of(self.items@).no_duplicates()
    }

    /// A well-formed set is finite.
    pub proof fn lemma_finite(&self)
        requires
            self.wf(),
        ensures
            self@.finite(),
    {
        keys_of(self.items@).unique_seq_to_set();
    }

    /// An empty set.
    pub fn new() -> (r: Self)
        ensures
            r.wf(),
            r@ == Set::<Seq<(Relocatable, usize)>>::empty(),
            r.listing() == Seq::<Coverage>::empty(),
    {
        let r = CoverageSet { items: Vec::new() };
        assert(keys_of(r.items@).to_set() =~= Set::<Seq<(Relocatable, usize)>>::empty());
        r
    }

    /// The number of traces in the set.
    pub fn len(&self) -> (r: usize)
        requires
            self.wf(),
        ensures
            r == self@.len(),
            r == self.listing().len(),
            self@.finite(),
    {
        proof {
            keys_of(self.items@).unique_seq_to_set();
        }
        self.items.len()
    }

    /// The coverage at position `i` of the set's listing.
    pub fn get(&self, i: usize) -> (r: &Coverage)
        requires
            i < self@.len(),
            self.wf(),
        ensures
            *r == self.listing()[i as int],
            self@.contains(coverage_key(*r)),
    {
        proof {
            keys_of(self.items@).unique_seq_to_set();
        }
        let r = &self.items[i];
        assert(keys_of(self.items@)[i as int] == coverage_key(*r));
        r
    }

    /// Whether the set holds a coverage with the trace of `c`.
    pub fn contains(&self, c: &Coverage) -> (r: bool)
        ensures
            r == self@.contains(coverage_key(*c)),
    {
        let mut i: usize = 0;
        while i < self.items.len()
            invariant
                i <= self.items.len(),
                forall|j: int| 0 <= j < i ==> coverage_key(#[trigger] self.items@[j]) != coverage_key(*c),
            decreases self.items.len() - i,
        {
            if data_eq(&self.items[i].data, &c.data) {
                assert(keys_of(self.items@)[i as int] == coverage_key(*c));
                return true;
            }
            i += 1;
        }
        assert(!keys_of(self.items@).contains(coverage_key(*c)));
        false
    }

    /// Adds a coverage; returns whether its trace was new.
    pub fn insert(&mut self, c: Coverage) -> (r: bool)
        requires
            old(self).wf(),
        ensures
            final(self).wf(),
            r == !old(self)@.contains(coverage_key(c)),
            final(self)@ == old(self)@.insert(coverage_key(c)),
            r ==> final(self).listing() == old(self).listing().push(c),
            !r ==> final(self).listing() == old(self).listing(),
    {
        if self.contains(&c) {
            assert(old(self)@.insert(coverage_key(c)) =~= old(self)@);
            return false;
        }
        let ghost k = coverage_key(c);
        self.items.push(c);
        let ghost s0 = keys_of(old(self).items@);
        assert(keys_of(self.items@) =~= s0.push(k));
        assert forall|y| #[trigger] s0.push(k).to_set().contains(y) <==> old(self)@.insert(k).contains(y) by {
            if s0.push(k).contains(y) {
                let j = choose|j: int| 0 <= j < s0.push(k).len() && s0.push(k)[j] == y;
                if j < s0.len() {
                    assert(s0[j] == y);
                }
            }
            if s0.contains(y) {
                let j = choose|j: int| 0 <= j < s0.len() && s0[j] == y;
                assert(s0.push(k)[j] == y);
            }
            if y == k {
                assert(s0.push(k)[s0.len() as int] == y);
            }
        }
        assert(self@ =~= old(self)@.insert(k));
        true
    }

    /// The coverage of this set whose trace is not in `other`.
    pub fn difference(&self, other: &CoverageSet) -> (r: CoverageSet)
        requires
            self.wf(),
        ensures
            r.wf(),
            r@ == self@.difference(other@),
            r.entries() == keep_new(self.entries(), other@),
    {
        let mut r = CoverageSet::new();
        let mut i: usize = 0;
        assert(listing_view(r.items@) =~= keep_new(listing_view(self.items@.take(0)), other@));
        while i < self.items.len()
            invariant
                self.wf(),
                r.wf(),
                i <= self.items.len(),
                r@ == keys_of(self.items@.take(i as int)).to_set().difference(other@),
                listing_view(r.items@) == keep_new(listing_view(self.items@.take(i as int)), other@),
            decreases self.items.len() - i,
        {
            let ghost before = r@;
            let c = &self.items[i];
            proof {
                let s = keys_of(self.items@.take(i + 1));
                assert(s =~= keys_of(self.items@.take(i as int)).push(coverage_key(*c)));
                assert(s.to_set() =~= keys_of(self.items@.take(i as int)).to_set().insert(coverage_key(*c))) by {
                    let s0 = keys_of(self.items@.take(i as int));
                    assert forall|y| #[trigger] s.to_set().contains(y) <==> s0.to_set().insert(coverage_key(*c)).contains(y) by {
                        if s.contains(y) {
                            let j = choose|j: int| 0 <= j < s.len() && s[j] == y;
                            if j < s0.len() {
                                assert(s0[j] == y);
                            }
                        }
                        if s0.contains(y) {
                            let j = choose|j: int| 0 <= j < s0.len() && s0[j] == y;
                            assert(s[j] == y);
                        }
                        if y == coverage_key(*c) {
                            assert(s[s0.len() as int] == y);
                        }
                    }
                }
            }
            proof {
                assert(listing_view(self.items@.take(i + 1)).drop_last() =~= listing_view(self.items@.take(i as int)));
                assert(listing_view(self.items@.take(i + 1)).last() == coverage_view(*c));
                let ks = keys_of(self.items@);
                assert(ks[i as int] == coverage_key(*c));
                assert forall|j: int| 0 <= j < i implies keys_of(self.items@.take(i as int))[j] != coverage_key(*c) by {
                    assert(keys_of(self.items@.take(i as int))[j] == ks[j]);
                }
                assert(!keys_of(self.items@.take(i as int)).contains(coverage_key(*c)));
            }
            if !other.contains(c) {
                let d = c.duplicate();
                let added = r.insert(d);
                assert(added);
                assert(listing_view(r.items@) =~= keep_new(listing_view(self.items@.take(i + 1)), other@));
            }
            assert(r@ =~= keys_of(self.items@.take(i + 1)).to_set().difference(other@));
            assert(listing_view(r.items@) == keep_new(listing_view(self.items@.take(i + 1)), other@));
            i += 1;
        }
        assert(self.items@.take(self.items.len() as int) =~= self.items@);
        r
    }

    /// Adds every coverage of `other`.
    pub fn extend(&mut self, other: &CoverageSet)
        requires
            old(self).wf(),
        ensures
            final(self).wf(),
            final(self)@ == old(self)@.union(other@),
            final(self).entries() == extend_entries(old(self).entries(), other.entries()),
    {
        let mut i: usize = 0;
        assert(listing_view(other.items@.take(0)) =~= Seq::<(bool, Seq<TypeV>, Seq<(Relocatable, usize)>)>::empty());
        while i < other.items.len()
            invariant
                self.wf(),
                i <= other.items.len(),
                self@ == old(self)@.union(keys_of(other.items@.take(i as int)).to_set()),
                listing_view(self.items@) == extend_entries(listing_view(old(self).items@), listing_view(other.items@.take(i as int))),
            decreases other.items.len() - i,
        {
            let c = &other.items[i];
            proof {
                let s = keys_of(other.items@.take(i + 1));
                let s0 = keys_of(other.items@.take(i as int));
                assert(s =~= s0.push(coverage_key(*c)));
                assert forall|y| #[trigger] s.to_set().contains(y) <==> s0.to_set().insert(coverage_key(*c)).contains(y) by {
                    if s.contains(y) {
                        let j = choose|j: int| 0 <= j < s.len() && s[j] == y;
                        if j < s0.len() {
                            assert(s0[j] == y);
                        }
                    }
                    if s0.contains(y) {
                        let j = choose|j: int| 0 <= j < s0.len() && s0[j] == y;
                        assert(s[j] == y);
                    }
                    if y == coverage_key(*c) {
                        assert(s[s0.len() as int] == y);
                    }
                }
                assert(s.to_set() =~= s0.to_set().insert(coverage_key(*c)));
            }
            proof {
                assert(listing_view(other.items@.take(i + 1)).drop_last() =~= listing_view(other.items@.take(i as int)));
                assert(listing_view(other.items@.take(i + 1)).last() == coverage_view(*c));
                assert(keys_of(self.items@) =~= view_keys(listing_view(self.items@)));
            }
            let ghost before = self.items@;
            let d = c.duplicate();
            let added = self.insert(d);
            assert(listing_view(self.items@) =~= extend_entries(listing_view(old(self).items@), listing_view(other.items@.take(i + 1))));
            assert(self@ =~= old(self)@.union(keys_of(other.items@.take(i + 1)).to_set()));
            i += 1;
        }
        assert(other.items@.take(other.items.len() as int) =~= other.items@);
    }

    /// A copy of the set.
    pub fn duplicate(&self) -> (r: CoverageSet)
        requires
            self.wf(),
        ensures
            r.wf(),
            r@ == self@,
            r.entries() == self.entries(),
    {
        let mut r = CoverageSet::new();
        assert(listing_view(r.items@) =~= Seq::<(bool, Seq<TypeV>, Seq<(Relocatable, usize)>)>::empty());
        proof {
            assert(keys_of(self.items@) =~= view_keys(self.entries()));
            lemma_extend_nothing(self.entries());
        }
        r.extend(self);
        assert(Set::<Seq<(Relocatable, usize)>>::empty().union(self@) =~= self@);
        r
    }

    /// The coverage of the set, in the order of its listing.
    pub fn items(&self) -> (r: &Vec<Coverage>)
        ensures
            r@ == self.listing(),
            keys_of(r@).to_set() == self@,
            self.wf() ==> keys_of(r@).no_duplicates(),
    {
        &self.items
    }
}

} // verus!
