//! Fuzz case statistics: the coverage, input and crash databases a worker
//! keeps, and the global copy the workers share.
use vstd::prelude::*;
use std::sync::Arc;

verus! {

/// One fuzz input: the bytes handed to the program under test, shared
/// between the databases without copying.
pub type FuzzInput = Arc<Vec<u8>>;

/// One execution trace: the (fp, pc) offsets the program went through.
pub type Trace = Vec<(u32, u32)>;

/// `Arc::clone` makes another pointer to the same allocation, so the new
/// handle sees the same bytes as the one it was made from.
#[verifier::external_body]
pub(crate) fn share_input(input: &FuzzInput) -> (r: FuzzInput)
    ensures
        r@ == input@,
{
    Arc::clone(input)
}

/// Whether two byte vectors hold the same bytes.
pub fn bytes_eq(a: &Vec<u8>, b: &Vec<u8>) -> (r: bool)
    ensures
        r == (a@ == b@),
{
    if a.len() != b.len() {
        return false;
    }
    let mut i: usize = 0;
    while i < a.len()
        invariant
            a.len() == b.len(),
            i <= a.len(),
            forall|j: int| 0 <= j < i ==> a@[j] == b@[j],
        decreases a.len() - i,
    {
        if a[i] != b[i] {
            return false;
        }
        i += 1;
    }
    assert(a@ =~= b@);
    true
}

/// Whether two traces hold the same steps.
pub fn trace_eq(a: &Trace, b: &Trace) -> (r: bool)
    ensures
        r == (a@ == b@),
{
    if a.len() != b.len() {
        return false;
    }
    let mut i: usize = 0;
    while i < a.len()
        invariant
            a.len() == b.len(),
            i <= a.len(),
            forall|j: int| 0 <= j < i ==> a@[j] == b@[j],
        decreases a.len() - i,
    {
        if a[i].0 != b[i].0 || a[i].1 != b[i].1 {
            return false;
        }
        i += 1;
    }
    assert(a@ =~= b@);
    true
}

/// A copy of a trace.
pub fn copy_trace(a: &Trace) -> (r: Trace)
    ensures
        r@ == a@,
{
    let mut r: Trace = Vec::new();
    let mut i: usize = 0;
    while i < a.len()
        invariant
            i <= a.len(),
            r@ == a@.subrange(0, i as int),
        decreases a.len() - i,
    {
        r.push(a[i]);
        i += 1;
    }
    assert(a@.subrange(0, a.len() as int) =~= a@);
    r
}

/// The contents of a list of shared inputs.
pub open spec fn inputs_view(items: Seq<FuzzInput>) -> Seq<Seq<u8>> {
    items.map_values(|a: FuzzInput| a@)
}

/// A set of fuzz inputs, compared by their bytes.
pub struct InputSet {
    items: Vec<FuzzInput>,
}

impl View for InputSet {
    type V = Set<Seq<u8>>;

    closed spec fn view(&self) -> Set<Seq<u8>> {
        inputs_view(self.items@).to_set()
    }
}

impl InputSet {
    /// No input is held twice.
    pub closed spec fn wf(&self) -> bool {
        inputs_view(self.items@).no_duplicates()
    }

    /// An empty set.
    pub fn new() -> (r: Self)
        ensures
            r.wf(),
            r@ == Set::<Seq<u8>>::empty(),
    {
        let r = InputSet { items: Vec::new() };
        assert(inputs_view(r.items@).to_set() =~= Set::<Seq<u8>>::empty());
        r
    }

    /// The number of distinct inputs in the set.
    pub fn len(&self) -> (r: usize)
        requires
            self.wf(),
        ensures
            r == self@.len(),
            self@.finite(),
    {
        proof {
            inputs_view(self.items@).unique_seq_to_set();
        }
        self.items.len()
    }

    /// Whether the set holds an input with these bytes.
    pub fn contains(&self, x: &Vec<u8>) -> (r: bool)
        ensures
            r == self@.contains(x@),
    {
        let mut i: usize = 0;
        while i < self.items.len()
            invariant
                i <= self.items.len(),
                forall|j: int| 0 <= j < i ==> self.items@[j]@ != x@,
            decreases self.items.len() - i,
        {
            if bytes_eq(&*self.items[i], x) {
                assert(inputs_view(self.items@)[i as int] == x@);
                return true;
            }
            i += 1;
        }
        assert(!inputs_view(self.items@).contains(x@));
        false
    }

    /// Adds an input; returns whether it was not held before.
    pub fn insert(&mut self, x: FuzzInput) -> (r: bool)
        requires
            old(self).wf(),
        ensures
            final(self).wf(),
            r == !old(self)@.contains(x@),
            final(self)@ == old(self)@.insert(x@),
    {
        if self.contains(&*x) {
            assert(old(self)@.insert(x@) =~= old(self)@);
            return false;
        }
        let ghost xv = x@;
        self.items.push(x);
        assert(inputs_view(self.items@) =~= inputs_view(old(self).items@).push(xv));
        assert forall|y: Seq<u8>| #[trigger] inputs_view(self.items@).to_set().contains(y) <==> old(self)@.insert(xv).contains(y) by {
            let s0 = inputs_view(old(self).items@);
            if s0.push(xv).contains(y) {
                let j = choose|j: int| 0 <= j < s0.push(xv).len() && s0.push(xv)[j] == y;
                if j < s0.len() {
                    assert(s0[j] == y);
                }
            }
            if s0.contains(y) {
                let j = choose|j: int| 0 <= j < s0.len() && s0[j] == y;
                assert(s0.push(xv)[j] == y);
            }
            if y == xv {
                assert(s0.push(xv)[s0.len() as int] == y);
            }
        }
        assert(inputs_view(self.items@).to_set() =~= old(self)@.insert(xv));
        true
    }

    /// A copy of the set holding handles to the same inputs.
    pub fn duplicate(&self) -> (r: Self)
        requires
            self.wf(),
        ensures
            r.wf(),
            r@ == self@,
    {
        let mut items: Vec<FuzzInput> = Vec::new();
        let mut i: usize = 0;
        while i < self.items.len()
            invariant
                i <= self.items.len(),
                inputs_view(items@) == inputs_view(self.items@).subrange(0, i as int),
            decreases self.items.len() - i,
        {
            let ghost prev = items@;
            items.push(share_input(&self.items[i]));
            assert(inputs_view(items@) =~= inputs_view(prev).push(self.items@[i as int]@));
            assert(inputs_view(self.items@).subrange(0, i + 1) =~= inputs_view(self.items@).subrange(0, i as int).push(self.items@[i as int]@));
            i += 1;
        }
        assert(inputs_view(self.items@).subrange(0, self.items.len() as int) =~= inputs_view(self.items@));
        InputSet { items }
    }
}

/// The map from traces to inputs held by a list of distinct traces.
pub open spec fn coverage_map(entries: Seq<(Seq<(u32, u32)>, Seq<u8>)>) -> Map<Seq<(u32, u32)>, Seq<u8>>
    decreases entries.len(),
{
    if entries.len() == 0 {
        Map::empty()
    } else {
        coverage_map(entries.drop_last()).insert(entries.last().0, entries.last().1)
    }
}

/// Coverage database: maps each trace seen so far to the input that first
/// produced it.
pub struct CoverageDb {
    entries: Vec<(Trace, FuzzInput)>,
}

/// The plain contents of coverage entries.
pub open spec fn entries_view(entries: Seq<(Trace, FuzzInput)>) -> Seq<(Seq<(u32, u32)>, Seq<u8>)> {
    entries.map_values(|e: (Trace, FuzzInput)| (e.0@, e.1@))
}

proof fn lemma_coverage_map_domain(entries: Seq<(Seq<(u32, u32)>, Seq<u8>)>, k: Seq<(u32, u32)>)
    ensures
        coverage_map(entries).dom().contains(k) <==> exists|i: int| 0 <= i < entries.len() && #[trigger] entries[i].0 == k,
    decreases entries.len(),
{
    if entries.len() > 0 {
        let rest = entries.drop_last();
        lemma_coverage_map_domain(rest, k);
        if coverage_map(rest).dom().contains(k) {
            let i = choose|i: int| 0 <= i < rest.len() && #[trigger] rest[i].0 == k;
            assert(entries[i].0 == k);
        }
        if exists|i: int| 0 <= i < entries.len() && #[trigger] entries[i].0 == k {
            let i = choose|i: int| 0 <= i < entries.len() && #[trigger] entries[i].0 == k;
            if i < entries.len() - 1 {
                assert(rest[i].0 == k);
            }
        }
    }
}

proof fn lemma_coverage_map_finite(entries: Seq<(Seq<(u32, u32)>, Seq<u8>)>)
    ensures
        coverage_map(entries).dom().finite(),
    decreases entries.len(),
{
    if entries.len() > 0 {
        lemma_coverage_map_finite(entries.drop_last());
    }
}

impl View for CoverageDb {
    type V = Map<Seq<(u32, u32)>, Seq<u8>>;

    closed spec fn view(&self) -> Map<Seq<(u32, u32)>, Seq<u8>> {
        coverage_map(entries_view(self.entries@))
    }
}

impl CoverageDb {
    /// An empty database.
    pub fn new() -> (r: Self)
        ensures
            r@ == Map::<Seq<(u32, u32)>, Seq<u8>>::empty(),
    {
        CoverageDb { entries: Vec::new() }
    }

    /// The database holds finitely many traces.
    pub proof fn lemma_finite(&self)
        ensures
            self@.dom().finite(),
    {
        lemma_coverage_map_finite(entries_view(self.entries@));
    }

    /// Whether the trace is in the database.
    pub fn contains_key(&self, k: &Trace) -> (r: bool)
        ensures
            r == self@.dom().contains(k@),
    {
        proof {
            lemma_coverage_map_domain(entries_view(self.entries@), k@);
        }
        let mut i: usize = 0;
        while i < self.entries.len()
            invariant
                i <= self.entries.len(),
                forall|j: int| 0 <= j < i ==> self.entries@[j].0@ != k@,
            decreases self.entries.len() - i,
        {
            if trace_eq(&self.entries[i].0, k) {
                assert(entries_view(self.entries@)[i as int].0 == k@);
                proof {
                    lemma_coverage_map_domain(entries_view(self.entries@), k@);
                }
                return true;
            }
            i += 1;
        }
        assert(forall|j: int| 0 <= j < self.entries.len() ==> #[trigger] entries_view(self.entries@)[j].0 != k@);
        false
    }

    /// Records a trace that is not yet in the database, with its input.
    pub fn insert(&mut self, k: Trace, v: FuzzInput)
        requires
            !old(self)@.dom().contains(k@),
        ensures
            final(self)@ == old(self)@.insert(k@, v@),
    {
        let ghost kv = (k@, v@);
        self.entries.push((k, v));
        assert(entries_view(self.entries@) =~= entries_view(old(self).entries@).push(kv));
        assert(entries_view(self.entries@).drop_last() =~= entries_view(old(self).entries@));
    }

    /// A copy of the database holding handles to the same inputs.
    pub fn duplicate(&self) -> (r: Self)
        ensures
            r@ == self@,
    {
        let mut entries: Vec<(Trace, FuzzInput)> = Vec::new();
        let mut i: usize = 0;
        while i < self.entries.len()
            invariant
                i <= self.entries.len(),
                entries_view(entries@) == entries_view(self.entries@).subrange(0, i as int),
            decreases self.entries.len() - i,
        {
            let ghost prev = entries@;
            let t = copy_trace(&self.entries[i].0);
            let v = share_input(&self.entries[i].1);
            entries.push((t, v));
            assert(entries_view(entries@) =~= entries_view(prev).push((self.entries@[i as int].0@, self.entries@[i as int].1@)));
            assert(entries_view(self.entries@).subrange(0, i + 1) =~= entries_view(self.entries@).subrange(0, i as int).push((self.entries@[i as int].0@, self.entries@[i as int].1@)));
            i += 1;
        }
        assert(entries_view(self.entries@).subrange(0, self.entries.len() as int) =~= entries_view(self.entries@));
        CoverageDb { entries }
    }
}

/// The abstract contents of `Statistics`.
pub struct StatsView {
    pub fuzz_cases: nat,
    pub coverage: Map<Seq<(u32, u32)>, Seq<u8>>,
    pub input_len: nat,
    pub inputs: Set<Seq<u8>>,
    pub input_list: Seq<Seq<u8>>,
    pub crashes: nat,
    pub crash_db: Set<Seq<u8>>,
    pub threads_finished: nat,
}

impl View for Statistics {
    type V = StatsView;

    open spec fn view(&self) -> StatsView {
        StatsView {
            fuzz_cases: self.fuzz_cases as nat,
            coverage: self.coverage_db@,
            input_len: self.input_len as nat,
            inputs: self.input_db@,
            input_list: inputs_view(self.input_list@),
            crashes: self.crashes as nat,
            crash_db: self.crash_db@,
            threads_finished: self.threads_finished as nat,
        }
    }
}

/// The databases of a statistics value agree with each other: the input
/// counter counts the input list, and every listed input, every input that
/// produced recorded coverage and every crashing input is in the input set.
pub open spec fn consistent(v: StatsView) -> bool {
    &&& v.input_len == v.input_list.len()
    &&& forall|i: int| 0 <= i < v.input_list.len() ==> v.inputs.contains(#[trigger] v.input_list[i])
    &&& forall|t: Seq<(u32, u32)>| #[trigger] v.coverage.dom().contains(t) ==> v.inputs.contains(v.coverage[t])
    &&& forall|x: Seq<u8>| #[trigger] v.crash_db.contains(x) ==> v.inputs.contains(x)
}

/// Fuzz case statistics
pub struct Statistics {
    /// Number of fuzz cases
    pub fuzz_cases: u64,
    /// Coverage database. Maps traces to `FuzzInput`s
    pub coverage_db: CoverageDb,
    /// Counter of inputs
    pub input_len: usize,
    /// Set of all unique inputs
    pub input_db: InputSet,
    /// List of inputs
    pub input_list: Vec<FuzzInput>,
    /// Counter of crashes
    pub crashes: u64,
    /// Set of all unique crashes
    pub crash_db: InputSet,
    /// Number of workers that went through their whole corpus
    pub threads_finished: u64,
}

impl Statistics {
    /// The databases are consistent: the sets hold no input twice, the
    /// input counter counts the input list, every listed input, every input
    /// that produced recorded coverage and every crashing input is in the
    /// input database.
    pub open spec fn wf(&self) -> bool {
        &&& self.input_db.wf()
        &&& self.crash_db.wf()
        &&& consistent(self@)
    }

    /// Empty statistics.
    pub fn new() -> (r: Self)
        ensures
            r.wf(),
            r.fuzz_cases == 0,
            r.coverage_db@ == Map::<Seq<(u32, u32)>, Seq<u8>>::empty(),
            r.input_len == 0,
            r.input_db@ == Set::<Seq<u8>>::empty(),
            r.input_list@ == Seq::<FuzzInput>::empty(),
            r.crashes == 0,
            r.crash_db@ == Set::<Seq<u8>>::empty(),
            r.threads_finished == 0,
    {
        Statistics {
            fuzz_cases: 0,
            coverage_db: CoverageDb::new(),
            input_len: 0,
            input_db: InputSet::new(),
            input_list: Vec::new(),
            crashes: 0,
            crash_db: InputSet::new(),
            threads_finished: 0,
        }
    }

    /// The input at position `index` of the input list.
    pub fn get_input_by_index(&self, index: usize) -> (r: FuzzInput)
        requires
            index < self.input_list.len(),
        ensures
            r@ == self.input_list@[index as int]@,
    {
        share_input(&self.input_list[index])
    }
}

} // verus!
