//! Crashes, identified by their error and target, and the set of unique ones.
use vstd::prelude::*;
use vstd::std_specs::cmp::PartialEqSpecImpl;
use crate::rustic::error::{error_parts, Error};
use crate::rustic::types::{duplicate_types, types_view, Type, TypeV};

verus! {

/// A crash: the target, the inputs that caused it and the error it ended with.
#[derive(Debug)]
pub struct Crash {
    pub target_module: String,
    pub target_function: String,
    pub inputs: Vec<Type>,
    pub error: Error,
}

/// What identifies a crash: its error and its target, not its inputs.
pub open spec fn crash_key(c: Crash) -> ((int, Seq<char>), Seq<char>, Seq<char>) {
    (error_parts(c.error), c.target_module@, c.target_function@)
}

impl Crash {
    /// A crash of `target_module::target_function` on `inputs` with `error`.
    pub fn new(target_module: &str, target_function: &str, inputs: &Vec<Type>, error: &Error) -> (r: Self)
        ensures
            r.target_module@ == target_module@,
            r.target_function@ == target_function@,
            types_view(r.inputs@) == types_view(inputs@),
            error_parts(r.error) == error_parts(*error),
    {
        Crash {
            target_module: String::from_str(target_module),
            target_function: String::from_str(target_function),
            inputs: duplicate_types(inputs),
            error: error.duplicate(),
        }
    }

    /// A copy of the crash.
    pub fn duplicate(&self) -> (r: Self)
        ensures
            crash_key(r) == crash_key(*self),
            types_view(r.inputs@) == types_view(self.inputs@),
    {
        Crash::new(self.target_module.as_str(), self.target_function.as_str(), &self.inputs, &self.error)
    }

    /// Whether two crashes have the same key.
    pub fn same_crash(&self, other: &Crash) -> (r: bool)
        ensures
            r == (crash_key(*self) == crash_key(*other)),
    {
        let same_error = self.error.eq(&other.error);
        let same_module: bool = String::eq(&self.target_module, &other.target_module);
        let same_function: bool = String::eq(&self.target_function, &other.target_function);
        same_error && same_module && same_function
    }
}

impl PartialEq for Crash {
    fn eq(&self, other: &Self) -> (r: bool) {
        self.same_crash(other)
    }
}

impl PartialEqSpecImpl for Crash {
    open spec fn obeys_eq_spec() -> bool {
        true
    }

    open spec fn eq_spec(&self, other: &Crash) -> bool {
        crash_key(*self) == crash_key(*other)
    }
}

/// A set of crashes, one per key.
pub struct CrashSet {
    items: Vec<Crash>,
}

impl View for CrashSet {
    type V = Set<((int, Seq<char>), Seq<char>, Seq<char>)>;

    closed spec fn view(&self) -> Set<((int, Seq<char>), Seq<char>, Seq<char>)> {
        Set::new(|k: ((int, Seq<char>), Seq<char>, Seq<char>)| exists|i: int| 0 <= i < self.items.len() && crash_key(#[trigger] self.items@[i]) == k)
    }
}

impl CrashSet {
    /// The crashes of the set, in the order they were added.
    pub closed spec fn listing(&self) -> Seq<Crash> {
        self.items@
    }

    /// The set holds finitely many keys.
    pub proof fn lemma_finite(&self)
        ensures
            self@.finite(),
    {
        let keys = self.items@.map_values(|c: Crash| crash_key(c));
        assert forall|k| #[trigger] self@.contains(k) <==> keys.to_set().contains(k) by {
            if self@.contains(k) {
                let i = choose|i: int| 0 <= i < self.items.len() && crash_key(#[trigger] self.items@[i]) == k;
                assert(keys[i] == k);
            }
            if keys.contains(k) {
                let i = choose|i: int| 0 <= i < keys.len() && keys[i] == k;
                assert(crash_key(self.items@[i]) == k);
            }
        }
        assert(self@ =~= keys.to_set());
        vstd::seq_lib::seq_to_set_is_finite(keys);
    }

    /// An empty set.
    pub fn new() -> (r: Self)
        ensures
            r@ == Set::<((int, Seq<char>), Seq<char>, Seq<char>)>::empty(),
            r.listing() == Seq::<Crash>::empty(),
    {
        let r = CrashSet { items: Vec::new() };
        assert(r@ =~= Set::<((int, Seq<char>), Seq<char>, Seq<char>)>::empty());
        r
    }

    /// Whether the set holds a crash with the key of `c`.
    pub fn contains(&self, c: &Crash) -> (r: bool)
        ensures
            r == self@.contains(crash_key(*c)),
    {
        let mut i: usize = 0;
        while i < self.items.len()
            invariant
                i <= self.items.len(),
                forall|j: int| 0 <= j < i ==> crash_key(#[trigger] self.items@[j]) != crash_key(*c),
            decreases self.items.len() - i,
        {
            if self.items[i].same_crash(c) {
                return true;
            }
            i += 1;
        }
        false
    }

    /// Adds a crash; returns whether its key was new.
    pub fn insert(&mut self, c: Crash) -> (r: bool)
        ensures
            r == !old(self)@.contains(crash_key(c)),
            final(self)@ == old(self)@.insert(crash_key(c)),
            r ==> final(self).listing() == old(self).listing().push(c),
            !r ==> final(self).listing() == old(self).listing(),
    {
        if self.contains(&c) {
            assert(old(self)@.insert(crash_key(c)) =~= old(self)@);
            return false;
        }
        let ghost k = crash_key(c);
        self.items.push(c);
        assert forall|x| #[trigger] self@.contains(x) <==> old(self)@.insert(k).contains(x) by {
            if self@.contains(x) {
                let i = choose|i: int| 0 <= i < self.items.len() && crash_key(#[trigger] self.items@[i]) == x;
                if i < old(self).items.len() {
                    assert(old(self).items@[i] == self.items@[i]);
                }
            }
            if old(self)@.contains(x) {
                let i = choose|i: int| 0 <= i < old(self).items.len() && crash_key(#[trigger] old(self).items@[i]) == x;
                assert(self.items@[i] == old(self).items@[i]);
            }
            if x == k {
                assert(crash_key(self.items@[old(self).items.len() as int]) == k);
            }
        }
        assert(self@ =~= old(self)@.insert(k));
        true
    }
}

} // verus!
