//! Corpus minimization and replay bookkeeping: which corpus files are kept
//! (those that reach a new trace or a new error) and how often each error
//! was seen.
use vstd::prelude::*;
use std::sync::Arc;
use crate::cairo_fuzz::fuzzer::clone_bytes;
use crate::cairo_fuzz::stats::{CoverageDb, InputSet, Trace};
use crate::text::str_eq;

verus! {

/// The characters of each string.
pub open spec fn messages_view(s: Seq<String>) -> Seq<Seq<char>> {
    s.map_values(|x: String| x@)
}

/// Whether `messages` holds `message`.
pub fn contains_message(messages: &Vec<String>, message: &String) -> (r: bool)
    ensures
        r == messages_view(messages@).contains(message@),
{
    let mut i: usize = 0;
    while i < messages.len()
        invariant
            i <= messages.len(),
            forall|j: int| 0 <= j < i ==> (#[trigger] messages@[j])@ != message@,
        decreases messages.len() - i,
    {
        if str_eq(messages[i].as_str(), message.as_str()) {
            assert(messages_view(messages@)[i as int] == message@);
            return true;
        }
        i += 1;
    }
    assert(!messages_view(messages@).contains(message@)) by {
        if messages_view(messages@).contains(message@) {
            let j = choose|j: int| 0 <= j < messages@.len() && messages_view(messages@)[j] == message@;
            assert(messages@[j]@ == message@);
        }
    }
    false
}

/// What the minimizer has seen: the traces reached with the input that
/// reached each first, the inputs kept, the errors met, the number of
/// inputs kept and the number of files removed.
pub struct MinimizerStats {
    pub coverage: CoverageDb,
    pub inputs: InputSet,
    pub crash_messages: Vec<String>,
    pub input_len: usize,
    pub removed_files: u64,
}

impl MinimizerStats {
    /// The input set holds no input twice.
    pub open spec fn wf(&self) -> bool {
        self.inputs.wf()
    }

    /// Nothing seen yet.
    pub fn new() -> (r: Self)
        ensures
            r.wf(),
            r.coverage@ == Map::<Seq<(u32, u32)>, Seq<u8>>::empty(),
            r.inputs@ == Set::<Seq<u8>>::empty(),
            r.crash_messages@.len() == 0,
            r.input_len == 0,
            r.removed_files == 0,
    {
        MinimizerStats {
            coverage: CoverageDb::new(),
            inputs: InputSet::new(),
            crash_messages: Vec::new(),
            input_len: 0,
            removed_files: 0,
        }
    }

    /// Takes in a corpus input whose run went through `trace`: it is kept
    /// when the trace is new (recorded with the input, which joins the kept
    /// inputs), and its file is to be removed otherwise.
    pub fn keep_trace(&mut self, trace: Trace, input: &Vec<u8>) -> (keep: bool)
        requires
            old(self).wf(),
            old(self).input_len < usize::MAX,
            old(self).removed_files < u64::MAX,
        ensures
            final(self).wf(),
            keep == !old(self).coverage@.dom().contains(trace@),
            final(self).crash_messages == old(self).crash_messages,
            keep ==> {
                &&& final(self).coverage@ == old(self).coverage@.insert(trace@, input@)
                &&& final(self).inputs@ == old(self).inputs@.insert(input@)
                &&& final(self).input_len == old(self).input_len + 1
                &&& final(self).removed_files == old(self).removed_files
            },
            !keep ==> {
                &&& final(self).coverage@ == old(self).coverage@
                &&& final(self).inputs@ == old(self).inputs@
                &&& final(self).input_len == old(self).input_len
                &&& final(self).removed_files == old(self).removed_files + 1
            },
    {
        if !self.coverage.contains_key(&trace) {
            let x = Arc::new(clone_bytes(input));
            let y = Arc::new(clone_bytes(input));
            self.inputs.insert(x);
            self.coverage.insert(trace, y);
            self.input_len += 1;
            true
        } else {
            self.removed_files += 1;
            false
        }
    }

    /// Takes in a corpus input whose run failed with `message`: it is kept
    /// when the error is new (which joins the errors met), and its file is
    /// to be removed otherwise.
    pub fn keep_error(&mut self, message: &String) -> (keep: bool)
        requires
            old(self).removed_files < u64::MAX,
        ensures
            keep == !messages_view(old(self).crash_messages@).contains(message@),
            final(self).coverage@ == old(self).coverage@,
            final(self).inputs@ == old(self).inputs@,
            final(self).inputs.wf() == old(self).inputs.wf(),
            final(self).input_len == old(self).input_len,
            keep ==> messages_view(final(self).crash_messages@) == messages_view(old(self).crash_messages@).push(message@)
                && final(self).removed_files == old(self).removed_files,
            !keep ==> final(self).crash_messages == old(self).crash_messages
                && final(self).removed_files == old(self).removed_files + 1,
    {
        if contains_message(&self.crash_messages, message) {
            self.removed_files += 1;
            return false;
        }
        let ghost before = self.crash_messages@;
        self.crash_messages.push(message.clone());
        assert(messages_view(self.crash_messages@) =~= messages_view(before).push(message@));
        true
    }
}

/// How many times each error message was met, by a list of distinct
/// messages and their counts.
pub open spec fn counts_map(entries: Seq<(String, u64)>) -> Map<Seq<char>, u64>
    decreases entries.len(),
{
    if entries.len() == 0 {
        Map::empty()
    } else {
        counts_map(entries.drop_last()).insert(entries.last().0@, entries.last().1)
    }
}

/// The number of times each error message was met during a replay.
pub struct ErrorCounts {
    entries: Vec<(String, u64)>,
}

impl View for ErrorCounts {
    type V = Map<Seq<char>, u64>;

    closed spec fn view(&self) -> Map<Seq<char>, u64> {
        counts_map(self.entries@)
    }
}

/// The message at a position is counted with the count stored there, when
/// no later position holds the same message.
proof fn lemma_counts_map_entry(entries: Seq<(String, u64)>, i: int)
    requires
        0 <= i < entries.len(),
        forall|j: int| i < j < entries.len() ==> (#[trigger] entries[j]).0@ != entries[i].0@,
    ensures
        counts_map(entries).dom().contains(entries[i].0@),
        counts_map(entries)[entries[i].0@] == entries[i].1,
    decreases entries.len(),
{
    if i < entries.len() - 1 {
        lemma_counts_map_entry(entries.drop_last(), i);
        assert(entries.last() == entries[entries.len() - 1]);
    }
}

/// A message is counted exactly when some position holds it.
proof fn lemma_counts_map_domain(entries: Seq<(String, u64)>, m: Seq<char>)
    ensures
        counts_map(entries).dom().contains(m) <==> exists|i: int| 0 <= i < entries.len() && (#[trigger] entries[i]).0@ == m,
    decreases entries.len(),
{
    if entries.len() > 0 {
        let rest = entries.drop_last();
        lemma_counts_map_domain(rest, m);
        if counts_map(rest).dom().contains(m) {
            let i = choose|i: int| 0 <= i < rest.len() && (#[trigger] rest[i]).0@ == m;
            assert(entries[i].0@ == m);
        }
        if exists|i: int| 0 <= i < entries.len() && (#[trigger] entries[i]).0@ == m {
            let i = choose|i: int| 0 <= i < entries.len() && (#[trigger] entries[i]).0@ == m;
            if i < entries.len() - 1 {
                assert(rest[i].0@ == m);
            }
        }
    }
}

/// Changing the count at a position whose message no other position holds
/// changes that message's count only.
proof fn lemma_counts_map_update(entries: Seq<(String, u64)>, i: int, c: u64)
    requires
        0 <= i < entries.len(),
        forall|j: int| 0 <= j < entries.len() && j != i ==> (#[trigger] entries[j]).0@ != entries[i].0@,
    ensures
        counts_map(entries.update(i, (entries[i].0, c))) == counts_map(entries).insert(entries[i].0@, c),
    decreases entries.len(),
{
    let u = entries.update(i, (entries[i].0, c));
    if i == entries.len() - 1 {
        assert(u.drop_last() =~= entries.drop_last());
        lemma_counts_map_domain(entries.drop_last(), entries[i].0@);
        assert(counts_map(u) =~= counts_map(entries).insert(entries[i].0@, c));
    } else {
        lemma_counts_map_update(entries.drop_last(), i, c);
        assert(u.drop_last() =~= entries.drop_last().update(i, (entries[i].0, c)));
        assert(u.last() == entries.last());
        assert(counts_map(u) =~= counts_map(entries).insert(entries[i].0@, c));
    }
}

impl ErrorCounts {
    /// No message is held twice.
    pub closed spec fn wf(&self) -> bool {
        forall|i: int, j: int| 0 <= i < j < self.entries@.len() ==> (#[trigger] self.entries@[i]).0@ != (#[trigger] self.entries@[j]).0@
    }

    /// No error met yet.
    pub fn new() -> (r: Self)
        ensures
            r.wf(),
            r@ == Map::<Seq<char>, u64>::empty(),
    {
        ErrorCounts { entries: Vec::new() }
    }

    /// Counts one more meeting of the error `message`; returns whether it
    /// is the first.
    pub fn record(&mut self, message: &String) -> (first: bool)
        requires
            old(self).wf(),
            old(self)@.dom().contains(message@) ==> old(self)@[message@] < u64::MAX,
        ensures
            final(self).wf(),
            first == !old(self)@.dom().contains(message@),
            final(self)@ == old(self)@.insert(
                message@,
                if first { 1u64 } else { (old(self)@[message@] + 1) as u64 },
            ),
    {
        proof {
            lemma_counts_map_domain(self.entries@, message@);
        }
        let mut found: Option<usize> = None;
        let mut i: usize = 0;
        while i < self.entries.len()
            invariant_except_break
                found is None,
            invariant
                i <= self.entries.len(),
                forall|j: int| 0 <= j < i ==> (#[trigger] self.entries@[j]).0@ != message@,
            ensures
                found matches Some(k) ==> k < self.entries.len() && self.entries@[k as int].0@ == message@,
                found is None ==> forall|j: int| 0 <= j < self.entries.len() ==> (#[trigger] self.entries@[j]).0@ != message@,
            decreases self.entries.len() - i,
        {
            if str_eq(self.entries[i].0.as_str(), message.as_str()) {
                found = Some(i);
                break;
            }
            i += 1;
        }
        if let Some(i) = found {
            let ghost old_entries = self.entries@;
            proof {
                lemma_counts_map_entry(old_entries, i as int);
            }
            let count = self.entries[i].1;
            let name = self.entries[i].0.clone();
            self.entries.set(i, (name, count + 1));
            proof {
                assert(self.entries@ =~= old_entries.update(i as int, (old_entries[i as int].0, (count + 1) as u64)));
                lemma_counts_map_update(old_entries, i as int, (count + 1) as u64);
            }
            return false;
        }
        let ghost old_entries = self.entries@;
        self.entries.push((message.clone(), 1));
        assert(self.entries@.drop_last() =~= old_entries);
        true
    }
}

} // verus!
