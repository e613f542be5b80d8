//! The decisions of the fuzzer that starts the workers: where its corpus
//! files are, how a loaded corpus enters the shared statistics, and how a
//! corpus is shared out between replaying workers.
use vstd::prelude::*;
use std::sync::Arc;
use crate::cairo_fuzz::corpus::rows_view;
use crate::cairo_fuzz::stats::{consistent, inputs_view, share_input, Statistics, StatsView};

verus! {

/// The file the input corpus of function `name` is read from: `input_file`
/// when one was given, else `inputs_corpus/<name>_inputs.json`.
pub fn inputs_corpus_path(input_file: &String, name: &String) -> (r: String)
    ensures
        r@ == (if input_file@.len() == 0 {
            "inputs_corpus/"@ + name@ + "_inputs.json"@
        } else {
            input_file@
        }),
{
    if input_file.as_str().unicode_len() == 0 {
        String::from_str("inputs_corpus/").concat(name.as_str()).concat("_inputs.json")
    } else {
        input_file.clone()
    }
}

/// The file the crash corpus of function `name` is read from: `crash_file`
/// when one was given, else `crashes_corpus/<name>_crashes.json`.
pub fn crashes_corpus_path(crash_file: &String, name: &String) -> (r: String)
    ensures
        r@ == (if crash_file@.len() == 0 {
            "crashes_corpus/"@ + name@ + "_crashes.json"@
        } else {
            crash_file@
        }),
{
    if crash_file.as_str().unicode_len() == 0 {
        String::from_str("crashes_corpus/").concat(name.as_str()).concat("_crashes.json")
    } else {
        crash_file.clone()
    }
}

/// A copy of a byte vector.
pub fn clone_bytes(v: &Vec<u8>) -> (r: Vec<u8>)
    ensures
        r@ == v@,
{
    let mut r: Vec<u8> = Vec::new();
    let mut i: usize = 0;
    while i < v.len()
        invariant
            i <= v.len(),
            r@ == v@.take(i as int),
        decreases v.len() - i,
    {
        r.push(v[i]);
        assert(v@.take(i + 1) =~= v@.take(i as int).push(v@[i as int]));
        i += 1;
    }
    assert(v@.take(v.len() as int) =~= v@);
    r
}

/// Adds a loaded input corpus to the shared statistics: every input joins
/// the input set and is appended to the input list, which the input
/// counter counts. The rest of the statistics is unchanged.
pub fn load_corpus_inputs(stats: &mut Statistics, inputs: &Vec<Vec<u8>>)
    requires
        old(stats).wf(),
        old(stats).input_len + inputs.len() <= usize::MAX,
    ensures
        final(stats).wf(),
        final(stats)@ == (StatsView {
            inputs: old(stats)@.inputs.union(rows_view(inputs@).to_set()),
            input_list: old(stats)@.input_list + rows_view(inputs@),
            input_len: (old(stats)@.input_len + inputs.len()) as nat,
            ..old(stats)@
        }),
{
    let mut i: usize = 0;
    assert(rows_view(inputs@).take(0).to_set() =~= Set::<Seq<u8>>::empty());
    assert(old(stats)@.inputs.union(Set::<Seq<u8>>::empty()) =~= old(stats)@.inputs);
    assert(old(stats)@.input_list + rows_view(inputs@).take(0) =~= old(stats)@.input_list);
    while i < inputs.len()
        invariant
            i <= inputs.len(),
            stats.wf(),
            old(stats).input_len + inputs.len() <= usize::MAX,
            stats@ == (StatsView {
                inputs: old(stats)@.inputs.union(rows_view(inputs@).take(i as int).to_set()),
                input_list: old(stats)@.input_list + rows_view(inputs@).take(i as int),
                input_len: (old(stats)@.input_len + i) as nat,
                ..old(stats)@
            }),
        decreases inputs.len() - i,
    {
        let ghost before = stats@;
        let ghost before_items = stats.input_list@;
        let x = clone_bytes(&inputs[i]);
        let ghost xv = x@;
        let input = Arc::new(x);
        assert(input@ == xv);
        stats.input_db.insert(share_input(&input));
        stats.input_list.push(input);
        stats.input_len += 1;
        proof {
            let s = rows_view(inputs@);
            assert(xv == s[i as int]);
            assert(s.take(i + 1) =~= s.take(i as int) + seq![xv]);
            Seq::lemma_to_set_insert_commutes(s.take(i as int), xv);
            assert(stats@.inputs =~= before.inputs.insert(xv));
            assert(old(stats)@.inputs.union(s.take(i + 1).to_set()) =~= before.inputs.insert(xv));
            assert(stats.input_list@ =~= before_items.push(input));
            assert(inputs_view(stats.input_list@) =~= inputs_view(before_items).push(xv));
            assert(stats@.input_list =~= old(stats)@.input_list + s.take(i + 1));
            assert forall|k: int| 0 <= k < stats@.input_list.len() implies stats@.inputs.contains(#[trigger] stats@.input_list[k]) by {
                if k < before.input_list.len() {
                    assert(stats@.input_list[k] == before.input_list[k]);
                }
            }
            assert forall|t: Seq<(u32, u32)>| #[trigger] stats@.coverage.dom().contains(t) implies stats@.inputs.contains(stats@.coverage[t]) by {
                assert(before.inputs.contains(before.coverage[t]));
            }
            assert forall|x: Seq<u8>| #[trigger] stats@.crash_db.contains(x) implies stats@.inputs.contains(x) by {
                assert(stats@.crash_db == before.crash_db);
                assert(before.crash_db.contains(x));
                assert(before.inputs.contains(x));
            }
            assert(stats@.input_len == stats@.input_list.len());
            assert(consistent(stats@));
        }
        i += 1;
    }
    assert(rows_view(inputs@).take(inputs.len() as int) =~= rows_view(inputs@));
}

/// The corpus a replay runs through: the input corpus when no crash file
/// was given and it is not empty, else the crash corpus.
pub fn choose_replay_corpus(crash_file: &String, inputs: Vec<Vec<u8>>, crashes: Vec<Vec<u8>>) -> (r: Vec<Vec<u8>>)
    ensures
        r == (if crash_file@.len() == 0 && inputs.len() != 0 { inputs } else { crashes }),
{
    if crash_file.as_str().unicode_len() == 0 && inputs.len() != 0 {
        inputs
    } else {
        crashes
    }
}

/// The consecutive pieces of `s` of `n` elements each, the last one
/// possibly shorter.
pub open spec fn spec_chunks<T>(s: Seq<T>, n: nat) -> Seq<Seq<T>>
    decreases s.len(),
{
    if s.len() == 0 || n == 0 {
        Seq::empty()
    } else if s.len() <= n {
        seq![s]
    } else {
        seq![s.take(n as int)] + spec_chunks(s.skip(n as int), n)
    }
}

/// How many inputs each replaying worker gets out of `len` for `cores`
/// workers: `len / cores` when there are more inputs than workers, else
/// one (a negative worker count, read as an unsigned size, is never below
/// the number of inputs).
pub open spec fn spec_chunk_size(len: nat, cores: i32) -> nat {
    let c = cores as usize;
    if len > c {
        len / (c as nat)
    } else {
        1
    }
}

/// The contents of a list of chunks.
pub open spec fn chunks_view(s: Seq<Vec<Vec<u8>>>) -> Seq<Seq<Seq<u8>>> {
    s.map_values(|c: Vec<Vec<u8>>| rows_view(c@))
}

/// Shares a corpus out between `cores` replaying workers: consecutive
/// chunks of `spec_chunk_size` inputs, the last one possibly shorter.
pub fn split_corpus(corpus: &Vec<Vec<u8>>, cores: i32) -> (r: Vec<Vec<Vec<u8>>>)
    requires
        cores != 0 || corpus.len() == 0,
    ensures
        chunks_view(r@) == spec_chunks(rows_view(corpus@), spec_chunk_size(corpus.len() as nat, cores)),
{
    let len = corpus.len();
    let c = cores as usize;
    assert(cores != 0 ==> c != 0) by (bit_vector)
        requires
            c == cores as usize,
    ;
    let n: usize = if len > c { len / c } else { 1 };
    assert(n == spec_chunk_size(len as nat, cores));
    proof {
        if len > c {
            assert(len / c >= 1) by (nonlinear_arith)
                requires
                    len > c,
                    c > 0,
            ;
            assert(len / c <= len) by (nonlinear_arith)
                requires
                    c > 0,
            ;
        }
    }
    let ghost rv = rows_view(corpus@);
    let mut chunks: Vec<Vec<Vec<u8>>> = Vec::new();
    let mut start: usize = 0;
    assert(rv.skip(0) =~= rv);
    assert(chunks_view(chunks@) + spec_chunks(rv.skip(0), n as nat) =~= spec_chunks(rv, n as nat));
    while start < len
        invariant
            len == corpus.len(),
            rv == rows_view(corpus@),
            n >= 1,
            start <= len,
            chunks_view(chunks@) + spec_chunks(rv.skip(start as int), n as nat) == spec_chunks(rv, n as nat),
        decreases len - start,
    {
        let end: usize = if len - start > n { start + n } else { len };
        let mut chunk: Vec<Vec<u8>> = Vec::new();
        let mut k: usize = start;
        while k < end
            invariant
                start <= k <= end <= len,
                len == corpus.len(),
                rows_view(chunk@) == rows_view(corpus@).subrange(start as int, k as int),
            decreases end - k,
        {
            let ghost before = chunk@;
            chunk.push(clone_bytes(&corpus[k]));
            assert(rows_view(chunk@) =~= rows_view(before).push(corpus@[k as int]@));
            assert(rows_view(corpus@).subrange(start as int, k + 1) =~= rows_view(corpus@).subrange(start as int, k as int).push(corpus@[k as int]@));
            k += 1;
        }
        proof {
            let rest = rv.skip(start as int);
            if len - start > n {
                assert(rest.take(n as int) =~= rv.subrange(start as int, end as int));
                assert(rest.skip(n as int) =~= rv.skip(end as int));
            } else {
                assert(rest =~= rv.subrange(start as int, end as int));
                assert(rv.skip(end as int) =~= Seq::<Seq<u8>>::empty());
            }
        }
        let ghost before = chunks@;
        chunks.push(chunk);
        assert(chunks_view(chunks@) =~= chunks_view(before).push(rows_view(chunks@[chunks@.len() - 1]@)));
        assert(chunks_view(chunks@) + spec_chunks(rv.skip(end as int), n as nat) =~= chunks_view(before) + spec_chunks(rv.skip(start as int), n as nat));
        start = end;
    }
    assert(rv.skip(len as int) =~= Seq::<Seq<u8>>::empty());
    assert(chunks_view(chunks@) + Seq::<Seq<Seq<u8>>>::empty() =~= chunks_view(chunks@));
    chunks
}

} // verus!
