use std::sync::Arc;
use vstd::prelude::*;
use vstd::string::*;
use vstd::utf8::encode_utf8;

use crate::rng::{advance, next_state, words, Rng};
use crate::strategies::{
    append, arithmetic, bit_flip, block_removed, byte_flip, copy_byte_range, copy_single_bytes,
    delete_byte_range, delete_single_bytes, insert_constants, insert_from_dict, negate_byte,
    splice, spliced_from, byte_seqs, without_block, swap_neighbors, swap_with_width, tokens_fit, truncate, window_appended,
    MAX_INPUT_LEN, WRITES_PER_CALL, steps, sized_steps, set_result, copy_range_result, delete_range_result,
    append_result, truncate_result, splice_result,
};

verus! {

/// Length of a freshly generated input.
pub const FRESH_LEN: usize = 4096;

/// Shortest input that every strategy can take: the widest window is eight bytes.
pub const MIN_INPUT_LEN: usize = 8;

/// The input being mutated.
#[derive(Debug)]
pub struct TestCase {
    pub data: Vec<u8>,
}

impl Default for TestCase {
    fn default() -> (r: TestCase)
        ensures
            r.data@.len() == 0,
    {
        TestCase { data: Vec::with_capacity(FRESH_LEN) }
    }
}

impl TestCase {
    /// A test case holding a copy of `data`.
    pub fn new(data: &Vec<u8>) -> (r: TestCase)
        ensures
            r.data@ == data@,
    {
        let copy = crate::bytes::copy_window(data, 0, data.len());
        assert(data@.subrange(0, data@.len() as int) =~= data@);
        TestCase { data: copy }
    }

    /// The number of bytes held.
    pub fn size(&self) -> (r: usize)
        ensures
            r == self.data@.len(),
    {
        self.data.len()
    }
}

/// The mutation strategies.
#[derive(Debug, Clone, Copy, PartialEq, Eq, Structural)]
pub enum Mutator {
    BitFlip,
    ByteFlip,
    NegateByte,
    SwapNeighbors,
    SwapEndianness,
    Arithmetic,
    DeleteBytes,
    DeleteRange,
    CopyBytes,
    CopyRange,
    InsertConstants,
    Truncate,
    Append,
    SetRun,
    Splice,
    InsertFromDict,
}

/// The strategies that need nothing but the input, in the order they are registered.
pub open spec fn base_mutators() -> Seq<Mutator> {
    seq![
        Mutator::BitFlip,
        Mutator::ByteFlip,
        Mutator::NegateByte,
        Mutator::SwapNeighbors,
        Mutator::SwapEndianness,
        Mutator::Arithmetic,
        Mutator::DeleteBytes,
        Mutator::DeleteRange,
        Mutator::CopyRange,
        Mutator::CopyBytes,
        Mutator::InsertConstants,
        Mutator::Truncate,
        Mutator::Append,
        Mutator::SetRun,
    ]
}

/// The registered strategies: the base ones, then dictionary insertion if there is a
/// dictionary, then splicing if there is a corpus.
pub open spec fn active_mutators(has_dict: bool, has_corpus: bool) -> Seq<Mutator> {
    let with_dict = if has_dict {
        base_mutators().push(Mutator::InsertFromDict)
    } else {
        base_mutators()
    };
    if has_corpus {
        with_dict.push(Mutator::Splice)
    } else {
        with_dict
    }
}

/// The strategies that never change the size of the input.
pub open spec fn keeps_size(m: Mutator) -> bool {
    !(m is DeleteBytes || m is DeleteRange || m is Truncate || m is Append || m is Splice)
}

/// What strategy `m` does to the size and shape of an input, from `before` to `after`;
/// `entries` is what the corpus holds.
pub open spec fn effect(m: Mutator, before: Seq<u8>, after: Seq<u8>, entries: Seq<Seq<u8>>) -> bool {
    match m {
        Mutator::DeleteBytes => after.len() < before.len(),
        Mutator::DeleteRange => block_removed(before, after),
        Mutator::Truncate => after.len() <= before.len() && after == before.take(after.len() as int),
        Mutator::Append => window_appended(before, after),
        Mutator::Splice => spliced_from(before, after, entries),
        _ => after.len() == before.len(),
    }
}

/// The bytes of each corpus entry; empty without a corpus.
pub open spec fn entries_of(corpus: Option<Arc<Vec<Vec<u8>>>>) -> Seq<Seq<u8>> {
    match corpus {
        Some(c) => byte_seqs(c@),
        None => Seq::empty(),
    }
}

/// `b` can be the input that a call starts from: a corpus entry, or fresh bytes.
pub open spec fn base_of(corpus: Option<Arc<Vec<Vec<u8>>>>, b: Seq<u8>) -> bool {
    match corpus {
        Some(_) => entries_of(corpus).contains(b),
        None => b.len() == FRESH_LEN,
    }
}

/// Every strategy can take `b`: it is long enough, and every token fits in it.
pub open spec fn input_ok(token_dict: Option<Vec<String>>, b: Seq<u8>) -> bool {
    &&& MIN_INPUT_LEN <= b.len() <= MAX_INPUT_LEN
    &&& match token_dict {
        Some(d) => tokens_fit(d@, b.len()),
        None => true,
    }
}

/// A call can go through: corpus and dictionary are not empty, and every input a call can
/// start from suits every strategy.
pub open spec fn ready_for(corpus: Option<Arc<Vec<Vec<u8>>>>, token_dict: Option<Vec<String>>) -> bool {
    &&& match corpus {
        Some(c) => c@.len() > 0,
        None => true,
    }
    &&& match token_dict {
        Some(d) => d@.len() > 0,
        None => true,
    }
    &&& forall|b: Seq<u8>| #[trigger] base_of(corpus, b) ==> input_ok(token_dict, b)
}

/// The words a fresh input takes.
pub open spec fn fresh_words() -> nat {
    (FRESH_LEN / 8) as nat
}

/// The input a call starts from, and the state after drawing it, from state `s`: the corpus
/// entry at the draw modulo the corpus length, or the bytes of the next draws without a corpus.
pub open spec fn base_result(corpus: Option<Arc<Vec<Vec<u8>>>>, s: u64) -> (u64, Seq<u8>) {
    match corpus {
        Some(c) => (next_state(s), entries_of(corpus)[(s as usize) as int % (c@.len() as int)]),
        None => (advance(s, fresh_words()), words(s, fresh_words())),
    }
}

/// The tokens of the dictionary; empty without one.
pub open spec fn tokens_of(token_dict: Option<Vec<String>>) -> Seq<String> {
    match token_dict {
        Some(d) => d@,
        None => Seq::empty(),
    }
}

/// The state and bytes that strategy `m` leaves, from state `s` and input `d`.
pub open spec fn strategy_result(
    m: Mutator,
    s: u64,
    d: Seq<u8>,
    tokens: Seq<String>,
    entries: Seq<Seq<u8>>,
) -> (u64, Seq<u8>) {
    match m {
        Mutator::DeleteRange => delete_range_result(s, d),
        Mutator::CopyRange => copy_range_result(s, d),
        Mutator::InsertConstants => steps(m, Seq::empty(), s, d, WRITES_PER_CALL as nat),
        Mutator::Truncate => truncate_result(s, d),
        Mutator::Append => append_result(s, d),
        Mutator::SetRun => set_result(s, d),
        Mutator::Splice => splice_result(s, d, entries),
        Mutator::InsertFromDict => steps(m, tokens, s, d, WRITES_PER_CALL as nat),
        _ => sized_steps(m, s, d),
    }
}

/// Produces mutated inputs, one call at a time.
#[derive(Debug)]
pub struct MutationEngine {
    pub mutator: Mutator,
    pub test_case: TestCase,
    pub prng: Rng,
    pub mutators: Vec<Mutator>,
    pub token_dict: Option<Vec<String>>,
    pub corpus: Option<Arc<Vec<Vec<u8>>>>,
}

impl MutationEngine {
    /// The bytes of each corpus entry; empty without a corpus.
    pub open spec fn corpus_entries(&self) -> Seq<Seq<u8>> {
        entries_of(self.corpus)
    }

    /// The registered strategies follow the resources at hand, and the last one used is
    /// among them.
    pub open spec fn inv(&self) -> bool {
        &&& self.mutators@ == active_mutators(self.token_dict is Some, self.corpus is Some)
        &&& self.mutators@.contains(self.mutator)
    }

    /// `b` can be the input that a call starts from.
    pub open spec fn is_base(&self, b: Seq<u8>) -> bool {
        base_of(self.corpus, b)
    }

    /// A call can go through.
    pub open spec fn ready(&self) -> bool {
        ready_for(self.corpus, self.token_dict)
    }

    /// Whether a call of `mutate` can go through, as `ready` states it.
    pub fn can_mutate(&self) -> (r: bool)
        ensures
            r == self.ready(),
    {
        let dict_ok = match &self.token_dict {
            Some(d) => d.len() > 0,
            None => true,
        };
        if !dict_ok {
            return false;
        }
        match &self.corpus {
            Some(c) => {
                let entries: &Vec<Vec<u8>> = &**c;
                if entries.len() == 0 {
                    return false;
                }
                let mut i: usize = 0;
                while i < entries.len()
                    invariant
                        i <= entries@.len(),
                        self.corpus == Some(*c),
                        entries@ == c@,
                        forall|k: int| 0 <= k < i ==> input_ok(self.token_dict, #[trigger] entries@[k]@),
                    decreases entries@.len() - i,
                {
                    let n = entries[i].len();
                    let fits = match &self.token_dict {
                        Some(d) => tokens_fit_in(d, n),
                        None => true,
                    };
                    if n < MIN_INPUT_LEN || n > MAX_INPUT_LEN || !fits {
                        assert(base_of(self.corpus, entries@[i as int]@)) by {
                            assert(entries_of(self.corpus)[i as int] == entries@[i as int]@);
                        }
                        return false;
                    }
                    i = i + 1;
                }
                assert forall|b: Seq<u8>| #[trigger] base_of(self.corpus, b) implies input_ok(
                    self.token_dict,
                    b,
                ) by {
                    let k = choose|k: int| 0 <= k < entries_of(self.corpus).len() && entries_of(self.corpus)[k] == b;
                    assert(entries@[k]@ == b);
                }
                true
            },
            None => {
                let fits = match &self.token_dict {
                    Some(d) => tokens_fit_in(d, FRESH_LEN),
                    None => true,
                };
                if !fits {
                    assert(base_of(self.corpus, Seq::new(FRESH_LEN as nat, |j: int| 0u8)));
                    return false;
                }
                true
            },
        }
    }

    /// Registers the strategies that the given resources allow, seeds the generator (a missing
    /// or zero seed takes a clock reading) and, without a test case, generates one.
    pub fn new(
        test_case: Option<TestCase>,
        prng_seed: Option<usize>,
        token_dict: Option<Vec<String>>,
        corpus: Option<Arc<Vec<Vec<u8>>>>,
    ) -> (r: MutationEngine)
        ensures
            r.inv(),
            r.mutator == Mutator::BitFlip,
            r.token_dict == token_dict,
            r.corpus == corpus,
            test_case matches Some(tc) ==> r.test_case == tc,
            test_case is None ==> r.test_case.data@.len() == FRESH_LEN,
            test_case is None && prng_seed is Some && prng_seed.unwrap() != 0 ==> r.test_case.data@
                == words(prng_seed.unwrap() as u64, fresh_words()) && r.prng.0 == advance(
                prng_seed.unwrap() as u64,
                fresh_words(),
            ),
            test_case is Some && prng_seed is Some && prng_seed.unwrap() != 0 ==> r.prng.0
                == prng_seed.unwrap() as u64,
    {
        let mut mutators: Vec<Mutator> = Vec::new();
        mutators.push(Mutator::BitFlip);
        mutators.push(Mutator::ByteFlip);
        mutators.push(Mutator::NegateByte);
        mutators.push(Mutator::SwapNeighbors);
        mutators.push(Mutator::SwapEndianness);
        mutators.push(Mutator::Arithmetic);
        mutators.push(Mutator::DeleteBytes);
        mutators.push(Mutator::DeleteRange);
        mutators.push(Mutator::CopyRange);
        mutators.push(Mutator::CopyBytes);
        mutators.push(Mutator::InsertConstants);
        mutators.push(Mutator::Truncate);
        mutators.push(Mutator::Append);
        mutators.push(Mutator::SetRun);
        assert(mutators@ =~= base_mutators());
        if token_dict.is_some() {
            mutators.push(Mutator::InsertFromDict);
        }
        if corpus.is_some() {
            mutators.push(Mutator::Splice);
        }
        assert(mutators@ =~= active_mutators(token_dict is Some, corpus is Some));
        assert(mutators@[0] == Mutator::BitFlip);
        let mut prng = match prng_seed {
            Some(seed) => Rng::new(seed),
            None => Rng::new(0),
        };
        let ghost old_prng_state = prng.0;
        let test_case = match test_case {
            Some(tc) => tc,
            None => {
                let mut tc = TestCase::default();
                prng.fill_bytes(&mut tc.data, FRESH_LEN);
                assert(tc.data@ =~= Seq::<u8>::empty() + words(
                    old_prng_state@,
                    fresh_words(),
                ));
                tc
            },
        };
        MutationEngine {
            mutator: Mutator::BitFlip,
            test_case,
            prng,
            mutators,
            token_dict,
            corpus,
        }
    }

    /// Records the registered strategy at position `num` as the one in use.
    fn get_mutator(&mut self, num: usize)
        requires
            num < old(self).mutators@.len(),
        ensures
            final(self).mutator == old(self).mutators@[num as int],
            final(self).mutators == old(self).mutators,
            final(self).test_case == old(self).test_case,
            final(self).prng == old(self).prng,
            final(self).token_dict == old(self).token_dict,
            final(self).corpus == old(self).corpus,
    {
        self.mutator = self.mutators[num];
    }

    /// Replaces the input with a random corpus entry, or with fresh random bytes when there is
    /// no corpus.
    fn select_random_test_case(&mut self)
        requires
            old(self).ready(),
        ensures
            old(self).is_base(final(self).test_case.data@),
            (final(self).prng.0, final(self).test_case.data@) == base_result(
                old(self).corpus,
                old(self).prng.0,
            ),
            final(self).mutator == old(self).mutator,
            final(self).mutators == old(self).mutators,
            final(self).token_dict == old(self).token_dict,
            final(self).corpus == old(self).corpus,
    {
        match &self.corpus {
            Some(c) => {
                let entries: &Vec<Vec<u8>> = &**c;
                let i = self.prng.rand() % entries.len();
                self.test_case = TestCase::new(&entries[i]);
                assert(entries_of(self.corpus)[i as int] == entries@[i as int]@);
            },
            None => {
                let mut data: Vec<u8> = Vec::with_capacity(FRESH_LEN);
                self.prng.fill_bytes(&mut data, FRESH_LEN);
                assert(data@ =~= Seq::<u8>::empty() + words(old(self).prng.0, fresh_words()));
                self.test_case = TestCase::new(&data);
            },
        }
    }

    /// Picks a registered strategy, starts over from a random corpus entry (or fresh random
    /// bytes), applies the strategy and hands back the result.
    pub fn mutate(&mut self) -> (r: &Vec<u8>)
        requires
            old(self).inv(),
            old(self).ready(),
        ensures
            final(self).inv(),
            final(self).ready(),
            final(self).mutators == old(self).mutators,
            final(self).token_dict == old(self).token_dict,
            final(self).corpus == old(self).corpus,
            final(self).mutator == old(self).mutators@[(old(self).prng.0 as usize) as int
                % old(self).mutators@.len() as int],
            r@ == final(self).test_case.data@,
            ({
                let (s, base) = base_result(old(self).corpus, next_state(old(self).prng.0));
                (final(self).prng.0, final(self).test_case.data@) == strategy_result(
                    final(self).mutator,
                    s,
                    base,
                    tokens_of(old(self).token_dict),
                    old(self).corpus_entries(),
                )
            }),
            exists|b: Seq<u8>|
                #[trigger] old(self).is_base(b) && effect(
                    final(self).mutator,
                    b,
                    final(self).test_case.data@,
                    old(self).corpus_entries(),
                ),
    {
        let m = self.prng.gen_range(0, self.mutators.len() - 1);
        self.get_mutator(m);
        self.select_random_test_case();
        let ghost base = self.test_case.data@;
        assert(input_ok(self.token_dict, base));
        match self.mutator {
            Mutator::BitFlip => bit_flip(&mut self.prng, &mut self.test_case.data),
            Mutator::ByteFlip => byte_flip(&mut self.prng, &mut self.test_case.data),
            Mutator::NegateByte => negate_byte(&mut self.prng, &mut self.test_case.data),
            Mutator::SwapNeighbors => swap_neighbors(&mut self.prng, &mut self.test_case.data),
            Mutator::SwapEndianness => swap_with_width(&mut self.prng, &mut self.test_case.data),
            Mutator::Arithmetic => arithmetic(&mut self.prng, &mut self.test_case.data),
            Mutator::DeleteBytes => delete_single_bytes(&mut self.prng, &mut self.test_case.data),
            Mutator::DeleteRange => delete_byte_range(&mut self.prng, &mut self.test_case.data),
            Mutator::CopyBytes => copy_single_bytes(&mut self.prng, &mut self.test_case.data),
            Mutator::CopyRange => copy_byte_range(&mut self.prng, &mut self.test_case.data),
            Mutator::InsertConstants => insert_constants(&mut self.prng, &mut self.test_case.data),
            Mutator::Truncate => truncate(&mut self.prng, &mut self.test_case.data),
            Mutator::Append => append(&mut self.prng, &mut self.test_case.data),
            Mutator::SetRun => crate::strategies::set(&mut self.prng, &mut self.test_case.data),
            Mutator::Splice => {
                if let Some(c) = &self.corpus {
                    assert forall|i: int| 0 <= i < c@.len() implies (#[trigger] c@[i])@.len() >= 1 by {
                        assert(entries_of(self.corpus)[i] == c@[i]@);
                        assert(base_of(self.corpus, c@[i]@));
                    }
                    splice(&mut self.prng, &mut self.test_case.data, &**c);
                }
            },
            Mutator::InsertFromDict => {
                if let Some(d) = &self.token_dict {
                    insert_from_dict(&mut self.prng, &mut self.test_case.data, d);
                }
            },
        }
        proof {
            lemma_unavailable_never_selected(self);
            assert(old(self).is_base(base));
        }
        &self.test_case.data
    }
}

/// A strategy whose resource is missing is never the one in use: no dictionary, no dictionary
/// insertion; no corpus, no splicing.
pub proof fn lemma_unavailable_never_selected(e: &MutationEngine)
    requires
        e.inv(),
    ensures
        e.token_dict is None ==> e.mutator != Mutator::InsertFromDict,
        e.corpus is None ==> e.mutator != Mutator::Splice,
{
    let s = e.mutators@;
    let i = choose|i: int| 0 <= i < s.len() && s[i] == e.mutator;
    assert(0 <= i < s.len() && s[i] == e.mutator);
}

/// The size effect of each strategy: the size-keeping ones keep the length, deletions shrink the
/// input, truncation never grows it and appending always grows it.
pub proof fn lemma_size_effects(m: Mutator, before: Seq<u8>, after: Seq<u8>, entries: Seq<Seq<u8>>)
    requires
        effect(m, before, after, entries),
    ensures
        keeps_size(m) ==> after.len() == before.len(),
        m is DeleteBytes || m is DeleteRange ==> after.len() < before.len(),
        m is Truncate ==> after.len() <= before.len(),
        m is Append ==> after.len() > before.len(),
{
    if m is DeleteRange {
        let (at, n) = choose|at: int, n: int|
            0 <= at && 1 <= n && at + n <= before.len() && after == #[trigger] without_block(
                before,
                at,
                n,
            );
        assert(after.len() == before.len() - n);
    }
    if m is Append {
        let (at, n) = choose|at: int, n: int|
            0 <= at && 1 <= n && at + n <= before.len() && after == before + #[trigger] before.subrange(
                at,
                at + n,
            );
        assert(after.len() == before.len() + n);
    }
}

/// Whether every token fits in `len` bytes.
fn tokens_fit_in(tokens: &Vec<String>, len: usize) -> (r: bool)
    ensures
        r == tokens_fit(tokens@, len as nat),
{
    let mut t: usize = 0;
    while t < tokens.len()
        invariant
            t <= tokens@.len(),
            forall|k: int| 0 <= k < t ==> encode_utf8(#[trigger] tokens@[k]@).len() <= len,
        decreases tokens@.len() - t,
    {
        let n = tokens[t].as_str().as_bytes().len();
        if n > len {
            return false;
        }
        t = t + 1;
    }
    true
}

} // verus!
