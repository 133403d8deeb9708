use vstd::prelude::*;
use vstd::string::*;
use vstd::utf8::encode_utf8;

use crate::bytes::{
    copy_window, overwrite_at, remove_window, reverse_window, splice_bytes, step_window, write_be,
    written_at,
};
use crate::magic::{MAGIC_16, MAGIC_32, MAGIC_64, MAGIC_8};
use crate::engine::Mutator;
use crate::bytes::{be_bytes, be_value, reversed_at, stepped};
use crate::rng::{next_state, range_next, range_value, Rng};

verus! {

/// Bit masks with one bit set.
pub const BIT_MASKS: [u8; 8] = [1, 2, 4, 8, 16, 32, 64, 128];

/// Window widths for swapping and arithmetic.
pub const WIDTHS: [usize; 3] = [2, 4, 8];

/// How many times constants and tokens are written per call.
pub const WRITES_PER_CALL: usize = 10;

/// Longest input the strategies take: a vector of bytes never holds more.
pub const MAX_INPUT_LEN: usize = usize::MAX / 2;

/// The iteration count or span length for an input of `len` bytes, with `r` drawn from `0..10`:
/// one to ten percent of the length, plus one.
pub open spec fn mutation_size_for(len: nat, r: nat) -> nat {
    len * (r + 1) / 100 + 1
}

/// How many trailing bytes a cut of `p` percent drops from `len` bytes.
pub open spec fn cut_for(len: nat, p: nat) -> nat {
    len * p / 100
}

/// `after` is `before` less a block of at least one byte.
pub open spec fn block_removed(before: Seq<u8>, after: Seq<u8>) -> bool {
    exists|at: int, n: int|
        0 <= at && 1 <= n && at + n <= before.len() && after == #[trigger] without_block(before, at, n)
}

/// `s` without the `n` bytes from `at` on.
pub open spec fn without_block(s: Seq<u8>, at: int, n: int) -> Seq<u8> {
    s.take(at) + s.skip(at + n)
}

/// `after` is `before` followed by a copy of one of its own windows, at least one byte long.
pub open spec fn window_appended(before: Seq<u8>, after: Seq<u8>) -> bool {
    exists|at: int, n: int|
        0 <= at && 1 <= n && at + n <= before.len() && after == before + #[trigger] before.subrange(
            at,
            at + n,
        )
}

/// `after` is a prefix of `before` followed by a suffix of one of the `entries`.
pub open spec fn spliced_from(before: Seq<u8>, after: Seq<u8>, entries: Seq<Seq<u8>>) -> bool {
    exists|split: int, i: int, from: int|
        #![trigger before.take(split), entries[i].skip(from)]
        0 <= split < before.len() && 0 <= i < entries.len() && 0 <= from < entries[i].len()
            && after == before.take(split) + entries[i].skip(from)
}

/// What each of the vectors `v` holds, in order.
pub open spec fn byte_seqs(v: Seq<Vec<u8>>) -> Seq<Seq<u8>> {
    v.map_values(|e: Vec<u8>| e@)
}

/// Every token fits in `len` bytes.
pub open spec fn tokens_fit(tokens: Seq<String>, len: nat) -> bool {
    forall|t: int| 0 <= t < tokens.len() ==> encode_utf8(#[trigger] tokens[t]@).len() <= len
}

/// `n` copies of `v`.
pub open spec fn run_of(v: u8, n: nat) -> Seq<u8> {
    Seq::new(n, |j: int| v)
}

/// The draw that `rand` hands out from state `s`.
pub open spec fn drawn(s: u64) -> int {
    (s as usize) as int
}

/// Bit flip, one step: xor the byte at a drawn index with a drawn one-bit mask.
pub open spec fn bit_flip_step(s: u64, d: Seq<u8>) -> (u64, Seq<u8>) {
    let hi = (d.len() - 1) as usize;
    let idx = range_value(s, 0, hi) as int;
    let s1 = range_next(s, 0, hi);
    (next_state(s1), d.update(idx, d[idx] ^ BIT_MASKS@[drawn(s1) % 8]))
}

/// Byte flip, one step: xor the byte at a drawn index with a drawn byte.
pub open spec fn byte_flip_step(s: u64, d: Seq<u8>) -> (u64, Seq<u8>) {
    let hi = (d.len() - 1) as usize;
    let idx = range_value(s, 0, hi) as int;
    let s1 = range_next(s, 0, hi);
    (next_state(s1), d.update(idx, d[idx] ^ ((drawn(s1) % 255) as u8)))
}

/// Negation, one step: complement the byte at a drawn index.
pub open spec fn negate_step(s: u64, d: Seq<u8>) -> (u64, Seq<u8>) {
    let hi = (d.len() - 1) as usize;
    let idx = range_value(s, 0, hi) as int;
    (range_next(s, 0, hi), d.update(idx, !d[idx]))
}

/// Neighbour swap, one step: reverse the two bytes at a drawn index.
pub open spec fn swap_neighbors_step(s: u64, d: Seq<u8>) -> (u64, Seq<u8>) {
    let hi = (d.len() - 2) as usize;
    (range_next(s, 0, hi), reversed_at(d, range_value(s, 0, hi) as int, 2))
}

/// Endianness swap, one step: reverse a window of drawn width at a drawn offset.
pub open spec fn swap_width_step(s: u64, d: Seq<u8>) -> (u64, Seq<u8>) {
    let w = WIDTHS@[drawn(s) % 3];
    let s1 = next_state(s);
    let hi = (d.len() - w) as usize;
    (range_next(s1, 0, hi), reversed_at(d, range_value(s1, 0, hi) as int, w as int))
}

/// Arithmetic, one step: add or take one from the big-endian number in a window of drawn
/// width at a drawn offset, the direction drawn last.
pub open spec fn arithmetic_step(s: u64, d: Seq<u8>) -> (u64, Seq<u8>) {
    let w = WIDTHS@[drawn(s) % 3];
    let s1 = next_state(s);
    let hi = (d.len() - w) as usize;
    let at = range_value(s1, 0, hi) as int;
    let s2 = range_next(s1, 0, hi);
    let increment = drawn(s2) % 2 == 0;
    (
        next_state(s2),
        written_at(d, at, be_bytes(stepped(be_value(d.subrange(at, at + w)), w as nat, increment), w as nat)),
    )
}

/// Byte copy, one step: the byte at a drawn index goes to another drawn index.
pub open spec fn copy_bytes_step(s: u64, d: Seq<u8>) -> (u64, Seq<u8>) {
    let hi = (d.len() - 1) as usize;
    let from = range_value(s, 0, hi) as int;
    let s1 = range_next(s, 0, hi);
    let to = range_value(s1, 0, hi) as int;
    (range_next(s1, 0, hi), d.update(to, d[from]))
}

/// Single deletion, one step: remove the byte at an index drawn against the current length.
pub open spec fn delete_step(s: u64, d: Seq<u8>) -> (u64, Seq<u8>) {
    let hi = (d.len() - 1) as usize;
    (range_next(s, 0, hi), d.remove(range_value(s, 0, hi) as int))
}

/// The big-endian width and value of a constant of the drawn class, picked by state `s`.
pub open spec fn constant_of(class: usize, s: u64) -> (nat, nat) {
    if class == 0 {
        (1, MAGIC_8@[drawn(s) % 9] as nat)
    } else if class == 1 {
        (2, MAGIC_16@[drawn(s) % 10] as nat)
    } else if class == 2 {
        (4, MAGIC_32@[drawn(s) % 8] as nat)
    } else {
        (8, MAGIC_64@[drawn(s) % 6] as nat)
    }
}

/// Constant insertion, one step: a drawn class, a drawn constant of it, a drawn offset.
pub open spec fn constant_step(s: u64, d: Seq<u8>) -> (u64, Seq<u8>) {
    let class = range_value(s, 0, 3);
    let s1 = range_next(s, 0, 3);
    let (w, v) = constant_of(class, s1);
    let s2 = next_state(s1);
    let hi = (d.len() - w) as usize;
    (range_next(s2, 0, hi), written_at(d, range_value(s2, 0, hi) as int, be_bytes(v, w)))
}

/// Token insertion, one step: the bytes of a drawn token at a drawn offset.
pub open spec fn token_step(tokens: Seq<String>, s: u64, d: Seq<u8>) -> (u64, Seq<u8>) {
    let t = encode_utf8(tokens[drawn(s) % (tokens.len() as int)]@);
    let s1 = next_state(s);
    let hi = (d.len() - t.len()) as usize;
    (range_next(s1, 0, hi), written_at(d, range_value(s1, 0, hi) as int, t))
}

/// `k` steps of the repeated strategy `m` from state `s` and input `d`.
pub open spec fn steps(m: Mutator, tokens: Seq<String>, s: u64, d: Seq<u8>, k: nat) -> (u64, Seq<u8>)
    decreases k,
{
    if k == 0 {
        (s, d)
    } else {
        let p = steps(m, tokens, s, d, (k - 1) as nat);
        step_of(m, tokens, p.0, p.1)
    }
}

/// One step of each repeated strategy; the others take no steps.
pub open spec fn step_of(m: Mutator, tokens: Seq<String>, s: u64, d: Seq<u8>) -> (u64, Seq<u8>) {
    match m {
        Mutator::BitFlip => bit_flip_step(s, d),
        Mutator::ByteFlip => byte_flip_step(s, d),
        Mutator::NegateByte => negate_step(s, d),
        Mutator::SwapNeighbors => swap_neighbors_step(s, d),
        Mutator::SwapEndianness => swap_width_step(s, d),
        Mutator::Arithmetic => arithmetic_step(s, d),
        Mutator::CopyBytes => copy_bytes_step(s, d),
        Mutator::DeleteBytes => delete_step(s, d),
        Mutator::InsertConstants => constant_step(s, d),
        Mutator::InsertFromDict => token_step(tokens, s, d),
        _ => (s, d),
    }
}

/// The state after the span-length draw, and the span length, for an input of `len` bytes.
pub open spec fn sized(s: u64, len: nat) -> (u64, nat) {
    (next_state(s), mutation_size_for(len, (drawn(s) % 10) as nat))
}

/// A repeated strategy that first draws its span length, then takes that many steps.
pub open spec fn sized_steps(m: Mutator, s: u64, d: Seq<u8>) -> (u64, Seq<u8>) {
    let (s1, n) = sized(s, d.len());
    steps(m, Seq::empty(), s1, d, n)
}

/// Set: a drawn value over a drawn run at a drawn offset.
pub open spec fn set_result(s: u64, d: Seq<u8>) -> (u64, Seq<u8>) {
    let v = (drawn(s) % 255) as u8;
    let s1 = next_state(s);
    let at = range_value(s1, 0, (d.len() - 1) as usize);
    let s2 = range_next(s1, 0, (d.len() - 1) as usize);
    let n = range_value(s2, 0, (d.len() - at - 1) as usize);
    (range_next(s2, 0, (d.len() - at - 1) as usize), written_at(d, at as int, run_of(v, n as nat)))
}

/// Range copy: a span-length window at a drawn offset over another drawn offset.
pub open spec fn copy_range_result(s: u64, d: Seq<u8>) -> (u64, Seq<u8>) {
    let (s1, n) = sized(s, d.len());
    let hi = (d.len() - n) as usize;
    let from = range_value(s1, 0, hi) as int;
    let s2 = range_next(s1, 0, hi);
    let to = range_value(s2, 0, hi) as int;
    (range_next(s2, 0, hi), written_at(d, to, d.subrange(from, from + n)))
}

/// Range deletion: a span-length block at a drawn offset goes.
pub open spec fn delete_range_result(s: u64, d: Seq<u8>) -> (u64, Seq<u8>) {
    let (s1, n) = sized(s, d.len());
    let hi = (d.len() - n) as usize;
    (range_next(s1, 0, hi), without_block(d, range_value(s1, 0, hi) as int, n as int))
}

/// Append: a copy of a span-length window at a drawn offset goes to the end.
pub open spec fn append_result(s: u64, d: Seq<u8>) -> (u64, Seq<u8>) {
    let (s1, n) = sized(s, d.len());
    let hi = (d.len() - n) as usize;
    let from = range_value(s1, 0, hi) as int;
    (range_next(s1, 0, hi), d + d.subrange(from, from + n))
}

/// Truncation: the trailing `p` percent go, `p` drawn from `0..50`.
pub open spec fn truncate_result(s: u64, d: Seq<u8>) -> (u64, Seq<u8>) {
    let p = range_value(s, 0, 49);
    (range_next(s, 0, 49), d.take(d.len() - cut_for(d.len(), p as nat)))
}

/// Splice: the input before a drawn split, then a drawn entry from a drawn offset on.
pub open spec fn splice_result(s: u64, d: Seq<u8>, entries: Seq<Seq<u8>>) -> (u64, Seq<u8>) {
    let hi = (d.len() - 1) as usize;
    let split = range_value(s, 0, hi) as int;
    let s1 = range_next(s, 0, hi);
    let e = entries[drawn(s1) % (entries.len() as int)];
    let s2 = next_state(s1);
    let ehi = (e.len() - 1) as usize;
    (range_next(s2, 0, ehi), d.take(split) + e.skip(range_value(s2, 0, ehi) as int))
}

/// Draws the span length for an input of `len` bytes.
pub fn mutation_size(rng: &mut Rng, len: usize) -> (r: usize)
    ensures
        r as nat == mutation_size_for(len as nat, ((old(rng).0 as usize) % 10) as nat),
        1 <= r,
        len >= 1 ==> r <= len,
        r <= len / 10 + 1,
        final(rng).0 == crate::rng::next_state(old(rng).0),
{
    let k = rng.gen_range(0, 9);
    let q = len / 100;
    let m = len % 100;
    proof {
        assert(len as nat == 100 * q + m);
        assert((len as nat) * (k + 1) == 100 * (q * (k + 1)) + m * (k + 1)) by (nonlinear_arith)
            requires
                len as nat == 100 * q + m,
        ;
        vstd::arithmetic::div_mod::lemma_hoist_over_denominator(
            (m * (k + 1)) as int,
            (q * (k + 1)) as int,
            100,
        );
        assert(q * (k + 1) <= q * 10) by (nonlinear_arith)
            requires
                k <= 9,
        ;
        assert(m * (k + 1) < 1000) by (nonlinear_arith)
            requires
                k <= 9,
                m < 100,
        ;
        assert((len as nat) * (k + 1) <= len * 10) by (nonlinear_arith)
            requires
                k <= 9,
        ;
        assert(len * 10 / 100 == len / 10);
    }
    let r = q * (k + 1) + (m * (k + 1)) / 100 + 1;
    proof {
        assert((m * (k + 1)) as int + 100 * (q * (k + 1)) == 100 * (q * (k + 1)) + m * (k + 1));
        vstd::arithmetic::div_mod::lemma_div_is_ordered(
            (len as nat) * (k + 1),
            len * 10,
            100,
        );
    }
    r
}

/// Draws a window width: 2, 4 or 8 bytes.
fn pick_width(rng: &mut Rng) -> (w: usize)
    ensures
        w == WIDTHS@[drawn(old(rng).0) % 3],
        w == 2 || w == 4 || w == 8,
        final(rng).0 == next_state(old(rng).0),
{
    rng.pick(&WIDTHS)
}

/// Xors a random byte with a one-bit mask, a mutation-size number of times.
pub fn bit_flip(rng: &mut Rng, data: &mut Vec<u8>)
    requires
        old(data)@.len() >= 1,
    ensures
        (final(rng).0, final(data)@) == sized_steps(Mutator::BitFlip, old(rng).0, old(data)@),
        final(data)@.len() == old(data)@.len(),
{
    let ghost d0 = data@;
    let len = data.len();
    let n = mutation_size(rng, len);
    let ghost s1 = rng.0;
    let mut k: usize = 0;
    while k < n
        invariant
            k <= n,
            (rng.0, data@) == steps(Mutator::BitFlip, Seq::empty(), s1, d0, k as nat),
            data@.len() == len >= 1,
        decreases n - k,
    {
        let idx = rng.gen_range(0, len - 1);
        let mask = rng.pick(&BIT_MASKS);
        let b = data[idx];
        data.set(idx, b ^ mask);
        proof {
            assert(((k + 1) - 1) as nat == k as nat);
        }
        k = k + 1;
    }
}

/// Xors a random byte with a random value, a mutation-size number of times.
pub fn byte_flip(rng: &mut Rng, data: &mut Vec<u8>)
    requires
        old(data)@.len() >= 1,
    ensures
        (final(rng).0, final(data)@) == sized_steps(Mutator::ByteFlip, old(rng).0, old(data)@),
        final(data)@.len() == old(data)@.len(),
{
    let ghost d0 = data@;
    let len = data.len();
    let n = mutation_size(rng, len);
    let ghost s1 = rng.0;
    let mut k: usize = 0;
    while k < n
        invariant
            k <= n,
            (rng.0, data@) == steps(Mutator::ByteFlip, Seq::empty(), s1, d0, k as nat),
            data@.len() == len >= 1,
        decreases n - k,
    {
        let idx = rng.gen_range(0, len - 1);
        let v = rng.gen_byte();
        let b = data[idx];
        data.set(idx, b ^ v);
        proof {
            assert(((k + 1) - 1) as nat == k as nat);
        }
        k = k + 1;
    }
}

/// Writes one random value over a random run that starts at a random offset and may be empty.
pub fn set(rng: &mut Rng, data: &mut Vec<u8>)
    requires
        old(data)@.len() >= 1,
    ensures
        (final(rng).0, final(data)@) == set_result(old(rng).0, old(data)@),
        final(data)@.len() == old(data)@.len(),
{
    let ghost start = data@;
    let len = data.len();
    let v = rng.gen_byte();
    let at = rng.gen_range(0, len - 1);
    let n = rng.gen_range(0, (len - at) - 1);
    let mut k: usize = 0;
    while k < n
        invariant
            data@.len() == len == start.len(),
            at + n < len,
            k <= n,
            forall|j: int| 0 <= j < len && !(at <= j < at + k) ==> data@[j] == start[j],
            forall|j: int| at <= j < at + k ==> data@[j] == v,
        decreases n - k,
    {
        data.set(at + k, v);
        k = k + 1;
    }
    assert(data@ =~= written_at(start, at as int, run_of(v, n as nat)));
    assert((rng.0, data@) == set_result(old(rng).0, start));
}

/// Complements a random byte, a mutation-size number of times.
pub fn negate_byte(rng: &mut Rng, data: &mut Vec<u8>)
    requires
        old(data)@.len() >= 1,
    ensures
        (final(rng).0, final(data)@) == sized_steps(Mutator::NegateByte, old(rng).0, old(data)@),
        final(data)@.len() == old(data)@.len(),
{
    let ghost d0 = data@;
    let len = data.len();
    let n = mutation_size(rng, len);
    let ghost s1 = rng.0;
    let mut k: usize = 0;
    while k < n
        invariant
            k <= n,
            (rng.0, data@) == steps(Mutator::NegateByte, Seq::empty(), s1, d0, k as nat),
            data@.len() == len >= 1,
        decreases n - k,
    {
        let idx = rng.gen_range(0, len - 1);
        let b = data[idx];
        data.set(idx, !b);
        proof {
            assert(((k + 1) - 1) as nat == k as nat);
        }
        k = k + 1;
    }
}

/// Swaps a random byte with the next one, a mutation-size number of times.
pub fn swap_neighbors(rng: &mut Rng, data: &mut Vec<u8>)
    requires
        old(data)@.len() >= 2,
    ensures
        final(data)@.to_multiset() == old(data)@.to_multiset(),
        (final(rng).0, final(data)@) == sized_steps(Mutator::SwapNeighbors, old(rng).0, old(data)@),
        final(data)@.len() == old(data)@.len(),
{
    let ghost d0 = data@;
    let len = data.len();
    let n = mutation_size(rng, len);
    let ghost s1 = rng.0;
    let mut k: usize = 0;
    while k < n
        invariant
            k <= n,
            (rng.0, data@) == steps(Mutator::SwapNeighbors, Seq::empty(), s1, d0, k as nat),
            data@.len() == len >= 2,
        decreases n - k,
    {
        let idx = rng.gen_range(0, len - 2);
        reverse_window(data, idx, 2);
        proof {
            assert(((k + 1) - 1) as nat == k as nat);
        }
        k = k + 1;
    }
    proof {
        lemma_swap_neighbors_permutes(s1, d0, n as nat);
    }
}

/// Reverses a randomly placed window of 2, 4 or 8 bytes, a mutation-size number of times.
pub fn swap_with_width(rng: &mut Rng, data: &mut Vec<u8>)
    requires
        old(data)@.len() >= 8,
    ensures
        (final(rng).0, final(data)@) == sized_steps(Mutator::SwapEndianness, old(rng).0, old(data)@),
        final(data)@.len() == old(data)@.len(),
{
    let ghost d0 = data@;
    let len = data.len();
    let n = mutation_size(rng, len);
    let ghost s1 = rng.0;
    let mut k: usize = 0;
    while k < n
        invariant
            k <= n,
            (rng.0, data@) == steps(Mutator::SwapEndianness, Seq::empty(), s1, d0, k as nat),
            data@.len() == len >= 8,
        decreases n - k,
    {
        let w = pick_width(rng);
        let idx = rng.gen_range(0, len - w);
        reverse_window(data, idx, w);
        proof {
            assert(((k + 1) - 1) as nat == k as nat);
        }
        k = k + 1;
    }
}

/// Adds or takes one from a randomly placed big-endian number of 2, 4 or 8 bytes, wrapping,
/// a mutation-size number of times.
pub fn arithmetic(rng: &mut Rng, data: &mut Vec<u8>)
    requires
        old(data)@.len() >= 8,
    ensures
        (final(rng).0, final(data)@) == sized_steps(Mutator::Arithmetic, old(rng).0, old(data)@),
        final(data)@.len() == old(data)@.len(),
{
    let ghost d0 = data@;
    let len = data.len();
    let n = mutation_size(rng, len);
    let ghost s1 = rng.0;
    let mut k: usize = 0;
    while k < n
        invariant
            k <= n,
            (rng.0, data@) == steps(Mutator::Arithmetic, Seq::empty(), s1, d0, k as nat),
            data@.len() == len >= 8,
        decreases n - k,
    {
        let w = pick_width(rng);
        let idx = rng.gen_range(0, len - w);
        let increment = rng.bool();
        step_window(data, idx, w, increment);
        proof {
            assert(((k + 1) - 1) as nat == k as nat);
        }
        k = k + 1;
    }
}

/// Removes one byte at a time, a mutation-size number of times, each index drawn against the
/// current length.
pub fn delete_single_bytes(rng: &mut Rng, data: &mut Vec<u8>)
    requires
        old(data)@.len() >= 1,
    ensures
        (final(rng).0, final(data)@) == sized_steps(Mutator::DeleteBytes, old(rng).0, old(data)@),
        final(data)@.len() < old(data)@.len(),
        final(data)@.len() == old(data)@.len() - mutation_size_for(
            old(data)@.len(),
            ((old(rng).0 as usize) % 10) as nat,
        ),
{
    let ghost d0 = data@;
    let len = data.len();
    let n = mutation_size(rng, len);
    let ghost s1 = rng.0;
    let mut k: usize = 0;
    while k < n
        invariant
            k <= n,
            (rng.0, data@) == steps(Mutator::DeleteBytes, Seq::empty(), s1, d0, k as nat),
            n <= len,
            k <= n,
            data@.len() == len - k,
        decreases n - k,
    {
        let idx = rng.gen_range(0, data.len() - 1);
        data.remove(idx);
        proof {
            assert(((k + 1) - 1) as nat == k as nat);
        }
        k = k + 1;
    }
}

/// Removes one block of mutation-size bytes at a random offset.
pub fn delete_byte_range(rng: &mut Rng, data: &mut Vec<u8>)
    requires
        old(data)@.len() >= 1,
    ensures
        (final(rng).0, final(data)@) == delete_range_result(old(rng).0, old(data)@),
        block_removed(old(data)@, final(data)@),
{
    let len = data.len();
    let n = mutation_size(rng, len);
    let at = rng.gen_range(0, len - n);
    remove_window(data, at, n);
    assert(data@ == without_block(old(data)@, at as int, n as int));
}

/// Overwrites a random byte with another random byte, a mutation-size number of times.
pub fn copy_single_bytes(rng: &mut Rng, data: &mut Vec<u8>)
    requires
        old(data)@.len() >= 1,
    ensures
        (final(rng).0, final(data)@) == sized_steps(Mutator::CopyBytes, old(rng).0, old(data)@),
        final(data)@.len() == old(data)@.len(),
{
    let ghost d0 = data@;
    let len = data.len();
    let n = mutation_size(rng, len);
    let ghost s1 = rng.0;
    let mut k: usize = 0;
    while k < n
        invariant
            k <= n,
            (rng.0, data@) == steps(Mutator::CopyBytes, Seq::empty(), s1, d0, k as nat),
            data@.len() == len >= 1,
        decreases n - k,
    {
        let from = rng.gen_range(0, len - 1);
        let to = rng.gen_range(0, len - 1);
        let b = data[from];
        data.set(to, b);
        proof {
            assert(((k + 1) - 1) as nat == k as nat);
        }
        k = k + 1;
    }
}

/// Copies a mutation-size window over another one; the source is copied out before writing.
pub fn copy_byte_range(rng: &mut Rng, data: &mut Vec<u8>)
    requires
        old(data)@.len() >= 1,
    ensures
        (final(rng).0, final(data)@) == copy_range_result(old(rng).0, old(data)@),
        final(data)@.len() == old(data)@.len(),
{
    let len = data.len();
    let n = mutation_size(rng, len);
    let from = rng.gen_range(0, len - n);
    let to = rng.gen_range(0, len - n);
    let snapshot = copy_window(data, from, n);
    overwrite_at(data, to, snapshot.as_slice());
    assert(data@ == written_at(old(data)@, to as int, old(data)@.subrange(from as int, from + n)));
    assert((rng.0, data@) == copy_range_result(old(rng).0, old(data)@));
}

/// Writes boundary constants of 1, 2, 4 or 8 bytes, big-endian, at random offsets.
pub fn insert_constants(rng: &mut Rng, data: &mut Vec<u8>)
    requires
        old(data)@.len() >= 8,
    ensures
        (final(rng).0, final(data)@) == steps(
            Mutator::InsertConstants,
            Seq::empty(),
            old(rng).0,
            old(data)@,
            WRITES_PER_CALL as nat,
        ),
        final(data)@.len() == old(data)@.len(),
{
    let ghost d0 = data@;
    let ghost s0 = rng.0;
    let len = data.len();
    let mut k: usize = 0;
    while k < WRITES_PER_CALL
        invariant
            k <= WRITES_PER_CALL,
            (rng.0, data@) == steps(Mutator::InsertConstants, Seq::empty(), s0, d0, k as nat),
            data@.len() == len >= 8,
        decreases WRITES_PER_CALL - k,
    {
        let class = rng.gen_range(0, 3);
        if class == 0 {
            let v = rng.pick(&MAGIC_8);
            let to = rng.gen_range(0, len - 1);
            write_be(data, to, v as u64, 1);
        } else if class == 1 {
            let v = rng.pick(&MAGIC_16);
            let to = rng.gen_range(0, len - 2);
            write_be(data, to, v as u64, 2);
        } else if class == 2 {
            let v = rng.pick(&MAGIC_32);
            let to = rng.gen_range(0, len - 4);
            write_be(data, to, v as u64, 4);
        } else {
            let v = rng.pick(&MAGIC_64);
            let to = rng.gen_range(0, len - 8);
            write_be(data, to, v, 8);
        }
        proof {
            assert(((k + 1) - 1) as nat == k as nat);
        }
        k = k + 1;
    }
}

/// Drops the trailing `p` percent of the bytes, rounded down, with `p` drawn from `0..50`.
pub fn truncate(rng: &mut Rng, data: &mut Vec<u8>)
    ensures
        (final(rng).0, final(data)@) == truncate_result(old(rng).0, old(data)@),
        final(data)@ == old(data)@.take(final(data)@.len() as int),
        final(data)@.len() == old(data)@.len() - cut_for(
            old(data)@.len(),
            ((old(rng).0 as usize) % 50) as nat,
        ),
{
    let len = data.len();
    let p = rng.gen_range(0, 49);
    let q = len / 100;
    let m = len % 100;
    proof {
        assert((len as nat) * p == 100 * (q * p) + m * p) by (nonlinear_arith)
            requires
                len as nat == 100 * q + m,
        ;
        vstd::arithmetic::div_mod::lemma_hoist_over_denominator((m * p) as int, (q * p) as int, 100);
        assert(q * p <= q * 100) by (nonlinear_arith)
            requires
                p <= 49,
        ;
        assert(m * p < 5000) by (nonlinear_arith)
            requires
                p <= 49,
                m < 100,
        ;
        assert((m * p) as int + 100 * (q * p) == 100 * (q * p) + m * p);
        assert((len as nat) * p <= len * 100) by (nonlinear_arith)
            requires
                p <= 49,
        ;
        vstd::arithmetic::div_mod::lemma_div_is_ordered((len as nat) * p, len * 100, 100);
        vstd::arithmetic::div_mod::lemma_div_multiples_vanish(len as int, 100);
    }
    let cut = q * p + (m * p) / 100;
    data.truncate(len - cut);
    assert(data@ =~= old(data)@.take(len - cut));
}

/// Appends a copy of a mutation-size window.
pub fn append(rng: &mut Rng, data: &mut Vec<u8>)
    requires
        1 <= old(data)@.len() <= MAX_INPUT_LEN,
    ensures
        (final(rng).0, final(data)@) == append_result(old(rng).0, old(data)@),
        window_appended(old(data)@, final(data)@),
{
    let len = data.len();
    let n = mutation_size(rng, len);
    let from = rng.gen_range(0, len - n);
    let mut snapshot = copy_window(data, from, n);
    data.append(&mut snapshot);
    assert(window_appended(
        old(data)@,
        data@,
    )) by {
        assert(data@ == old(data)@ + old(data)@.subrange(from as int, from + n));
    }
}

/// Joins a prefix of the input to a suffix of a random corpus entry.
pub fn splice(rng: &mut Rng, data: &mut Vec<u8>, corpus: &Vec<Vec<u8>>)
    requires
        old(data)@.len() >= 1,
        corpus@.len() > 0,
        forall|i: int| 0 <= i < corpus@.len() ==> (#[trigger] corpus@[i])@.len() >= 1,
    ensures
        (final(rng).0, final(data)@) == splice_result(old(rng).0, old(data)@, byte_seqs(corpus@)),
        spliced_from(old(data)@, final(data)@, byte_seqs(corpus@)),
{
    let split = rng.gen_range(0, data.len() - 1);
    let pick = rng.rand() % corpus.len();
    let entry = &corpus[pick];
    let from = rng.gen_range(0, entry.len() - 1);
    let r = splice_bytes(data.as_slice(), split, entry.as_slice(), from);
    *data = r;
    let ghost entries = byte_seqs(corpus@);
    assert(entries[pick as int] == entry@);
    assert(spliced_from(old(data)@, data@, entries));
}

/// Writes the bytes of random tokens at random offsets.
pub fn insert_from_dict(rng: &mut Rng, data: &mut Vec<u8>, tokens: &Vec<String>)
    requires
        tokens@.len() > 0,
        tokens_fit(tokens@, old(data)@.len()),
    ensures
        (final(rng).0, final(data)@) == steps(
            Mutator::InsertFromDict,
            tokens@,
            old(rng).0,
            old(data)@,
            WRITES_PER_CALL as nat,
        ),
        final(data)@.len() == old(data)@.len(),
{
    let ghost d0 = data@;
    let ghost s0 = rng.0;
    let len = data.len();
    let mut k: usize = 0;
    while k < WRITES_PER_CALL
        invariant
            k <= WRITES_PER_CALL,
            (rng.0, data@) == steps(Mutator::InsertFromDict, tokens@, s0, d0, k as nat),
            data@.len() == len,
            tokens@.len() > 0,
            tokens_fit(tokens@, len as nat),
        decreases WRITES_PER_CALL - k,
    {
        let pick = rng.rand() % tokens.len();
        let bytes = tokens[pick].as_str().as_bytes();
        assert(encode_utf8(tokens@[pick as int]@).len() <= len);
        let idx = rng.gen_range(0, len - bytes.len());
        overwrite_at(data, idx, bytes);
        proof {
            assert(((k + 1) - 1) as nat == k as nat);
        }
        k = k + 1;
    }
}

/// Neighbour swaps only permute the bytes: any number of steps keeps the multiset of the input.
pub proof fn lemma_swap_neighbors_permutes(s: u64, d: Seq<u8>, k: nat)
    requires
        d.len() >= 2,
    ensures
        steps(Mutator::SwapNeighbors, Seq::empty(), s, d, k).1.to_multiset() == d.to_multiset(),
        steps(Mutator::SwapNeighbors, Seq::empty(), s, d, k).1.len() == d.len(),
    decreases k,
{
    if k > 0 {
        lemma_swap_neighbors_permutes(s, d, (k - 1) as nat);
        let p = steps(Mutator::SwapNeighbors, Seq::empty(), s, d, (k - 1) as nat);
        let e = p.1;
        let i = range_value(p.0, 0, (e.len() - 2) as usize) as int;
        let once = e.update(i, e[i + 1]);
        let twice = once.update(i + 1, e[i]);
        assert(reversed_at(e, i, 2) =~= twice);
        vstd::seq_lib::to_multiset_update(e, i, e[i + 1]);
        vstd::seq_lib::to_multiset_update(once, i + 1, e[i]);
        assert(once[i + 1] == e[i + 1]);
        let m = e.to_multiset();
        assert(m.insert(e[i + 1]).remove(e[i]).insert(e[i]).remove(e[i + 1]) =~= m) by {
            broadcast use vstd::multiset::group_multiset_properties;

            e.to_multiset_ensures();
            assert(e.contains(e[i]));
            assert(m.count(e[i]) > 0);
        }
    }
}

} // verus!
