use vstd::prelude::*;

verus! {

/// Mixed into a clock reading when no usable seed is given.
pub const UNSEEDED_MIX: u64 = 0x5fd8_9eda_3130_256d;

/// The xorshift step that advances the generator's state.
pub open spec fn next_state(s: u64) -> u64 {
    let a = s ^ (s << 13u64);
    let b = a ^ (a >> 17u64);
    b ^ (b << 43u64)
}

/// What `gen_range(min, max)` returns from state `s`.
pub open spec fn range_value(s: u64, min: usize, max: usize) -> usize {
    if min == max {
        min
    } else if min == 0 && max == usize::MAX {
        s as usize
    } else {
        (min + (s as usize) % ((max - min + 1) as usize)) as usize
    }
}

/// The state after `gen_range(min, max)`: no draw is made when the range holds one value.
pub open spec fn range_next(s: u64, min: usize, max: usize) -> u64 {
    if min == max {
        s
    } else {
        next_state(s)
    }
}

/// The eight bytes of `v`, low byte first.
pub open spec fn word_bytes(v: u64) -> Seq<u8> {
    Seq::new(8, |i: int| ((v as nat / crate::bytes::pow256(i as nat)) % 256) as u8)
}

/// The state after `k` draws from state `s`.
pub open spec fn advance(s: u64, k: nat) -> u64
    decreases k,
{
    if k == 0 {
        s
    } else {
        next_state(advance(s, (k - 1) as nat))
    }
}

/// The bytes of the first `k` draws from state `s`, each as a word, low byte first.
pub open spec fn words(s: u64, k: nat) -> Seq<u8>
    decreases k,
{
    if k == 0 {
        Seq::empty()
    } else {
        words(s, (k - 1) as nat) + word_bytes(((advance(s, (k - 1) as nat) as usize) as u64))
    }
}

/// How many words it takes to bring `have` bytes up to at least `sz`.
pub open spec fn words_needed(have: nat, sz: nat) -> nat {
    if have >= sz {
        0
    } else {
        ((sz - have + 7) / 8) as nat
    }
}

/// Relies on std::time::SystemTime::now, read as nanoseconds since the Unix epoch (zero for a
/// clock set before it): a reading of the system clock, of which nothing is promised.
#[verifier::external_body]
fn clock_ticks() -> (r: u64) {
    match std::time::SystemTime::now().duration_since(std::time::UNIX_EPOCH) {
        Ok(d) => d.as_nanos() as u64,
        Err(_) => 0,
    }
}

/// A small xorshift pseudo-random generator; the field is its whole state.
#[derive(Debug, Default)]
pub struct Rng(pub u64);

impl Rng {
    /// Seeds the generator with `seed`; a zero seed takes a clock reading instead.
    pub fn new(seed: usize) -> (r: Rng)
        ensures
            seed != 0 ==> r.0 == seed as u64,
    {
        if seed == 0 {
            Rng(UNSEEDED_MIX ^ clock_ticks())
        } else {
            Rng(seed as u64)
        }
    }

    /// Returns the current state, then advances it.
    pub fn rand(&mut self) -> (r: usize)
        ensures
            r == old(self).0 as usize,
            final(self).0 == next_state(old(self).0),
    {
        let value = self.0 as usize;
        let s = self.0;
        let a = s ^ (s << 13u64);
        let b = a ^ (a >> 17u64);
        self.0 = b ^ (b << 43u64);
        value
    }

    /// A value in `min..=max`.
    pub fn gen_range(&mut self, min: usize, max: usize) -> (r: usize)
        requires
            min <= max,
        ensures
            min <= r <= max,
            r == range_value(old(self).0, min, max),
            final(self).0 == range_next(old(self).0, min, max),
    {
        if min == max {
            return min;
        }
        if min == 0 && max == usize::MAX {
            return self.rand();
        }
        let span = max - min + 1;
        let d = self.rand() % span;
        min + d
    }

    /// A byte from `rand() % 255`: 255 never comes, 0 comes a little more often.
    pub fn gen_byte(&mut self) -> (r: u8)
        ensures
            r == (old(self).0 as usize) % 255,
            r < 255,
            final(self).0 == next_state(old(self).0),
    {
        (self.rand() % 255) as u8
    }

    /// An entry picked by `rand()` modulo the number of entries.
    pub fn pick<T: PartialOrd + Clone>(&mut self, entries: &[T]) -> (r: T)
        requires
            entries@.len() > 0,
        ensures
            cloned(entries@[(old(self).0 as usize) as int % entries@.len() as int], r),
            final(self).0 == next_state(old(self).0),
    {
        let idx = self.rand() % entries.len();
        entries[idx].clone()
    }

    /// A coin flip: `true` on an even state.
    pub fn bool(&mut self) -> (r: bool)
        ensures
            r == ((old(self).0 as usize) % 2 == 0),
            final(self).0 == next_state(old(self).0),
    {
        let idx = self.rand() % 2;
        idx == 0
    }

    /// Appends whole words of `rand()` output, low byte first, until `buf` holds at least `sz`
    /// bytes.
    pub fn fill_bytes(&mut self, buf: &mut Vec<u8>, sz: usize)
        requires
            sz <= usize::MAX - 8,
        ensures
            old(buf)@.len() >= sz ==> final(buf)@ == old(buf)@,
            old(buf)@.len() < sz ==> sz <= final(buf)@.len() < sz + 8,
            final(buf)@.len() >= sz,
            final(buf)@.len() >= old(buf)@.len(),
            final(buf)@.subrange(0, old(buf)@.len() as int) == old(buf)@,
            (final(buf)@.len() - old(buf)@.len()) % 8 == 0,
            final(buf)@ == old(buf)@ + words(old(self).0, words_needed(old(buf)@.len(), sz as nat)),
            final(self).0 == advance(old(self).0, words_needed(old(buf)@.len(), sz as nat)),
    {
        let ghost start = buf@;
        let ghost s0 = self.0;
        let ghost mut i: nat = 0;
        while buf.len() < sz
            invariant
                sz <= usize::MAX - 8,
                start.len() >= sz ==> buf@ == start,
                buf@.len() >= start.len(),
                start.len() < sz ==> buf@.len() < sz + 8,
                buf@.subrange(0, start.len() as int) == start,
                (buf@.len() - start.len()) % 8 == 0,
                buf@ == start + words(s0, i),
                buf@.len() == start.len() + 8 * i,
                self.0 == advance(s0, i),
                i > 0 ==> buf@.len() - 8 < sz,
            decreases sz + 8 - buf@.len(),
        {
            let w = self.rand();
            let ghost before = buf@;
            push_word(buf, w as u64);
            proof {
                i = i + 1;
                assert(((i - 1) as nat) + 1 == i);
                assert(buf@ =~= start + words(s0, i));
            }
            assert(buf@.len() == before.len() + 8);
            assert(buf@.subrange(0, start.len() as int) =~= before.subrange(0, start.len() as int));
        }
        proof {
            let x = sz - start.len();
            if start.len() < sz {
                assert(i == (x + 7) / 8) by (nonlinear_arith)
                    requires
                        x > 0,
                        8 * i - 8 < x,
                        x <= 8 * i,
                ;
            }
        }
    }
}

/// Appends the eight bytes of `v`, low byte first.
fn push_word(buf: &mut Vec<u8>, v: u64)
    ensures
        final(buf)@ == old(buf)@ + word_bytes(v),
{
    let ghost start = buf@;
    let mut cur: u64 = v;
    let mut i: usize = 0;
    proof {
        assert(crate::bytes::pow256(0) == 1);
        assert(v as nat / 1 == v as nat);
    }
    while i < 8
        invariant
            i <= 8,
            cur as nat == v as nat / crate::bytes::pow256(i as nat),
            buf@ == start + word_bytes(v).take(i as int),
        decreases 8 - i,
    {
        proof {
            crate::bytes::lemma_pow256_step(i as nat);
            crate::bytes::lemma_pow256_pos(i as nat);
            vstd::arithmetic::div_mod::lemma_div_denominator(
                v as int,
                crate::bytes::pow256(i as nat) as int,
                256,
            );
        }
        buf.push((cur % 256) as u8);
        cur = cur / 256;
        i = i + 1;
        assert(buf@ =~= start + word_bytes(v).take(i as int));
    }
    assert(word_bytes(v).take(8) =~= word_bytes(v));
}

} // verus!
