use vstd::prelude::*;

verus! {

/// 256 to the power `n`.
pub open spec fn pow256(n: nat) -> nat
    decreases n,
{
    if n == 0 {
        1
    } else {
        256 * pow256((n - 1) as nat)
    }
}

/// The unsigned number that the bytes `s` spell, most significant first.
pub open spec fn be_value(s: Seq<u8>) -> nat
    decreases s.len(),
{
    if s.len() == 0 {
        0
    } else {
        be_value(s.drop_last()) * 256 + s.last() as nat
    }
}

/// The `w` low bytes of `v`, most significant first.
pub open spec fn be_bytes(v: nat, w: nat) -> Seq<u8> {
    Seq::new(w, |j: int| ((v / pow256((w - 1 - j) as nat)) % 256) as u8)
}

/// `s` with `win` written over it from `at` on; the length stays.
pub open spec fn written_at(s: Seq<u8>, at: int, win: Seq<u8>) -> Seq<u8> {
    Seq::new(s.len(), |j: int| if at <= j < at + win.len() { win[j - at] } else { s[j] })
}

/// `s` with the `w` bytes from `at` on in reverse order.
pub open spec fn reversed_at(s: Seq<u8>, at: int, w: int) -> Seq<u8> {
    Seq::new(s.len(), |j: int| if at <= j < at + w { s[at + at + w - 1 - j] } else { s[j] })
}

/// One added to, or taken from, a `w`-byte number, wrapping around.
pub open spec fn stepped(v: nat, w: nat, increment: bool) -> nat {
    if increment {
        (v + 1) % pow256(w)
    } else {
        ((v + pow256(w) - 1) as nat) % pow256(w)
    }
}

pub proof fn lemma_pow256_pos(n: nat)
    ensures
        pow256(n) > 0,
    decreases n,
{
    if n > 0 {
        lemma_pow256_pos((n - 1) as nat);
    }
}

pub proof fn lemma_pow256_step(n: nat)
    ensures
        pow256(n + 1) == pow256(n) * 256,
{
    assert(pow256(n + 1) == 256 * pow256(n));
}

proof fn lemma_pow256_small()
    ensures
        pow256(1) == 0x100,
        pow256(2) == 0x1_0000,
        pow256(4) == 0x1_0000_0000,
        pow256(8) == 0x1_0000_0000_0000_0000,
{
    reveal_with_fuel(pow256, 9);
}

proof fn lemma_pow256_mono(a: nat, b: nat)
    requires
        a <= b,
    ensures
        pow256(a) <= pow256(b),
    decreases b,
{
    if a < b {
        lemma_pow256_mono(a, (b - 1) as nat);
        lemma_pow256_pos((b - 1) as nat);
    }
}

/// Reversing the same window twice gives back the bytes one started with.
pub proof fn lemma_reverse_twice(s: Seq<u8>, at: int, w: int)
    requires
        0 <= at,
        0 <= w,
        at + w <= s.len(),
    ensures
        reversed_at(reversed_at(s, at, w), at, w) == s,
{
    assert(reversed_at(reversed_at(s, at, w), at, w) =~= s);
}

/// Reads the `w` bytes from `at` on as a big-endian number.
pub fn read_be(data: &Vec<u8>, at: usize, w: usize) -> (r: u64)
    requires
        w <= 8,
        at + w <= data@.len(),
    ensures
        r as nat == be_value(data@.subrange(at as int, at + w)),
        (r as nat) < pow256(w as nat),
{
    let ghost win = data@.subrange(at as int, at + w);
    let len = data.len();
    let mut acc: u64 = 0;
    let mut i: usize = 0;
    while i < w
        invariant
            i <= w <= 8,
            at + w <= data@.len(),
            len == data@.len(),
            win == data@.subrange(at as int, at + w),
            acc as nat == be_value(win.take(i as int)),
            (acc as nat) < pow256(i as nat),
        decreases w - i,
    {
        proof {
            lemma_pow256_step(i as nat);
            lemma_pow256_mono((i + 1) as nat, 8);
            lemma_pow256_small();
            assert(win.take(i + 1).drop_last() =~= win.take(i as int));
            let p = pow256(i as nat);
            let b = data@[at + i] as nat;
            assert(acc * 256 + b < p * 256) by (nonlinear_arith)
                requires
                    (acc as nat) < p,
                    b < 256,
            ;
        }
        acc = acc * 256 + data[at + i] as u64;
        i = i + 1;
    }
    assert(win.take(w as int) =~= win);
    acc
}

/// Writes the `w` low bytes of `v` from `at` on, most significant first.
pub fn write_be(data: &mut Vec<u8>, at: usize, v: u64, w: usize)
    requires
        at + w <= old(data)@.len(),
    ensures
        final(data)@ == written_at(old(data)@, at as int, be_bytes(v as nat, w as nat)),
{
    let ghost start = data@;
    let ghost win = be_bytes(v as nat, w as nat);
    let len = data.len();
    let mut cur: u64 = v;
    let mut k: usize = w;
    proof {
        assert(pow256(0) == 1);
        assert(v as nat / 1 == v as nat);
    }
    while k > 0
        invariant
            k <= w,
            len == data@.len(),
            win == be_bytes(v as nat, w as nat),
            at + w <= start.len(),
            data@.len() == start.len(),
            cur as nat == v as nat / pow256((w - k) as nat),
            forall|j: int| 0 <= j < data@.len() && !(at + k <= j < at + w) ==> data@[j] == start[j],
            forall|j: int| at + k <= j < at + w ==> data@[j] == win[j - at],
        decreases k,
    {
        k = k - 1;
        proof {
            lemma_pow256_step((w - 1 - k) as nat);
            lemma_pow256_pos((w - 1 - k) as nat);
            vstd::arithmetic::div_mod::lemma_div_denominator(
                v as int,
                pow256((w - 1 - k) as nat) as int,
                256,
            );
            assert((w - 1 - k) + 1 == w - k);
            assert(win[k as int] == ((v as nat / pow256((w - 1 - k) as nat)) % 256) as u8);
        }
        data.set(at + k, (cur % 256) as u8);
        cur = cur / 256;
        assert(forall|j: int| at + k <= j < at + w ==> data@[j] == win[j - at]);
    }
    assert(data@ =~= written_at(start, at as int, win));
}

/// Adds one to (`increment`), or takes one from, the `w`-byte big-endian number at `at`,
/// wrapping around at either end. In two's complement this is the same step on the signed
/// reading of the bytes.
pub fn step_window(data: &mut Vec<u8>, at: usize, w: usize, increment: bool)
    requires
        w == 2 || w == 4 || w == 8,
        at + w <= old(data)@.len(),
    ensures
        final(data)@ == written_at(
            old(data)@,
            at as int,
            be_bytes(
                stepped(be_value(old(data)@.subrange(at as int, at + w)), w as nat, increment),
                w as nat,
            ),
        ),
{
    let v = read_be(data, at, w);
    let top: u64 = if w == 2 {
        0xffff
    } else if w == 4 {
        0xffff_ffff
    } else {
        0xffff_ffff_ffff_ffff
    };
    proof {
        lemma_pow256_small();
    }
    assert(top as nat == pow256(w as nat) - 1);
    let ghost p = pow256(w as nat);
    let nv: u64 = if increment {
        if v == top {
            proof {
                vstd::arithmetic::div_mod::lemma_mod_self_0(p as int);
            }
            0
        } else {
            proof {
                vstd::arithmetic::div_mod::lemma_small_mod((v + 1) as nat, p);
            }
            v + 1
        }
    } else {
        if v == 0 {
            proof {
                vstd::arithmetic::div_mod::lemma_small_mod((p - 1) as nat, p);
            }
            top
        } else {
            proof {
                vstd::arithmetic::div_mod::lemma_mod_add_multiples_vanish((v - 1) as int, p as int);
                vstd::arithmetic::div_mod::lemma_small_mod((v - 1) as nat, p);
            }
            v - 1
        }
    };
    assert(nv as nat == stepped(v as nat, w as nat, increment));
    write_be(data, at, nv, w);
}

/// Reverses the order of the `w` bytes from `at` on.
pub fn reverse_window(data: &mut Vec<u8>, at: usize, w: usize)
    requires
        at + w <= old(data)@.len(),
    ensures
        final(data)@ == reversed_at(old(data)@, at as int, w as int),
{
    let ghost start = data@;
    let len = data.len();
    let mut i: usize = 0;
    while i < w / 2
        invariant
            i <= w / 2,
            len == data@.len(),
            at + w <= start.len(),
            data@.len() == start.len(),
            forall|j: int|
                0 <= j < data@.len() && !(at <= j < at + i) && !(at + w - i <= j < at + w)
                    ==> data@[j] == start[j],
            forall|j: int| at <= j < at + i ==> data@[j] == start[at + at + w - 1 - j],
            forall|j: int| at + w - i <= j < at + w ==> data@[j] == start[at + at + w - 1 - j],
        decreases w / 2 - i,
    {
        let lo = at + i;
        let hi = at + w - i - 1;
        let tmp = data[lo];
        let other = data[hi];
        data.set(lo, other);
        data.set(hi, tmp);
        i = i + 1;
    }
    assert(data@ =~= reversed_at(start, at as int, w as int));
}

/// Writes the bytes of `src` over `data` from `at` on.
pub fn overwrite_at(data: &mut Vec<u8>, at: usize, src: &[u8])
    requires
        at + src@.len() <= old(data)@.len(),
    ensures
        final(data)@ == written_at(old(data)@, at as int, src@),
{
    let ghost start = data@;
    let len = data.len();
    let mut i: usize = 0;
    while i < src.len()
        invariant
            i <= src@.len(),
            len == data@.len(),
            at + src@.len() <= start.len(),
            data@.len() == start.len(),
            forall|j: int| 0 <= j < data@.len() && !(at <= j < at + i) ==> data@[j] == start[j],
            forall|j: int| at <= j < at + i ==> data@[j] == src@[j - at],
        decreases src@.len() - i,
    {
        data.set(at + i, src[i]);
        i = i + 1;
    }
    assert(data@ =~= written_at(start, at as int, src@));
}

/// The bytes of `head` before `split`, then those of `tail` from `from` on.
pub fn splice_bytes(head: &[u8], split: usize, tail: &[u8], from: usize) -> (r: Vec<u8>)
    requires
        split <= head@.len(),
        from <= tail@.len(),
    ensures
        r@ == head@.take(split as int) + tail@.skip(from as int),
{
    let mut r: Vec<u8> = Vec::new();
    let mut i: usize = 0;
    while i < split
        invariant
            i <= split <= head@.len(),
            r@ == head@.take(i as int),
        decreases split - i,
    {
        r.push(head[i]);
        i = i + 1;
        assert(r@ =~= head@.take(i as int));
    }
    let mut k: usize = from;
    while k < tail.len()
        invariant
            from <= k <= tail@.len(),
            r@ == head@.take(split as int) + tail@.subrange(from as int, k as int),
        decreases tail@.len() - k,
    {
        r.push(tail[k]);
        k = k + 1;
        assert(r@ =~= head@.take(split as int) + tail@.subrange(from as int, k as int));
    }
    assert(tail@.subrange(from as int, tail@.len() as int) =~= tail@.skip(from as int));
    r
}

/// A copy of the `n` bytes of `data` from `at` on.
pub fn copy_window(data: &Vec<u8>, at: usize, n: usize) -> (r: Vec<u8>)
    requires
        at + n <= data@.len(),
    ensures
        r@ == data@.subrange(at as int, at + n),
{
    let len = data.len();
    let mut r: Vec<u8> = Vec::new();
    let mut i: usize = 0;
    while i < n
        invariant
            i <= n,
            len == data@.len(),
            at + n <= data@.len(),
            r@ == data@.subrange(at as int, at + i),
        decreases n - i,
    {
        r.push(data[at + i]);
        i = i + 1;
        assert(r@ =~= data@.subrange(at as int, at + i));
    }
    r
}

/// `data` without the `n` bytes from `at` on.
pub fn remove_window(data: &mut Vec<u8>, at: usize, n: usize)
    requires
        at + n <= old(data)@.len(),
    ensures
        final(data)@ == old(data)@.take(at as int) + old(data)@.skip(at + n),
{
    let len = data.len();
    assert(at + n <= len);
    let r = splice_bytes(data.as_slice(), at, data.as_slice(), at + n);
    *data = r;
}

} // verus!
