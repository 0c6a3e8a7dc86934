//! Unsigned LEB128: seven bits a byte, least significant first, the high bit set
//! on every byte but the last.

use vstd::arithmetic::power::{lemma_pow1, lemma_pow_adds, pow};
use vstd::prelude::*;

verus! {

/// The longest number that is read: ten bytes hold any 64-bit value.
pub const MAX_LEB128_BYTES: usize = 10;

/// The encoding of `v`.
pub open spec fn leb128_bytes(v: nat) -> Seq<u8>
    decreases v,
{
    if v < 128 {
        seq![v as u8]
    } else {
        seq![(v % 128 + 128) as u8] + leb128_bytes(v / 128)
    }
}

/// The number whose groups of seven bits are in `s`, least significant first.
pub open spec fn leb128_value(s: Seq<u8>) -> nat
    decreases s.len(),
{
    if s.len() == 0 {
        0
    } else {
        (s[0] % 128) as nat + 128 * leb128_value(s.drop_first())
    }
}

/// The number at the front of `s` takes its first `n` bytes.
pub open spec fn leb128_ends_at(s: Seq<u8>, n: nat) -> bool {
    &&& 1 <= n <= MAX_LEB128_BYTES
    &&& n <= s.len()
    &&& s[n - 1] < 128
    &&& forall|i: int| 0 <= i < n - 1 ==> #[trigger] s[i] >= 128
}

/// The number at the front of `s`, of which the low 64 bits are kept, and how many
/// bytes it takes.
pub open spec fn leb128_parse(s: Seq<u8>) -> Option<(u64, nat)> {
    if exists|n: nat| leb128_ends_at(s, n) {
        let n = choose|n: nat| leb128_ends_at(s, n);
        Some(((leb128_value(s.take(n as int)) % 0x1_0000_0000_0000_0000) as u64, n))
    } else {
        None
    }
}

proof fn lemma_value_push(s: Seq<u8>, b: u8)
    ensures
        leb128_value(s.push(b)) == leb128_value(s) + pow(128, s.len()) * (b % 128),
        pow(128, s.len()) > 0,
    decreases s.len(),
{
    reveal(pow);
    if s.len() == 0 {
        assert(s.push(b).drop_first() =~= Seq::<u8>::empty());
        assert(leb128_value(s.push(b).drop_first()) == 0);
        assert(s.push(b)[0] == b);
        assert(pow(128, 0) == 1);
    } else {
        lemma_value_push(s.drop_first(), b);
        assert(s.push(b).drop_first() =~= s.drop_first().push(b));
        let p = pow(128, (s.len() - 1) as nat);
        let v = leb128_value(s.drop_first());
        let d = (b % 128) as int;
        assert(pow(128, s.len()) == 128 * p);
        assert(128 * (v + p * d) == 128 * v + (128 * p) * d) by (nonlinear_arith);
        assert(s.push(b)[0] == s[0]);
    }
}

proof fn lemma_parse_is(s: Seq<u8>, n: nat)
    requires
        leb128_ends_at(s, n),
    ensures
        leb128_parse(s) == Some(
            ((leb128_value(s.take(n as int)) % 0x1_0000_0000_0000_0000) as u64, n),
        ),
{
    let m = choose|m: nat| leb128_ends_at(s, m);
    assert(leb128_ends_at(s, m));
    if m < n {
        assert(s[m - 1] >= 128);
    }
    if n < m {
        assert(s[n - 1] >= 128);
    }
}

proof fn lemma_encoding(v: nat)
    ensures
        leb128_value(leb128_bytes(v)) == v,
        leb128_bytes(v).len() >= 1,
        leb128_bytes(v).last() < 128,
        forall|i: int|
            0 <= i < leb128_bytes(v).len() - 1 ==> #[trigger] leb128_bytes(v)[i] >= 128,
    decreases v,
{
    let s = leb128_bytes(v);
    if v < 128 {
        assert(s.drop_first() =~= Seq::<u8>::empty());
        assert(leb128_value(s.drop_first()) == 0);
    } else {
        lemma_encoding(v / 128);
        let t = leb128_bytes(v / 128);
        assert(s.drop_first() =~= t);
        assert(s.last() == t.last());
        assert forall|i: int| 0 <= i < s.len() - 1 implies #[trigger] s[i] >= 128 by {
            if i > 0 {
                assert(s[i] == t[i - 1]);
            }
        }
    }
}

/// A number below `128^n` takes at most `n` bytes.
pub proof fn lemma_leb128_len(v: nat, n: nat)
    requires
        n >= 1,
        v < pow(128, n),
    ensures
        1 <= leb128_bytes(v).len() <= n,
    decreases n,
{
    reveal(pow);
    if v >= 128 {
        if n == 1 {
            lemma_pow1(128);
        } else {
            let p = pow(128, (n - 1) as nat);
            assert(pow(128, n) == 128 * p);
            assert(v / 128 < p) by (nonlinear_arith)
                requires
                    v < 128 * p,
            ;
            lemma_leb128_len(v / 128, (n - 1) as nat);
        }
    }
}

proof fn lemma_u64_len(v: u64)
    ensures
        1 <= leb128_bytes(v as nat).len() <= MAX_LEB128_BYTES,
        v <= u32::MAX ==> leb128_bytes(v as nat).len() <= 5,
{
    assert(pow(128, 5) == 0x8_0000_0000 && pow(128, 10) == 0x40_0000_0000_0000_0000) by {
        reveal_with_fuel(pow, 6);
        lemma_pow_adds(128, 5, 5);
    }
    lemma_leb128_len(v as nat, 10);
    if v <= u32::MAX {
        lemma_leb128_len(v as nat, 5);
    }
}

/// Reading gives back what was written, and takes exactly the bytes written, whatever
/// follows them.
pub proof fn lemma_leb128_roundtrip(v: u64, rest: Seq<u8>)
    ensures
        leb128_parse(leb128_bytes(v as nat) + rest) == Some((v, leb128_bytes(v as nat).len())),
        1 <= leb128_bytes(v as nat).len() <= MAX_LEB128_BYTES,
        v <= u32::MAX ==> leb128_bytes(v as nat).len() <= 5,
{
    let w = leb128_bytes(v as nat);
    let s = w + rest;
    lemma_encoding(v as nat);
    lemma_u64_len(v);
    assert forall|i: int| 0 <= i < w.len() - 1 implies #[trigger] s[i] >= 128 by {
        assert(s[i] == w[i]);
    }
    assert(s[w.len() - 1] == w.last());
    assert(leb128_ends_at(s, w.len()));
    lemma_parse_is(s, w.len());
    assert(s.take(w.len() as int) =~= w);
}

/// Appends the encoding of `value`.
pub fn write_leb128(out: &mut Vec<u8>, value: u64)
    ensures
        final(out)@ == old(out)@ + leb128_bytes(value as nat),
{
    let mut rest: u64 = value;
    while rest >= 128
        invariant
            out@ + leb128_bytes(rest as nat) == old(out)@ + leb128_bytes(value as nat),
        decreases rest,
    {
        let ghost before = out@;
        let ghost v = rest as nat;
        out.push((rest % 128 + 128) as u8);
        rest = rest / 128;
        assert(out@ + leb128_bytes(rest as nat) =~= before + leb128_bytes(v));
    }
    out.push(rest as u8);
    assert(out@ =~= old(out)@ + leb128_bytes(value as nat));
}

/// Reads the number at the front of `data`: its low 64 bits, and how many bytes it
/// takes. There is none when the data, or ten bytes, end before a last byte.
pub fn read_leb128(data: &[u8]) -> (r: Option<(u64, usize)>)
    ensures
        match r {
            Some((value, n)) => leb128_parse(data@) == Some((value, n as nat)),
            None => leb128_parse(data@) is None,
        },
{
    let mut value: u128 = 0;
    let mut scale: u128 = 1;
    let mut i: usize = 0;
    proof {
        reveal(pow);
        assert(data@.take(0) =~= Seq::<u8>::empty());
    }
    while i < data.len() && i < MAX_LEB128_BYTES
        invariant
            i <= data@.len(),
            i <= MAX_LEB128_BYTES,
            value == leb128_value(data@.take(i as int)),
            scale == pow(128, i as nat),
            value < scale,
            scale <= 0x40_0000_0000_0000_0000,
            forall|k: int| 0 <= k < i ==> #[trigger] data@[k] >= 128,
        decreases data@.len() - i,
    {
        let byte: u8 = data[i];
        proof {
            assert(pow(128, 10) == 0x40_0000_0000_0000_0000) by {
                reveal_with_fuel(pow, 6);
                lemma_pow_adds(128, 5, 5);
            }
            vstd::arithmetic::power::lemma_pow_increases(128, (i + 1) as nat, 10);
            lemma_value_push(data@.take(i as int), byte);
            assert(data@.take(i + 1) =~= data@.take(i as int).push(byte));
            assert(scale * 128 == pow(128, (i + 1) as nat)) by {
                reveal(pow);
            }
            assert(value + scale * (byte % 128) < scale * 128) by (nonlinear_arith)
                requires
                    value < scale,
                    byte % 128 <= 127,
            ;
            assert(0 <= scale * (byte % 128)) by (nonlinear_arith);
        }
        value = value + scale * (byte % 128) as u128;
        scale = scale * 128;
        i = i + 1;
        if byte < 128 {
            assert(leb128_ends_at(data@, i as nat));
            proof {
                lemma_parse_is(data@, i as nat);
            }
            return Some(((value % 0x1_0000_0000_0000_0000) as u64, i));
        }
    }
    assert forall|n: nat| !leb128_ends_at(data@, n) by {
        if leb128_ends_at(data@, n) {
            assert(data@[n - 1] >= 128);
        }
    }
    None
}

} // verus!
