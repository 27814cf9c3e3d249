//! Byte-level building blocks of the message record: fixed-width integers
//! and length-prefixed fields.
//!
//! Every integer on the wire is fixed width. Lengths and the timestamp are
//! eight bytes, least significant byte first; the message id is sixteen bytes,
//! most significant byte first. A field is an eight-byte length followed by
//! that many bytes.
use vstd::prelude::*;

verus! {

/// 256 to the power `n`.
pub open spec fn pow256(n: nat) -> nat
    decreases n,
{
    if n == 0 {
        1
    } else {
        256 * pow256((n - 1) as nat)
    }
}

/// The `n` low bytes of `v`, least significant first.
pub open spec fn le_bytes(v: nat, n: nat) -> Seq<u8>
    decreases n,
{
    if n == 0 {
        Seq::empty()
    } else {
        seq![(v % 256) as u8] + le_bytes(v / 256, (n - 1) as nat)
    }
}

/// The number that `s` spells, least significant byte first.
pub open spec fn le_value(s: Seq<u8>) -> nat
    decreases s.len(),
{
    if s.len() == 0 {
        0
    } else {
        s[0] as nat + 256 * le_value(s.drop_first())
    }
}

/// The `n` low bytes of `v`, most significant first.
pub open spec fn be_bytes(v: nat, n: nat) -> Seq<u8> {
    le_bytes(v, n).reverse()
}

/// The number that `s` spells, most significant byte first.
pub open spec fn be_value(s: Seq<u8>) -> nat {
    le_value(s.reverse())
}

/// A signed 64-bit number as the unsigned number with the same bits.
pub open spec fn twos(t: int) -> nat {
    if t >= 0 {
        t as nat
    } else {
        (t + 0x1_0000_0000_0000_0000) as nat
    }
}

/// The signed number whose bits are those of `u`.
pub open spec fn untwos(u: nat) -> int {
    if u < 0x8000_0000_0000_0000 {
        u as int
    } else {
        u - 0x1_0000_0000_0000_0000
    }
}

/// A field: the payload's length in eight bytes, then the payload.
pub open spec fn field(payload: Seq<u8>) -> Seq<u8> {
    le_bytes(payload.len(), 8) + payload
}

/// Splits the field at the front of `bytes` from what follows it: the
/// payload and the rest, or `None` where `bytes` is too short for the length
/// it announces.
pub open spec fn take_field(bytes: Seq<u8>) -> Option<(Seq<u8>, Seq<u8>)> {
    if bytes.len() < 8 {
        None
    } else {
        let n = le_value(bytes.subrange(0, 8));
        if bytes.len() - 8 < n {
            None
        } else {
            Some((bytes.subrange(8, 8 + n as int), bytes.subrange(8 + n as int, bytes.len() as int)))
        }
    }
}

pub proof fn lemma_pow256_values()
    ensures
        pow256(0) == 1,
        pow256(8) == 0x1_0000_0000_0000_0000,
        pow256(16) == 0x1_0000_0000_0000_0000_0000_0000_0000_0000,
{
    reveal_with_fuel(pow256, 17);
}

pub proof fn lemma_le_bytes_len(v: nat, n: nat)
    ensures
        le_bytes(v, n).len() == n,
    decreases n,
{
    if n > 0 {
        lemma_le_bytes_len(v / 256, (n - 1) as nat);
    }
}

/// Reading back what was written gives the number, when it fits.
pub proof fn lemma_le_value_of_bytes(v: nat, n: nat)
    requires
        v < pow256(n),
    ensures
        le_value(le_bytes(v, n)) == v,
    decreases n,
{
    if n > 0 {
        let rest = le_bytes(v / 256, (n - 1) as nat);
        let s = le_bytes(v, n);
        lemma_le_value_of_bytes(v / 256, (n - 1) as nat);
        assert(s.drop_first() =~= rest);
        assert(s[0] == (v % 256) as u8);
    }
}

/// Writing what was read gives the bytes back, and what is read fits.
pub proof fn lemma_le_bytes_of_value(s: Seq<u8>)
    ensures
        le_value(s) < pow256(s.len()),
        le_bytes(le_value(s), s.len()) == s,
    decreases s.len(),
{
    if s.len() > 0 {
        let tail = s.drop_first();
        lemma_le_bytes_of_value(tail);
        let v = le_value(s);
        let r = le_value(tail);
        assert(v == s[0] as nat + 256 * r);
        assert(v % 256 == s[0] as nat);
        assert(v / 256 == r);
        assert(le_bytes(v, s.len()) =~= seq![s[0]] + le_bytes(r, tail.len()));
        assert(seq![s[0]] + tail =~= s);
    }
}

/// The same two facts for the big-endian reading.
pub proof fn lemma_be_round_trip(v: nat, n: nat)
    requires
        v < pow256(n),
    ensures
        be_bytes(v, n).len() == n,
        be_value(be_bytes(v, n)) == v,
{
    lemma_le_bytes_len(v, n);
    lemma_le_value_of_bytes(v, n);
    assert(le_bytes(v, n).reverse().reverse() =~= le_bytes(v, n));
}

pub proof fn lemma_be_bytes_of_value(s: Seq<u8>)
    ensures
        be_value(s) < pow256(s.len()),
        be_bytes(be_value(s), s.len()) == s,
{
    lemma_le_bytes_of_value(s.reverse());
    assert(s.reverse().reverse() =~= s);
}

/// A field followed by anything splits back into its payload and the rest.
pub proof fn lemma_take_field(payload: Seq<u8>, rest: Seq<u8>)
    requires
        payload.len() < pow256(8),
    ensures
        take_field(field(payload) + rest) == Some((payload, rest)),
{
    let bytes = field(payload) + rest;
    lemma_le_bytes_len(payload.len(), 8);
    lemma_le_value_of_bytes(payload.len(), 8);
    assert(bytes.subrange(0, 8) =~= le_bytes(payload.len(), 8));
    assert(bytes.subrange(8, 8 + payload.len() as int) =~= payload);
    assert(bytes.subrange(8 + payload.len() as int, bytes.len() as int) =~= rest);
}

/// What `take_field` splits off, written as a field again, is the front of
/// the bytes it was taken from.
pub proof fn lemma_field_of_taken(bytes: Seq<u8>)
    requires
        take_field(bytes) is Some,
    ensures
        bytes == field(take_field(bytes).unwrap().0) + take_field(bytes).unwrap().1,
        take_field(bytes).unwrap().0.len() < pow256(8),
{
    let head = bytes.subrange(0, 8);
    let n = le_value(head);
    lemma_le_bytes_of_value(head);
    let payload = bytes.subrange(8, 8 + n as int);
    let rest = bytes.subrange(8 + n as int, bytes.len() as int);
    assert(field(payload) + rest =~= bytes);
}

/// Appends the eight bytes of `v`, least significant first.
pub fn put_u64(out: &mut Vec<u8>, v: u64)
    ensures
        final(out)@ == old(out)@ + le_bytes(v as nat, 8),
{
    let mut rest: u64 = v;
    let mut i: usize = 0;
    while i < 8
        invariant
            i <= 8,
            out@ + le_bytes(rest as nat, (8 - i) as nat) == old(out)@ + le_bytes(v as nat, 8),
        decreases 8 - i,
    {
        let b: u8 = (rest % 256) as u8;
        proof {
            assert(out@.push(b) + le_bytes(rest as nat / 256, (8 - i - 1) as nat) =~= out@
                + le_bytes(rest as nat, (8 - i) as nat));
        }
        out.push(b);
        rest = rest / 256;
        i = i + 1;
    }
    proof {
        assert(out@ + le_bytes(rest as nat, 0) =~= out@);
    }
}

/// Reads the eight bytes at `at` as a number, least significant first.
pub fn get_u64(bytes: &[u8], at: usize) -> (v: u64)
    requires
        at + 8 <= bytes@.len(),
    ensures
        v as nat == le_value(bytes@.subrange(at as int, at + 8)),
{
    let ghost s = bytes@.subrange(at as int, at + 8);
    let len: usize = bytes.len();
    let mut v: u64 = 0;
    let mut i: usize = 8;
    proof {
        assert(s.subrange(8, 8) =~= Seq::<u8>::empty());
        lemma_pow256_values();
    }
    while i > 0
        invariant
            i <= 8,
            len == bytes@.len(),
            at + 8 <= len,
            s == bytes@.subrange(at as int, at + 8),
            v as nat == le_value(s.subrange(i as int, 8)),
            (v as nat) < pow256((8 - i) as nat),
        decreases i,
    {
        i = i - 1;
        let b: u8 = bytes[at + i];
        proof {
            let tail = s.subrange(i + 1, 8);
            let cur = s.subrange(i as int, 8);
            assert(cur.drop_first() =~= tail);
            assert(cur[0] == b);
            assert(le_value(cur) == b as nat + 256 * le_value(tail));
            assert(pow256((8 - i) as nat) == 256 * pow256((8 - i - 1) as nat));
            lemma_le_bytes_of_value(cur);
            lemma_pow256_values();
            lemma_pow256_le((8 - i) as nat, 8);
        }
        v = v * 256 + b as u64;
    }
    proof {
        assert(s.subrange(0, 8) =~= s);
    }
    v
}

pub proof fn lemma_pow256_le(a: nat, b: nat)
    requires
        a <= b,
    ensures
        pow256(a) <= pow256(b),
    decreases b,
{
    if a < b {
        lemma_pow256_le(a, (b - 1) as nat);
    }
}

/// Appends the sixteen bytes of `v`, most significant first.
pub fn put_u128_be(out: &mut Vec<u8>, v: u128)
    ensures
        final(out)@ == old(out)@ + be_bytes(v as nat, 16),
{
    let mut low: Vec<u8> = Vec::new();
    let mut rest: u128 = v;
    let mut i: usize = 0;
    proof {
        assert(low@ + le_bytes(v as nat, 16) =~= le_bytes(v as nat, 16));
    }
    while i < 16
        invariant
            i <= 16,
            low@ + le_bytes(rest as nat, (16 - i) as nat) == le_bytes(v as nat, 16),
        decreases 16 - i,
    {
        let b: u8 = (rest % 256) as u8;
        proof {
            assert(low@.push(b) + le_bytes(rest as nat / 256, (16 - i - 1) as nat) =~= low@
                + le_bytes(rest as nat, (16 - i) as nat));
        }
        low.push(b);
        rest = rest / 256;
        i = i + 1;
    }
    proof {
        assert(low@ + le_bytes(rest as nat, 0) =~= low@);
        lemma_le_bytes_len(v as nat, 16);
        assert(low@.reverse().subrange(0, 0) =~= Seq::<u8>::empty());
        assert(out@ + Seq::<u8>::empty() =~= out@);
    }
    let mut j: usize = 16;
    while j > 0
        invariant
            j <= 16,
            low@.len() == 16,
            low@ == le_bytes(v as nat, 16),
            out@ == old(out)@ + low@.reverse().subrange(0, 16 - j),
        decreases j,
    {
        j = j - 1;
        out.push(low[j]);
        proof {
            assert(low@.reverse().subrange(0, 16 - j) =~= low@.reverse().subrange(0, 16 - j - 1).push(
                low@[j as int],
            ));
        }
    }
    proof {
        assert(low@.reverse().subrange(0, 16) =~= low@.reverse());
    }
}

/// Reads the sixteen bytes at `at` as a number, most significant first.
pub fn get_u128_be(bytes: &[u8], at: usize) -> (v: u128)
    requires
        at + 16 <= bytes@.len(),
    ensures
        v as nat == be_value(bytes@.subrange(at as int, at + 16)),
{
    let ghost s = bytes@.subrange(at as int, at + 16);
    let ghost r = s.reverse();
    let len: usize = bytes.len();
    let mut v: u128 = 0;
    let mut i: usize = 0;
    proof {
        assert(r.subrange(16, 16) =~= Seq::<u8>::empty());
        lemma_pow256_values();
    }
    while i < 16
        invariant
            i <= 16,
            len == bytes@.len(),
            at + 16 <= len,
            s == bytes@.subrange(at as int, at + 16),
            r == s.reverse(),
            v as nat == le_value(r.subrange(16 - i, 16)),
            (v as nat) < pow256(i as nat),
        decreases 16 - i,
    {
        let b: u8 = bytes[at + i];
        proof {
            let tail = r.subrange(16 - i, 16);
            let cur = r.subrange(16 - i - 1, 16);
            assert(cur.drop_first() =~= tail);
            assert(cur[0] == b);
            assert(le_value(cur) == b as nat + 256 * le_value(tail));
            assert(pow256((i + 1) as nat) == 256 * pow256(i as nat));
            lemma_pow256_values();
            lemma_pow256_le((i + 1) as nat, 16);
        }
        v = v * 256 + b as u128;
        i = i + 1;
    }
    proof {
        assert(r.subrange(0, 16) =~= r);
    }
    v
}

/// The unsigned number with the bits of `t`.
pub fn i64_bits(t: i64) -> (u: u64)
    ensures
        u as nat == twos(t as int),
{
    if t >= 0 {
        t as u64
    } else {
        let lifted: i64 = t + 0x7fff_ffff_ffff_ffff + 1;
        lifted as u64 + 0x8000_0000_0000_0000
    }
}

/// The signed number with the bits of `u`.
pub fn i64_from_bits(u: u64) -> (t: i64)
    ensures
        t as int == untwos(u as nat),
{
    if u < 0x8000_0000_0000_0000 {
        u as i64
    } else {
        let low: u64 = u - 0x8000_0000_0000_0000;
        low as i64 - 0x7fff_ffff_ffff_ffff - 1
    }
}

/// Appends `payload` as a field.
pub fn put_field(out: &mut Vec<u8>, payload: &[u8])
    ensures
        final(out)@ == old(out)@ + field(payload@),
{
    let n: usize = payload.len();
    put_u64(out, n as u64);
    let mut i: usize = 0;
    while i < n
        invariant
            i <= n,
            n == payload@.len(),
            out@ == old(out)@ + le_bytes(n as nat, 8) + payload@.subrange(0, i as int),
        decreases n - i,
    {
        out.push(payload[i]);
        proof {
            assert(payload@.subrange(0, i + 1) =~= payload@.subrange(0, i as int).push(
                payload@[i as int],
            ));
        }
        i = i + 1;
    }
    proof {
        assert(payload@.subrange(0, n as int) =~= payload@);
        assert(old(out)@ + le_bytes(n as nat, 8) + payload@ =~= old(out)@ + field(payload@));
    }
}

/// Where the field that starts at `at` has its payload, and where it ends:
/// `Some((start, end))`, or `None` where the bytes from `at` on are too few
/// for the length they announce.
pub fn field_bounds(bytes: &[u8], at: usize) -> (r: Option<(usize, usize)>)
    requires
        at <= bytes@.len(),
    ensures
        match take_field(bytes@.subrange(at as int, bytes@.len() as int)) {
            Some((payload, rest)) => r matches Some((start, end)) && start == at + 8 && end
                <= bytes@.len() && payload == bytes@.subrange(start as int, end as int) && rest
                == bytes@.subrange(end as int, bytes@.len() as int),
            None => r is None,
        },
{
    let len: usize = bytes.len();
    let ghost tail = bytes@.subrange(at as int, len as int);
    if len - at < 8 {
        return None;
    }
    let n: u64 = get_u64(bytes, at);
    proof {
        assert(tail.subrange(0, 8) =~= bytes@.subrange(at as int, at + 8));
    }
    let room: usize = len - at - 8;
    if n > room as u64 {
        return None;
    }
    let start: usize = at + 8;
    let end: usize = start + n as usize;
    proof {
        assert(tail.subrange(8, 8 + n) =~= bytes@.subrange(start as int, end as int));
        assert(tail.subrange(8 + n, tail.len() as int) =~= bytes@.subrange(
            end as int,
            len as int,
        ));
    }
    Some((start, end))
}

} // verus!
