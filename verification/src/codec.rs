//! Byte-level primitives shared by the packet and subpacket decoders: the
//! big-endian value of a byte string, bounded big-endian readers, and the
//! three-tier variable-length scheme used to frame subpackets (one octet,
//! two scaled octets, or a four-octet value behind a 255 marker).

use vstd::prelude::*;

verus! {

/// The value of a byte string read as one big-endian unsigned integer.
pub open spec fn be_val(s: Seq<u8>) -> nat
    decreases s.len(),
{
    if s.len() == 0 {
        0
    } else {
        (be_val(s.drop_last()) * 256 + s.last()) as nat
    }
}

/// 256 raised to `n`: the number of values a byte string of length `n` can take.
pub open spec fn pow256(n: nat) -> nat
    decreases n,
{
    if n == 0 {
        1
    } else {
        256 * pow256((n - 1) as nat)
    }
}

/// The big-endian encoding of `v % pow256(n)` in exactly `n` bytes.
pub open spec fn be_bytes(v: nat, n: nat) -> Seq<u8>
    decreases n,
{
    if n == 0 {
        Seq::empty()
    } else {
        be_bytes(v / 256, (n - 1) as nat).push((v % 256) as u8)
    }
}

pub proof fn lemma_pow256_values()
    ensures
        pow256(0) == 1,
        pow256(1) == 0x100,
        pow256(2) == 0x10000,
        pow256(3) == 0x1000000,
        pow256(4) == 0x100000000,
        pow256(5) == 0x10000000000,
        pow256(6) == 0x1000000000000,
        pow256(7) == 0x100000000000000,
        pow256(8) == 0x10000000000000000,
{
    assert(pow256(0) == 1);
    assert(pow256(1) == 0x100);
    assert(pow256(2) == 0x10000);
    assert(pow256(3) == 0x1000000);
    assert(pow256(4) == 0x100000000);
    assert(pow256(5) == 0x10000000000);
    assert(pow256(6) == 0x1000000000000);
    assert(pow256(7) == 0x100000000000000);
    assert(pow256(8) == 0x10000000000000000);
}

pub proof fn lemma_pow256_le(i: nat, j: nat)
    requires
        i <= j,
    ensures
        pow256(i) <= pow256(j),
    decreases j - i,
{
    if i < j {
        lemma_pow256_le(i, (j - 1) as nat);
    }
}

/// A byte string of length `n` denotes a value below `pow256(n)`.
pub proof fn lemma_be_val_bound(s: Seq<u8>)
    ensures
        be_val(s) < pow256(s.len()),
    decreases s.len(),
{
    if s.len() > 0 {
        lemma_be_val_bound(s.drop_last());
    }
}

pub proof fn lemma_be_bytes_len(v: nat, n: nat)
    ensures
        be_bytes(v, n).len() == n,
    decreases n,
{
    if n > 0 {
        lemma_be_bytes_len(v / 256, (n - 1) as nat);
    }
}

/// Reading back the `n`-byte big-endian encoding of a value below
/// `pow256(n)` yields the value itself.
pub proof fn lemma_be_val_be_bytes(v: nat, n: nat)
    requires
        v < pow256(n),
    ensures
        be_val(be_bytes(v, n)) == v,
    decreases n,
{
    if n > 0 {
        assert(v / 256 < pow256((n - 1) as nat)) by (nonlinear_arith)
            requires
                v < 256 * pow256((n - 1) as nat),
        ;
        lemma_be_val_be_bytes(v / 256, (n - 1) as nat);
        lemma_be_bytes_len(v / 256, (n - 1) as nat);
        assert(be_bytes(v, n).drop_last() =~= be_bytes(v / 256, (n - 1) as nat));
        vstd::arithmetic::div_mod::lemma_fundamental_div_mod(v as int, 256);
    }
}

/// Read `n` bytes (at most 8) at `pos` as one big-endian integer.
pub fn read_be(inp: &[u8], pos: usize, n: usize) -> (r: u64)
    requires
        n <= 8,
        pos + n <= inp@.len(),
    ensures
        r == be_val(inp@.subrange(pos as int, pos + n)),
{
    let slen = inp.len();
    let mut acc: u64 = 0;
    let mut i: usize = 0;
    while i < n
        invariant
            n <= 8,
            i <= n,
            pos + n <= slen,
            slen == inp@.len(),
            acc == be_val(inp@.subrange(pos as int, pos + i)),
        decreases n - i,
    {
        proof {
            lemma_be_val_bound(inp@.subrange(pos as int, pos + i));
            lemma_pow256_le(i as nat, 7);
            lemma_pow256_values();
        }
        let b = inp[pos + i];
        proof {
            assert(inp@.subrange(pos as int, pos + i + 1).drop_last() =~= inp@.subrange(
                pos as int,
                pos + i,
            ));
            assert(inp@.subrange(pos as int, pos + i + 1).last() == b);
        }
        acc = acc * 256 + (b as u64);
        i = i + 1;
    }
    acc
}

/// Read a two-byte big-endian integer at `pos`.
pub fn read_be_u16(inp: &[u8], pos: usize) -> (r: u16)
    requires
        pos + 2 <= inp@.len(),
    ensures
        r == be_val(inp@.subrange(pos as int, pos + 2)),
{
    let v = read_be(inp, pos, 2);
    proof {
        lemma_be_val_bound(inp@.subrange(pos as int, pos + 2));
        lemma_pow256_values();
    }
    v as u16
}

/// Read a four-byte big-endian integer at `pos`.
pub fn read_be_u32(inp: &[u8], pos: usize) -> (r: u32)
    requires
        pos + 4 <= inp@.len(),
    ensures
        r == be_val(inp@.subrange(pos as int, pos + 4)),
{
    let v = read_be(inp, pos, 4);
    proof {
        lemma_be_val_bound(inp@.subrange(pos as int, pos + 4));
        lemma_pow256_values();
    }
    v as u32
}

/// Read an eight-byte big-endian integer at `pos`.
pub fn read_be_u64(inp: &[u8], pos: usize) -> (r: u64)
    requires
        pos + 8 <= inp@.len(),
    ensures
        r == be_val(inp@.subrange(pos as int, pos + 8)),
{
    read_be(inp, pos, 8)
}

/// What decoding a variable-length integer yields inside the window
/// `[pos, end)` of `s`: the decoded value and the position just past it,
/// or `None` if the window ends before the form is complete.
///
/// The three forms: a first octet below 192 is the value itself; a first
/// octet in `[192, 254]` is followed by one more octet and denotes
/// `(first - 192) * 256 + second + 192`; a first octet of 255 is followed
/// by the value as four big-endian octets.
pub open spec fn spec_length_decode(s: Seq<u8>, pos: int, end: int) -> Option<(nat, int)> {
    if pos < end {
        let b0 = s[pos];
        if b0 < 192 {
            Some((b0 as nat, pos + 1))
        } else if b0 < 255 {
            if pos + 2 <= end {
                Some(((((b0 - 192) * 256) + s[pos + 1] + 192) as nat, pos + 2))
            } else {
                None
            }
        } else {
            if pos + 5 <= end {
                Some((be_val(s.subrange(pos + 1, pos + 5)), pos + 5))
            } else {
                None
            }
        }
    } else {
        None
    }
}

/// Decode one variable-length integer inside the window `[pos, end)`.
/// `None` means the window was exhausted before the form was complete.
pub fn subpacket_length(inp: &[u8], pos: usize, end: usize) -> (r: Option<(u32, usize)>)
    requires
        pos <= end,
        end <= inp@.len(),
    ensures
        match spec_length_decode(inp@, pos as int, end as int) {
            Some((v, next)) => r matches Some(p) && p.0 == v && p.1 == next,
            None => r is None,
        },
{
    if pos >= end {
        return None;
    }
    let b0 = inp[pos];
    if b0 < 192 {
        Some((b0 as u32, pos + 1))
    } else if b0 < 255 {
        if end - pos >= 2 {
            let b1 = inp[pos + 1];
            let v = ((b0 as u32) - 192) * 256 + (b1 as u32) + 192;
            Some((v, pos + 2))
        } else {
            None
        }
    } else {
        if end - pos >= 5 {
            let v = read_be_u32(inp, pos + 1);
            Some((v, pos + 5))
        } else {
            None
        }
    }
}

/// The shortest of the three variable-length forms that can carry `v`.
pub open spec fn spec_length_encode(v: u32) -> Seq<u8> {
    if v < 192 {
        seq![v as u8]
    } else if v <= 16319 {
        seq![((((v - 192) / 256) + 192) as u8), (((v - 192) % 256) as u8)]
    } else {
        seq![255u8] + be_bytes(v as nat, 4)
    }
}

/// Encode `v` in the shortest variable-length form.
pub fn encode_length(v: u32) -> (r: Vec<u8>)
    ensures
        r@ == spec_length_encode(v),
{
    let mut out: Vec<u8> = Vec::new();
    if v < 192 {
        out.push(v as u8);
    } else if v <= 16319 {
        let d = v - 192;
        proof {
            assert(d / 256 <= 62) by (nonlinear_arith)
                requires
                    d <= 16127,
            ;
        }
        out.push((d / 256) as u8 + 192);
        out.push((d % 256) as u8);
        proof {
            assert(out@ =~= spec_length_encode(v));
        }
    } else {
        out.push(255);
        out.push((v / 16777216) as u8);
        out.push(((v / 65536) % 256) as u8);
        out.push(((v / 256) % 256) as u8);
        out.push((v % 256) as u8);
        proof {
            lemma_be_bytes_unfold_u32(v);
            assert(out@ =~= spec_length_encode(v));
        }
    }
    out
}

/// Append the four-byte big-endian encoding of `v`.
pub fn push_be_u32(out: &mut Vec<u8>, v: u32)
    ensures
        final(out)@ == old(out)@ + be_bytes(v as nat, 4),
{
    out.push((v / 16777216) as u8);
    out.push(((v / 65536) % 256) as u8);
    out.push(((v / 256) % 256) as u8);
    out.push((v % 256) as u8);
    proof {
        lemma_be_bytes_unfold_u32(v);
        assert(out@ =~= old(out)@ + be_bytes(v as nat, 4));
    }
}

/// Append the eight-byte big-endian encoding of `v`.
pub fn push_be_u64(out: &mut Vec<u8>, v: u64)
    ensures
        final(out)@ == old(out)@ + be_bytes(v as nat, 8),
{
    out.push((v / 72057594037927936) as u8);
    out.push(((v / 281474976710656) % 256) as u8);
    out.push(((v / 1099511627776) % 256) as u8);
    out.push(((v / 4294967296) % 256) as u8);
    out.push(((v / 16777216) % 256) as u8);
    out.push(((v / 65536) % 256) as u8);
    out.push(((v / 256) % 256) as u8);
    out.push((v % 256) as u8);
    proof {
        lemma_be_bytes_unfold_u64(v);
        assert(out@ =~= old(out)@ + be_bytes(v as nat, 8));
    }
}

/// The eight-byte big-endian encoding of a `u64`, written out digit by digit.
proof fn lemma_be_bytes_unfold_u64(v: u64)
    ensures
        be_bytes(v as nat, 8) =~= seq![
            ((v as nat / 72057594037927936) % 256) as u8,
            ((v as nat / 281474976710656) % 256) as u8,
            ((v as nat / 1099511627776) % 256) as u8,
            ((v as nat / 4294967296) % 256) as u8,
            ((v as nat / 16777216) % 256) as u8,
            ((v as nat / 65536) % 256) as u8,
            ((v as nat / 256) % 256) as u8,
            (v as nat % 256) as u8,
        ],
{
    let n0 = v as nat;
    let n1 = n0 / 256;
    let n2 = n1 / 256;
    let n3 = n2 / 256;
    let n4 = n3 / 256;
    let n5 = n4 / 256;
    let n6 = n5 / 256;
    let n7 = n6 / 256;
    vstd::arithmetic::div_mod::lemma_div_denominator(v as int, 256, 256);
    vstd::arithmetic::div_mod::lemma_div_denominator(v as int, 65536, 256);
    vstd::arithmetic::div_mod::lemma_div_denominator(v as int, 16777216, 256);
    vstd::arithmetic::div_mod::lemma_div_denominator(v as int, 4294967296, 256);
    vstd::arithmetic::div_mod::lemma_div_denominator(v as int, 1099511627776, 256);
    vstd::arithmetic::div_mod::lemma_div_denominator(v as int, 281474976710656, 256);
    assert(n2 == n0 / 65536);
    assert(n3 == n0 / 16777216);
    assert(n4 == n0 / 4294967296);
    assert(n5 == n0 / 1099511627776);
    assert(n6 == n0 / 281474976710656);
    assert(n7 == n0 / 72057594037927936);
    assert(n7 < 256) by (nonlinear_arith)
        requires
            n7 == (v as nat / 281474976710656) / 256,
            v < 0x10000000000000000,
    ;
    assert(be_bytes(n7 / 256, 0) =~= Seq::<u8>::empty());
    assert(be_bytes(n7, 1) =~= seq![(n7 % 256) as u8]);
    assert(be_bytes(n6, 2) =~= be_bytes(n7, 1).push((n6 % 256) as u8));
    assert(be_bytes(n5, 3) =~= be_bytes(n6, 2).push((n5 % 256) as u8));
    assert(be_bytes(n4, 4) =~= be_bytes(n5, 3).push((n4 % 256) as u8));
    assert(be_bytes(n3, 5) =~= be_bytes(n4, 4).push((n3 % 256) as u8));
    assert(be_bytes(n2, 6) =~= be_bytes(n3, 5).push((n2 % 256) as u8));
    assert(be_bytes(n1, 7) =~= be_bytes(n2, 6).push((n1 % 256) as u8));
    assert(be_bytes(n0, 8) =~= be_bytes(n1, 7).push((n0 % 256) as u8));
    assert(n7 % 256 == n7);
}

/// The four-byte big-endian encoding of a `u32`, written out digit by digit.
proof fn lemma_be_bytes_unfold_u32(v: u32)
    ensures
        be_bytes(v as nat, 4) =~= seq![
            ((v as nat / 16777216) % 256) as u8,
            ((v as nat / 65536) % 256) as u8,
            ((v as nat / 256) % 256) as u8,
            (v as nat % 256) as u8,
        ],
{
    let n0 = v as nat;
    let n1 = n0 / 256;
    let n2 = n1 / 256;
    let n3 = n2 / 256;
    vstd::arithmetic::div_mod::lemma_div_denominator(v as int, 256, 256);
    vstd::arithmetic::div_mod::lemma_div_denominator(v as int, 65536, 256);
    assert(n2 == n0 / 65536);
    assert(n3 == n0 / 16777216);
    assert(n3 < 256) by (nonlinear_arith)
        requires
            n3 == (v as nat / 65536) / 256,
            v < 0x100000000,
    ;
    assert(be_bytes(n3 / 256, 0) =~= Seq::<u8>::empty());
    assert(be_bytes(n3, 1) =~= seq![(n3 % 256) as u8]);
    assert(be_bytes(n2, 2) =~= be_bytes(n3, 1).push((n2 % 256) as u8));
    assert(be_bytes(n1, 3) =~= be_bytes(n2, 2).push((n1 % 256) as u8));
    assert(be_bytes(n0, 4) =~= be_bytes(n1, 3).push((n0 % 256) as u8));
    assert(n3 % 256 == n3);
}

/// Decoding an encoded length yields the value back and consumes exactly
/// the encoding.
pub proof fn lemma_length_round_trip(v: u32)
    ensures
        ({
            let enc = spec_length_encode(v);
            spec_length_decode(enc, 0, enc.len() as int) == Some((v as nat, enc.len() as int))
        }),
{
    let enc = spec_length_encode(v);
    if v < 192 {
    } else if v <= 16319 {
        let d = (v - 192) as nat;
        assert(d / 256 <= 62) by (nonlinear_arith)
            requires
                d <= 16127,
        ;
        vstd::arithmetic::div_mod::lemma_fundamental_div_mod(d as int, 256);
    } else {
        lemma_pow256_values();
        lemma_be_bytes_len(v as nat, 4);
        assert(enc.subrange(1, 5) =~= be_bytes(v as nat, 4));
        lemma_be_val_be_bytes(v as nat, 4);
    }
}

} // verus!
