//! Multi-precision integers in the OpenPGP wire form: a two-octet big-endian
//! bit count followed by the magnitude, big-endian, in as few bytes as the
//! bit count needs. Values are kept canonical: no leading zero byte, and the
//! bit count recomputed from the magnitude.

use crate::codec::{be_bytes, be_val, lemma_be_bytes_len, lemma_be_val_be_bytes, lemma_pow256_values, read_be_u16};
use vstd::prelude::*;

verus! {

/// Number of bits needed to represent `b`.
pub open spec fn spec_u8_bitlen(b: u8) -> nat {
    if b >= 128 {
        8
    } else if b >= 64 {
        7
    } else if b >= 32 {
        6
    } else if b >= 16 {
        5
    } else if b >= 8 {
        4
    } else if b >= 4 {
        3
    } else if b >= 2 {
        2
    } else if b >= 1 {
        1
    } else {
        0
    }
}

pub fn u8_bitlen(b: u8) -> (r: u8)
    ensures
        r == spec_u8_bitlen(b),
{
    if b >= 128 {
        8
    } else if b >= 64 {
        7
    } else if b >= 32 {
        6
    } else if b >= 16 {
        5
    } else if b >= 8 {
        4
    } else if b >= 4 {
        3
    } else if b >= 2 {
        2
    } else if b >= 1 {
        1
    } else {
        0
    }
}

/// A big-endian magnitude with its leading zero bytes removed.
pub open spec fn strip_zeros(s: Seq<u8>) -> Seq<u8>
    decreases s.len(),
{
    if s.len() > 0 && s[0] == 0 {
        strip_zeros(s.subrange(1, s.len() as int))
    } else {
        s
    }
}

/// The bit count of a canonical (no leading zero byte) magnitude.
pub open spec fn mpi_bit_count(mag: Seq<u8>) -> nat {
    if mag.len() == 0 {
        0
    } else {
        (8 * (mag.len() - 1) + spec_u8_bitlen(mag[0])) as nat
    }
}

/// A canonical magnitude: no leading zero byte, and a bit count that fits
/// the two-octet header.
pub open spec fn spec_mag_wf(mag: Seq<u8>) -> bool {
    &&& (mag.len() == 0 || mag[0] != 0)
    &&& mpi_bit_count(mag) <= 0xFFFF
}

/// A multi-precision integer, stored as its canonical big-endian magnitude.
#[derive(Clone, Debug, PartialEq, Eq)]
pub struct Mpi {
    pub bytes: Vec<u8>,
}

/// The wire encoding of a canonical magnitude: two octets of bit count,
/// then the magnitude itself.
pub open spec fn spec_mpi_encoding(mag: Seq<u8>) -> Seq<u8> {
    be_bytes(mpi_bit_count(mag), 2) + mag
}

/// What decoding a multi-precision integer at `pos` of `s` yields: the
/// canonical magnitude and the position just past the integer, or `None`
/// if the bytes run out or the magnitude cannot carry a two-octet bit
/// count. The declared bit count fixes how many magnitude bytes are read;
/// the magnitude is then normalized, so a non-canonical input decodes to
/// the same value its canonical form would.
pub open spec fn spec_mpi_decode(s: Seq<u8>, pos: int) -> Option<(Seq<u8>, int)> {
    if pos + 2 <= s.len() {
        let n = be_val(s.subrange(pos, pos + 2));
        let k = ((n + 7) / 8) as int;
        if pos + 2 + k <= s.len() {
            let mag = strip_zeros(s.subrange(pos + 2, pos + 2 + k));
            if mpi_bit_count(mag) <= 0xFFFF {
                Some((mag, pos + 2 + k))
            } else {
                None
            }
        } else {
            None
        }
    } else {
        None
    }
}

impl Mpi {
    /// Canonical form: no leading zero byte, and a bit count that fits the
    /// two-octet header.
    pub open spec fn wf(&self) -> bool {
        spec_mag_wf(self.bytes@)
    }

    pub open spec fn spec_encoding(&self) -> Seq<u8> {
        spec_mpi_encoding(self.bytes@)
    }

    /// Length in bytes of this integer's wire encoding.
    pub fn encoded_len(&self) -> (r: usize)
        requires
            self.wf(),
        ensures
            r == self.spec_encoding().len(),
            r == 2 + self.bytes@.len(),
    {
        proof {
            lemma_be_bytes_len(mpi_bit_count(self.bytes@), 2);
        }
        2 + self.bytes.len()
    }

    /// Decode one multi-precision integer at `pos`.
    pub fn decode(inp: &[u8], pos: usize) -> (r: Option<(Mpi, usize)>)
        requires
            pos <= inp@.len(),
        ensures
            match spec_mpi_decode(inp@, pos as int) {
                Some((mag, next)) => r matches Some(p) && p.0.bytes@ == mag && p.0.wf() && p.1
                    == next && pos + 2 + mag.len() <= next <= inp@.len(),
                None => r is None,
            },
    {
        let slen = inp.len();
        if slen - pos < 2 {
            return None;
        }
        let n = read_be_u16(inp, pos) as usize;
        proof {
            lemma_pow256_values();
            crate::codec::lemma_be_val_bound(inp@.subrange(pos as int, pos + 2));
        }
        let k = (n + 7) / 8;
        if slen - (pos + 2) < k {
            return None;
        }
        let data_start = pos + 2;
        let data_end = pos + 2 + k;
        let mut start = data_start;
        while start < data_end && inp[start] == 0
            invariant
                data_start <= start <= data_end,
                data_end <= slen,
                slen == inp@.len(),
                forall|j: int| data_start <= j < start ==> inp@[j] == 0,
            decreases data_end - start,
        {
            start = start + 1;
        }
        proof {
            lemma_strip_zeros_skip(
                inp@.subrange(data_start as int, data_end as int),
                start - data_start,
            );
        }
        let mut bytes: Vec<u8> = Vec::new();
        let mut i = start;
        while i < data_end
            invariant
                start <= i <= data_end,
                data_end <= slen,
                slen == inp@.len(),
                bytes@ == inp@.subrange(start as int, i as int),
            decreases data_end - i,
        {
            let b = inp[i];
            bytes.push(b);
            proof {
                assert(bytes@ =~= inp@.subrange(start as int, i + 1));
            }
            i = i + 1;
        }
        let len = bytes.len();
        if len > 0 {
            let bl = u8_bitlen(bytes[0]);
            let bits = 8 * (len - 1) + bl as usize;
            if bits > 0xFFFF {
                return None;
            }
        }
        Some((Mpi { bytes }, data_end))
    }

    /// Re-encode this integer in its wire form.
    pub fn to_bytes(&self) -> (r: Vec<u8>)
        requires
            self.wf(),
        ensures
            r@ == self.spec_encoding(),
    {
        let len = self.bytes.len();
        let n: usize = if len == 0 {
            0
        } else {
            8 * (len - 1) + u8_bitlen(self.bytes[0]) as usize
        };
        let mut out: Vec<u8> = Vec::new();
        out.push((n / 256) as u8);
        out.push((n % 256) as u8);
        proof {
            lemma_be_bytes_unfold_u16(n as nat);
        }
        let mut i: usize = 0;
        while i < len
            invariant
                i <= len,
                len == self.bytes@.len(),
                out@ == be_bytes(mpi_bit_count(self.bytes@), 2) + self.bytes@.subrange(0, i as int),
            decreases len - i,
        {
            let b = self.bytes[i];
            out.push(b);
            proof {
                assert(out@ =~= be_bytes(mpi_bit_count(self.bytes@), 2) + self.bytes@.subrange(
                    0,
                    i + 1,
                ));
            }
            i = i + 1;
        }
        proof {
            assert(self.bytes@.subrange(0, len as int) =~= self.bytes@);
        }
        out
    }
}

/// The two-byte big-endian encoding of a value below 0x10000, digit by digit.
proof fn lemma_be_bytes_unfold_u16(n: nat)
    requires
        n < 0x10000,
    ensures
        be_bytes(n, 2) =~= seq![(n / 256) as u8, (n % 256) as u8],
{
    assert(be_bytes(n / 256 / 256, 0) =~= Seq::<u8>::empty());
    assert(be_bytes(n / 256, 1) =~= seq![((n / 256) % 256) as u8]);
    assert(n / 256 < 256);
    assert((n / 256) % 256 == n / 256);
}

/// Skipping a run of leading zero bytes is exactly what `strip_zeros` does,
/// provided the run ends at a nonzero byte or at the end of the string.
proof fn lemma_strip_zeros_skip(s: Seq<u8>, i: int)
    requires
        0 <= i <= s.len(),
        forall|j: int| 0 <= j < i ==> s[j] == 0,
        i == s.len() || s[i] != 0,
    ensures
        strip_zeros(s) == s.subrange(i, s.len() as int),
    decreases i,
{
    if i == 0 {
        assert(s.subrange(0, s.len() as int) =~= s);
    } else {
        let t = s.subrange(1, s.len() as int);
        lemma_strip_zeros_skip(t, i - 1);
        assert(t.subrange(i - 1, t.len() as int) =~= s.subrange(i, s.len() as int));
    }
}

/// Strip is the identity on a canonical magnitude.
proof fn lemma_strip_zeros_id(s: Seq<u8>)
    requires
        s.len() == 0 || s[0] != 0,
    ensures
        strip_zeros(s) == s,
{
}

/// Decoding an encoded integer, with anything at all after it, yields the
/// integer back and stops exactly at the end of its encoding.
pub proof fn lemma_mpi_decode_encoding(mag: Seq<u8>, rest: Seq<u8>)
    requires
        mag.len() == 0 || mag[0] != 0,
        mpi_bit_count(mag) <= 0xFFFF,
    ensures
        spec_mpi_decode(spec_mpi_encoding(mag) + rest, 0) == Some((
            mag,
            spec_mpi_encoding(mag).len() as int,
        )),
        spec_mpi_encoding(mag).len() == 2 + mag.len(),
{
    let n = mpi_bit_count(mag);
    let enc = spec_mpi_encoding(mag);
    let s = enc + rest;
    lemma_be_bytes_len(n, 2);
    assert(s.subrange(0, 2) =~= be_bytes(n, 2));
    lemma_pow256_values();
    lemma_be_val_be_bytes(n, 2);
    // the declared bit count reads back exactly the magnitude's byte length
    if mag.len() == 0 {
        assert((n + 7) / 8 == 0);
    } else {
        let bl = spec_u8_bitlen(mag[0]) as int;
        assert(1 <= bl <= 8);
        vstd::arithmetic::div_mod::lemma_fundamental_div_mod_converse(
            n as int + 7,
            8,
            mag.len() as int,
            bl - 1,
        );
    }
    let k = ((n + 7) / 8) as int;
    assert(k == mag.len());
    assert(s.subrange(2, 2 + k) =~= mag);
    lemma_strip_zeros_id(mag);
}

/// Decoding at the start of `t`, seen behind an arbitrary prefix, is the
/// decoding of `t` with every position shifted by the prefix's length.
pub proof fn lemma_mpi_decode_offset(prefix: Seq<u8>, t: Seq<u8>)
    ensures
        match spec_mpi_decode(t, 0) {
            Some((mag, next)) => spec_mpi_decode(prefix + t, prefix.len() as int) == Some((
                mag,
                prefix.len() + next,
            )),
            None => spec_mpi_decode(prefix + t, prefix.len() as int) is None,
        },
{
    let p = prefix.len() as int;
    let s = prefix + t;
    if 2 <= t.len() {
        assert(s.subrange(p, p + 2) =~= t.subrange(0, 2));
        let n = be_val(t.subrange(0, 2));
        let k = ((n + 7) / 8) as int;
        if 2 + k <= t.len() {
            assert(s.subrange(p + 2, p + 2 + k) =~= t.subrange(2, 2 + k));
        }
    }
}

} // verus!
