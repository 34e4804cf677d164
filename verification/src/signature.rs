//! The signature packet body itself: typed subpackets with their
//! variable-length framing, the legacy fixed layout and the modern
//! subpacket-based layout behind one entry point, and the interpretation of
//! the trailing signature value as RSA or DSA multi-precision integers.

use crate::codec::{
    be_bytes, be_val, push_be_u32, push_be_u64, read_be_u16, read_be_u32, read_be_u64,
    spec_length_decode, subpacket_length,
};
use crate::mpi::{
    lemma_mpi_decode_encoding, lemma_mpi_decode_offset, spec_mag_wf, spec_mpi_decode,
    spec_mpi_encoding, Mpi,
};
use crate::types::{spec_hash_algo_of, spec_pk_algo_of, HashAlgorithm, PublicKeyAlgorithm};
use vstd::prelude::*;

verus! {

/// Semantic tag of a signature: what the signature is over.
#[derive(Clone, Copy, Debug, PartialEq, Eq, Structural)]
pub enum SignatureType {
    BinaryDocument,
    TextDocument,
    Standalone,
    GenericCertification,
    PersonaCertification,
    CasualCertification,
    PositiveCertification,
    SubkeyBinding,
    PrimaryKeyBinding,
    DirectKey,
    KeyRevocation,
    SubkeyRevocation,
    CertificationRevocation,
    Timestamp,
    ThirdPartyConfirmation,
    Unknown,
}

/// The signature type a numeric tag denotes; total, every unassigned tag
/// maps to `Unknown`.
pub open spec fn spec_sig_type_of(v: u8) -> SignatureType {
    if v == 0x00 {
        SignatureType::BinaryDocument
    } else if v == 0x01 {
        SignatureType::TextDocument
    } else if v == 0x02 {
        SignatureType::Standalone
    } else if v == 0x10 {
        SignatureType::GenericCertification
    } else if v == 0x11 {
        SignatureType::PersonaCertification
    } else if v == 0x12 {
        SignatureType::CasualCertification
    } else if v == 0x13 {
        SignatureType::PositiveCertification
    } else if v == 0x18 {
        SignatureType::SubkeyBinding
    } else if v == 0x19 {
        SignatureType::PrimaryKeyBinding
    } else if v == 0x1F {
        SignatureType::DirectKey
    } else if v == 0x20 {
        SignatureType::KeyRevocation
    } else if v == 0x28 {
        SignatureType::SubkeyRevocation
    } else if v == 0x30 {
        SignatureType::CertificationRevocation
    } else if v == 0x40 {
        SignatureType::Timestamp
    } else if v == 0x50 {
        SignatureType::ThirdPartyConfirmation
    } else {
        SignatureType::Unknown
    }
}

impl From<u8> for SignatureType {
    fn from(v: u8) -> (r: SignatureType) {
        if v == 0x00 {
            SignatureType::BinaryDocument
        } else if v == 0x01 {
            SignatureType::TextDocument
        } else if v == 0x02 {
            SignatureType::Standalone
        } else if v == 0x10 {
            SignatureType::GenericCertification
        } else if v == 0x11 {
            SignatureType::PersonaCertification
        } else if v == 0x12 {
            SignatureType::CasualCertification
        } else if v == 0x13 {
            SignatureType::PositiveCertification
        } else if v == 0x18 {
            SignatureType::SubkeyBinding
        } else if v == 0x19 {
            SignatureType::PrimaryKeyBinding
        } else if v == 0x1F {
            SignatureType::DirectKey
        } else if v == 0x20 {
            SignatureType::KeyRevocation
        } else if v == 0x28 {
            SignatureType::SubkeyRevocation
        } else if v == 0x30 {
            SignatureType::CertificationRevocation
        } else if v == 0x40 {
            SignatureType::Timestamp
        } else if v == 0x50 {
            SignatureType::ThirdPartyConfirmation
        } else {
            SignatureType::Unknown
        }
    }
}

impl vstd::std_specs::convert::FromSpecImpl<u8> for SignatureType {
    open spec fn obeys_from_spec() -> bool {
        true
    }

    open spec fn from_spec(v: u8) -> SignatureType {
        spec_sig_type_of(v)
    }
}

/// Why a packet failed to decode: the bytes ran out, a subpacket used a
/// reserved type tag, an integer field was shorter than declared, or the
/// leading bytes match neither layout.
#[derive(Clone, Copy, Debug, PartialEq, Eq, Structural)]
pub enum SignatureError {
    Truncated,
    UseOfReservedValue,
    IntegerReadError,
    UnrecognizedFormat,
}

/// One typed attribute of a signature packet. Timestamps are seconds.
/// Recognized-but-opaque kinds keep their variants for callers; a type tag
/// that is assigned but not interpreted here is preserved as `Unknown`
/// with its tag and declared length.
#[derive(Clone, Copy, Debug, PartialEq, Eq, Structural)]
pub enum Subpacket {
    SignatureCreationTime(u32),
    SignatureExpirationTime(u32),
    ExportableCertification,
    TrustSignature,
    RegularExpression,
    Revocable,
    KeyExpirationTime(u32),
    PreferredSymmetricAlgorithms,
    RevocationKey,
    Issuer(u64),
    NotationData,
    PreferredHashAlgorithms,
    PreferredCompressionAlgorithms,
    KeyServerPreferences,
    PreferredKeyServer,
    PrimaryUserId,
    PolicyUri,
    KeyFlags,
    SignerUserId,
    RevocationReason,
    Features,
    SignatureTarget,
    EmbeddedSignature,
    Unknown(u8, u32),
}

/// Type tags reserved by the wire format: using one is a format error,
/// distinct from an unknown-but-assigned tag.
pub open spec fn is_reserved_tag(t: u8) -> bool {
    t == 0 || t == 1 || t == 8 || t == 13 || t == 14 || t == 15 || t == 17 || t == 18 || t == 19
}

/// Outcome of decoding one subpacket: the subpacket and the position just
/// past it, or the error.
pub enum SubpacketParse {
    Parsed(Subpacket, int),
    Failed(SignatureError),
}

/// What decoding one subpacket inside the window `[pos, end)` yields.
///
/// A subpacket is its variable-length-encoded length, one type-tag octet,
/// then `length - 1` payload octets. A reserved tag fails; tags 2 and 3
/// need at least four payload octets (a big-endian seconds count), tag 16
/// at least eight (a big-endian key id); any other tag is preserved as
/// `Unknown`, its payload consumed but not interpreted.
pub open spec fn spec_parse_subpacket(s: Seq<u8>, pos: int, end: int) -> SubpacketParse {
    match spec_length_decode(s, pos, end) {
        None => SubpacketParse::Failed(SignatureError::Truncated),
        Some((len, p1)) => {
            if len == 0 || p1 + len > end {
                SubpacketParse::Failed(SignatureError::Truncated)
            } else {
                let tag = s[p1];
                let payload = s.subrange(p1 + 1, p1 + len);
                let next = p1 + len;
                if is_reserved_tag(tag) {
                    SubpacketParse::Failed(SignatureError::UseOfReservedValue)
                } else if (tag == 2 || tag == 3) && payload.len() < 4 {
                    SubpacketParse::Failed(SignatureError::IntegerReadError)
                } else if tag == 2 {
                    SubpacketParse::Parsed(
                        Subpacket::SignatureCreationTime(be_val(payload.take(4)) as u32),
                        next,
                    )
                } else if tag == 3 {
                    SubpacketParse::Parsed(
                        Subpacket::SignatureExpirationTime(be_val(payload.take(4)) as u32),
                        next,
                    )
                } else if tag == 16 {
                    if payload.len() < 8 {
                        SubpacketParse::Failed(SignatureError::IntegerReadError)
                    } else {
                        SubpacketParse::Parsed(
                            Subpacket::Issuer(be_val(payload.take(8)) as u64),
                            next,
                        )
                    }
                } else {
                    SubpacketParse::Parsed(Subpacket::Unknown(tag, len as u32), next)
                }
            }
        },
    }
}

/// A decoded subpacket ends after its starting position and inside the
/// window.
pub proof fn lemma_subpacket_next_bounds(s: Seq<u8>, pos: int, end: int)
    ensures
        spec_parse_subpacket(s, pos, end) matches SubpacketParse::Parsed(_, next) ==> pos < next
            <= end,
{
}

/// Decode one subpacket inside the window `[pos, end)`.
pub fn parse_subpacket(inp: &[u8], pos: usize, end: usize) -> (r: Result<
    (Subpacket, usize),
    SignatureError,
>)
    requires
        pos <= end,
        end <= inp@.len(),
    ensures
        match spec_parse_subpacket(inp@, pos as int, end as int) {
            SubpacketParse::Parsed(sub, next) => r matches Ok(p) && p.0 == sub && p.1 == next,
            SubpacketParse::Failed(e) => r matches Err(e2) && e2 == e,
        },
{
    let (len, p1) = match subpacket_length(inp, pos, end) {
        Some(x) => x,
        None => {
            return Err(SignatureError::Truncated);
        },
    };
    if len == 0 || (len as usize) > end - p1 {
        return Err(SignatureError::Truncated);
    }
    let tag = inp[p1];
    let plen = (len as usize) - 1;
    let p2 = p1 + 1;
    let next = p1 + len as usize;
    proof {
        assert(inp@.subrange(p1 + 1, p1 + len as int).len() == plen);
    }
    if tag == 0 || tag == 1 || tag == 8 || tag == 13 || tag == 14 || tag == 15 || tag == 17 || tag
        == 18 || tag == 19 {
        Err(SignatureError::UseOfReservedValue)
    } else if tag == 2 || tag == 3 {
        if plen < 4 {
            return Err(SignatureError::IntegerReadError);
        }
        let t = read_be_u32(inp, p2);
        proof {
            assert(inp@.subrange(p2 as int, p2 + 4) =~= inp@.subrange(p1 + 1, p1 + len as int).take(
                4,
            ));
        }
        if tag == 2 {
            Ok((Subpacket::SignatureCreationTime(t), next))
        } else {
            Ok((Subpacket::SignatureExpirationTime(t), next))
        }
    } else if tag == 16 {
        if plen < 8 {
            return Err(SignatureError::IntegerReadError);
        }
        let id = read_be_u64(inp, p2);
        proof {
            assert(inp@.subrange(p2 as int, p2 + 8) =~= inp@.subrange(p1 + 1, p1 + len as int).take(
                8,
            ));
        }
        Ok((Subpacket::Issuer(id), next))
    } else {
        Ok((Subpacket::Unknown(tag, len), next))
    }
}

/// Outcome of decoding a whole subpacket section: the subpackets in order,
/// or the first error.
#[verifier::ext_equal]
pub enum SectionParse {
    Parsed(Seq<Subpacket>),
    Failed(SignatureError),
}

/// What decoding the subpacket section `[pos, end)` yields: subpackets
/// parsed greedily until the window is exhausted; zero subpackets is
/// legal; any subpacket error fails the whole section.
pub open spec fn spec_parse_section(s: Seq<u8>, pos: int, end: int) -> SectionParse
    decreases end - pos,
{
    if pos >= end {
        SectionParse::Parsed(Seq::empty())
    } else {
        match spec_parse_subpacket(s, pos, end) {
            SubpacketParse::Failed(e) => SectionParse::Failed(e),
            SubpacketParse::Parsed(sub, next) => {
                if pos < next <= end {
                    match spec_parse_section(s, next, end) {
                        SectionParse::Parsed(rest) => SectionParse::Parsed(seq![sub] + rest),
                        SectionParse::Failed(e) => SectionParse::Failed(e),
                    }
                } else {
                    // spec_parse_subpacket never leaves the window
                    SectionParse::Failed(SignatureError::Truncated)
                }
            },
        }
    }
}

/// A section outcome with `prefix` prepended to its subpackets.
spec fn section_with_prefix(prefix: Seq<Subpacket>, r: SectionParse) -> SectionParse {
    match r {
        SectionParse::Parsed(rest) => SectionParse::Parsed(prefix + rest),
        SectionParse::Failed(e) => SectionParse::Failed(e),
    }
}

/// Decode a whole subpacket section occupying the window `[start, end)`.
pub fn parse_subpacket_section(inp: &[u8], start: usize, end: usize) -> (r: Result<
    Vec<Subpacket>,
    SignatureError,
>)
    requires
        start <= end,
        end <= inp@.len(),
    ensures
        match spec_parse_section(inp@, start as int, end as int) {
            SectionParse::Parsed(subs) => r matches Ok(v) && v@ == subs,
            SectionParse::Failed(e) => r matches Err(e2) && e2 == e,
        },
{
    let mut subs: Vec<Subpacket> = Vec::new();
    let mut pos = start;
    proof {
        match spec_parse_section(inp@, start as int, end as int) {
            SectionParse::Parsed(rest) => {
                assert(subs@ + rest =~= rest);
            },
            SectionParse::Failed(_) => {},
        }
    }
    while pos < end
        invariant
            start <= pos <= end,
            end <= inp@.len(),
            spec_parse_section(inp@, start as int, end as int) == section_with_prefix(
                subs@,
                spec_parse_section(inp@, pos as int, end as int),
            ),
        decreases end - pos,
    {
        let ghost prev = subs@;
        match parse_subpacket(inp, pos, end) {
            Err(e) => {
                return Err(e);
            },
            Ok((sub, next)) => {
                proof {
                    lemma_subpacket_next_bounds(inp@, pos as int, end as int);
                    match spec_parse_section(inp@, next as int, end as int) {
                        SectionParse::Parsed(rest) => {
                            assert(prev + (seq![sub] + rest) =~= prev.push(sub) + rest);
                        },
                        SectionParse::Failed(_) => {},
                    }
                }
                subs.push(sub);
                pos = next;
            },
        }
    }
    proof {
        assert(subs@ + Seq::<Subpacket>::empty() =~= subs@);
    }
    Ok(subs)
}

/// The first creation-time subpacket's timestamp, if any.
pub open spec fn spec_find_timestamp(subs: Seq<Subpacket>) -> Option<u32>
    decreases subs.len(),
{
    if subs.len() == 0 {
        None
    } else {
        match subs[0] {
            Subpacket::SignatureCreationTime(t) => Some(t),
            _ => spec_find_timestamp(subs.subrange(1, subs.len() as int)),
        }
    }
}

/// The first issuer subpacket's key id, if any.
pub open spec fn spec_find_signer(subs: Seq<Subpacket>) -> Option<u64>
    decreases subs.len(),
{
    if subs.len() == 0 {
        None
    } else {
        match subs[0] {
            Subpacket::Issuer(id) => Some(id),
            _ => spec_find_signer(subs.subrange(1, subs.len() as int)),
        }
    }
}

/// The first creation-time subpacket's timestamp, if any; first match in
/// order wins.
pub fn find_timestamp(subpackets: &[Subpacket]) -> (r: Option<u32>)
    ensures
        r == spec_find_timestamp(subpackets@),
{
    let n = subpackets.len();
    let mut i: usize = 0;
    proof {
        assert(subpackets@.subrange(0, n as int) =~= subpackets@);
    }
    while i < n
        invariant
            i <= n,
            n == subpackets@.len(),
            spec_find_timestamp(subpackets@) == spec_find_timestamp(
                subpackets@.subrange(i as int, n as int),
            ),
        decreases n - i,
    {
        match subpackets[i] {
            Subpacket::SignatureCreationTime(t) => {
                return Some(t);
            },
            _ => {},
        }
        proof {
            let s = subpackets@.subrange(i as int, n as int);
            assert(s.subrange(1, s.len() as int) =~= subpackets@.subrange(i + 1, n as int));
        }
        i = i + 1;
    }
    None
}

/// The first issuer subpacket's key id, if any; first match in order wins.
pub fn find_signer(subpackets: &[Subpacket]) -> (r: Option<u64>)
    ensures
        r == spec_find_signer(subpackets@),
{
    let n = subpackets.len();
    let mut i: usize = 0;
    proof {
        assert(subpackets@.subrange(0, n as int) =~= subpackets@);
    }
    while i < n
        invariant
            i <= n,
            n == subpackets@.len(),
            spec_find_signer(subpackets@) == spec_find_signer(
                subpackets@.subrange(i as int, n as int),
            ),
        decreases n - i,
    {
        match subpackets[i] {
            Subpacket::Issuer(id) => {
                return Some(id);
            },
            _ => {},
        }
        proof {
            let s = subpackets@.subrange(i as int, n as int);
            assert(s.subrange(1, s.len() as int) =~= subpackets@.subrange(i + 1, n as int));
        }
        i = i + 1;
    }
    None
}

/// The first of two options, or the second where the first is absent.
pub open spec fn opt_or<T>(a: Option<T>, b: Option<T>) -> Option<T> {
    if a is Some {
        a
    } else {
        b
    }
}

/// A decoded signature packet body.
///
/// In the legacy layout the timestamp and signer are read from fixed
/// header fields and the subpacket sections are empty; in the modern
/// layout they are derived from the subpackets (hashed section first) and
/// may be absent.
#[derive(Clone, Debug)]
pub struct SignaturePacket {
    pub sig_type: SignatureType,
    pub timestamp: Option<u32>,
    pub signer: Option<u64>,
    pub pubkey_algo: PublicKeyAlgorithm,
    pub hash_algo: HashAlgorithm,
    pub hashed_subpackets: Vec<Subpacket>,
    pub unhashed_subpackets: Vec<Subpacket>,
    pub signature_contents: Vec<u8>,
}

/// Mathematical image of a signature packet.
#[verifier::ext_equal]
pub struct SpecPacket {
    pub sig_type: SignatureType,
    pub timestamp: Option<u32>,
    pub signer: Option<u64>,
    pub pubkey_algo: PublicKeyAlgorithm,
    pub hash_algo: HashAlgorithm,
    pub hashed_subpackets: Seq<Subpacket>,
    pub unhashed_subpackets: Seq<Subpacket>,
    pub signature_contents: Seq<u8>,
}

impl View for SignaturePacket {
    type V = SpecPacket;

    open spec fn view(&self) -> SpecPacket {
        SpecPacket {
            sig_type: self.sig_type,
            timestamp: self.timestamp,
            signer: self.signer,
            pubkey_algo: self.pubkey_algo,
            hash_algo: self.hash_algo,
            hashed_subpackets: self.hashed_subpackets@,
            unhashed_subpackets: self.unhashed_subpackets@,
            signature_contents: self.signature_contents@,
        }
    }
}

/// Outcome of decoding a packet: its mathematical image, or the error.
#[verifier::ext_equal]
pub enum PacketParse {
    Parsed(SpecPacket),
    Failed(SignatureError),
}

/// What decoding a signature packet body yields.
///
/// The first byte selects the layout. Legacy (3): a literal 5, then
/// one-byte signature type, four-byte creation time, eight-byte signer key
/// id, one-byte public-key and hash algorithm ids, two ignored bytes, and
/// the rest as the raw signature value. Modern (4): one-byte signature
/// type, public-key and hash algorithm ids, a two-byte-length-prefixed
/// hashed subpacket section, the same for the unhashed section, two
/// ignored bytes, and the rest as the raw signature value; timestamp and
/// signer are the first matching subpacket, hashed section first. Any
/// other leading byte matches neither layout.
pub open spec fn spec_parse_packet(s: Seq<u8>) -> PacketParse {
    if s.len() < 1 {
        PacketParse::Failed(SignatureError::Truncated)
    } else if s[0] == 3 {
        if s.len() < 2 {
            PacketParse::Failed(SignatureError::Truncated)
        } else if s[1] != 5 {
            PacketParse::Failed(SignatureError::UnrecognizedFormat)
        } else if s.len() < 19 {
            PacketParse::Failed(SignatureError::Truncated)
        } else {
            PacketParse::Parsed(
                SpecPacket {
                    sig_type: spec_sig_type_of(s[2]),
                    timestamp: Some(be_val(s.subrange(3, 7)) as u32),
                    signer: Some(be_val(s.subrange(7, 15)) as u64),
                    pubkey_algo: spec_pk_algo_of(s[15]),
                    hash_algo: spec_hash_algo_of(s[16]),
                    hashed_subpackets: Seq::empty(),
                    unhashed_subpackets: Seq::empty(),
                    signature_contents: s.subrange(19, s.len() as int),
                },
            )
        }
    } else if s[0] == 4 {
        if s.len() < 6 {
            PacketParse::Failed(SignatureError::Truncated)
        } else {
            let hl = be_val(s.subrange(4, 6)) as int;
            if 6 + hl > s.len() {
                PacketParse::Failed(SignatureError::Truncated)
            } else {
                match spec_parse_section(s, 6, 6 + hl) {
                    SectionParse::Failed(e) => PacketParse::Failed(e),
                    SectionParse::Parsed(hashed) => {
                        let up = 6 + hl;
                        if up + 2 > s.len() {
                            PacketParse::Failed(SignatureError::Truncated)
                        } else {
                            let ul = be_val(s.subrange(up, up + 2)) as int;
                            if up + 2 + ul > s.len() {
                                PacketParse::Failed(SignatureError::Truncated)
                            } else {
                                match spec_parse_section(s, up + 2, up + 2 + ul) {
                                    SectionParse::Failed(e) => PacketParse::Failed(e),
                                    SectionParse::Parsed(unhashed) => {
                                        let sp = up + 2 + ul;
                                        if sp + 2 > s.len() {
                                            PacketParse::Failed(SignatureError::Truncated)
                                        } else {
                                            PacketParse::Parsed(
                                                SpecPacket {
                                                    sig_type: spec_sig_type_of(s[1]),
                                                    timestamp: opt_or(
                                                        spec_find_timestamp(hashed),
                                                        spec_find_timestamp(unhashed),
                                                    ),
                                                    signer: opt_or(
                                                        spec_find_signer(hashed),
                                                        spec_find_signer(unhashed),
                                                    ),
                                                    pubkey_algo: spec_pk_algo_of(s[2]),
                                                    hash_algo: spec_hash_algo_of(s[3]),
                                                    hashed_subpackets: hashed,
                                                    unhashed_subpackets: unhashed,
                                                    signature_contents: s.subrange(
                                                        sp + 2,
                                                        s.len() as int,
                                                    ),
                                                },
                                            )
                                        }
                                    },
                                }
                            }
                        }
                    },
                }
            }
        }
    } else {
        PacketParse::Failed(SignatureError::UnrecognizedFormat)
    }
}

/// Copy the window `[start, end)` of a byte slice.
fn copy_range(inp: &[u8], start: usize, end: usize) -> (r: Vec<u8>)
    requires
        start <= end,
        end <= inp@.len(),
    ensures
        r@ == inp@.subrange(start as int, end as int),
{
    let mut out: Vec<u8> = Vec::new();
    let mut i = start;
    while i < end
        invariant
            start <= i <= end,
            end <= inp@.len(),
            out@ == inp@.subrange(start as int, i as int),
        decreases end - i,
    {
        let b = inp[i];
        out.push(b);
        proof {
            assert(out@ =~= inp@.subrange(start as int, i + 1));
        }
        i = i + 1;
    }
    out
}

impl SignaturePacket {
    /// Decode a signature packet body; the only constructor.
    pub fn from_bytes(bytes: &[u8]) -> (r: Result<SignaturePacket, SignatureError>)
        ensures
            match spec_parse_packet(bytes@) {
                PacketParse::Parsed(p) => r matches Ok(pkt) && pkt@ == p,
                PacketParse::Failed(e) => r matches Err(e2) && e2 == e,
            },
    {
        let n = bytes.len();
        if n < 1 {
            return Err(SignatureError::Truncated);
        }
        let b0 = bytes[0];
        if b0 == 3 {
            if n < 2 {
                return Err(SignatureError::Truncated);
            }
            if bytes[1] != 5 {
                return Err(SignatureError::UnrecognizedFormat);
            }
            if n < 19 {
                return Err(SignatureError::Truncated);
            }
            let pkt = SignaturePacket {
                sig_type: SignatureType::from(bytes[2]),
                timestamp: Some(read_be_u32(bytes, 3)),
                signer: Some(read_be_u64(bytes, 7)),
                pubkey_algo: PublicKeyAlgorithm::from(bytes[15]),
                hash_algo: HashAlgorithm::from(bytes[16]),
                hashed_subpackets: Vec::new(),
                unhashed_subpackets: Vec::new(),
                signature_contents: copy_range(bytes, 19, n),
            };
            proof {
                let p = spec_parse_packet(bytes@)->Parsed_0;
                assert(pkt@ =~= p);
            }
            Ok(pkt)
        } else if b0 == 4 {
            if n < 6 {
                return Err(SignatureError::Truncated);
            }
            let hl = read_be_u16(bytes, 4) as usize;
            if hl > n - 6 {
                return Err(SignatureError::Truncated);
            }
            let hashed = match parse_subpacket_section(bytes, 6, 6 + hl) {
                Ok(v) => v,
                Err(e) => {
                    return Err(e);
                },
            };
            let up = 6 + hl;
            if n - up < 2 {
                return Err(SignatureError::Truncated);
            }
            let ul = read_be_u16(bytes, up) as usize;
            if ul > n - (up + 2) {
                return Err(SignatureError::Truncated);
            }
            let unhashed = match parse_subpacket_section(bytes, up + 2, up + 2 + ul) {
                Ok(v) => v,
                Err(e) => {
                    return Err(e);
                },
            };
            let sp = up + 2 + ul;
            if n - sp < 2 {
                return Err(SignatureError::Truncated);
            }
            let timestamp = match find_timestamp(hashed.as_slice()) {
                Some(t) => Some(t),
                None => find_timestamp(unhashed.as_slice()),
            };
            let signer = match find_signer(hashed.as_slice()) {
                Some(id) => Some(id),
                None => find_signer(unhashed.as_slice()),
            };
            let pkt = SignaturePacket {
                sig_type: SignatureType::from(bytes[1]),
                timestamp,
                signer,
                pubkey_algo: PublicKeyAlgorithm::from(bytes[2]),
                hash_algo: HashAlgorithm::from(bytes[3]),
                hashed_subpackets: hashed,
                unhashed_subpackets: unhashed,
                signature_contents: copy_range(bytes, sp + 2, n),
            };
            proof {
                let p = spec_parse_packet(bytes@)->Parsed_0;
                assert(pkt@ =~= p);
            }
            Ok(pkt)
        } else {
            Err(SignatureError::UnrecognizedFormat)
        }
    }
}

/// Interpretation of the raw signature value, by public-key algorithm: one
/// multi-precision integer for the RSA family, the pair r then s for DSA,
/// an opaque byte blob for any other algorithm.
#[derive(Clone, Debug, PartialEq, Eq)]
pub enum Signature {
    Rsa(Mpi),
    Dsa(Mpi, Mpi),
    Unknown(Vec<u8>),
}

/// Mathematical image of a signature value.
#[verifier::ext_equal]
pub enum SpecSignature {
    Rsa(Seq<u8>),
    Dsa(Seq<u8>, Seq<u8>),
    Unknown(Seq<u8>),
}

impl View for Signature {
    type V = SpecSignature;

    open spec fn view(&self) -> SpecSignature {
        match *self {
            Signature::Rsa(m) => SpecSignature::Rsa(m.bytes@),
            Signature::Dsa(r, s) => SpecSignature::Dsa(r.bytes@, s.bytes@),
            Signature::Unknown(p) => SpecSignature::Unknown(p@),
        }
    }
}

/// Validity of a signature value: its integers are canonical magnitudes.
pub open spec fn spec_signature_wf(sv: SpecSignature) -> bool {
    match sv {
        SpecSignature::Rsa(m) => spec_mag_wf(m),
        SpecSignature::Dsa(r, s) => spec_mag_wf(r) && spec_mag_wf(s),
        SpecSignature::Unknown(_) => true,
    }
}

impl Signature {
    pub open spec fn wf(&self) -> bool {
        spec_signature_wf(self@)
    }
}

/// Whether a signature value has the shape the algorithm calls for: one
/// integer for the RSA family, two for DSA, an opaque blob for the rest.
pub open spec fn spec_signature_fits(algo: PublicKeyAlgorithm, sv: SpecSignature) -> bool {
    match sv {
        SpecSignature::Rsa(_) => algo == PublicKeyAlgorithm::Rsa || algo
            == PublicKeyAlgorithm::RsaEncryptOnly || algo == PublicKeyAlgorithm::RsaSignOnly,
        SpecSignature::Dsa(_, _) => algo == PublicKeyAlgorithm::Dsa,
        SpecSignature::Unknown(_) => !(algo == PublicKeyAlgorithm::Rsa || algo
            == PublicKeyAlgorithm::RsaEncryptOnly || algo == PublicKeyAlgorithm::RsaSignOnly
            || algo == PublicKeyAlgorithm::Dsa),
    }
}

/// What interpreting raw signature bytes under an algorithm yields. For
/// DSA the second integer starts exactly at the encoded byte length of the
/// first — two plus the first magnitude's length — never at a fixed
/// offset.
pub open spec fn spec_signature_decode(algo: PublicKeyAlgorithm, c: Seq<u8>) -> Option<
    SpecSignature,
> {
    if algo == PublicKeyAlgorithm::Rsa || algo == PublicKeyAlgorithm::RsaEncryptOnly || algo
        == PublicKeyAlgorithm::RsaSignOnly {
        match spec_mpi_decode(c, 0) {
            Some((mag, _)) => Some(SpecSignature::Rsa(mag)),
            None => None,
        }
    } else if algo == PublicKeyAlgorithm::Dsa {
        match spec_mpi_decode(c, 0) {
            Some((magr, _)) => match spec_mpi_decode(c, 2 + magr.len() as int) {
                Some((mags, _)) => Some(SpecSignature::Dsa(magr, mags)),
                None => None,
            },
            None => None,
        }
    } else {
        Some(SpecSignature::Unknown(c))
    }
}

/// The wire bytes a signature value re-encodes to: one framed integer for
/// RSA, the two framed integers r then s for DSA, the blob itself
/// otherwise.
pub open spec fn spec_signature_encoding(sv: SpecSignature) -> Seq<u8> {
    match sv {
        SpecSignature::Rsa(m) => spec_mpi_encoding(m),
        SpecSignature::Dsa(r, s) => spec_mpi_encoding(r) + spec_mpi_encoding(s),
        SpecSignature::Unknown(p) => p,
    }
}

impl SignaturePacket {
    /// Interpret the raw signature value under this packet's public-key
    /// algorithm.
    pub fn contents(&self) -> (r: Result<Signature, SignatureError>)
        ensures
            match spec_signature_decode(self.pubkey_algo, self.signature_contents@) {
                Some(sv) => r matches Ok(sig) && sig@ == sv && sig.wf(),
                None => r matches Err(e) && e == SignatureError::IntegerReadError,
            },
    {
        match self.pubkey_algo {
            PublicKeyAlgorithm::Rsa | PublicKeyAlgorithm::RsaEncryptOnly
            | PublicKeyAlgorithm::RsaSignOnly => {
                match Mpi::decode(self.signature_contents.as_slice(), 0) {
                    Some((m, _)) => Ok(Signature::Rsa(m)),
                    None => Err(SignatureError::IntegerReadError),
                }
            },
            PublicKeyAlgorithm::Dsa => {
                match Mpi::decode(self.signature_contents.as_slice(), 0) {
                    None => Err(SignatureError::IntegerReadError),
                    Some((r_mpi, _)) => {
                        let s_pos = r_mpi.encoded_len();
                        match Mpi::decode(self.signature_contents.as_slice(), s_pos) {
                            None => Err(SignatureError::IntegerReadError),
                            Some((s_mpi, _)) => Ok(Signature::Dsa(r_mpi, s_mpi)),
                        }
                    },
                }
            },
            _ => {
                let end = self.signature_contents.len();
                let c = copy_range(self.signature_contents.as_slice(), 0, end);
                proof {
                    assert(c@ =~= self.signature_contents@);
                }
                Ok(Signature::Unknown(c))
            },
        }
    }

    /// Replace the raw signature value with the encoding of `sig`; every
    /// other field is kept.
    pub fn set_contents(&mut self, sig: Signature) -> (r: Result<(), SignatureError>)
        requires
            sig.wf(),
        ensures
            r is Ok,
            final(self).signature_contents@ == spec_signature_encoding(sig@),
            final(self).sig_type == old(self).sig_type,
            final(self).timestamp == old(self).timestamp,
            final(self).signer == old(self).signer,
            final(self).pubkey_algo == old(self).pubkey_algo,
            final(self).hash_algo == old(self).hash_algo,
            final(self).hashed_subpackets == old(self).hashed_subpackets,
            final(self).unhashed_subpackets == old(self).unhashed_subpackets,
    {
        match sig {
            Signature::Rsa(m) => {
                self.signature_contents = m.to_bytes();
            },
            Signature::Dsa(r, s) => {
                let mut rv = r.to_bytes();
                let mut sv = s.to_bytes();
                rv.append(&mut sv);
                self.signature_contents = rv;
            },
            Signature::Unknown(payload) => {
                self.signature_contents = payload;
            },
        }
        Ok(())
    }
}

impl Subpacket {
    /// The wire encoding of this subpacket — its length, its type tag, its
    /// payload — for the kinds this codec serializes; the other kinds
    /// encode to nothing.
    pub open spec fn spec_to_bytes(&self) -> Seq<u8> {
        match *self {
            Subpacket::SignatureCreationTime(t) => seq![5u8, 2u8] + be_bytes(t as nat, 4),
            Subpacket::Issuer(id) => seq![9u8, 16u8] + be_bytes(id as nat, 8),
            _ => Seq::empty(),
        }
    }

    /// Re-encode this subpacket in its wire form.
    pub fn to_bytes(&self) -> (r: Vec<u8>)
        ensures
            r@ == self.spec_to_bytes(),
    {
        let mut out: Vec<u8> = Vec::new();
        match *self {
            Subpacket::SignatureCreationTime(t) => {
                out.push(5);
                out.push(2);
                push_be_u32(&mut out, t);
                proof {
                    assert(out@ =~= self.spec_to_bytes());
                }
            },
            Subpacket::Issuer(id) => {
                out.push(9);
                out.push(16);
                push_be_u64(&mut out, id);
                proof {
                    assert(out@ =~= self.spec_to_bytes());
                }
            },
            _ => {},
        }
        out
    }
}

/// Law: a creation-time subpacket built from any timestamp decodes back to
/// that timestamp, consuming exactly its own encoding.
pub proof fn lemma_creation_time_round_trip(t: u32)
    ensures
        ({
            let enc = Subpacket::SignatureCreationTime(t).spec_to_bytes();
            spec_parse_subpacket(enc, 0, enc.len() as int) == SubpacketParse::Parsed(
                Subpacket::SignatureCreationTime(t),
                enc.len() as int,
            )
        }),
{
    crate::codec::lemma_be_bytes_len(t as nat, 4);
    let enc = Subpacket::SignatureCreationTime(t).spec_to_bytes();
    assert(enc[0] == 5);
    assert(spec_length_decode(enc, 0, 6) == Some((5 as nat, 1int)));
    assert(enc[1] == 2);
    let payload = enc.subrange(2, 6);
    assert(payload =~= be_bytes(t as nat, 4));
    assert(payload.take(4) =~= payload);
    crate::codec::lemma_pow256_values();
    crate::codec::lemma_be_val_be_bytes(t as nat, 4);
}

/// Law: an issuer subpacket built from any key id decodes back to that key
/// id, consuming exactly its own encoding.
pub proof fn lemma_issuer_round_trip(id: u64)
    ensures
        ({
            let enc = Subpacket::Issuer(id).spec_to_bytes();
            spec_parse_subpacket(enc, 0, enc.len() as int) == SubpacketParse::Parsed(
                Subpacket::Issuer(id),
                enc.len() as int,
            )
        }),
{
    crate::codec::lemma_be_bytes_len(id as nat, 8);
    let enc = Subpacket::Issuer(id).spec_to_bytes();
    assert(enc[0] == 9);
    assert(spec_length_decode(enc, 0, 10) == Some((9 as nat, 1int)));
    assert(enc[1] == 16);
    let payload = enc.subrange(2, 10);
    assert(payload =~= be_bytes(id as nat, 8));
    assert(payload.take(8) =~= payload);
    crate::codec::lemma_pow256_values();
    crate::codec::lemma_be_val_be_bytes(id as nat, 8);
}

/// Law: a subpacket whose type tag is reserved always fails with the
/// reserved-value error, whatever its declared length, as soon as the
/// declared bytes are present.
pub proof fn lemma_reserved_tag_rejected(s: Seq<u8>, pos: int, end: int)
    requires
        match spec_length_decode(s, pos, end) {
            Some((len, p1)) => 1 <= len && p1 + len <= end && is_reserved_tag(s[p1]),
            None => false,
        },
    ensures
        spec_parse_subpacket(s, pos, end) == SubpacketParse::Failed(
            SignatureError::UseOfReservedValue,
        ),
{
}

/// Law: the hashed section decides — where the hashed section holds a
/// creation time, the packet's timestamp is that value whatever the
/// unhashed section holds, and likewise for the signer key id.
pub proof fn lemma_hashed_section_precedence(s: Seq<u8>)
    ensures
        match spec_parse_packet(s) {
            PacketParse::Parsed(p) => {
                &&& (spec_find_timestamp(p.hashed_subpackets) matches Some(t) ==> p.timestamp
                    == Some(t))
                &&& (spec_find_signer(p.hashed_subpackets) matches Some(id) ==> p.signer == Some(
                    id,
                ))
            },
            PacketParse::Failed(_) => true,
        },
{
}

/// Law: signature-value round trip — re-encoding a signature value and
/// interpreting the bytes again under the algorithm it fits yields the
/// value back, for the RSA family, DSA and opaque values alike.
pub proof fn lemma_signature_value_round_trip(algo: PublicKeyAlgorithm, sv: SpecSignature)
    requires
        spec_signature_wf(sv),
        spec_signature_fits(algo, sv),
    ensures
        spec_signature_decode(algo, spec_signature_encoding(sv)) == Some(sv),
{
    match sv {
        SpecSignature::Rsa(mag) => {
            lemma_mpi_decode_encoding(mag, Seq::empty());
            assert(spec_mpi_encoding(mag) + Seq::<u8>::empty() =~= spec_mpi_encoding(mag));
        },
        SpecSignature::Dsa(magr, mags) => {
            lemma_mpi_decode_encoding(magr, spec_mpi_encoding(mags));
            lemma_mpi_decode_encoding(mags, Seq::empty());
            assert(spec_mpi_encoding(mags) + Seq::<u8>::empty() =~= spec_mpi_encoding(mags));
            lemma_mpi_decode_offset(spec_mpi_encoding(magr), spec_mpi_encoding(mags));
        },
        SpecSignature::Unknown(_) => {},
    }
}

} // verus!
