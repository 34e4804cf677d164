//! Algorithm registries: numeric identifiers for public-key, hash and
//! symmetric-key algorithms, each a closed enumeration with an `Unknown`
//! fallback so that parsing never fails on a newly assigned identifier,
//! while digest computation and object-identifier lookup fail on `Unknown`.

use vstd::prelude::*;

verus! {

/// Public key algorithms of the signature packet format.
#[derive(Clone, Copy, Debug, PartialEq, Eq, Structural)]
pub enum PublicKeyAlgorithm {
    Rsa,
    RsaEncryptOnly,
    RsaSignOnly,
    ElgamalEncryptOnly,
    Dsa,
    EllipticCurve,
    Ecdsa,
    Elgamal,
    DiffieHellman,
    Unknown,
}

/// Hash algorithms of the signature packet format.
#[derive(Clone, Copy, Debug, PartialEq, Eq, Structural)]
pub enum HashAlgorithm {
    Md5,
    Sha1,
    Ripemd160,
    Sha256,
    Sha384,
    Sha512,
    Sha224,
    Unknown,
}

/// Symmetric key algorithms of the packet format.
#[derive(Clone, Copy, Debug, PartialEq, Eq, Structural)]
pub enum SymmetricKeyAlgorithm {
    Plaintext,
    Idea,
    TripleDes,
    Cast5,
    Blowfish,
    Aes128,
    Aes192,
    Aes256,
    Twofish,
    Reserved,
    Unknown,
}

/// Error for an operation that needs semantic knowledge of an algorithm
/// that this registry does not recognize.
#[derive(Clone, Copy, Debug, PartialEq, Eq, Structural)]
pub enum AlgorithmError {
    PublicKeyAlgorithmError,
    HashAlgorithmError,
}

/// The public-key algorithm a numeric identifier denotes; total, every
/// unassigned identifier maps to `Unknown`.
pub open spec fn spec_pk_algo_of(v: u8) -> PublicKeyAlgorithm {
    if v == 1 {
        PublicKeyAlgorithm::Rsa
    } else if v == 2 {
        PublicKeyAlgorithm::RsaEncryptOnly
    } else if v == 3 {
        PublicKeyAlgorithm::RsaSignOnly
    } else if v == 16 {
        PublicKeyAlgorithm::ElgamalEncryptOnly
    } else if v == 17 {
        PublicKeyAlgorithm::Dsa
    } else if v == 18 {
        PublicKeyAlgorithm::EllipticCurve
    } else if v == 19 {
        PublicKeyAlgorithm::Ecdsa
    } else if v == 20 {
        PublicKeyAlgorithm::Elgamal
    } else if v == 21 {
        PublicKeyAlgorithm::DiffieHellman
    } else {
        PublicKeyAlgorithm::Unknown
    }
}

/// The numeric identifier of a public-key algorithm; `Unknown` maps to the
/// reserved sentinel 0xFF.
pub open spec fn spec_pk_algo_id(a: PublicKeyAlgorithm) -> u8 {
    match a {
        PublicKeyAlgorithm::Rsa => 1,
        PublicKeyAlgorithm::RsaEncryptOnly => 2,
        PublicKeyAlgorithm::RsaSignOnly => 3,
        PublicKeyAlgorithm::ElgamalEncryptOnly => 16,
        PublicKeyAlgorithm::Dsa => 17,
        PublicKeyAlgorithm::EllipticCurve => 18,
        PublicKeyAlgorithm::Ecdsa => 19,
        PublicKeyAlgorithm::Elgamal => 20,
        PublicKeyAlgorithm::DiffieHellman => 21,
        PublicKeyAlgorithm::Unknown => 0xFF,
    }
}

impl From<u8> for PublicKeyAlgorithm {
    fn from(v: u8) -> (r: PublicKeyAlgorithm) {
        if v == 1 {
            PublicKeyAlgorithm::Rsa
        } else if v == 2 {
            PublicKeyAlgorithm::RsaEncryptOnly
        } else if v == 3 {
            PublicKeyAlgorithm::RsaSignOnly
        } else if v == 16 {
            PublicKeyAlgorithm::ElgamalEncryptOnly
        } else if v == 17 {
            PublicKeyAlgorithm::Dsa
        } else if v == 18 {
            PublicKeyAlgorithm::EllipticCurve
        } else if v == 19 {
            PublicKeyAlgorithm::Ecdsa
        } else if v == 20 {
            PublicKeyAlgorithm::Elgamal
        } else if v == 21 {
            PublicKeyAlgorithm::DiffieHellman
        } else {
            PublicKeyAlgorithm::Unknown
        }
    }
}

impl vstd::std_specs::convert::FromSpecImpl<u8> for PublicKeyAlgorithm {
    open spec fn obeys_from_spec() -> bool {
        true
    }

    open spec fn from_spec(v: u8) -> PublicKeyAlgorithm {
        spec_pk_algo_of(v)
    }
}

impl From<PublicKeyAlgorithm> for u8 {
    fn from(a: PublicKeyAlgorithm) -> (r: u8) {
        match a {
            PublicKeyAlgorithm::Rsa => 1,
            PublicKeyAlgorithm::RsaEncryptOnly => 2,
            PublicKeyAlgorithm::RsaSignOnly => 3,
            PublicKeyAlgorithm::ElgamalEncryptOnly => 16,
            PublicKeyAlgorithm::Dsa => 17,
            PublicKeyAlgorithm::EllipticCurve => 18,
            PublicKeyAlgorithm::Ecdsa => 19,
            PublicKeyAlgorithm::Elgamal => 20,
            PublicKeyAlgorithm::DiffieHellman => 21,
            PublicKeyAlgorithm::Unknown => 0xFF,
        }
    }
}

impl vstd::std_specs::convert::FromSpecImpl<PublicKeyAlgorithm> for u8 {
    open spec fn obeys_from_spec() -> bool {
        true
    }

    open spec fn from_spec(a: PublicKeyAlgorithm) -> u8 {
        spec_pk_algo_id(a)
    }
}

/// The hash algorithm a numeric identifier denotes; total, every unassigned
/// identifier maps to `Unknown`.
pub open spec fn spec_hash_algo_of(v: u8) -> HashAlgorithm {
    if v == 1 {
        HashAlgorithm::Md5
    } else if v == 2 {
        HashAlgorithm::Sha1
    } else if v == 3 {
        HashAlgorithm::Ripemd160
    } else if v == 8 {
        HashAlgorithm::Sha256
    } else if v == 9 {
        HashAlgorithm::Sha384
    } else if v == 10 {
        HashAlgorithm::Sha512
    } else if v == 11 {
        HashAlgorithm::Sha224
    } else {
        HashAlgorithm::Unknown
    }
}

/// The numeric identifier of a hash algorithm; `Unknown` maps to the
/// reserved sentinel 0xFF.
pub open spec fn spec_hash_algo_id(a: HashAlgorithm) -> u8 {
    match a {
        HashAlgorithm::Md5 => 1,
        HashAlgorithm::Sha1 => 2,
        HashAlgorithm::Ripemd160 => 3,
        HashAlgorithm::Sha256 => 8,
        HashAlgorithm::Sha384 => 9,
        HashAlgorithm::Sha512 => 10,
        HashAlgorithm::Sha224 => 11,
        HashAlgorithm::Unknown => 0xFF,
    }
}

impl From<u8> for HashAlgorithm {
    fn from(v: u8) -> (r: HashAlgorithm) {
        if v == 1 {
            HashAlgorithm::Md5
        } else if v == 2 {
            HashAlgorithm::Sha1
        } else if v == 3 {
            HashAlgorithm::Ripemd160
        } else if v == 8 {
            HashAlgorithm::Sha256
        } else if v == 9 {
            HashAlgorithm::Sha384
        } else if v == 10 {
            HashAlgorithm::Sha512
        } else if v == 11 {
            HashAlgorithm::Sha224
        } else {
            HashAlgorithm::Unknown
        }
    }
}

impl vstd::std_specs::convert::FromSpecImpl<u8> for HashAlgorithm {
    open spec fn obeys_from_spec() -> bool {
        true
    }

    open spec fn from_spec(v: u8) -> HashAlgorithm {
        spec_hash_algo_of(v)
    }
}

impl From<HashAlgorithm> for u8 {
    fn from(a: HashAlgorithm) -> (r: u8) {
        match a {
            HashAlgorithm::Md5 => 1,
            HashAlgorithm::Sha1 => 2,
            HashAlgorithm::Ripemd160 => 3,
            HashAlgorithm::Sha256 => 8,
            HashAlgorithm::Sha384 => 9,
            HashAlgorithm::Sha512 => 10,
            HashAlgorithm::Sha224 => 11,
            HashAlgorithm::Unknown => 0xFF,
        }
    }
}

impl vstd::std_specs::convert::FromSpecImpl<HashAlgorithm> for u8 {
    open spec fn obeys_from_spec() -> bool {
        true
    }

    open spec fn from_spec(a: HashAlgorithm) -> u8 {
        spec_hash_algo_id(a)
    }
}

/// The symmetric-key algorithm a numeric identifier denotes; identifiers 5
/// and 6 are reserved, every other unassigned identifier maps to `Unknown`.
pub open spec fn spec_sym_algo_of(v: u8) -> SymmetricKeyAlgorithm {
    if v == 0 {
        SymmetricKeyAlgorithm::Plaintext
    } else if v == 1 {
        SymmetricKeyAlgorithm::Idea
    } else if v == 2 {
        SymmetricKeyAlgorithm::TripleDes
    } else if v == 3 {
        SymmetricKeyAlgorithm::Cast5
    } else if v == 4 {
        SymmetricKeyAlgorithm::Blowfish
    } else if v == 7 {
        SymmetricKeyAlgorithm::Aes128
    } else if v == 8 {
        SymmetricKeyAlgorithm::Aes192
    } else if v == 9 {
        SymmetricKeyAlgorithm::Aes256
    } else if v == 10 {
        SymmetricKeyAlgorithm::Twofish
    } else if v == 5 || v == 6 {
        SymmetricKeyAlgorithm::Reserved
    } else {
        SymmetricKeyAlgorithm::Unknown
    }
}

impl From<u8> for SymmetricKeyAlgorithm {
    fn from(v: u8) -> (r: SymmetricKeyAlgorithm) {
        if v == 0 {
            SymmetricKeyAlgorithm::Plaintext
        } else if v == 1 {
            SymmetricKeyAlgorithm::Idea
        } else if v == 2 {
            SymmetricKeyAlgorithm::TripleDes
        } else if v == 3 {
            SymmetricKeyAlgorithm::Cast5
        } else if v == 4 {
            SymmetricKeyAlgorithm::Blowfish
        } else if v == 7 {
            SymmetricKeyAlgorithm::Aes128
        } else if v == 8 {
            SymmetricKeyAlgorithm::Aes192
        } else if v == 9 {
            SymmetricKeyAlgorithm::Aes256
        } else if v == 10 {
            SymmetricKeyAlgorithm::Twofish
        } else if v == 5 || v == 6 {
            SymmetricKeyAlgorithm::Reserved
        } else {
            SymmetricKeyAlgorithm::Unknown
        }
    }
}

impl vstd::std_specs::convert::FromSpecImpl<u8> for SymmetricKeyAlgorithm {
    open spec fn obeys_from_spec() -> bool {
        true
    }

    open spec fn from_spec(v: u8) -> SymmetricKeyAlgorithm {
        spec_sym_algo_of(v)
    }
}

/// The cipher block size in bytes; 0 for plaintext, reserved and unknown
/// algorithms.
pub open spec fn spec_block_bytes(a: SymmetricKeyAlgorithm) -> usize {
    match a {
        SymmetricKeyAlgorithm::Plaintext => 0,
        SymmetricKeyAlgorithm::Idea => 8,
        SymmetricKeyAlgorithm::TripleDes => 8,
        SymmetricKeyAlgorithm::Cast5 => 8,
        SymmetricKeyAlgorithm::Blowfish => 8,
        SymmetricKeyAlgorithm::Aes128 => 16,
        SymmetricKeyAlgorithm::Aes192 => 16,
        SymmetricKeyAlgorithm::Aes256 => 16,
        SymmetricKeyAlgorithm::Twofish => 16,
        SymmetricKeyAlgorithm::Reserved => 0,
        SymmetricKeyAlgorithm::Unknown => 0,
    }
}

impl SymmetricKeyAlgorithm {
    /// The block size of this cipher in bytes.
    pub fn block_bytes(&self) -> (r: usize)
        ensures
            r == spec_block_bytes(*self),
    {
        match *self {
            SymmetricKeyAlgorithm::Plaintext => 0,
            SymmetricKeyAlgorithm::Idea => 8,
            SymmetricKeyAlgorithm::TripleDes => 8,
            SymmetricKeyAlgorithm::Cast5 => 8,
            SymmetricKeyAlgorithm::Blowfish => 8,
            SymmetricKeyAlgorithm::Aes128 => 16,
            SymmetricKeyAlgorithm::Aes192 => 16,
            SymmetricKeyAlgorithm::Aes256 => 16,
            SymmetricKeyAlgorithm::Twofish => 16,
            SymmetricKeyAlgorithm::Reserved => 0,
            SymmetricKeyAlgorithm::Unknown => 0,
        }
    }
}

pub uninterp spec fn md5_of(data: Seq<u8>) -> Seq<u8>;

pub uninterp spec fn sha1_of(data: Seq<u8>) -> Seq<u8>;

pub uninterp spec fn ripemd160_of(data: Seq<u8>) -> Seq<u8>;

pub uninterp spec fn sha256_of(data: Seq<u8>) -> Seq<u8>;

pub uninterp spec fn sha384_of(data: Seq<u8>) -> Seq<u8>;

pub uninterp spec fn sha512_of(data: Seq<u8>) -> Seq<u8>;

pub uninterp spec fn sha224_of(data: Seq<u8>) -> Seq<u8>;

/// Relies on md5::Md5::digest: a pure function of the input bytes,
/// producing a 16-byte digest.
#[verifier::external_body]
fn md5_digest(data: &[u8]) -> (r: Vec<u8>)
    ensures
        r@ == md5_of(data@),
        r@.len() == 16,
{
    <md5::Md5 as md5::Digest>::digest(data).to_vec()
}

/// Relies on sha1::Sha1::digest: a pure function of the input bytes,
/// producing a 20-byte digest.
#[verifier::external_body]
fn sha1_digest(data: &[u8]) -> (r: Vec<u8>)
    ensures
        r@ == sha1_of(data@),
        r@.len() == 20,
{
    <sha1::Sha1 as sha1::Digest>::digest(data).to_vec()
}

/// Relies on ripemd160::Ripemd160::digest: a pure function of the input
/// bytes, producing a 20-byte digest.
#[verifier::external_body]
fn ripemd160_digest(data: &[u8]) -> (r: Vec<u8>)
    ensures
        r@ == ripemd160_of(data@),
        r@.len() == 20,
{
    <ripemd160::Ripemd160 as ripemd160::Digest>::digest(data).to_vec()
}

/// Relies on sha2::Sha256::digest: a pure function of the input bytes,
/// producing a 32-byte digest.
#[verifier::external_body]
fn sha256_digest(data: &[u8]) -> (r: Vec<u8>)
    ensures
        r@ == sha256_of(data@),
        r@.len() == 32,
{
    <sha2::Sha256 as sha2::Digest>::digest(data).to_vec()
}

/// Relies on sha2::Sha384::digest: a pure function of the input bytes,
/// producing a 48-byte digest.
#[verifier::external_body]
fn sha384_digest(data: &[u8]) -> (r: Vec<u8>)
    ensures
        r@ == sha384_of(data@),
        r@.len() == 48,
{
    <sha2::Sha384 as sha2::Digest>::digest(data).to_vec()
}

/// Relies on sha2::Sha512::digest: a pure function of the input bytes,
/// producing a 64-byte digest.
#[verifier::external_body]
fn sha512_digest(data: &[u8]) -> (r: Vec<u8>)
    ensures
        r@ == sha512_of(data@),
        r@.len() == 64,
{
    <sha2::Sha512 as sha2::Digest>::digest(data).to_vec()
}

/// Relies on sha2::Sha224::digest: a pure function of the input bytes,
/// producing a 28-byte digest.
#[verifier::external_body]
fn sha224_digest(data: &[u8]) -> (r: Vec<u8>)
    ensures
        r@ == sha224_of(data@),
        r@.len() == 28,
{
    <sha2::Sha224 as sha2::Digest>::digest(data).to_vec()
}

/// The contents of an object identifier: its numeric components in order.
pub uninterp spec fn oid_components(oid: yasna::models::ObjectIdentifier) -> Seq<u64>;

#[verifier::external_type_specification]
#[verifier::external_body]
pub struct ExObjectIdentifier(yasna::models::ObjectIdentifier);

/// Relies on yasna::models::ObjectIdentifier::from_slice: the resulting
/// object identifier holds exactly the given components.
#[verifier::external_body]
fn oid_from_slice(components: &Vec<u64>) -> (r: yasna::models::ObjectIdentifier)
    ensures
        oid_components(r) == components@,
{
    yasna::models::ObjectIdentifier::from_slice(components)
}

/// The standard object identifier of a recognized hash algorithm.
pub open spec fn spec_hash_algo_oid(a: HashAlgorithm) -> Seq<u64> {
    match a {
        HashAlgorithm::Md5 => seq![1u64, 2, 840, 113549, 2, 5],
        HashAlgorithm::Sha1 => seq![1u64, 3, 14, 3, 2, 26],
        HashAlgorithm::Ripemd160 => seq![1u64, 3, 36, 3, 2, 1],
        HashAlgorithm::Sha256 => seq![2u64, 16, 840, 1, 101, 3, 4, 2, 1],
        HashAlgorithm::Sha384 => seq![2u64, 16, 840, 1, 101, 3, 4, 2, 2],
        HashAlgorithm::Sha512 => seq![2u64, 16, 840, 1, 101, 3, 4, 2, 3],
        HashAlgorithm::Sha224 => seq![2u64, 16, 840, 1, 101, 3, 4, 2, 4],
        HashAlgorithm::Unknown => Seq::empty(),
    }
}

fn push6(a: u64, b: u64, c: u64, d: u64, e: u64, f: u64) -> (r: Vec<u64>)
    ensures
        r@ == seq![a, b, c, d, e, f],
{
    let mut v: Vec<u64> = Vec::new();
    v.push(a);
    v.push(b);
    v.push(c);
    v.push(d);
    v.push(e);
    v.push(f);
    proof {
        assert(v@ =~= seq![a, b, c, d, e, f]);
    }
    v
}

fn push9(a: u64, b: u64, c: u64, d: u64, e: u64, f: u64, g: u64, h: u64, i: u64) -> (r: Vec<u64>)
    ensures
        r@ == seq![a, b, c, d, e, f, g, h, i],
{
    let mut v: Vec<u64> = Vec::new();
    v.push(a);
    v.push(b);
    v.push(c);
    v.push(d);
    v.push(e);
    v.push(f);
    v.push(g);
    v.push(h);
    v.push(i);
    proof {
        assert(v@ =~= seq![a, b, c, d, e, f, g, h, i]);
    }
    v
}

impl HashAlgorithm {
    /// The standard object identifier of this hash algorithm, for embedding
    /// in digest-info structures; fails on `Unknown`.
    pub fn asn1_oid(&self) -> (r: Result<yasna::models::ObjectIdentifier, AlgorithmError>)
        ensures
            match *self {
                HashAlgorithm::Unknown => r matches Err(e) && e
                    == AlgorithmError::HashAlgorithmError,
                _ => r matches Ok(o) && oid_components(o) == spec_hash_algo_oid(*self),
            },
    {
        match *self {
            HashAlgorithm::Md5 => Ok(oid_from_slice(&push6(1, 2, 840, 113549, 2, 5))),
            HashAlgorithm::Sha1 => Ok(oid_from_slice(&push6(1, 3, 14, 3, 2, 26))),
            HashAlgorithm::Ripemd160 => Ok(oid_from_slice(&push6(1, 3, 36, 3, 2, 1))),
            HashAlgorithm::Sha256 => Ok(oid_from_slice(&push9(2, 16, 840, 1, 101, 3, 4, 2, 1))),
            HashAlgorithm::Sha384 => Ok(oid_from_slice(&push9(2, 16, 840, 1, 101, 3, 4, 2, 2))),
            HashAlgorithm::Sha512 => Ok(oid_from_slice(&push9(2, 16, 840, 1, 101, 3, 4, 2, 3))),
            HashAlgorithm::Sha224 => Ok(oid_from_slice(&push9(2, 16, 840, 1, 101, 3, 4, 2, 4))),
            HashAlgorithm::Unknown => Err(AlgorithmError::HashAlgorithmError),
        }
    }

    /// The digest of `contents` under this hash algorithm; fails on
    /// `Unknown`.
    pub fn hash(&self, contents: &[u8]) -> (r: Result<Vec<u8>, AlgorithmError>)
        ensures
            match *self {
                HashAlgorithm::Md5 => r matches Ok(d) && d@ == md5_of(contents@),
                HashAlgorithm::Sha1 => r matches Ok(d) && d@ == sha1_of(contents@),
                HashAlgorithm::Ripemd160 => r matches Ok(d) && d@ == ripemd160_of(contents@),
                HashAlgorithm::Sha256 => r matches Ok(d) && d@ == sha256_of(contents@),
                HashAlgorithm::Sha384 => r matches Ok(d) && d@ == sha384_of(contents@),
                HashAlgorithm::Sha512 => r matches Ok(d) && d@ == sha512_of(contents@),
                HashAlgorithm::Sha224 => r matches Ok(d) && d@ == sha224_of(contents@),
                HashAlgorithm::Unknown => r matches Err(e) && e
                    == AlgorithmError::HashAlgorithmError,
            },
    {
        match *self {
            HashAlgorithm::Md5 => Ok(md5_digest(contents)),
            HashAlgorithm::Sha1 => Ok(sha1_digest(contents)),
            HashAlgorithm::Ripemd160 => Ok(ripemd160_digest(contents)),
            HashAlgorithm::Sha256 => Ok(sha256_digest(contents)),
            HashAlgorithm::Sha384 => Ok(sha384_digest(contents)),
            HashAlgorithm::Sha512 => Ok(sha512_digest(contents)),
            HashAlgorithm::Sha224 => Ok(sha224_digest(contents)),
            HashAlgorithm::Unknown => Err(AlgorithmError::HashAlgorithmError),
        }
    }
}

} // verus!
