//! Codec for OpenPGP signature packet bodies: the variable-length integer
//! scheme, typed subpackets, the legacy and modern packet layouts, and the
//! multi-precision-integer framing of RSA/DSA signature values.

pub mod codec;
pub mod mpi;
pub mod signature;
pub mod types;

pub use mpi::Mpi;
pub use signature::{Signature, SignatureError, SignaturePacket, SignatureType, Subpacket};
pub use types::{AlgorithmError, HashAlgorithm, PublicKeyAlgorithm, SymmetricKeyAlgorithm};
