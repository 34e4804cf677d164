use sigpacket::signature::{find_signer, find_timestamp, parse_subpacket, parse_subpacket_section};
use sigpacket::{
    HashAlgorithm, Mpi, PublicKeyAlgorithm, Signature, SignatureError, SignaturePacket,
    SignatureType, Subpacket,
};

#[test]
fn creation_time_subpacket_round_trip() {
    let sp = Subpacket::SignatureCreationTime(0x12345678);
    let enc = sp.to_bytes();
    assert_eq!(enc, vec![5, 2, 0x12, 0x34, 0x56, 0x78]);
    assert_eq!(parse_subpacket(&enc, 0, enc.len()), Ok((sp, enc.len())));
}

#[test]
fn creation_time_subpacket_round_trip_zero() {
    let sp = Subpacket::SignatureCreationTime(0);
    let enc = sp.to_bytes();
    assert_eq!(parse_subpacket(&enc, 0, enc.len()), Ok((sp, enc.len())));
}

#[test]
fn issuer_subpacket_round_trip() {
    let sp = Subpacket::Issuer(0x1122334455667788);
    let enc = sp.to_bytes();
    assert_eq!(enc, vec![9, 16, 0x11, 0x22, 0x33, 0x44, 0x55, 0x66, 0x77, 0x88]);
    assert_eq!(parse_subpacket(&enc, 0, enc.len()), Ok((sp, enc.len())));
}

#[test]
fn unsupported_subpacket_encodes_to_nothing() {
    assert_eq!(Subpacket::KeyFlags.to_bytes(), Vec::<u8>::new());
    assert_eq!(Subpacket::Unknown(100, 3).to_bytes(), Vec::<u8>::new());
}

#[test]
fn reserved_tags_rejected() {
    for tag in [0u8, 1, 8, 13, 14, 15, 17, 18, 19] {
        // with a payload byte
        let with_payload = [2u8, tag, 0x99];
        assert_eq!(
            parse_subpacket(&with_payload, 0, 3),
            Err(SignatureError::UseOfReservedValue),
            "tag {tag}"
        );
        // with an empty payload
        let bare = [1u8, tag];
        assert_eq!(parse_subpacket(&bare, 0, 2), Err(SignatureError::UseOfReservedValue));
    }
}

#[test]
fn short_creation_time_payload() {
    let inp = [4u8, 2, 1, 2, 3];
    assert_eq!(parse_subpacket(&inp, 0, 5), Err(SignatureError::IntegerReadError));
}

#[test]
fn short_issuer_payload() {
    let inp = [5u8, 16, 1, 2, 3, 4];
    assert_eq!(parse_subpacket(&inp, 0, 6), Err(SignatureError::IntegerReadError));
}

#[test]
fn unknown_subpacket_preserved() {
    let inp = [3u8, 100, 0xAA, 0xBB];
    assert_eq!(parse_subpacket(&inp, 0, 4), Ok((Subpacket::Unknown(100, 3), 4)));
}

#[test]
fn five_octet_framed_subpacket() {
    // the same creation-time subpacket, its length in the explicit form
    let inp = [255u8, 0, 0, 0, 5, 2, 0x12, 0x34, 0x56, 0x78];
    assert_eq!(
        parse_subpacket(&inp, 0, 10),
        Ok((Subpacket::SignatureCreationTime(0x12345678), 10))
    );
}

#[test]
fn first_match_wins() {
    let subs = [
        Subpacket::SignatureExpirationTime(99),
        Subpacket::SignatureCreationTime(1),
        Subpacket::SignatureCreationTime(2),
        Subpacket::Issuer(10),
        Subpacket::Issuer(20),
    ];
    assert_eq!(find_timestamp(&subs), Some(1));
    assert_eq!(find_signer(&subs), Some(10));
    assert_eq!(find_timestamp(&[]), None);
    assert_eq!(find_signer(&[]), None);
}

#[test]
fn empty_section_is_legal() {
    assert_eq!(parse_subpacket_section(&[], 0, 0), Ok(Vec::new()));
}

#[test]
fn section_parses_greedily() {
    let inp = [5u8, 2, 0, 0, 0, 1, 3, 100, 0xAA, 0xBB];
    let subs = parse_subpacket_section(&inp, 0, 10).unwrap();
    assert_eq!(
        subs,
        vec![Subpacket::SignatureCreationTime(1), Subpacket::Unknown(100, 3)]
    );
}

#[test]
fn section_subpacket_overrun_is_truncation() {
    // the subpacket declares more payload than the section holds
    let inp = [9u8, 2, 0, 0];
    assert_eq!(parse_subpacket_section(&inp, 0, 4), Err(SignatureError::Truncated));
}

#[test]
fn legacy_layout() {
    let bytes = [
        0x03, 0x05, // legacy marker
        0x10, // generic certification
        0x00, 0x01, 0x02, 0x03, // creation time
        0x01, 0x02, 0x03, 0x04, 0x05, 0x06, 0x07, 0x08, // signer key id
        0x01, // RSA
        0x02, // SHA-1
        0x00, 0x00, // ignored
        0xDE, 0xAD, // signature value
    ];
    let pkt = SignaturePacket::from_bytes(&bytes).unwrap();
    assert_eq!(pkt.sig_type, SignatureType::GenericCertification);
    assert_eq!(pkt.timestamp, Some(0x00010203));
    assert_eq!(pkt.signer, Some(0x0102030405060708));
    assert_eq!(pkt.pubkey_algo, PublicKeyAlgorithm::Rsa);
    assert_eq!(pkt.hash_algo, HashAlgorithm::Sha1);
    assert!(pkt.hashed_subpackets.is_empty());
    assert!(pkt.unhashed_subpackets.is_empty());
    assert_eq!(pkt.signature_contents, vec![0xDE, 0xAD]);
}

#[test]
fn legacy_marker_mismatch() {
    let bytes = [
        0x03, 0x04, 0x10, 0x00, 0x01, 0x02, 0x03, 0x01, 0x02, 0x03, 0x04, 0x05, 0x06, 0x07, 0x08,
        0x01, 0x02, 0x00, 0x00,
    ];
    assert_eq!(
        SignaturePacket::from_bytes(&bytes).unwrap_err(),
        SignatureError::UnrecognizedFormat
    );
}

#[test]
fn legacy_truncated() {
    assert_eq!(
        SignaturePacket::from_bytes(&[0x03, 0x05, 0x00]).unwrap_err(),
        SignatureError::Truncated
    );
    assert_eq!(SignaturePacket::from_bytes(&[0x03]).unwrap_err(), SignatureError::Truncated);
}

#[test]
fn unrecognized_layout() {
    assert_eq!(
        SignaturePacket::from_bytes(&[0x07, 0x05]).unwrap_err(),
        SignatureError::UnrecognizedFormat
    );
    assert_eq!(SignaturePacket::from_bytes(&[]).unwrap_err(), SignatureError::Truncated);
}

#[test]
fn modern_layout_basic() {
    let bytes = [
        0x04, // modern marker
        0x00, // binary document
        0x01, // RSA
        0x08, // SHA-256
        0x00, 0x06, // hashed section length
        0x05, 0x02, 0x00, 0x00, 0x00, 0x2A, // creation time 42
        0x00, 0x00, // unhashed section length
        0x00, 0x00, // ignored
        0xBE, 0xEF,
    ];
    let pkt = SignaturePacket::from_bytes(&bytes).unwrap();
    assert_eq!(pkt.sig_type, SignatureType::BinaryDocument);
    assert_eq!(pkt.timestamp, Some(42));
    assert_eq!(pkt.signer, None);
    assert_eq!(pkt.pubkey_algo, PublicKeyAlgorithm::Rsa);
    assert_eq!(pkt.hash_algo, HashAlgorithm::Sha256);
    assert_eq!(pkt.hashed_subpackets, vec![Subpacket::SignatureCreationTime(42)]);
    assert!(pkt.unhashed_subpackets.is_empty());
    assert_eq!(pkt.signature_contents, vec![0xBE, 0xEF]);
}

#[test]
fn modern_hashed_section_wins() {
    let bytes = [
        0x04, 0x00, 0x01, 0x08, //
        0x00, 0x06, // hashed
        0x05, 0x02, 0x00, 0x00, 0x00, 0x01, // creation time 1
        0x00, 0x06, // unhashed
        0x05, 0x02, 0x00, 0x00, 0x00, 0x02, // creation time 2
        0x00, 0x00,
    ];
    let pkt = SignaturePacket::from_bytes(&bytes).unwrap();
    assert_eq!(pkt.timestamp, Some(1));
    assert_eq!(pkt.hashed_subpackets, vec![Subpacket::SignatureCreationTime(1)]);
    assert_eq!(pkt.unhashed_subpackets, vec![Subpacket::SignatureCreationTime(2)]);
}

#[test]
fn modern_unhashed_fallback() {
    let bytes = [
        0x04, 0x00, 0x01, 0x08, //
        0x00, 0x00, // hashed empty
        0x00, 0x0A, // unhashed
        0x09, 0x10, 0x0A, 0x0B, 0x0C, 0x0D, 0x0E, 0x0F, 0x10, 0x11, // issuer
        0x00, 0x00,
    ];
    let pkt = SignaturePacket::from_bytes(&bytes).unwrap();
    assert_eq!(pkt.timestamp, None);
    assert_eq!(pkt.signer, Some(0x0A0B0C0D0E0F1011));
}

#[test]
fn modern_reserved_subpacket_fails_packet() {
    let bytes = [
        0x04, 0x00, 0x01, 0x08, //
        0x00, 0x02, // hashed
        0x01, 0x00, // reserved tag 0
        0x00, 0x00, 0x00, 0x00,
    ];
    assert_eq!(
        SignaturePacket::from_bytes(&bytes).unwrap_err(),
        SignatureError::UseOfReservedValue
    );
}

#[test]
fn modern_truncated_section() {
    // hashed section length runs past the end of the input
    let bytes = [0x04, 0x00, 0x01, 0x08, 0x00, 0x40, 0x05, 0x02];
    assert_eq!(SignaturePacket::from_bytes(&bytes).unwrap_err(), SignatureError::Truncated);
}

#[test]
fn modern_missing_trailing_bytes() {
    // both sections empty, but the two ignored bytes are missing
    let bytes = [0x04, 0x00, 0x01, 0x08, 0x00, 0x00, 0x00, 0x00, 0x00];
    assert_eq!(SignaturePacket::from_bytes(&bytes).unwrap_err(), SignatureError::Truncated);
}

fn dsa_packet(contents: Vec<u8>) -> SignaturePacket {
    SignaturePacket {
        sig_type: SignatureType::BinaryDocument,
        timestamp: None,
        signer: None,
        pubkey_algo: PublicKeyAlgorithm::Dsa,
        hash_algo: HashAlgorithm::Sha256,
        hashed_subpackets: Vec::new(),
        unhashed_subpackets: Vec::new(),
        signature_contents: contents,
    }
}

fn mag(first: u8, len: usize) -> Vec<u8> {
    let mut v = vec![first];
    for i in 1..len {
        v.push(i as u8);
    }
    v
}

#[test]
fn dsa_split_follows_first_length_20() {
    let r = Mpi { bytes: mag(0xFF, 20) };
    let s = Mpi { bytes: mag(0x80, 20) };
    let mut contents = r.to_bytes();
    assert_eq!(contents.len(), 22); // s starts exactly here
    contents.extend_from_slice(&s.to_bytes());
    let pkt = dsa_packet(contents);
    assert_eq!(pkt.contents(), Ok(Signature::Dsa(r, s)));
}

#[test]
fn dsa_split_follows_first_length_48() {
    let r = Mpi { bytes: mag(0xFF, 48) };
    let s = Mpi { bytes: mag(0x01, 48) };
    let mut contents = r.to_bytes();
    assert_eq!(contents.len(), 50);
    contents.extend_from_slice(&s.to_bytes());
    let pkt = dsa_packet(contents);
    assert_eq!(pkt.contents(), Ok(Signature::Dsa(r, s)));
}

#[test]
fn dsa_second_integer_missing() {
    let r = Mpi { bytes: mag(0xFF, 20) };
    let pkt = dsa_packet(r.to_bytes());
    assert_eq!(pkt.contents(), Err(SignatureError::IntegerReadError));
}

#[test]
fn rsa_contents_round_trip() {
    let m = Mpi { bytes: mag(0xC0, 32) };
    let mut pkt = dsa_packet(Vec::new());
    pkt.pubkey_algo = PublicKeyAlgorithm::Rsa;
    pkt.set_contents(Signature::Rsa(m.clone())).unwrap();
    assert_eq!(pkt.signature_contents, m.to_bytes());
    assert_eq!(pkt.contents(), Ok(Signature::Rsa(m)));
}

#[test]
fn dsa_contents_round_trip() {
    let r = Mpi { bytes: mag(0x11, 20) };
    let s = Mpi { bytes: mag(0x22, 20) };
    let mut pkt = dsa_packet(Vec::new());
    pkt.set_contents(Signature::Dsa(r.clone(), s.clone())).unwrap();
    assert_eq!(pkt.contents(), Ok(Signature::Dsa(r, s)));
}

#[test]
fn unknown_algorithm_contents_opaque() {
    let mut pkt = dsa_packet(vec![1, 2, 3]);
    pkt.pubkey_algo = PublicKeyAlgorithm::Elgamal;
    assert_eq!(pkt.contents(), Ok(Signature::Unknown(vec![1, 2, 3])));
    pkt.set_contents(Signature::Unknown(vec![9, 9])).unwrap();
    assert_eq!(pkt.signature_contents, vec![9, 9]);
}

#[test]
fn unknown_algorithm_id_decodes() {
    let bytes = [
        0x04, 0x00, 0xFA, 0x05, // public-key algorithm 250, hash algorithm 5
        0x00, 0x00, 0x00, 0x00, 0x00, 0x00,
    ];
    let pkt = SignaturePacket::from_bytes(&bytes).unwrap();
    assert_eq!(pkt.pubkey_algo, PublicKeyAlgorithm::Unknown);
    assert_eq!(pkt.hash_algo, HashAlgorithm::Unknown);
    // parsing tolerates the unknown ids; semantic operations refuse them
    assert!(pkt.hash_algo.hash(b"data").is_err());
    assert!(pkt.hash_algo.asn1_oid().is_err());
    assert_eq!(pkt.contents(), Ok(Signature::Unknown(Vec::new())));
}
