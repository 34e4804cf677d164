use sigpacket::codec::{encode_length, subpacket_length};
use sigpacket::Mpi;

#[test]
fn one_octet_length_zero() {
    let inp = [0u8];
    assert_eq!(subpacket_length(&inp, 0, 1), Some((0, 1)));
}

#[test]
fn one_octet_length_max() {
    let inp = [191u8];
    assert_eq!(subpacket_length(&inp, 0, 1), Some((191, 1)));
}

#[test]
fn two_octet_length_min() {
    let inp = [192u8, 0];
    assert_eq!(subpacket_length(&inp, 0, 2), Some((192, 2)));
}

#[test]
fn two_octet_length_max() {
    let inp = [254u8, 255];
    assert_eq!(subpacket_length(&inp, 0, 2), Some((16319, 2)));
}

#[test]
fn five_octet_length() {
    let inp = [255u8, 0, 0, 1, 0];
    assert_eq!(subpacket_length(&inp, 0, 5), Some((256, 5)));
}

#[test]
fn truncated_lengths() {
    assert_eq!(subpacket_length(&[], 0, 0), None);
    assert_eq!(subpacket_length(&[192u8], 0, 1), None);
    assert_eq!(subpacket_length(&[255u8, 0, 0], 0, 3), None);
}

#[test]
fn length_window_is_respected() {
    // enough bytes in the buffer, but the window ends first
    let inp = [192u8, 7, 7];
    assert_eq!(subpacket_length(&inp, 0, 1), None);
}

#[test]
fn encode_length_forms() {
    assert_eq!(encode_length(0), vec![0]);
    assert_eq!(encode_length(191), vec![191]);
    assert_eq!(encode_length(192), vec![192, 0]);
    assert_eq!(encode_length(16319), vec![254, 255]);
    assert_eq!(encode_length(16320), vec![255, 0, 0, 63, 192]);
}

#[test]
fn encode_length_round_trips() {
    for v in [0u32, 1, 191, 192, 300, 16319, 16320, 70000, 0xDEADBEEF, u32::MAX] {
        let enc = encode_length(v);
        assert_eq!(subpacket_length(&enc, 0, enc.len()), Some((v, enc.len())));
    }
}

#[test]
fn mpi_decode_simple() {
    // one bit, one magnitude byte
    let inp = [0x00u8, 0x01, 0x01];
    let (m, next) = Mpi::decode(&inp, 0).unwrap();
    assert_eq!(m.bytes, vec![0x01]);
    assert_eq!(next, 3);
    assert_eq!(m.encoded_len(), 3);
}

#[test]
fn mpi_decode_normalizes_leading_zeros() {
    // declared sixteen bits, but the top byte is zero
    let inp = [0x00u8, 0x10, 0x00, 0xAB];
    let (m, next) = Mpi::decode(&inp, 0).unwrap();
    assert_eq!(m.bytes, vec![0xAB]);
    assert_eq!(next, 4);
    // the canonical re-encoding carries the true bit count
    assert_eq!(m.to_bytes(), vec![0x00, 0x08, 0xAB]);
}

#[test]
fn mpi_zero() {
    let inp = [0x00u8, 0x00];
    let (m, next) = Mpi::decode(&inp, 0).unwrap();
    assert_eq!(m.bytes, Vec::<u8>::new());
    assert_eq!(next, 2);
    assert_eq!(m.to_bytes(), vec![0x00, 0x00]);
}

#[test]
fn mpi_truncated() {
    assert_eq!(Mpi::decode(&[0x00u8], 0), None);
    // declared nine bits need two magnitude bytes
    assert_eq!(Mpi::decode(&[0x00u8, 0x09, 0x01], 0), None);
}

#[test]
fn mpi_round_trip() {
    let m = Mpi { bytes: vec![0x80, 0x01, 0x02, 0x03] };
    let enc = m.to_bytes();
    assert_eq!(enc, vec![0x00, 0x20, 0x80, 0x01, 0x02, 0x03]);
    let (back, next) = Mpi::decode(&enc, 0).unwrap();
    assert_eq!(back, m);
    assert_eq!(next, enc.len());
}
