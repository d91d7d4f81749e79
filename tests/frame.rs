use bibliotheca_rfid_reader::buffer::unpadded_length;
use bibliotheca_rfid_reader::{checksum, Buffer, ReaderError};

fn record(frame: &[u8]) -> [u8; 256] {
    let mut raw = [0u8; 256];
    raw[..frame.len()].copy_from_slice(frame);
    raw
}

#[test]
fn checksum_of_check_string() {
    assert_eq!(checksum(b"123456789"), 0xd64e);
}

#[test]
fn checksum_of_nothing() {
    assert_eq!(checksum(&[]), 0x0000);
}

#[test]
fn new_frame_holds_header_only() {
    let b = Buffer::new(0xd6);
    assert_eq!(*b.start_byte(), 0xd6);
    assert_eq!(b.data(), None);
}

#[test]
fn open_frame_data_is_payload() {
    let b = Buffer::new_with_data(0xd6, &[1, 2, 3]);
    assert_eq!(b.data(), Some(&[1u8, 2, 3][..]));
}

#[test]
fn finalize_sets_length_and_checksum() {
    let mut b = Buffer::new_with_data(0xd6, &[0xfe, 0x00, 0x07]);
    assert_eq!(b.finalize(), &[0xd6, 0x00, 0x05, 0xfe, 0x00, 0x07, 0xda, 0x02]);
    let mut s = Buffer::new_with_data(0xd5, &[0x04, 0x00, 0x11]);
    assert_eq!(s.finalize(), &[0xd5, 0x00, 0x05, 0x04, 0x00, 0x11, 0x8c, 0x66]);
}

#[test]
fn finalize_empty_payload() {
    let mut b = Buffer::new(0xd6);
    assert_eq!(b.finalize(), &[0xd6, 0x00, 0x02, 0xc2, 0xb2]);
}

#[test]
fn write_appends_bytes() {
    let mut b = Buffer::new(0xd6);
    b.write(1);
    b.write_all(&[2, 3]);
    assert_eq!(b.finalize(), &[0xd6, 0x00, 0x05, 0x01, 0x02, 0x03, 0x33, 0x87]);
}

#[test]
fn finalize_twice_is_identical() {
    let mut b = Buffer::new_with_data(0xd6, &[9, 8, 7, 6]);
    let first = b.finalize().to_vec();
    let second = b.finalize().to_vec();
    assert_eq!(first, second);
    assert_eq!(b.data(), Some(&[9u8, 8, 7, 6][..]));
}

#[test]
fn empty_payload_is_none() {
    let mut b = Buffer::new(0xd6);
    b.finalize();
    assert_eq!(b.data(), None);
}

#[test]
fn zero_byte_payload_is_some() {
    let mut b = Buffer::new_with_data(0xd6, &[0x00]);
    assert_eq!(b.data(), Some(&[0x00u8][..]));
    assert_eq!(b.finalize(), &[0xd6, 0x00, 0x03, 0x00, 0x66, 0x30]);
    assert_eq!(b.data(), Some(&[0x00u8][..]));
}

#[test]
fn round_trip_through_record() {
    let mut checked = 0;
    for len in 1..=251usize {
        let payload: Vec<u8> = (0..len).map(|i| (i * 7 + len) as u8 | 1).collect();
        let mut b = Buffer::new_with_data(0xd6, &payload);
        let frame = b.finalize().to_vec();
        assert_eq!(frame.len(), len + 5);
        if frame[frame.len() - 1] == 0 {
            continue;
        }
        let parsed = Buffer::try_from(record(&frame)).unwrap();
        assert_eq!(parsed.data(), Some(&payload[..]));
        checked += 1;
    }
    assert!(checked > 200);
}

#[test]
fn round_trip_of_empty_payload() {
    let mut b = Buffer::new(0xd5);
    let frame = b.finalize().to_vec();
    let parsed = Buffer::from_record(record(&frame)).unwrap();
    assert_eq!(*parsed.start_byte(), 0xd5);
    assert_eq!(parsed.data(), None);
}

#[test]
fn altered_checksum_is_rejected() {
    let mut b = Buffer::new_with_data(0xd6, &[1, 2, 3]);
    let frame = b.finalize().to_vec();
    for bit in 0..8 {
        let mut bad = frame.clone();
        let at = frame.len() - 2;
        bad[at] ^= 1 << bit;
        assert_eq!(Buffer::from_record(record(&bad)).err(), Some(ReaderError::WrongChecksum));
    }
    let mut bad = frame.clone();
    let last = frame.len() - 1;
    bad[last] ^= 0x04;
    assert_eq!(Buffer::from_record(record(&bad)).err(), Some(ReaderError::WrongChecksum));
}

#[test]
fn empty_record_is_wrong_response() {
    assert_eq!(Buffer::from_record([0u8; 256]).err(), Some(ReaderError::WrongResponse));
    assert_eq!(Buffer::from_record(record(&[0xd6, 0x05])).err(), Some(ReaderError::WrongResponse));
}

#[test]
fn three_byte_record_fails_checksum() {
    assert_eq!(Buffer::from_record(record(&[0xd6, 0x00, 0x05])).err(), Some(ReaderError::WrongChecksum));
}

#[test]
fn unpadded_length_drops_trailing_zeros() {
    assert_eq!(unpadded_length(&[1, 2, 0, 3, 0, 0]), 4);
    assert_eq!(unpadded_length(&[0, 0, 0]), 1);
    assert_eq!(unpadded_length(&[]), 0);
    assert_eq!(unpadded_length(&[5]), 1);
}

#[test]
fn error_messages() {
    assert_eq!(ReaderError::NoCard.to_string(), "No cards found");
    assert_eq!(
        ReaderError::WrongCardId.to_string(),
        "Wrong card id. Card id should contain exactly 8 bytes"
    );
    assert_eq!(ReaderError::WrongChecksum.to_string(), "Wrong checksum in the response from the reader");
}

#[test]
fn checksum_ending_in_zero_reads_as_padding() {
    let mut b = Buffer::new_with_data(0xd6, &[0x33]);
    let frame = b.finalize().to_vec();
    assert_eq!(frame, vec![0xd6, 0x00, 0x03, 0x33, 0x60, 0x00]);
    assert_eq!(Buffer::from_record(record(&frame)).err(), Some(ReaderError::WrongChecksum));
}

#[test]
fn checksum_residue_is_constant() {
    for s in [&b""[..], &b"123456789"[..], &[0xd6, 0x00, 0x05, 0xfe][..], &[0x00; 40][..]] {
        let c = checksum(s);
        let mut t = s.to_vec();
        t.extend_from_slice(&c.to_be_bytes());
        assert_eq!(checksum(&t), 0xe2f0);
    }
}

#[test]
fn try_from_flipped_checksum_bit() {
    let raw = record(&[0xd6, 0x00, 0x05, 0xfe, 0x00, 0x07, 0xda, 0x03]);
    assert_eq!(Buffer::try_from(raw).err(), Some(ReaderError::WrongChecksum));
    let ok = Buffer::try_from(record(&[0xd6, 0x00, 0x05, 0xfe, 0x00, 0x07, 0xda, 0x02])).unwrap();
    assert_eq!(ok.data(), Some(&[0xfeu8, 0x00, 0x07][..]));
}
