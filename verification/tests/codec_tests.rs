use crowdfund::account::Pubkey;
use crowdfund::codec::{
    decode_record, decode_request, encode_record, encode_request, CampaignDetails, WithdrawRequest,
};

fn key(b: u8) -> Pubkey {
    Pubkey { bytes: vec![b; 32] }
}

fn sample_record() -> CampaignDetails {
    CampaignDetails {
        admin: key(7),
        name: b"x".to_vec(),
        description: b"y".to_vec(),
        image_link: b"z".to_vec(),
        amount_donated: 999,
    }
}

#[test]
fn record_round_trip() {
    let r = sample_record();
    let bytes = encode_record(&r);
    let back = decode_record(&bytes, 0).expect("an encoded record must decode");
    assert_eq!(back, r);
}

#[test]
fn record_round_trip_empty_strings() {
    let r = CampaignDetails {
        admin: key(0),
        name: Vec::new(),
        description: Vec::new(),
        image_link: Vec::new(),
        amount_donated: 0,
    };
    let bytes = encode_record(&r);
    assert_eq!(bytes.len(), 32 + 4 + 4 + 4 + 8);
    let back = decode_record(&bytes, 0).expect("an encoded record must decode");
    assert_eq!(back, r);
}

#[test]
fn record_encoding_matches_borsh() {
    // The wire format is the one the borsh serializer writes for a struct of
    // a 32-byte array, three strings and a u64, field by field.
    let r = sample_record();
    let mut expected: Vec<u8> = Vec::new();
    expected.extend_from_slice(&borsh::to_vec(&[7u8; 32]).unwrap());
    expected.extend_from_slice(&borsh::to_vec(&"x".to_string()).unwrap());
    expected.extend_from_slice(&borsh::to_vec(&"y".to_string()).unwrap());
    expected.extend_from_slice(&borsh::to_vec(&"z".to_string()).unwrap());
    expected.extend_from_slice(&borsh::to_vec(&999u64).unwrap());
    assert_eq!(encode_record(&r), expected);
}

#[test]
fn record_encoding_exact_bytes() {
    let r = CampaignDetails {
        admin: key(1),
        name: b"ab".to_vec(),
        description: Vec::new(),
        image_link: b"c".to_vec(),
        amount_donated: 0x0102_0304_0506_0708,
    };
    let mut expected: Vec<u8> = vec![1; 32];
    expected.extend_from_slice(&[2, 0, 0, 0, b'a', b'b']);
    expected.extend_from_slice(&[0, 0, 0, 0]);
    expected.extend_from_slice(&[1, 0, 0, 0, b'c']);
    expected.extend_from_slice(&[8, 7, 6, 5, 4, 3, 2, 1]);
    assert_eq!(encode_record(&r), expected);
}

#[test]
fn truncated_record_is_rejected() {
    let bytes = encode_record(&sample_record());
    for cut in 0..bytes.len() {
        assert!(decode_record(&bytes[..cut].to_vec(), 0).is_none());
    }
}

#[test]
fn trailing_bytes_are_rejected() {
    let mut bytes = encode_record(&sample_record());
    bytes.push(0);
    assert!(decode_record(&bytes, 0).is_none());
}

#[test]
fn record_decode_honors_offset() {
    let mut buf = vec![0xAAu8, 0xBB];
    let bytes = encode_record(&sample_record());
    buf.extend_from_slice(&bytes);
    let back = decode_record(&buf, 2).expect("an encoded record must decode at its offset");
    assert_eq!(back, sample_record());
}

#[test]
fn overlong_length_prefix_is_rejected() {
    let mut bytes = vec![0u8; 32];
    // A name length that runs past the end of the buffer.
    bytes.extend_from_slice(&[255, 255, 255, 255]);
    bytes.extend_from_slice(&[b'x']);
    assert!(decode_record(&bytes, 0).is_none());
}

#[test]
fn request_round_trip() {
    let r = WithdrawRequest { amount: 0xDEAD_BEEF_0102_0304 };
    let bytes = encode_request(&r);
    assert_eq!(bytes, borsh::to_vec(&0xDEAD_BEEF_0102_0304u64).unwrap());
    let back = decode_request(&bytes, 0).expect("an encoded request must decode");
    assert_eq!(back, r);
}

#[test]
fn request_wrong_length_is_rejected() {
    assert!(decode_request(&vec![1, 2, 3], 0).is_none());
    assert!(decode_request(&vec![0; 9], 0).is_none());
    assert!(decode_request(&Vec::new(), 0).is_none());
}
