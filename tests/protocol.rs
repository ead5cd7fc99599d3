use r503_aura::catalog::{Color, LedConfig, LightPattern, AURA_LED_CONFIG};
use r503_aura::checksum::checksum;
use r503_aura::frame::{decode, encode, encode_fixed, DecodeError, EncodeError, Identifier, LED_FRAME_LEN};

fn sum16(bytes: &[u8]) -> u16 {
    bytes.iter().fold(0u16, |a, b| a.wrapping_add(*b as u16))
}

#[test]
fn checksum_of_nothing_is_zero() {
    assert_eq!(checksum(&[]), 0);
}

#[test]
fn checksum_wraps_at_sixteen_bits() {
    let bytes = vec![0xFFu8; 300];
    assert_eq!(checksum(&bytes), ((300u32 * 255) % 65536) as u16);
    assert_eq!(checksum(&[1, 2, 3, 0xFF]), 261);
}

#[test]
fn encode_sets_length_and_checksum() {
    for n in 0..=32usize {
        let payload: Vec<u8> = (0..n).map(|i| (i * 37 + 11) as u8).collect();
        let f = encode(Identifier::Data, 0x12, &payload).unwrap();
        assert_eq!(f.len(), n + 12);
        assert_eq!(&f[0..6], &[0xEF, 0x01, 0xFF, 0xFF, 0xFF, 0xFF]);
        assert_eq!(f[6], 0x02);
        assert_eq!(u16::from_be_bytes([f[7], f[8]]) as usize, 1 + n + 2);
        assert_eq!(f[9], 0x12);
        assert_eq!(&f[10..10 + n], &payload[..]);
        let stored = u16::from_be_bytes([f[n + 10], f[n + 11]]);
        assert_eq!(stored, sum16(&f[6..n + 10]));
    }
}

#[test]
fn encode_refuses_oversized_payload() {
    let payload = vec![0u8; 33];
    assert_eq!(encode(Identifier::Command, 0x01, &payload), Err(EncodeError::PayloadTooLarge));
    assert!(encode(Identifier::Command, 0x01, &payload[..32]).is_ok());
}

#[test]
fn encode_fixed_checks_transport_size() {
    assert_eq!(
        encode_fixed(Identifier::Command, 0x35, &[1u8, 2, 3]),
        Err(EncodeError::FrameSizeMismatch)
    );
    assert_eq!(
        encode_fixed(Identifier::Command, 0x35, &[1u8, 2, 3, 4, 5]),
        Err(EncodeError::FrameSizeMismatch)
    );
    let f = encode_fixed(Identifier::Command, 0x35, &[1u8, 2, 3, 4]).unwrap();
    assert_eq!(&f[..], &encode(Identifier::Command, 0x35, &[1u8, 2, 3, 4]).unwrap()[..]);
    let big = vec![0u8; 40];
    assert_eq!(encode_fixed(Identifier::Command, 0x35, &big), Err(EncodeError::PayloadTooLarge));
}

#[test]
fn identifier_codes() {
    assert_eq!(Identifier::Command.code(), 0x01);
    assert_eq!(Identifier::Data.code(), 0x02);
    assert_eq!(Identifier::Acknowledge.code(), 0x07);
    assert_eq!(Identifier::EndOfData.code(), 0x08);
    assert_eq!(Identifier::from_code(0x07), Some(Identifier::Acknowledge));
    assert_eq!(Identifier::from_code(0x03), None);
}

#[test]
fn led_frame_has_fixed_layout() {
    let payload = [LightPattern::Breathing.code(), 0xFF, Color::Cyan.code(), 0x00];
    let f = encode(Identifier::Command, AURA_LED_CONFIG, &payload).unwrap();
    assert_eq!(f.len(), 16);
    assert_eq!(&f[0..2], &[0xEF, 0x01]);
    assert_eq!(&f[2..6], &[0xFF, 0xFF, 0xFF, 0xFF]);
    assert_eq!(f[6], 0x01);
    assert_eq!(&f[7..9], &[0x00, 0x07]);
    assert_eq!(f[9], AURA_LED_CONFIG);
    assert_eq!(&f[10..14], &payload);
    assert_eq!(u16::from_be_bytes([f[14], f[15]]), sum16(&f[6..14]));
    assert_eq!(
        &f[..],
        &[0xEF, 0x01, 0xFF, 0xFF, 0xFF, 0xFF, 0x01, 0x00, 0x07, 0x35, 0x01, 0xFF, 0x06, 0x00, 0x01, 0x43]
    );
    let config = LedConfig::new(LightPattern::Breathing, 0xFF, Color::Cyan, 0);
    assert_eq!(config.payload(), payload.to_vec());
    assert_eq!(&config.frame()[..], &f[..]);
    assert_eq!(config.frame().len(), LED_FRAME_LEN);
}

#[test]
fn catalog_codes() {
    assert_eq!(LightPattern::AlwaysOn.code(), 0x03);
    assert_eq!(LightPattern::GraduallyOff.code(), 0x06);
    assert_eq!(Color::Red.code(), 0x01);
    assert_eq!(Color::Green.code(), 0x04);
    assert_eq!(Color::White.code(), 0x07);
}

#[test]
fn decode_recovers_encoded_fields() {
    for n in [0usize, 1, 4, 31, 32] {
        let payload: Vec<u8> = (0..n).map(|i| (255 - i) as u8).collect();
        for id in [Identifier::Command, Identifier::Data, Identifier::Acknowledge, Identifier::EndOfData] {
            let f = encode(id, 0x0B, &payload).unwrap();
            let d = decode(&f).unwrap();
            assert_eq!(d.identifier, id);
            assert_eq!(d.instruction, 0x0B);
            assert_eq!(d.payload, payload);
        }
    }
}

#[test]
fn decode_reports_each_error() {
    let f = encode(Identifier::Acknowledge, 0x00, &[0x01, 0x02]).unwrap();
    assert!(matches!(decode(&f[..11]), Err(DecodeError::BadLength)));
    assert!(matches!(decode(&[]), Err(DecodeError::BadLength)));

    let f = f.to_vec();
    let mut bad_header = f.clone();
    bad_header[0] = 0xEE;
    assert!(matches!(decode(&bad_header), Err(DecodeError::BadHeader)));
    let mut bad_address = f.clone();
    bad_address[4] = 0x00;
    assert!(matches!(decode(&bad_address), Err(DecodeError::BadHeader)));

    let mut bad_sum = f.clone();
    bad_sum[13] ^= 0x01;
    assert!(matches!(decode(&bad_sum), Err(DecodeError::ChecksumMismatch)));

    // A length field one too large, with the checksum made to match.
    let mut bad_len = f.clone();
    bad_len[8] += 1;
    let s = sum16(&bad_len[6..12]).to_be_bytes();
    bad_len[12] = s[0];
    bad_len[13] = s[1];
    assert!(matches!(decode(&bad_len), Err(DecodeError::BadLength)));

    // An unknown identifier, with the checksum made to match.
    let mut bad_id = f.clone();
    bad_id[6] = 0x03;
    let s = sum16(&bad_id[6..12]).to_be_bytes();
    bad_id[12] = s[0];
    bad_id[13] = s[1];
    assert!(matches!(decode(&bad_id), Err(DecodeError::BadIdentifier)));
}

#[test]
fn any_flipped_bit_is_a_checksum_mismatch() {
    for payload in [vec![], vec![0x01, 0xFF, 0x06, 0x00], vec![0xAA; 32]] {
        let f = encode(Identifier::Command, AURA_LED_CONFIG, &payload).unwrap();
        for i in 6..f.len() - 2 {
            for k in 0..8 {
                let mut t = f.to_vec();
                t[i] ^= 1 << k;
                assert!(matches!(decode(&t), Err(DecodeError::ChecksumMismatch)));
            }
        }
    }
}
