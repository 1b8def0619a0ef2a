use mdp::codec::{read_string, read_u16, read_u32, write_string, write_u16, write_u32};
use mdp::error::ProgramError;
use mdp::pubkey::Pubkey;
use mdp::state::features::{Feature, FeaturesSet};
use mdp::state::record::{CountryCode, ErRecord};
use mdp::state::status::ErStatus;
use mdp::state::version::v0::RecordV0;

fn sample() -> ErRecord {
    let mut identity = [0u8; 32];
    for (i, b) in identity.iter_mut().enumerate() {
        *b = i as u8 + 1;
    }
    ErRecord::V0(RecordV0 {
        identity: Pubkey(identity),
        status: ErStatus::Active,
        addr: "https://241.132.2.41:9324/".to_string(),
        block_time_ms: 50,
        base_fee: 1000,
        features: FeaturesSet::default().activate(Feature::Randomness),
        load_average: 1_000_000,
        country_code: CountryCode::from("083"),
    })
}

fn sample_bytes() -> Vec<u8> {
    let mut expected: Vec<u8> = vec![0];
    expected.extend(1u8..=32);
    expected.push(0);
    expected.extend([50, 0]);
    expected.extend([0xe8, 0x03]);
    let mut features = [0u8; 32];
    features[0] = 1;
    expected.extend(features);
    expected.extend([0x40, 0x42, 0x0f, 0x00]);
    expected.extend(*b"083");
    expected.extend([26, 0, 0, 0]);
    expected.extend(*b"https://241.132.2.41:9324/");
    expected
}

#[test]
fn record_bytes_are_exact() {
    let bytes = sample().try_to_vec().unwrap();
    assert_eq!(bytes, sample_bytes());
    assert_eq!(bytes.len(), 81 + 26);
}

#[test]
fn record_bytes_match_borsh() {
    let record = sample();
    let as_tuple = (
        0u8,
        record.identity().to_bytes(),
        0u8,
        record.block_time_ms(),
        record.base_fee(),
        record.features().0,
        record.load_average(),
        record.country_code().0,
        record.addr().to_string(),
    );
    let reference = borsh::to_vec(&as_tuple).unwrap();
    assert_eq!(record.try_to_vec().unwrap(), reference);
}

#[test]
fn borsh_bytes_decode_to_record() {
    let mut features = [0u8; 32];
    features[0] = 2;
    let as_tuple = (
        0u8,
        [9u8; 32],
        2u8,
        7u16,
        65535u16,
        features,
        4_000_000_000u32,
        *b"840",
        "node.example:1".to_string(),
    );
    let bytes = borsh::to_vec(&as_tuple).unwrap();
    let record = ErRecord::try_from_slice(&bytes).unwrap();
    assert_eq!(*record.identity(), Pubkey([9u8; 32]));
    assert_eq!(record.status(), ErStatus::Offline);
    assert_eq!(record.block_time_ms(), 7);
    assert_eq!(record.base_fee(), 65535);
    assert_eq!(*record.features(), FeaturesSet::default().activate(Feature::HighResClock));
    assert_eq!(record.load_average(), 4_000_000_000);
    assert_eq!(record.country_code(), CountryCode::from("840"));
    assert_eq!(record.addr(), "node.example:1");
}

#[test]
fn record_round_trip() {
    let record = sample();
    let bytes = record.try_to_vec().unwrap();
    let back = ErRecord::try_from_slice(&bytes).unwrap();
    assert_eq!(back, record);
    assert_eq!(back.try_to_vec().unwrap(), bytes);
}

#[test]
fn round_trip_with_multibyte_and_empty_address() {
    let mut record = sample();
    record.set_addr("höst.例".to_string());
    let bytes = record.try_to_vec().unwrap();
    assert_eq!(ErRecord::try_from_slice(&bytes).unwrap(), record);
    record.set_addr(String::new());
    let bytes = record.try_to_vec().unwrap();
    assert_eq!(bytes.len(), 81);
    assert_eq!(ErRecord::try_from_slice(&bytes).unwrap(), record);
}

#[test]
fn serialize_appends() {
    let mut out = vec![0xaa, 0xbb];
    sample().serialize(&mut out).unwrap();
    assert_eq!(&out[..2], &[0xaa, 0xbb]);
    assert_eq!(&out[2..], &sample_bytes()[..]);
}

#[test]
fn unknown_version_is_refused() {
    let mut bytes = sample_bytes();
    bytes[0] = 1;
    assert_eq!(ErRecord::try_from_slice(&bytes), Err(ProgramError::InvalidAccountData));
}

#[test]
fn unknown_status_is_refused() {
    let mut bytes = sample_bytes();
    bytes[33] = 3;
    assert_eq!(ErRecord::try_from_slice(&bytes), Err(ProgramError::InvalidAccountData));
    bytes[33] = 2;
    assert_eq!(ErRecord::try_from_slice(&bytes).unwrap().status(), ErStatus::Offline);
    bytes[33] = 1;
    assert_eq!(ErRecord::try_from_slice(&bytes).unwrap().status(), ErStatus::Draining);
}

#[test]
fn truncated_and_trailing_bytes_are_refused() {
    let bytes = sample_bytes();
    assert_eq!(
        ErRecord::try_from_slice(&bytes[..bytes.len() - 1]),
        Err(ProgramError::InvalidAccountData)
    );
    assert_eq!(ErRecord::try_from_slice(&bytes[..76]), Err(ProgramError::InvalidAccountData));
    assert_eq!(ErRecord::try_from_slice(&bytes[..80]), Err(ProgramError::InvalidAccountData));
    assert_eq!(ErRecord::try_from_slice(&[]), Err(ProgramError::InvalidAccountData));
    let mut longer = bytes.clone();
    longer.push(0);
    assert_eq!(ErRecord::try_from_slice(&longer), Err(ProgramError::InvalidAccountData));
    let (record, len) = ErRecord::parse(&longer).unwrap();
    assert_eq!(record, sample());
    assert_eq!(len, bytes.len());
}

#[test]
fn invalid_utf8_is_refused() {
    let mut bytes = sample_bytes();
    let last = bytes.len() - 1;
    bytes[last] = 0xff;
    assert_eq!(ErRecord::try_from_slice(&bytes), Err(ProgramError::InvalidAccountData));
}

#[test]
fn integers_are_little_endian() {
    let mut out = Vec::new();
    write_u16(&mut out, 0x1234);
    write_u32(&mut out, 0x89ab_cdef);
    assert_eq!(out, vec![0x34, 0x12, 0xef, 0xcd, 0xab, 0x89]);
    assert_eq!(read_u16(&out, 0), 0x1234);
    assert_eq!(read_u32(&out, 2), 0x89ab_cdef);
    assert_eq!(out[..2], 0x1234u16.to_le_bytes());
    assert_eq!(out[2..], 0x89ab_cdefu32.to_le_bytes());
}

#[test]
fn strings_carry_a_length_prefix() {
    let mut out = vec![1];
    assert!(write_string(&mut out, "añb"));
    assert_eq!(out, vec![1, 4, 0, 0, 0, b'a', 0xc3, 0xb1, b'b']);
    assert_eq!(out[1..], borsh::to_vec("añb").unwrap()[..]);
    assert_eq!(read_string(&out, 1), Some(("añb".to_string(), 9)));
    assert_eq!(read_string(&out, 2), None);
    assert_eq!(read_string(&[2, 0, 0, 0, 0xc3, 0x28], 0), None);
    assert_eq!(read_string(&[0, 0, 0, 0, 7], 0), Some((String::new(), 4)));
}

#[test]
fn country_code_takes_three_bytes() {
    assert_eq!(CountryCode::from("083").0, [b'0', b'8', b'3']);
    assert_eq!(CountryCode::from("0834").0, [b'0', b'8', b'3']);
    assert_ne!(CountryCode::from("083"), CountryCode::from("084"));
    assert_eq!(CountryCode::from_bytes(&[1, 2, 3, 4]).0, [1, 2, 3]);
    assert_eq!(CountryCode::from_bytes(b"840"), CountryCode::from("840"));
}

#[test]
fn status_tags() {
    assert_eq!(ErStatus::Active.tag(), 0);
    assert_eq!(ErStatus::Draining.tag(), 1);
    assert_eq!(ErStatus::Offline.tag(), 2);
    assert_eq!(ErStatus::from_tag(0), Some(ErStatus::Active));
    assert_eq!(ErStatus::from_tag(1), Some(ErStatus::Draining));
    assert_eq!(ErStatus::from_tag(2), Some(ErStatus::Offline));
    assert_eq!(ErStatus::from_tag(3), None);
}

#[test]
fn setters_change_one_field() {
    let mut record = sample();
    record.set_base_fee(7);
    record.set_block_time_ms(8);
    record.set_load_average(9);
    record.set_status(ErStatus::Offline);
    record.set_country_code(CountryCode::from("276"));
    record.set_features(FeaturesSet::default());
    record.set_addr("x".to_string());
    assert_eq!(record.base_fee(), 7);
    assert_eq!(record.block_time_ms(), 8);
    assert_eq!(record.load_average(), 9);
    assert_eq!(record.status(), ErStatus::Offline);
    assert_eq!(record.country_code(), CountryCode::from("276"));
    assert_eq!(*record.features(), FeaturesSet::default());
    assert_eq!(record.addr(), "x");
    assert_eq!(record.identity(), sample().identity());
}
