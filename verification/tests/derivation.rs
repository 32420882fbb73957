use beacon_fixtures::derivation::ConsensusObject;
use beacon_fixtures::json::{
    beacon_state_object, bootstrap_object, finality_update_object, finalized_root_from_json,
    optimistic_update_object, update_range_object,
};
use beacon_fixtures::keys::ContentKey;
use beacon_fixtures::slots::{expected_current_slot, get_start_period, BEACON_GENESIS_TIME};
use beacon_fixtures::values::{ContentKind, ContentValue, HistoricalSummariesProof};
use beacon_fixtures::FixtureError;

fn derive_pair(
    obj: &ConsensusObject,
    now_secs: u64,
) -> Result<(ContentKey, ContentValue), FixtureError> {
    beacon_fixtures::derivation::derive(obj, now_secs)
}

fn root_hex(byte: u8) -> String {
    let mut s = String::from("0x");
    for _ in 0..32 {
        s.push_str(&format!("{:02x}", byte));
    }
    s
}

fn le64(x: u64) -> Vec<u8> {
    x.to_le_bytes().to_vec()
}

#[test]
fn bootstrap_key_carries_fetched_root() {
    let root = root_hex(0xab);
    let payload = vec![1u8, 2, 3, 4];
    let obj = bootstrap_object(&root, payload.clone()).unwrap();
    let (key, value) = derive_pair(&obj, 0).unwrap();
    let mut expected_key = vec![0x10u8];
    expected_key.extend(vec![0xabu8; 32]);
    assert_eq!(key.encode(), expected_key);
    let mut expected_value = vec![0x6au8, 0x95, 0xa1, 0xa9];
    expected_value.extend(payload);
    assert_eq!(value.encode(), expected_value);
}

#[test]
fn bootstrap_rejects_malformed_root() {
    assert_eq!(
        bootstrap_object("0x1234", vec![]).unwrap_err(),
        FixtureError::Decode
    );
    assert_eq!(
        bootstrap_object("abcd", vec![]).unwrap_err(),
        FixtureError::Decode
    );
}

#[test]
fn finality_key_uses_finalized_slot_not_signature_slot() {
    let body = r#"{"data":{"signature_slot":"99999","finalized_header":{"beacon":{"slot":"12345"}}}}"#;
    let obj = finality_update_object(body, vec![9u8]).unwrap();
    let (key, _value) = derive_pair(&obj, 0).unwrap();
    let mut expected = vec![0x12u8];
    expected.extend(le64(12345));
    assert_eq!(key.encode(), expected);
}

#[test]
fn optimistic_key_uses_signature_slot() {
    let body = r#"{"data":{"signature_slot":"777","finalized_header":{"beacon":{"slot":"12345"}}}}"#;
    let obj = optimistic_update_object(body, vec![9u8]).unwrap();
    let (key, _value) = derive_pair(&obj, 0).unwrap();
    let mut expected = vec![0x13u8];
    expected.extend(le64(777));
    assert_eq!(key.encode(), expected);
}

#[test]
fn update_range_key_has_period_and_count_one() {
    let now = BEACON_GENESIS_TIME + 3 * 8192 * 12 + 5;
    let obj = update_range_object(vec![0xaau8, 0xbb]);
    let (key, value) = derive_pair(&obj, now).unwrap();
    let mut expected = vec![0x11u8];
    expected.extend(le64(3));
    expected.extend(le64(1));
    assert_eq!(key.encode(), expected);
    let expected_value = vec![4u8, 0, 0, 0, 0x6a, 0x95, 0xa1, 0xa9, 0xaa, 0xbb];
    assert_eq!(value.encode(), expected_value);
}

#[test]
fn proof_length_must_be_five() {
    let hash = vec![0x11u8; 32];
    assert!(HistoricalSummariesProof::new(vec![hash.clone(); 5]).is_ok());
    assert_eq!(
        HistoricalSummariesProof::new(vec![hash.clone(); 4]).unwrap_err(),
        FixtureError::InvariantViolation
    );
    assert_eq!(
        HistoricalSummariesProof::new(vec![hash.clone(); 6]).unwrap_err(),
        FixtureError::InvariantViolation
    );
    assert_eq!(
        HistoricalSummariesProof::new(vec![vec![0u8; 31]; 5]).unwrap_err(),
        FixtureError::InvariantViolation
    );
    let ok = HistoricalSummariesProof::new(vec![hash; 5]).unwrap();
    assert_eq!(ok.len(), 5);
}

fn state_body() -> String {
    let s1 = format!(
        r#"{{"block_summary_root":"{}","state_summary_root":"{}"}}"#,
        &root_hex(0x01)[..],
        &root_hex(0x02)[..]
    );
    let s2 = format!(
        r#"{{"block_summary_root":"{}","state_summary_root":"{}"}}"#,
        &root_hex(0x03)[..],
        &root_hex(0x04)[..]
    );
    format!(
        r#"{{"data":{{"slot":"640","historical_summaries":[{},{}]}}}}"#,
        s1, s2
    )
}

#[test]
fn beacon_state_derivation_epoch_and_shape() {
    let body = state_body();
    let proof_hashes: Vec<Vec<u8>> = (0u8..5).map(|i| vec![i; 32]).collect();
    let obj = beacon_state_object(&body, proof_hashes).unwrap();
    let (key, value) = derive_pair(&obj, 0).unwrap();
    // epoch = 640 / 32 = 20
    let mut expected_key = vec![0x14u8];
    expected_key.extend(le64(20));
    assert_eq!(key.encode(), expected_key);
    let bytes = value.encode();
    // digest(4) + epoch(8) + offset(4) + proof(160) + two summaries (128)
    assert_eq!(bytes.len(), 4 + 8 + 4 + 160 + 128);
    assert_eq!(&bytes[0..4], &[0x6a, 0x95, 0xa1, 0xa9]);
    assert_eq!(&bytes[4..12], &le64(20)[..]);
    assert_eq!(&bytes[12..16], &[172, 0, 0, 0]);
    assert_eq!(&bytes[16..48], &[0u8; 32][..]);
    assert_eq!(&bytes[176..208], &[0x01u8; 32][..]);
    assert_eq!(&bytes[208..240], &[0x02u8; 32][..]);
    assert_eq!(&bytes[240..272], &[0x03u8; 32][..]);
}

#[test]
fn beacon_state_rejects_malformed_bodies() {
    let hashes = vec![vec![0u8; 32]; 5];
    // summaries list is not an array
    let body = r#"{"data":{"slot":"640","historical_summaries":"none"}}"#;
    assert_eq!(
        beacon_state_object(body, hashes.clone()).unwrap_err(),
        FixtureError::Decode
    );
    // slot missing
    let body2 = r#"{"data":{"historical_summaries":[]}}"#;
    assert_eq!(
        beacon_state_object(body2, hashes.clone()).unwrap_err(),
        FixtureError::Decode
    );
    // an entry with a malformed root
    let body3 = r#"{"data":{"slot":"640","historical_summaries":[{"block_summary_root":"0x12","state_summary_root":"0x34"}]}}"#;
    assert_eq!(
        beacon_state_object(body3, hashes).unwrap_err(),
        FixtureError::Decode
    );
}

#[test]
fn beacon_state_with_bad_proof_is_invariant_violation() {
    let body = state_body();
    let obj = beacon_state_object(&body, vec![vec![0u8; 32]; 4]).unwrap();
    assert_eq!(derive_pair(&obj, 0).unwrap_err(), FixtureError::InvariantViolation);
}

#[test]
fn start_period_steps_at_period_boundary() {
    let period_secs = 8192 * 12;
    assert_eq!(get_start_period(BEACON_GENESIS_TIME + period_secs), 1);
    assert_eq!(get_start_period(BEACON_GENESIS_TIME + period_secs - 1), 0);
    assert_eq!(get_start_period(BEACON_GENESIS_TIME), 0);
}

#[test]
fn expected_slot_counts_twelve_second_slots() {
    assert_eq!(expected_current_slot(BEACON_GENESIS_TIME, BEACON_GENESIS_TIME), 0);
    assert_eq!(expected_current_slot(BEACON_GENESIS_TIME, BEACON_GENESIS_TIME + 11), 0);
    assert_eq!(expected_current_slot(BEACON_GENESIS_TIME, BEACON_GENESIS_TIME + 12), 1);
    assert_eq!(expected_current_slot(100, 1300), 100);
}

#[test]
fn finality_update_golden_encoding() {
    let body = r#"{"data":{"finalized_header":{"beacon":{"slot":"12345"}},"signature_slot":"1"}}"#;
    let payload = vec![0xdeu8, 0xad, 0xbe, 0xef];
    let obj = finality_update_object(body, payload).unwrap();
    let (key, value) = derive_pair(&obj, 0).unwrap();
    assert_eq!(key.to_hex(), "0x123930000000000000");
    let value_hex: String = value
        .encode()
        .iter()
        .fold(String::from("0x"), |acc, b| acc + &format!("{:02x}", b));
    assert_eq!(value_hex, "0x6a95a1a9deadbeef");
}

#[test]
fn derivation_is_idempotent() {
    let body = r#"{"data":{"finalized_header":{"beacon":{"slot":"4242"}},"signature_slot":"1"}}"#;
    let obj = finality_update_object(body, vec![7u8, 8, 9]).unwrap();
    let (k1, v1) = derive_pair(&obj, 123).unwrap();
    let (k2, v2) = derive_pair(&obj, 123).unwrap();
    assert_eq!(k1.encode(), k2.encode());
    assert_eq!(v1.encode(), v2.encode());
    assert_eq!(k1.to_hex(), k2.to_hex());
}

#[test]
fn finalized_root_is_read_from_data_root() {
    let body = format!(r#"{{"data":{{"root":"{}"}}}}"#, root_hex(0xcd));
    let root = finalized_root_from_json(&body).unwrap();
    assert_eq!(root, vec![0xcdu8; 32]);
    assert_eq!(
        finalized_root_from_json("{}").unwrap_err(),
        FixtureError::Decode
    );
    assert_eq!(
        finalized_root_from_json("not json").unwrap_err(),
        FixtureError::Decode
    );
}

#[test]
fn decode_errors_on_wrong_fork_digest() {
    let bytes = vec![0u8, 1, 2, 3, 4, 5];
    assert_eq!(
        ContentValue::decode(ContentKind::Bootstrap, &bytes).unwrap_err(),
        FixtureError::Decode
    );
}

#[test]
fn malformed_slot_strings_are_decode_errors() {
    let body = r#"{"data":{"finalized_header":{"beacon":{"slot":"12a45"}},"signature_slot":"1"}}"#;
    assert_eq!(
        finality_update_object(body, vec![]).unwrap_err(),
        FixtureError::Decode
    );
    let body2 = r#"{"data":{"signature_slot":"18446744073709551616"}}"#;
    assert_eq!(
        optimistic_update_object(body2, vec![]).unwrap_err(),
        FixtureError::Decode
    );
}

#[test]
fn key_variants_have_documented_selectors() {
    let k = ContentKey::FinalityUpdate { finalized_slot: 0 };
    assert_eq!(k.encode()[0], 0x12);
    let k = ContentKey::OptimisticUpdate { signature_slot: 0 };
    assert_eq!(k.encode()[0], 0x13);
    let k = ContentKey::HistoricalSummaries { epoch: 0 };
    assert_eq!(k.encode()[0], 0x14);
    let k = ContentKey::UpdatesByRange { start_period: 0, count: 0 };
    assert_eq!(k.encode()[0], 0x11);
    let k = ContentKey::Bootstrap { block_hash: vec![0u8; 32] };
    assert_eq!(k.encode()[0], 0x10);
    assert_eq!(k.encode().len(), 33);
}
