use beacon_fixtures::hex::{hex_decode, hex_encode};
use beacon_fixtures::numbers::parse_u64_dec;
use beacon_fixtures::values::{
    ContentKind, ContentValue, ForkName, HistoricalSummariesProof, HistoricalSummary,
};
use beacon_fixtures::FixtureError;

#[test]
fn hex_encode_is_lowercase_prefixed() {
    assert_eq!(hex_encode(&[]), "0x");
    assert_eq!(hex_encode(&[0x0f, 0xa0, 0x00, 0xff]), "0x0fa000ff");
}

#[test]
fn hex_decode_inverts_encode() {
    let bytes = vec![0u8, 1, 2, 0xde, 0xad, 0xff];
    let s = hex_encode(&bytes);
    assert_eq!(hex_decode(&s).unwrap(), bytes);
    assert_eq!(hex_decode("0x").unwrap(), Vec::<u8>::new());
}

#[test]
fn hex_decode_rejects_malformed_strings() {
    assert_eq!(hex_decode("1234").unwrap_err(), FixtureError::Decode);
    assert_eq!(hex_decode("0x123").unwrap_err(), FixtureError::Decode);
    assert_eq!(hex_decode("0xzz").unwrap_err(), FixtureError::Decode);
    assert_eq!(hex_decode("0xAB").unwrap_err(), FixtureError::Decode);
    assert_eq!(hex_decode("").unwrap_err(), FixtureError::Decode);
}

#[test]
fn decimal_parse_exact_bounds() {
    assert_eq!(parse_u64_dec("0"), Some(0));
    assert_eq!(parse_u64_dec("12345"), Some(12345));
    assert_eq!(parse_u64_dec("18446744073709551615"), Some(u64::MAX));
    assert_eq!(parse_u64_dec("18446744073709551616"), None);
    assert_eq!(parse_u64_dec(""), None);
    assert_eq!(parse_u64_dec("12a"), None);
    assert_eq!(parse_u64_dec("-1"), None);
}

fn reencode(kind: ContentKind, bytes: &[u8]) -> Vec<u8> {
    ContentValue::decode(kind, bytes).unwrap().encode()
}

#[test]
fn round_trip_bootstrap_value() {
    let v = ContentValue::Bootstrap { fork: ForkName::Deneb, payload: vec![1, 2, 3] };
    let bytes = v.encode();
    assert_eq!(reencode(ContentKind::Bootstrap, &bytes), bytes);
}

#[test]
fn round_trip_finality_value() {
    let v = ContentValue::FinalityUpdate { fork: ForkName::Deneb, payload: vec![] };
    let bytes = v.encode();
    assert_eq!(reencode(ContentKind::FinalityUpdate, &bytes), bytes);
}

#[test]
fn round_trip_optimistic_value() {
    let v = ContentValue::OptimisticUpdate { fork: ForkName::Deneb, payload: vec![0xff; 100] };
    let bytes = v.encode();
    assert_eq!(reencode(ContentKind::OptimisticUpdate, &bytes), bytes);
}

#[test]
fn round_trip_updates_by_range_value() {
    let v = ContentValue::UpdatesByRange { fork: ForkName::Deneb, payload: vec![5, 6, 7, 8] };
    let bytes = v.encode();
    assert_eq!(bytes[0..4], [4, 0, 0, 0]);
    assert_eq!(reencode(ContentKind::UpdatesByRange, &bytes), bytes);
}

#[test]
fn round_trip_historical_summaries_value() {
    let proof =
        HistoricalSummariesProof::new((0u8..5).map(|i| vec![i + 1; 32]).collect()).unwrap();
    let summaries = vec![
        HistoricalSummary {
            block_summary_root: vec![0xaa; 32],
            state_summary_root: vec![0xbb; 32],
        },
        HistoricalSummary {
            block_summary_root: vec![0xcc; 32],
            state_summary_root: vec![0xdd; 32],
        },
    ];
    let v = ContentValue::HistoricalSummariesWithProof {
        fork: ForkName::Deneb,
        epoch: 99,
        summaries,
        state_proof: proof,
    };
    let bytes = v.encode();
    assert_eq!(reencode(ContentKind::HistoricalSummaries, &bytes), bytes);
    // and the decoded fields are recovered exactly
    match ContentValue::decode(ContentKind::HistoricalSummaries, &bytes).unwrap() {
        ContentValue::HistoricalSummariesWithProof { fork, epoch, summaries, .. } => {
            assert_eq!(fork, ForkName::Deneb);
            assert_eq!(epoch, 99);
            assert_eq!(summaries.len(), 2);
            assert_eq!(summaries[0].block_summary_root, vec![0xaa; 32]);
            assert_eq!(summaries[1].state_summary_root, vec![0xdd; 32]);
        },
        _ => panic!("wrong variant"),
    }
}

#[test]
fn historical_summaries_decode_rejects_bad_offset() {
    let proof = HistoricalSummariesProof::new(vec![vec![0u8; 32]; 5]).unwrap();
    let v = ContentValue::HistoricalSummariesWithProof {
        fork: ForkName::Deneb,
        epoch: 1,
        summaries: vec![],
        state_proof: proof,
    };
    let mut bytes = v.encode();
    bytes[12] = 171;
    assert_eq!(
        ContentValue::decode(ContentKind::HistoricalSummaries, &bytes).unwrap_err(),
        FixtureError::Decode
    );
    // a truncated body is refused too
    assert_eq!(
        ContentValue::decode(ContentKind::HistoricalSummaries, &v.encode()[..100]).unwrap_err(),
        FixtureError::Decode
    );
    // a trailing fragment that is no whole summary is refused
    let mut extra = v.encode();
    extra.extend_from_slice(&[0u8; 63]);
    assert_eq!(
        ContentValue::decode(ContentKind::HistoricalSummaries, &extra).unwrap_err(),
        FixtureError::Decode
    );
}

#[test]
fn updates_by_range_decode_rejects_other_offsets() {
    // an offset other than 4 would mean more or fewer than one update
    let bytes = vec![8u8, 0, 0, 0, 0x6a, 0x95, 0xa1, 0xa9, 1, 2];
    assert_eq!(
        ContentValue::decode(ContentKind::UpdatesByRange, &bytes).unwrap_err(),
        FixtureError::Decode
    );
}
