use quicklendx::protocol_limits::MAX_DISPUTE_EVIDENCE_LENGTH;

#[test]
fn max_evidence_constant_is_2000() {
    assert_eq!(
        MAX_DISPUTE_EVIDENCE_LENGTH, 2000,
        "MAX_DISPUTE_EVIDENCE_LENGTH must be 2000; update this test intentionally if changing the cap"
    );
}
