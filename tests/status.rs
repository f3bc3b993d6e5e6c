use saya_core::errors::Error;
use saya_core::status::ProverStatus;

const ALL: [ProverStatus; 5] = [
    ProverStatus::PieSubmitted,
    ProverStatus::Failed,
    ProverStatus::PieProofGenerated,
    ProverStatus::BridgeProofSubmited,
    ProverStatus::Completed,
];

#[test]
fn status_texts_are_exact() {
    assert_eq!(ProverStatus::PieSubmitted.as_str(), "PIE_SUBMITTED");
    assert_eq!(ProverStatus::Failed.as_str(), "FAILED");
    assert_eq!(ProverStatus::PieProofGenerated.as_str(), "PIE_PROOF_GENERATED");
    assert_eq!(ProverStatus::BridgeProofSubmited.as_str(), "BRIDGE_PROOF_SUBMITED");
    assert_eq!(ProverStatus::Completed.as_str(), "COMPLETED");
}

#[test]
fn status_text_round_trip() {
    for s in ALL {
        assert_eq!(ProverStatus::parse(s.as_str()), Ok(s));
    }
}

#[test]
fn unknown_status_text_fails_decode() {
    assert_eq!(ProverStatus::parse("IN_PROGRESS"), Err(Error::UnknownStatus));
    assert_eq!(ProverStatus::parse(""), Err(Error::UnknownStatus));
    assert_eq!(ProverStatus::parse("completed"), Err(Error::UnknownStatus));
    assert_eq!(ProverStatus::parse("COMPLETED "), Err(Error::UnknownStatus));
}

#[test]
fn state_machine_edges() {
    assert!(ProverStatus::PieSubmitted.can_become(ProverStatus::PieProofGenerated));
    assert!(ProverStatus::PieProofGenerated.can_become(ProverStatus::BridgeProofSubmited));
    assert!(ProverStatus::BridgeProofSubmited.can_become(ProverStatus::Completed));
    assert!(ProverStatus::PieSubmitted.can_become(ProverStatus::Failed));
    assert!(ProverStatus::BridgeProofSubmited.can_become(ProverStatus::Failed));
    assert!(!ProverStatus::PieSubmitted.can_become(ProverStatus::Completed));
    assert!(!ProverStatus::PieProofGenerated.can_become(ProverStatus::PieSubmitted));
    assert!(!ProverStatus::PieSubmitted.can_become(ProverStatus::PieSubmitted));
    for to in ALL {
        assert!(!ProverStatus::Completed.can_become(to));
        assert!(!ProverStatus::Failed.can_become(to));
    }
    assert!(ProverStatus::Completed.is_terminal());
    assert!(ProverStatus::Failed.is_terminal());
    assert!(!ProverStatus::PieSubmitted.is_terminal());
}
