use vstd::prelude::*;
use crate::errors::Error;

verus! {

/// Progress of one block through the proving pipeline.
#[derive(Debug, Clone, Copy, PartialEq, Eq, Structural)]
pub enum ProverStatus {
    PieSubmitted,
    Failed,
    PieProofGenerated,
    BridgeProofSubmited,
    Completed,
}

/// The persisted text of each status.
pub open spec fn status_text(s: ProverStatus) -> Seq<char> {
    match s {
        ProverStatus::PieSubmitted => "PIE_SUBMITTED"@,
        ProverStatus::Failed => "FAILED"@,
        ProverStatus::PieProofGenerated => "PIE_PROOF_GENERATED"@,
        ProverStatus::BridgeProofSubmited => "BRIDGE_PROOF_SUBMITED"@,
        ProverStatus::Completed => "COMPLETED"@,
    }
}

/// The status whose text is `t`, if any.
pub open spec fn status_of_text(t: Seq<char>) -> Option<ProverStatus> {
    if t == "PIE_SUBMITTED"@ {
        Some(ProverStatus::PieSubmitted)
    } else if t == "FAILED"@ {
        Some(ProverStatus::Failed)
    } else if t == "PIE_PROOF_GENERATED"@ {
        Some(ProverStatus::PieProofGenerated)
    } else if t == "BRIDGE_PROOF_SUBMITED"@ {
        Some(ProverStatus::BridgeProofSubmited)
    } else if t == "COMPLETED"@ {
        Some(ProverStatus::Completed)
    } else {
        None
    }
}

/// A terminal status admits no further transition.
pub open spec fn is_terminal(s: ProverStatus) -> bool {
    s == ProverStatus::Completed || s == ProverStatus::Failed
}

/// The edges of the job state machine: one step forward along
/// `PieSubmitted -> PieProofGenerated -> BridgeProofSubmited -> Completed`,
/// or from any non-terminal status to `Failed`.
pub open spec fn is_transition(from: ProverStatus, to: ProverStatus) -> bool {
    ||| (from == ProverStatus::PieSubmitted && to == ProverStatus::PieProofGenerated)
    ||| (from == ProverStatus::PieProofGenerated && to == ProverStatus::BridgeProofSubmited)
    ||| (from == ProverStatus::BridgeProofSubmited && to == ProverStatus::Completed)
    ||| (!is_terminal(from) && to == ProverStatus::Failed)
}

/// The position of a non-failed status along the success path.
pub open spec fn rank(s: ProverStatus) -> int {
    match s {
        ProverStatus::PieSubmitted => 0,
        ProverStatus::PieProofGenerated => 1,
        ProverStatus::BridgeProofSubmited => 2,
        ProverStatus::Completed => 3,
        ProverStatus::Failed => 4,
    }
}

impl ProverStatus {
    pub fn as_str(&self) -> (r: &'static str)
        ensures
            r@ == status_text(*self),
    {
        match self {
            ProverStatus::PieSubmitted => "PIE_SUBMITTED",
            ProverStatus::Failed => "FAILED",
            ProverStatus::PieProofGenerated => "PIE_PROOF_GENERATED",
            ProverStatus::BridgeProofSubmited => "BRIDGE_PROOF_SUBMITED",
            ProverStatus::Completed => "COMPLETED",
        }
    }

    /// Decodes a persisted status; an unknown text is an error, never a default.
    pub fn parse(s: &str) -> (r: Result<ProverStatus, Error>)
        ensures
            status_of_text(s@) matches Some(st) ==> r == Ok::<ProverStatus, Error>(st),
            status_of_text(s@) is None ==> r == Err::<ProverStatus, Error>(Error::UnknownStatus),
    {
        let t = s.to_owned();
        if t == String::from_str("PIE_SUBMITTED") {
            Ok(ProverStatus::PieSubmitted)
        } else if t == String::from_str("FAILED") {
            Ok(ProverStatus::Failed)
        } else if t == String::from_str("PIE_PROOF_GENERATED") {
            Ok(ProverStatus::PieProofGenerated)
        } else if t == String::from_str("BRIDGE_PROOF_SUBMITED") {
            Ok(ProverStatus::BridgeProofSubmited)
        } else if t == String::from_str("COMPLETED") {
            Ok(ProverStatus::Completed)
        } else {
            Err(Error::UnknownStatus)
        }
    }

    pub fn is_terminal(&self) -> (r: bool)
        ensures
            r == is_terminal(*self),
    {
        *self == ProverStatus::Completed || *self == ProverStatus::Failed
    }

    /// Whether the state machine has an edge from `self` to `to`.
    pub fn can_become(&self, to: ProverStatus) -> (r: bool)
        ensures
            r == is_transition(*self, to),
    {
        match (*self, to) {
            (ProverStatus::PieSubmitted, ProverStatus::PieProofGenerated) => true,
            (ProverStatus::PieProofGenerated, ProverStatus::BridgeProofSubmited) => true,
            (ProverStatus::BridgeProofSubmited, ProverStatus::Completed) => true,
            (_, ProverStatus::Failed) => !self.is_terminal(),
            _ => false,
        }
    }
}

/// Every status is decoded back from its own text.
pub proof fn lemma_status_text_round_trip(s: ProverStatus)
    ensures
        status_of_text(status_text(s)) == Some(s),
{
    reveal_strlit("PIE_SUBMITTED");
    reveal_strlit("FAILED");
    reveal_strlit("PIE_PROOF_GENERATED");
    reveal_strlit("BRIDGE_PROOF_SUBMITED");
    reveal_strlit("COMPLETED");
    // The five texts have five different lengths.
    assert("PIE_SUBMITTED"@.len() == 13);
    assert("FAILED"@.len() == 6);
    assert("PIE_PROOF_GENERATED"@.len() == 19);
    assert("BRIDGE_PROOF_SUBMITED"@.len() == 21);
    assert("COMPLETED"@.len() == 9);
}

/// A text that no status has fails to decode.
pub proof fn lemma_unknown_text_rejected(t: Seq<char>)
    requires
        forall|s: ProverStatus| status_text(s) != t,
    ensures
        status_of_text(t) is None,
{
    assert(status_text(ProverStatus::PieSubmitted) != t);
    assert(status_text(ProverStatus::Failed) != t);
    assert(status_text(ProverStatus::PieProofGenerated) != t);
    assert(status_text(ProverStatus::BridgeProofSubmited) != t);
    assert(status_text(ProverStatus::Completed) != t);
}

/// No edge leaves a terminal status, and every edge but the one to `Failed`
/// moves strictly forward.
pub proof fn lemma_transitions_monotonic(from: ProverStatus, to: ProverStatus)
    requires
        is_transition(from, to),
    ensures
        !is_terminal(from),
        to != ProverStatus::Failed ==> rank(to) == rank(from) + 1,
{
}

} // verus!
