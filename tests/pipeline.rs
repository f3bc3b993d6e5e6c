use saya_core::errors::Error;
use saya_core::pipeline::{last_sent_for_prove, stage2_query, Pipeline};
use saya_core::prover::{all_jobs_completed, layout_bridge_input};
use saya_core::status::ProverStatus;
use saya_core::store::JobStore;

fn strings(items: &[&str]) -> Vec<String> {
    items.iter().map(|s| s.to_string()).collect()
}

#[test]
fn submissions_are_consecutive() {
    let mut p = Pipeline::new(JobStore::new(), 100, 1);
    assert_eq!(p.next_block(), Some(101));
    assert_eq!(p.record_submission("q101"), Ok(101));
    p.record_trace_proof(101, "pie").unwrap();
    p.record_bridge_query(101, "b101").unwrap();
    assert_eq!(p.next_block(), Some(102));
    assert_eq!(p.record_submission("q102"), Ok(102));
    let ids: Vec<u32> = p.store.list_blocks().iter().map(|b| b.id).collect();
    assert_eq!(ids, vec![101, 102]);
    assert_eq!(p.last_sent_for_prove_block, 102);
}

#[test]
fn recovery_resumes_after_highest_pending_block() {
    let mut store = JobStore::new();
    store.insert_block(101, "a", ProverStatus::PieSubmitted).unwrap();
    store.insert_block(102, "b", ProverStatus::PieProofGenerated).unwrap();
    let p = Pipeline::new(store, 50, 1);
    assert_eq!(p.last_sent_for_prove_block, 102);
    assert_eq!(p.next_block(), Some(103));
}

#[test]
fn recovery_ignores_terminal_jobs() {
    let mut store = JobStore::new();
    store.insert_block(7, "a", ProverStatus::BridgeProofSubmited).unwrap();
    store.insert_block(8, "b", ProverStatus::PieSubmitted).unwrap();
    store.update_block_status(8, ProverStatus::Failed).unwrap();
    assert_eq!(last_sent_for_prove(&store, 3), 7);
    store.update_block_status(7, ProverStatus::Completed).unwrap();
    assert_eq!(last_sent_for_prove(&store, 3), 3);
    assert_eq!(last_sent_for_prove(&JobStore::new(), 499), 499);
}

#[test]
fn backpressure_blocks_second_submission() {
    let mut p = Pipeline::new(JobStore::new(), 0, 1);
    assert!(p.has_capacity());
    assert_eq!(p.record_submission("q1"), Ok(1));
    assert!(!p.has_capacity());
    assert_eq!(p.record_submission("q2"), Err(Error::Backpressure));
    assert_eq!(p.store.list_blocks().len(), 1);
    assert_eq!(p.last_sent_for_prove_block, 1);
    p.record_trace_proof(1, "pie").unwrap();
    p.record_bridge_query(1, "b1").unwrap();
    assert!(p.has_capacity());
    assert_eq!(p.record_submission("q2"), Ok(2));
}

#[test]
fn block_range_exhaustion_is_reported() {
    let p0 = Pipeline::new(JobStore::new(), u32::MAX, 1);
    assert_eq!(p0.next_block(), None);
    let mut p = p0;
    assert_eq!(p.record_submission("q"), Err(Error::BlockRangeExhausted));
}

#[test]
fn empty_job_list_is_incomplete() {
    assert!(!all_jobs_completed(&Vec::new()));
    assert!(all_jobs_completed(&strings(&["COMPLETED"])));
    assert!(all_jobs_completed(&strings(&["COMPLETED", "COMPLETED"])));
    assert!(!all_jobs_completed(&strings(&["COMPLETED", "IN_PROGRESS"])));
    assert!(!all_jobs_completed(&strings(&["completed"])));
}

#[test]
fn stage2_polls_the_right_query() {
    let mut store = JobStore::new();
    store.insert_block(1, "trace", ProverStatus::PieSubmitted).unwrap();
    store.update_query_id_step2(1, "bridge").unwrap();
    assert_eq!(stage2_query(&store.check_status(1).unwrap()), Some("trace".to_string()));
    store.update_block_status(1, ProverStatus::PieProofGenerated).unwrap();
    assert_eq!(stage2_query(&store.check_status(1).unwrap()), Some("bridge".to_string()));
    store.update_block_status(1, ProverStatus::BridgeProofSubmited).unwrap();
    assert_eq!(stage2_query(&store.check_status(1).unwrap()), None);
}

#[test]
fn bridge_query_needs_stored_trace_proof() {
    let mut p = Pipeline::new(JobStore::new(), 0, 1);
    p.record_submission("q1").unwrap();
    assert_eq!(p.record_bridge_query(1, "b1"), Err(Error::ProofNotFound(1)));
    assert_eq!(p.store.check_status(1).unwrap().status, ProverStatus::PieSubmitted);
    assert_eq!(
        p.record_bridge_proof(1, "x"),
        Err(Error::InvalidTransition {
            block: 1,
            from: ProverStatus::PieSubmitted,
            to: ProverStatus::Completed
        })
    );
    assert_eq!(p.record_bridge_done(9), Err(Error::BlockNotFound(9)));
}

#[test]
fn failed_blocks_stay_failed() {
    let mut p = Pipeline::new(JobStore::new(), 0, 1);
    p.record_submission("q1").unwrap();
    assert_eq!(p.mark_failed(1), Ok(()));
    assert!(p.mark_failed(1).is_err());
    assert!(p.record_trace_proof(1, "pie").is_err());
    assert_eq!(p.store.check_status(1).unwrap().status, ProverStatus::Failed);
    // A failed job no longer counts as in flight.
    assert_eq!(p.record_submission("q2"), Ok(2));
}

#[test]
fn end_to_end_block_500() {
    let mut store = JobStore::new();
    store.insert_block(500, "trace-500", ProverStatus::PieSubmitted).unwrap();
    let mut p = Pipeline::new(store, 499, 1);
    assert_eq!(p.next_settlement(), None);

    // Stage 2: the prover reports two completed sub-jobs.
    let pending = p.store.list_blocks_with_status(ProverStatus::PieSubmitted);
    assert_eq!(pending.len(), 1);
    let query = stage2_query(&pending[0]).unwrap();
    assert_eq!(query, "trace-500");
    assert!(all_jobs_completed(&strings(&["COMPLETED", "COMPLETED"])));
    p.record_trace_proof(500, "{\"pie\":1}").unwrap();
    let bridge_input = layout_bridge_input(&p.store.get_pie_proof(500).unwrap());
    assert_eq!(bridge_input, "{\n\t\"proof\": {\"pie\":1}\n}");
    p.record_bridge_query(500, "bridge-500").unwrap();
    let b = p.store.check_status(500).unwrap();
    assert_eq!(b.status, ProverStatus::PieProofGenerated);
    assert_eq!(b.query_id_step2, "bridge-500");
    assert_eq!(p.store.get_pie_proof(500).unwrap(), "{\"pie\":1}");

    // The bridge job finishes and its proof is fetched.
    p.record_bridge_done(500).unwrap();
    assert_eq!(p.next_settlement(), None);
    p.record_bridge_proof(500, "bridge-proof").unwrap();
    assert_eq!(p.store.check_status(500).unwrap().status, ProverStatus::Completed);

    // Settlement: exactly one update for block 500, then the cursor moves.
    let mut updates = 0;
    for _ in 0..3 {
        if let Some((id, pie, bridge)) = p.next_settlement() {
            assert_eq!(id, 500);
            assert_eq!(pie, "{\"pie\":1}");
            assert_eq!(bridge, "bridge-proof");
            updates += 1;
            p.record_settlement(id).unwrap();
        }
    }
    assert_eq!(updates, 1);
    assert_eq!(p.last_settled_block, 500);
}

#[test]
fn settlement_waits_for_the_gapless_successor() {
    let mut store = JobStore::new();
    store.insert_block(12, "q", ProverStatus::BridgeProofSubmited).unwrap();
    store.insert_pie_proof(12, "pie").unwrap();
    let mut p = Pipeline::new(store, 10, 1);
    p.record_bridge_proof(12, "bridge").unwrap();
    assert_eq!(p.next_settlement(), None);
    assert_eq!(p.record_settlement(12), Err(Error::OutOfOrderSettlement(12)));
    assert_eq!(p.last_settled_block, 10);
}
