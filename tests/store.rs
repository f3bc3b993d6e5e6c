use saya_core::errors::Error;
use saya_core::status::ProverStatus;
use saya_core::store::JobStore;

fn ids(store: &JobStore, status: ProverStatus) -> Vec<u32> {
    store.list_blocks_with_status(status).iter().map(|b| b.id).collect()
}

#[test]
fn insert_and_read_back() {
    let mut store = JobStore::new();
    assert_eq!(store.insert_block(7, "q7", ProverStatus::PieSubmitted), Ok(()));
    let b = store.check_status(7).unwrap();
    assert_eq!(b.id, 7);
    assert_eq!(b.query_id_step1, "q7");
    assert_eq!(b.query_id_step2, "");
    assert_eq!(b.status, ProverStatus::PieSubmitted);
}

#[test]
fn duplicate_insert_is_refused() {
    let mut store = JobStore::new();
    store.insert_block(7, "q7", ProverStatus::PieSubmitted).unwrap();
    assert_eq!(
        store.insert_block(7, "other", ProverStatus::PieSubmitted),
        Err(Error::DuplicateBlock(7))
    );
    assert_eq!(store.check_status(7).unwrap().query_id_step1, "q7");
    assert_eq!(store.list_blocks().len(), 1);
}

#[test]
fn missing_block_is_not_found() {
    let mut store = JobStore::new();
    assert_eq!(store.check_status(1).unwrap_err(), Error::BlockNotFound(1));
    assert_eq!(
        store.update_block_status(1, ProverStatus::Failed),
        Err(Error::BlockNotFound(1))
    );
    assert_eq!(store.update_query_id_step2(1, "q"), Err(Error::BlockNotFound(1)));
    assert_eq!(store.insert_pie_proof(1, "p"), Err(Error::BlockNotFound(1)));
    assert_eq!(store.insert_bridge_proof(1, "p"), Err(Error::BlockNotFound(1)));
    assert_eq!(store.get_pie_proof(1), Err(Error::BlockNotFound(1)));
    assert_eq!(store.get_bridge_proof(1), Err(Error::BlockNotFound(1)));
}

#[test]
fn listing_is_in_block_order() {
    let mut store = JobStore::new();
    store.insert_block(30, "c", ProverStatus::PieSubmitted).unwrap();
    store.insert_block(10, "a", ProverStatus::PieSubmitted).unwrap();
    store.insert_block(20, "b", ProverStatus::PieProofGenerated).unwrap();
    let all: Vec<u32> = store.list_blocks().iter().map(|b| b.id).collect();
    assert_eq!(all, vec![10, 20, 30]);
    assert_eq!(ids(&store, ProverStatus::PieSubmitted), vec![10, 30]);
    assert_eq!(ids(&store, ProverStatus::PieProofGenerated), vec![20]);
    assert_eq!(ids(&store, ProverStatus::Completed), Vec::<u32>::new());
    assert_eq!(store.count_with_status(ProverStatus::PieSubmitted), 2);
}

#[test]
fn status_moves_along_edges_only() {
    let mut store = JobStore::new();
    store.insert_block(5, "q", ProverStatus::PieSubmitted).unwrap();
    assert_eq!(
        store.update_block_status(5, ProverStatus::Completed),
        Err(Error::InvalidTransition {
            block: 5,
            from: ProverStatus::PieSubmitted,
            to: ProverStatus::Completed
        })
    );
    assert_eq!(store.update_block_status(5, ProverStatus::PieProofGenerated), Ok(()));
    assert_eq!(store.update_block_status(5, ProverStatus::BridgeProofSubmited), Ok(()));
    assert_eq!(store.update_block_status(5, ProverStatus::Completed), Ok(()));
    assert_eq!(store.check_status(5).unwrap().status, ProverStatus::Completed);
}

#[test]
fn terminal_status_is_final() {
    let mut store = JobStore::new();
    store.insert_block(1, "a", ProverStatus::PieSubmitted).unwrap();
    store.insert_block(2, "b", ProverStatus::BridgeProofSubmited).unwrap();
    store.update_block_status(1, ProverStatus::Failed).unwrap();
    store.update_block_status(2, ProverStatus::Completed).unwrap();
    for to in [
        ProverStatus::PieSubmitted,
        ProverStatus::PieProofGenerated,
        ProverStatus::BridgeProofSubmited,
        ProverStatus::Completed,
        ProverStatus::Failed,
    ] {
        assert!(store.update_block_status(1, to).is_err());
        assert!(store.update_block_status(2, to).is_err());
    }
    assert_eq!(store.check_status(1).unwrap().status, ProverStatus::Failed);
    assert_eq!(store.check_status(2).unwrap().status, ProverStatus::Completed);
}

#[test]
fn query_id_step2_is_recorded() {
    let mut store = JobStore::new();
    store.insert_block(3, "first", ProverStatus::PieSubmitted).unwrap();
    store.update_query_id_step2(3, "second").unwrap();
    let b = store.check_status(3).unwrap();
    assert_eq!(b.query_id_step1, "first");
    assert_eq!(b.query_id_step2, "second");
}

#[test]
fn proofs_are_stored_per_block() {
    let mut store = JobStore::new();
    store.insert_block(3, "q", ProverStatus::PieSubmitted).unwrap();
    store.insert_block(4, "r", ProverStatus::PieSubmitted).unwrap();
    assert_eq!(store.get_pie_proof(3), Err(Error::ProofNotFound(3)));
    assert_eq!(store.get_bridge_proof(3), Err(Error::ProofNotFound(3)));
    store.insert_pie_proof(3, "pie-3").unwrap();
    store.insert_bridge_proof(3, "bridge-3").unwrap();
    store.insert_bridge_proof(4, "bridge-4").unwrap();
    assert_eq!(store.get_pie_proof(3).unwrap(), "pie-3");
    assert_eq!(store.get_bridge_proof(3).unwrap(), "bridge-3");
    assert_eq!(store.get_pie_proof(4), Err(Error::ProofNotFound(4)));
    assert_eq!(store.list_proof(), vec!["bridge-3".to_string(), "bridge-4".to_string()]);
    store.delete_proof(3);
    assert_eq!(store.get_pie_proof(3), Err(Error::ProofNotFound(3)));
    assert_eq!(store.get_bridge_proof(3), Err(Error::ProofNotFound(3)));
    assert_eq!(store.list_proof(), vec!["bridge-4".to_string()]);
    assert_eq!(store.check_status(3).unwrap().status, ProverStatus::PieSubmitted);
}

#[test]
fn default_builder() {
    let store = JobStore::default();
    assert!(store.list_blocks().is_empty());
    assert!(store.list_proof().is_empty());
    assert_eq!(store.count_with_status(ProverStatus::PieSubmitted), 0);
}
