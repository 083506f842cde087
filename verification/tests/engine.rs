use test_engine::engine::EngineInterface;
use test_engine::identifier::Identifier;

#[test]
fn session_genesis_settings() {
    let engine = EngineInterface::new();
    assert_eq!(engine.genesis.initial_epoch, 1);
    assert!(!engine.genesis.kernel_trace);
}

#[test]
fn account_creation_is_not_preallocated() {
    let engine = EngineInterface::new();
    assert!(!engine.new_account().preallocated);
}

#[test]
fn package_publication_shape() {
    let engine = EngineInterface::new();
    let publication = engine.publish_compiled_package(vec![1u8, 2, 3]);
    assert_eq!(publication.code, vec![1u8, 2, 3]);
    assert!(publication.lock_fee_from_faucet);
    assert!(publication.owner_none);
    assert!(!publication.with_extra_metadata);
}

#[test]
fn manifest_execution_carries_nonce_and_trace() {
    let engine = EngineInterface::new();
    let execution = engine.execute_manifest(7, true);
    assert_eq!(execution.nonce, 7);
    assert!(execution.kernel_trace);
    let quiet = engine.execute_manifest(8, false);
    assert_eq!(quiet.nonce, 8);
    assert!(!quiet.kernel_trace);
}

#[test]
fn nft_ids_without_vault_is_empty() {
    let engine = EngineInterface::new();
    assert!(engine.nft_ids(false, None).is_empty());
    let ids = vec![Identifier::integer(1)];
    assert!(engine.nft_ids(false, Some(ids)).is_empty());
}

#[test]
fn nft_ids_without_inspection_is_empty() {
    let engine = EngineInterface::new();
    assert!(engine.nft_ids(true, None).is_empty());
}

#[test]
fn nft_ids_returns_inspected_ids() {
    let engine = EngineInterface::new();
    let ids = vec![Identifier::integer(1), Identifier::integer(2)];
    assert_eq!(engine.nft_ids(true, Some(ids.clone())), ids);
}

#[test]
fn fungible_creation_divisibility() {
    let engine = EngineInterface::new();
    assert_eq!(engine.new_fungible().divisibility, 18);
}

#[test]
fn advance_time_computes_target_timestamp() {
    let engine = EngineInterface::new();
    let advance = engine.advance_time(5, 10).unwrap();
    assert_eq!(advance.round, 1);
    assert_eq!(advance.proposer_timestamp_ms, 15_000);
    let from_negative = engine.advance_time(-20, 5).unwrap();
    assert_eq!(from_negative.proposer_timestamp_ms, -15_000);
}

#[test]
fn advance_time_rejects_overflow() {
    let engine = EngineInterface::new();
    assert!(engine.advance_time(i64::MAX, 0).is_none());
    assert!(engine.advance_time(0, u64::MAX).is_none());
}

#[test]
fn pre_allocated_token_plan() {
    let engine = EngineInterface::new();
    let plan = engine.create_pre_allocated_token();
    assert_eq!(plan.divisibility, 18);
    assert!(!plan.track_total_supply);
    assert!(plan.owner_none);
    assert_eq!(plan.reservation_index, 0);
    assert_eq!(plan.deposit_method, "deposit_batch");
    assert!(plan.deposit_entire_worktop);
}
