use nanonode::amount::Amount;
use nanonode::auth::PrivateKey;
use nanonode::builders::{new_open_block, new_send_block, new_state_block};
use nanonode::epoch::{Epoch, Epochs};
use nanonode::hashes::Hash256;
use nanonode::ledger::Ledger;
use nanonode::ledger_types::{ConfirmationHeightInfo, PendingKey, ProcessError, RollbackError};
use nanonode::work::{generate_work, WorkThresholds};

fn dev_epochs() -> Epochs {
    Epochs {
        epoch_1_link: Hash256::from_u64(901),
        epoch_2_link: Hash256::from_u64(902),
        signer: Hash256::from_u64(903),
    }
}

fn ledger_with_genesis() -> (Ledger, PrivateKey, Hash256) {
    let mut ledger = Ledger::new(dev_epochs(), WorkThresholds::publish_dev());
    let genesis_key = PrivateKey::from(100);
    let genesis_hash = ledger.init_genesis(&genesis_key, 1);
    (ledger, genesis_key, genesis_hash)
}

#[test]
fn genesis_open_send_receive() {
    let (mut ledger, genesis_key, genesis_hash) = ledger_with_genesis();
    let g = genesis_key.public_key();
    let a_key = PrivateKey::from(200);
    let a = a_key.public_key();

    // send 1000 raw from the genesis account to A
    let send = new_state_block(
        g,
        genesis_hash,
        g,
        Amount::raw(u128::MAX - 1000),
        a,
        &genesis_key,
        generate_work(&genesis_hash, 0),
    );
    let send_hash = ledger.process(&send, 2).unwrap();
    assert_eq!(
        ledger.account_info(&g).unwrap().balance,
        Amount::raw(u128::MAX - 1000)
    );
    let pending = ledger.pending_info(&PendingKey::new(a, send_hash)).unwrap();
    assert_eq!(pending.source, g);
    assert_eq!(pending.amount, Amount::raw(1000));
    assert_eq!(pending.epoch, Epoch::Epoch0);

    // open A with the send as its source
    let open = new_state_block(
        a,
        Hash256::zero(),
        a,
        Amount::raw(1000),
        send_hash,
        &a_key,
        generate_work(&a, 0),
    );
    let open_hash = ledger.process(&open, 3).unwrap();
    assert!(ledger.pending_info(&PendingKey::new(a, send_hash)).is_none());
    let info = ledger.account_info(&a).unwrap();
    assert_eq!(info.head, open_hash);
    assert_eq!(info.balance, Amount::raw(1000));
    assert_eq!(info.block_count, 1);
    assert_eq!(ledger.weight(&a), Amount::raw(1000));
}

#[test]
fn fork_rejection() {
    let (mut ledger, genesis_key, genesis_hash) = ledger_with_genesis();
    let g = genesis_key.public_key();
    let first_dest = PrivateKey::from(210).public_key();
    let second_dest = PrivateKey::from(211).public_key();

    let first = new_state_block(
        g,
        genesis_hash,
        g,
        Amount::raw(u128::MAX - 1000),
        first_dest,
        &genesis_key,
        generate_work(&genesis_hash, 0),
    );
    ledger.process(&first, 2).unwrap();
    let balance_after_first = ledger.account_info(&g).unwrap().balance;
    let count_after_first = ledger.block_count;

    // a second send reusing the same previous must be a fork
    let second = new_state_block(
        g,
        genesis_hash,
        g,
        Amount::raw(u128::MAX - 2000),
        second_dest,
        &genesis_key,
        generate_work(&genesis_hash, 0),
    );
    assert_eq!(ledger.process(&second, 3), Err(ProcessError::Fork));
    assert_eq!(ledger.account_info(&g).unwrap().balance, balance_after_first);
    assert_eq!(ledger.block_count, count_after_first);
}

#[test]
fn rollback_cascade() {
    let (mut ledger, genesis_key, genesis_hash) = ledger_with_genesis();
    let g = genesis_key.public_key();
    let a_key = PrivateKey::from(200);
    let a = a_key.public_key();
    let b_key = PrivateKey::from(300);
    let b = b_key.public_key();

    let send = new_state_block(
        g,
        genesis_hash,
        g,
        Amount::raw(u128::MAX - 1000),
        a,
        &genesis_key,
        generate_work(&genesis_hash, 0),
    );
    let send_hash = ledger.process(&send, 2).unwrap();
    let open_a = new_state_block(
        a,
        Hash256::zero(),
        a,
        Amount::raw(1000),
        send_hash,
        &a_key,
        generate_work(&a, 0),
    );
    let open_a_hash = ledger.process(&open_a, 3).unwrap();

    // A sends 400 to B, and B receives it in its open block
    let a_send = new_state_block(
        a,
        open_a_hash,
        a,
        Amount::raw(600),
        b,
        &a_key,
        generate_work(&open_a_hash, 0),
    );
    let a_send_hash = ledger.process(&a_send, 4).unwrap();
    let open_b = new_state_block(
        b,
        Hash256::zero(),
        b,
        Amount::raw(400),
        a_send_hash,
        &b_key,
        generate_work(&b, 0),
    );
    let open_b_hash = ledger.process(&open_b, 5).unwrap();
    let count_before = ledger.block_count;

    // rolling back A's send first undoes B's open
    let rolled = ledger.rollback(&a_send_hash, 6).unwrap();
    assert_eq!(rolled.len(), 2);
    assert_eq!(rolled[0].hash(), open_b_hash);
    assert_eq!(rolled[1].hash(), a_send_hash);
    assert_eq!(ledger.account_info(&a).unwrap().balance, Amount::raw(1000));
    assert!(ledger.account_info(&b).is_none());
    assert!(ledger
        .pending_info(&PendingKey::new(b, a_send_hash))
        .is_none());
    assert_eq!(ledger.block_count, count_before - 2);
}

#[test]
fn confirmed_block_cannot_be_rolled_back() {
    let (mut ledger, genesis_key, genesis_hash) = ledger_with_genesis();
    let g = genesis_key.public_key();
    let a_key = PrivateKey::from(200);
    let a = a_key.public_key();

    let send = new_state_block(
        g,
        genesis_hash,
        g,
        Amount::raw(u128::MAX - 1000),
        a,
        &genesis_key,
        generate_work(&genesis_hash, 0),
    );
    let send_hash = ledger.process(&send, 2).unwrap();
    let open_a = new_state_block(
        a,
        Hash256::zero(),
        a,
        Amount::raw(1000),
        send_hash,
        &a_key,
        generate_work(&a, 0),
    );
    let open_a_hash = ledger.process(&open_a, 3).unwrap();

    ledger.set_confirmation_height(a, ConfirmationHeightInfo::new(1, open_a_hash));
    let count_before = ledger.block_count;
    assert_eq!(
        ledger.rollback(&open_a_hash, 4),
        Err(RollbackError::AlreadyConfirmed)
    );
    assert_eq!(ledger.block_count, count_before);
    assert_eq!(ledger.account_info(&a).unwrap().balance, Amount::raw(1000));
    assert!(ledger.get_block(&open_a_hash).is_some());
}

#[test]
fn rollback_inverts_a_processed_send() {
    let (mut ledger, genesis_key, genesis_hash) = ledger_with_genesis();
    let g = genesis_key.public_key();
    let a_key = PrivateKey::from(200);
    let a = a_key.public_key();
    let b = PrivateKey::from(300).public_key();

    let send = new_state_block(
        g,
        genesis_hash,
        g,
        Amount::raw(u128::MAX - 1000),
        a,
        &genesis_key,
        generate_work(&genesis_hash, 0),
    );
    let send_hash = ledger.process(&send, 2).unwrap();
    let open_a = new_state_block(
        a,
        Hash256::zero(),
        a,
        Amount::raw(1000),
        send_hash,
        &a_key,
        generate_work(&a, 0),
    );
    let open_a_hash = ledger.process(&open_a, 3).unwrap();

    let info_before = ledger.account_info(&a).unwrap();
    let weight_before = ledger.weight(&a);
    let count_before = ledger.block_count;

    // process an unreceived send and roll it straight back, with the same
    // timestamp the account record held before
    let a_send = new_state_block(
        a,
        open_a_hash,
        a,
        Amount::raw(600),
        b,
        &a_key,
        generate_work(&open_a_hash, 0),
    );
    let a_send_hash = ledger.process(&a_send, 4).unwrap();
    let rolled = ledger.rollback(&a_send_hash, 3).unwrap();
    assert_eq!(rolled.len(), 1);

    assert_eq!(ledger.account_info(&a).unwrap(), info_before);
    assert_eq!(ledger.weight(&a), weight_before);
    assert_eq!(ledger.block_count, count_before);
    assert!(ledger.get_block(&a_send_hash).is_none());
    assert!(ledger
        .pending_info(&PendingKey::new(b, a_send_hash))
        .is_none());
}

#[test]
fn legacy_chain_keeps_frontier_and_successor_coherent() {
    let (mut ledger, genesis_key, genesis_hash) = ledger_with_genesis();
    let g = genesis_key.public_key();
    let l_key = PrivateKey::from(500);
    let l = l_key.public_key();

    let send = new_state_block(
        g,
        genesis_hash,
        g,
        Amount::raw(u128::MAX - 1000),
        l,
        &genesis_key,
        generate_work(&genesis_hash, 0),
    );
    let send_hash = ledger.process(&send, 2).unwrap();

    // a legacy open indexes its hash in the frontier table
    let open = new_open_block(send_hash, l, l, &l_key, generate_work(&l, 0));
    let open_hash = ledger.process(&open, 3).unwrap();
    assert_eq!(ledger.frontiers.get(&open_hash), Some(l));
    assert_eq!(ledger.account_info(&l).unwrap().balance, Amount::raw(1000));

    // a legacy send moves the frontier entry and links the successor
    let d = PrivateKey::from(600).public_key();
    let legacy_send = new_send_block(
        open_hash,
        d,
        Amount::raw(400),
        &l_key,
        generate_work(&open_hash, 0),
    );
    let legacy_send_hash = ledger.process(&legacy_send, 4).unwrap();
    assert_eq!(ledger.frontiers.get(&open_hash), None);
    assert_eq!(ledger.frontiers.get(&legacy_send_hash), Some(l));
    let stored_open = ledger.get_block(&open_hash).unwrap();
    assert_eq!(stored_open.sideband_field().successor, legacy_send_hash);
    // the head block itself has no successor and carries its account
    let stored_head = ledger.get_block(&legacy_send_hash).unwrap();
    assert!(stored_head.sideband_field().successor.is_zero());
    assert_eq!(stored_head.sideband_field().account, l);
    assert_eq!(
        ledger.pending_info(&PendingKey::new(d, legacy_send_hash)).unwrap().amount,
        Amount::raw(600)
    );

    // rolling the send back restores both indices
    ledger.rollback(&legacy_send_hash, 5).unwrap();
    assert_eq!(ledger.frontiers.get(&open_hash), Some(l));
    assert_eq!(ledger.frontiers.get(&legacy_send_hash), None);
    let restored_open = ledger.get_block(&open_hash).unwrap();
    assert!(restored_open.sideband_field().successor.is_zero());
}
