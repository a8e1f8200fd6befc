use nanonode::amount::Amount;
use nanonode::auth::PrivateKey;
use nanonode::builders::new_state_block;
use nanonode::epoch::{Epoch, Epochs};
use nanonode::hashes::Hash256;
use nanonode::ledger::Ledger;
use nanonode::ledger_types::{PendingKey, ProcessError};
use nanonode::work::{generate_work, work_base, WorkThresholds};

fn dev_epochs() -> Epochs {
    Epochs {
        epoch_1_link: Hash256::from_u64(901),
        epoch_2_link: Hash256::from_u64(902),
        signer: Hash256::from_u64(903),
    }
}

fn ledger_with_genesis() -> (Ledger, PrivateKey, Hash256) {
    let mut ledger = Ledger::new(dev_epochs(), WorkThresholds::publish_dev());
    let genesis_key = PrivateKey::from(100);
    let genesis_hash = ledger.init_genesis(&genesis_key, 1);
    (ledger, genesis_key, genesis_hash)
}

fn genesis_send(
    ledger: &mut Ledger,
    genesis_key: &PrivateKey,
    genesis_hash: Hash256,
    dest: Hash256,
) -> Hash256 {
    let g = genesis_key.public_key();
    let send = new_state_block(
        g,
        genesis_hash,
        g,
        Amount::raw(u128::MAX - 1000),
        dest,
        genesis_key,
        generate_work(&genesis_hash, 0),
    );
    ledger.process(&send, 2).unwrap()
}

#[test]
fn process_rejects_a_stored_block() {
    let (mut ledger, genesis_key, genesis_hash) = ledger_with_genesis();
    let dest = PrivateKey::from(200).public_key();
    let g = genesis_key.public_key();
    let send = new_state_block(
        g,
        genesis_hash,
        g,
        Amount::raw(u128::MAX - 1000),
        dest,
        &genesis_key,
        generate_work(&genesis_hash, 0),
    );
    ledger.process(&send, 2).unwrap();
    assert_eq!(ledger.process(&send, 3), Err(ProcessError::BlockExists));
}

#[test]
fn process_rejects_a_bad_signature() {
    let (mut ledger, genesis_key, genesis_hash) = ledger_with_genesis();
    let g = genesis_key.public_key();
    let wrong_key = PrivateKey::from(555);
    let block = new_state_block(
        g,
        genesis_hash,
        g,
        Amount::raw(u128::MAX - 1000),
        PrivateKey::from(200).public_key(),
        &wrong_key,
        generate_work(&genesis_hash, 0),
    );
    assert_eq!(ledger.process(&block, 2), Err(ProcessError::BadSignature));
}

#[test]
fn process_rejects_insufficient_work() {
    let (mut ledger, genesis_key, genesis_hash) = ledger_with_genesis();
    let g = genesis_key.public_key();
    // this nonce gives the lowest possible work value
    let bad_nonce = work_base(&genesis_hash);
    let block = new_state_block(
        g,
        genesis_hash,
        g,
        Amount::raw(u128::MAX - 1000),
        PrivateKey::from(200).public_key(),
        &genesis_key,
        bad_nonce,
    );
    assert_eq!(
        ledger.process(&block, 2),
        Err(ProcessError::WorkInsufficient)
    );
}

#[test]
fn process_rejects_a_missing_previous() {
    let (mut ledger, genesis_key, _genesis_hash) = ledger_with_genesis();
    let g = genesis_key.public_key();
    let missing = Hash256::from_u64(777);
    let block = new_state_block(
        g,
        missing,
        g,
        Amount::raw(u128::MAX - 1000),
        PrivateKey::from(200).public_key(),
        &genesis_key,
        generate_work(&missing, 0),
    );
    assert_eq!(ledger.process(&block, 2), Err(ProcessError::GapPrevious));
}

#[test]
fn process_rejects_a_missing_source() {
    let (mut ledger, _genesis_key, _genesis_hash) = ledger_with_genesis();
    let c_key = PrivateKey::from(400);
    let c = c_key.public_key();
    let missing_send = Hash256::from_u64(888);
    let open = new_state_block(
        c,
        Hash256::zero(),
        c,
        Amount::raw(5),
        missing_send,
        &c_key,
        generate_work(&c, 0),
    );
    assert_eq!(ledger.process(&open, 2), Err(ProcessError::GapSource));
}

#[test]
fn process_rejects_an_unreceivable_source() {
    let (mut ledger, genesis_key, genesis_hash) = ledger_with_genesis();
    let a = PrivateKey::from(200).public_key();
    let send_hash = genesis_send(&mut ledger, &genesis_key, genesis_hash, a);
    // the send is addressed to A; C cannot receive it
    let c_key = PrivateKey::from(400);
    let c = c_key.public_key();
    let open = new_state_block(
        c,
        Hash256::zero(),
        c,
        Amount::raw(1000),
        send_hash,
        &c_key,
        generate_work(&c, 0),
    );
    assert_eq!(ledger.process(&open, 3), Err(ProcessError::Unreceivable));
}

#[test]
fn process_rejects_a_wrong_receive_amount() {
    let (mut ledger, genesis_key, genesis_hash) = ledger_with_genesis();
    let a_key = PrivateKey::from(200);
    let a = a_key.public_key();
    let send_hash = genesis_send(&mut ledger, &genesis_key, genesis_hash, a);
    let open = new_state_block(
        a,
        Hash256::zero(),
        a,
        Amount::raw(999),
        send_hash,
        &a_key,
        generate_work(&a, 0),
    );
    assert_eq!(ledger.process(&open, 3), Err(ProcessError::BalanceMismatch));
    assert!(ledger.pending_info(&PendingKey::new(a, send_hash)).is_some());
}

#[test]
fn process_rejects_a_change_keeping_the_representative() {
    let (mut ledger, genesis_key, genesis_hash) = ledger_with_genesis();
    let g = genesis_key.public_key();
    let change = new_state_block(
        g,
        genesis_hash,
        g,
        Amount::raw(u128::MAX),
        Hash256::zero(),
        &genesis_key,
        generate_work(&genesis_hash, 0),
    );
    assert_eq!(
        ledger.process(&change, 2),
        Err(ProcessError::RepresentativeMismatch)
    );
}

#[test]
fn process_rejects_a_skipped_epoch() {
    let (mut ledger, genesis_key, genesis_hash) = ledger_with_genesis();
    let g = genesis_key.public_key();
    // the account is at epoch 0; linking the epoch-2 marker skips one
    let epoch_block = new_state_block(
        g,
        genesis_hash,
        g,
        Amount::raw(u128::MAX),
        Hash256::from_u64(902),
        &genesis_key,
        generate_work(&genesis_hash, 0),
    );
    assert_eq!(
        ledger.process(&epoch_block, 2),
        Err(ProcessError::EpochInvalid)
    );
}

#[test]
fn process_applies_an_epoch_upgrade() {
    let (mut ledger, genesis_key, genesis_hash) = ledger_with_genesis();
    let g = genesis_key.public_key();
    let epoch_block = new_state_block(
        g,
        genesis_hash,
        g,
        Amount::raw(u128::MAX),
        Hash256::from_u64(901),
        &genesis_key,
        generate_work(&genesis_hash, 0),
    );
    let hash = ledger.process(&epoch_block, 2).unwrap();
    let info = ledger.account_info(&g).unwrap();
    assert_eq!(info.epoch, Epoch::Epoch1);
    assert_eq!(info.head, hash);
    assert_eq!(info.balance, Amount::raw(u128::MAX));
}
