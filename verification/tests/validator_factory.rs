use nanonode::amount::Amount;
use nanonode::auth::PrivateKey;
use nanonode::blocks::{BlockDetails, BlockSideband};
use nanonode::builders::{new_open_block, new_receive_block, new_send_block, new_state_block};
use nanonode::epoch::{Epoch, Epochs};
use nanonode::hashes::{Account, Hash256};
use nanonode::ledger::Ledger;
use nanonode::ledger_types::{AccountInfo, PendingInfo, PendingKey};
use nanonode::work::WorkThresholds;

fn empty_ledger() -> Ledger {
    let epochs = Epochs {
        epoch_1_link: Hash256::from_u64(901),
        epoch_2_link: Hash256::from_u64(902),
        signer: Hash256::from_u64(903),
    };
    Ledger::new(epochs, WorkThresholds::publish_dev())
}

fn sample_state_block(tag: u64) -> nanonode::blocks::BlockEnum {
    let key = PrivateKey::from(1000 + tag);
    new_state_block(
        key.public_key(),
        Hash256::from_u64(tag),
        Hash256::from_u64(tag + 1),
        Amount::raw(7),
        Hash256::from_u64(tag + 2),
        &key,
        tag,
    )
}

fn test_sideband(account: Account) -> BlockSideband {
    BlockSideband::new(
        account,
        Hash256::zero(),
        Amount::raw(5),
        1,
        2,
        BlockDetails::new(Epoch::Epoch0, false, true, false),
        Epoch::Epoch0,
    )
}

fn test_account_info() -> AccountInfo {
    AccountInfo {
        head: Hash256::from_u64(31),
        representative: Hash256::from_u64(32),
        open_block: Hash256::from_u64(33),
        balance: Amount::raw(42),
        modified: 1,
        block_count: 1,
        epoch: Epoch::Epoch0,
    }
}

#[test]
fn block_for_unknown_account() {
    let key = PrivateKey::from(2000);
    let block = new_state_block(
        key.public_key(),
        Hash256::zero(),
        key.public_key(),
        Amount::raw(7),
        Hash256::zero(),
        &key,
        1,
    );
    let ledger = empty_ledger();
    let validator = ledger.create_validator(&block, 5);

    assert_eq!(validator.block.hash(), block.hash());
    assert_eq!(validator.epochs, ledger.epochs);
    assert_eq!(validator.account, block.account_field().unwrap());
    assert_eq!(validator.block_exists, false);
    assert_eq!(validator.old_account_info, None);
    assert_eq!(validator.pending_receive_info, None);
    assert_eq!(validator.any_pending_exists, false);
    assert_eq!(validator.source_block_exists, false);
    assert_eq!(validator.previous_block, None);
    assert_eq!(validator.seconds_since_epoch, 5);
}

#[test]
fn get_account_from_previous_block() {
    let key = PrivateKey::from(2001);
    let mut previous = new_send_block(
        Hash256::from_u64(1),
        Hash256::from_u64(2),
        Amount::raw(3),
        &key,
        4,
    );
    previous.set_sideband(test_sideband(Account::from(1234)));
    let block = new_send_block(
        previous.hash(),
        Hash256::from_u64(5),
        Amount::raw(2),
        &key,
        6,
    );
    let mut ledger = empty_ledger();
    ledger.blocks.insert(previous.hash(), previous);
    let validator = ledger.create_validator(&block, 5);

    assert_eq!(validator.account, previous.account());
}

#[test]
fn block_exists() {
    let mut block = sample_state_block(10);
    block.set_sideband(test_sideband(Account::from(1)));
    let mut ledger = empty_ledger();
    ledger.blocks.insert(block.hash(), block);
    let validator = ledger.create_validator(&block, 5);
    assert_eq!(validator.block_exists, true);
}

#[test]
fn pruned_block_exists() {
    let block = sample_state_block(11);
    let mut ledger = empty_ledger();
    ledger.pruned.insert(block.hash(), true);
    let validator = ledger.create_validator(&block, 5);
    assert_eq!(validator.block_exists, true);
}

#[test]
fn account_info() {
    let block = sample_state_block(12);
    let account_info = test_account_info();
    let mut ledger = empty_ledger();
    ledger
        .accounts
        .insert(block.account_field().unwrap(), account_info);
    let validator = ledger.create_validator(&block, 5);
    assert_eq!(validator.old_account_info, Some(account_info));
}

#[test]
fn pending_receive_info_for_state_block() {
    let key = PrivateKey::from(2002);
    let block = new_state_block(
        key.public_key(),
        Hash256::from_u64(9),
        key.public_key(),
        Amount::raw(7),
        Hash256::from_u64(42),
        &key,
        1,
    );
    let pending_info = PendingInfo::new(Account::from(8), Amount::raw(3), Epoch::Epoch0);
    let mut ledger = empty_ledger();
    ledger.pending.insert(
        PendingKey::new(block.account_field().unwrap(), Hash256::from_u64(42)),
        pending_info,
    );
    let validator = ledger.create_validator(&block, 5);
    assert_eq!(validator.pending_receive_info, Some(pending_info));
}

#[test]
fn pending_receive_info_for_legacy_receive() {
    let account = Account::from(1111);
    let key = PrivateKey::from(2003);
    let mut previous = new_open_block(Hash256::from_u64(1), account, account, &key, 2);
    previous.set_sideband(test_sideband(account));
    let block = new_receive_block(previous.hash(), Hash256::from_u64(42), &key, 3);
    let pending_info = PendingInfo::new(Account::from(8), Amount::raw(3), Epoch::Epoch0);
    let mut ledger = empty_ledger();
    ledger.blocks.insert(previous.hash(), previous);
    ledger.pending.insert(
        PendingKey::new(account, Hash256::from_u64(42)),
        pending_info,
    );
    let validator = ledger.create_validator(&block, 5);
    assert_eq!(validator.pending_receive_info, Some(pending_info));
}

#[test]
fn any_pending_exists() {
    let block = sample_state_block(13);
    let pending_info = PendingInfo::new(Account::from(8), Amount::raw(3), Epoch::Epoch0);
    let mut ledger = empty_ledger();
    ledger.pending.insert(
        PendingKey::new(block.account_field().unwrap(), Hash256::from_u64(42)),
        pending_info,
    );
    let validator = ledger.create_validator(&block, 5);
    assert_eq!(validator.any_pending_exists, true);
}

#[test]
fn source_block_exists() {
    let mut source = sample_state_block(14);
    source.set_sideband(test_sideband(Account::from(1)));
    let key = PrivateKey::from(2004);
    let block = new_state_block(
        key.public_key(),
        Hash256::from_u64(9),
        key.public_key(),
        Amount::raw(7),
        source.hash(),
        &key,
        1,
    );
    let mut ledger = empty_ledger();
    ledger.blocks.insert(source.hash(), source);
    let validator = ledger.create_validator(&block, 5);
    assert_eq!(validator.source_block_exists, true);
}

#[test]
fn pruned_source_block_exists() {
    let key = PrivateKey::from(2005);
    let block = new_state_block(
        key.public_key(),
        Hash256::from_u64(9),
        key.public_key(),
        Amount::raw(7),
        Hash256::from_u64(42),
        &key,
        1,
    );
    let mut ledger = empty_ledger();
    ledger.pruned.insert(Hash256::from_u64(42), true);
    let validator = ledger.create_validator(&block, 5);
    assert_eq!(validator.source_block_exists, true);
}

#[test]
fn previous_block() {
    let mut previous = sample_state_block(15);
    previous.set_sideband(test_sideband(Account::from(1)));
    let key = PrivateKey::from(2006);
    let block = new_state_block(
        key.public_key(),
        previous.hash(),
        key.public_key(),
        Amount::raw(7),
        Hash256::zero(),
        &key,
        1,
    );
    let mut ledger = empty_ledger();
    ledger.blocks.insert(previous.hash(), previous);
    let validator = ledger.create_validator(&block, 5);
    assert_eq!(validator.previous_block, Some(previous));
}
