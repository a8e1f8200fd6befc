use nanonode::amount::Amount;
use nanonode::builders::{BlockBuilder, BlockChainBuilder, LegacyChangeBlockBuilder};
use nanonode::hashes::Hash256;
use nanonode::blocks::BlockType;
use nanonode::hashes::Account;

#[test]
fn default_account() {
    let builder = BlockChainBuilder::new();
    assert_eq!(builder.account(), Account::from(42));
}

#[test]
fn add_legacy_open() {
    let builder = BlockChainBuilder::for_account(Account::from(1)).legacy_open();
    let block = builder.latest_block();
    assert_eq!(block.account(), Account::from(1));
    assert_eq!(block.block_type(), BlockType::LegacyOpen);
    assert_eq!(block.sideband().unwrap().height, 1);
    assert_eq!(builder.frontier(), block.hash());
    assert_eq!(builder.height(), 1);
}

#[test]
fn take_blocks() {
    let mut builder = BlockChainBuilder::for_account(Account::from(1))
        .legacy_open()
        .legacy_send();
    let blocks = builder.take_blocks();
    assert_eq!(blocks.len(), 2);
    assert_eq!(builder.blocks().len(), 0);
    assert_eq!(builder.height(), 2);
    assert_eq!(builder.frontier(), blocks[1].hash());
}

#[test]
fn legacy_send_with_adjusts_the_block() {
    let builder = BlockChainBuilder::for_account(Account::from(7))
        .legacy_open()
        .legacy_send_with(|b| b.balance(Amount::raw(55)));
    let block = builder.latest_block();
    assert_eq!(block.balance_opt(), Some(Amount::raw(55)));
}

#[test]
fn from_send_block_opens_the_destination() {
    let send = BlockBuilder::legacy_send()
        .destination(Account::from(9))
        .build();
    let chain = BlockChainBuilder::from_send_block(&send);
    assert_eq!(chain.account(), Account::from(9));
    assert_eq!(chain.height(), 1);
}

#[test]
fn legacy_change_builder_builds_a_change_block() {
    let block = LegacyChangeBlockBuilder::new()
        .previous(Hash256::from_u64(3))
        .representative(Hash256::from_u64(4))
        .work(77)
        .build();
    assert_eq!(block.block_type(), BlockType::LegacyChange);
    assert_eq!(block.previous(), Hash256::from_u64(3));
    assert_eq!(block.work(), 77);
    assert!(block.sideband().is_none());
}

#[test]
fn legacy_change_builder_with_sideband() {
    let block = LegacyChangeBlockBuilder::new().with_sideband().build();
    let sideband = block.sideband().unwrap();
    assert_eq!(sideband.height, 1);
    assert_eq!(sideband.account, Account::from(42));
}
