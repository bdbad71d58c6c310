use eth_indexer::reward::ExecutionBlock;
use eth_indexer::reward::FeeScheme;
use eth_indexer::reward::RewardError;
use eth_indexer::reward::Transaction;
use eth_indexer::reward::TransactionReceipt;
use eth_indexer::reward::compute_vanilla_reward;
use eth_indexer::reward::effective_gas_price;
use eth_indexer::reward::sum_and_saturate;
use eth_indexer::reward::tip_for_transaction;
use eth_indexer::block_reward::get_vanila_reward;

fn tx(scheme: FeeScheme, hash: Vec<u8>, gas_price: u128, max_fee: u128, max_prio: u128) -> Transaction {
    Transaction {
        hash,
        scheme,
        gas_price,
        max_fee_per_gas: max_fee,
        max_priority_fee_per_gas: max_prio,
    }
}

#[test]
fn saturating_sum_below_cap() {
    assert_eq!(sum_and_saturate(3, 4, 10), 7);
}

#[test]
fn saturating_sum_at_cap() {
    assert_eq!(sum_and_saturate(3, 7, 10), 10);
}

#[test]
fn saturating_sum_above_cap() {
    assert_eq!(sum_and_saturate(8, 7, 10), 10);
}

#[test]
fn saturating_sum_machine_overflow() {
    assert_eq!(sum_and_saturate(u128::MAX, 1, u128::MAX), u128::MAX);
}

#[test]
fn legacy_tip_is_gas_price_times_gas() {
    let t = tx(FeeScheme::Legacy, vec![1], 7, 0, 0);
    assert_eq!(tip_for_transaction(&t, 5, 3), Ok(21));
}

#[test]
fn access_list_tip_is_gas_price_times_gas() {
    let t = tx(FeeScheme::AccessList, vec![1], 7, 0, 0);
    assert_eq!(tip_for_transaction(&t, 5, 3), Ok(21));
}

#[test]
fn unknown_tip_is_gas_price_times_gas() {
    let t = tx(FeeScheme::Unknown, vec![1], 9, 0, 0);
    assert_eq!(tip_for_transaction(&t, 5, 4), Ok(36));
}

#[test]
fn dynamic_fee_tip_unsaturated() {
    // min(3 + 5, 10) = 8, times 2 units of gas
    let t = tx(FeeScheme::DynamicFee, vec![1], 0, 10, 3);
    assert_eq!(effective_gas_price(&t, 5), 8);
    assert_eq!(tip_for_transaction(&t, 5, 2), Ok(16));
}

#[test]
fn dynamic_fee_tip_saturates_at_fee_cap() {
    // min(6 + 5, 7) = 7: the cap holds, tip stays at cap * gas
    let t = tx(FeeScheme::DynamicFee, vec![1], 0, 7, 6);
    assert_eq!(effective_gas_price(&t, 5), 7);
    let tip = tip_for_transaction(&t, 5, 2).unwrap();
    assert_eq!(tip, 14);
    assert!(tip <= t.max_fee_per_gas * 2);
}

#[test]
fn tip_overflow_is_reported() {
    let t = tx(FeeScheme::Legacy, vec![1], u128::MAX, 0, 0);
    assert_eq!(tip_for_transaction(&t, 5, 2), Err(RewardError::Overflow));
}

fn block_of(base_fee: u128, gas_used: u128, txs: Vec<Transaction>) -> ExecutionBlock {
    ExecutionBlock {
        block_number: 7,
        base_fee_per_gas: base_fee,
        gas_used,
        fee_recipient: vec![0xab, 0x01],
        transactions: txs,
    }
}

#[test]
fn vanilla_reward_mixed_schemes() {
    // legacy: 7 * 3 = 21; dynamic: min(3 + 5, 10) * 2 = 16; burn: 5 * 5 = 25
    let b = block_of(
        5,
        5,
        vec![
            tx(FeeScheme::Legacy, vec![1], 7, 0, 0),
            tx(FeeScheme::DynamicFee, vec![2], 0, 10, 3),
        ],
    );
    let receipts = vec![
        TransactionReceipt { transaction_hash: vec![1], gas_used: 3 },
        TransactionReceipt { transaction_hash: vec![2], gas_used: 2 },
    ];
    assert_eq!(compute_vanilla_reward(&b, &receipts), Ok(21 + 16 - 25));
}

#[test]
fn empty_block_burn_is_reported_not_negative() {
    // no transactions, so no tips; a positive burn cannot be subtracted
    let b = block_of(5, 2, vec![]);
    assert_eq!(
        compute_vanilla_reward(&b, &vec![]),
        Err(RewardError::BurnExceedsTips { total_tips: 0, burnt: 10 })
    );
}

#[test]
fn empty_block_zero_burn_is_zero() {
    let b = block_of(0, 2, vec![]);
    assert_eq!(compute_vanilla_reward(&b, &vec![]), Ok(0));
}

#[test]
fn receipt_count_mismatch_is_fatal() {
    let b = block_of(5, 5, vec![tx(FeeScheme::Legacy, vec![1], 7, 0, 0)]);
    assert_eq!(
        compute_vanilla_reward(&b, &vec![]),
        Err(RewardError::ReceiptCountMismatch { transactions: 1, receipts: 0 })
    );
}

#[test]
fn hash_mismatch_is_fatal_at_first_bad_index() {
    let b = block_of(
        5,
        5,
        vec![
            tx(FeeScheme::Legacy, vec![1], 7, 0, 0),
            tx(FeeScheme::Legacy, vec![2], 7, 0, 0),
            tx(FeeScheme::Legacy, vec![3], 7, 0, 0),
        ],
    );
    let receipts = vec![
        TransactionReceipt { transaction_hash: vec![1], gas_used: 1 },
        TransactionReceipt { transaction_hash: vec![9], gas_used: 1 },
        TransactionReceipt { transaction_hash: vec![8], gas_used: 1 },
    ];
    assert_eq!(
        compute_vanilla_reward(&b, &receipts),
        Err(RewardError::HashMismatch { index: 1 })
    );
}

#[test]
fn burn_overflow_is_reported() {
    let b = block_of(u128::MAX, 2, vec![]);
    assert_eq!(compute_vanilla_reward(&b, &vec![]), Err(RewardError::Overflow));
}

#[test]
fn tips_sum_overflow_is_reported() {
    let b = block_of(
        0,
        0,
        vec![
            tx(FeeScheme::Legacy, vec![1], u128::MAX, 0, 0),
            tx(FeeScheme::Legacy, vec![2], u128::MAX, 0, 0),
        ],
    );
    let receipts = vec![
        TransactionReceipt { transaction_hash: vec![1], gas_used: 1 },
        TransactionReceipt { transaction_hash: vec![2], gas_used: 1 },
    ];
    assert_eq!(compute_vanilla_reward(&b, &receipts), Err(RewardError::Overflow));
}

#[test]
fn recomputation_is_idempotent() {
    let b = block_of(
        5,
        5,
        vec![
            tx(FeeScheme::Legacy, vec![1], 7, 0, 0),
            tx(FeeScheme::DynamicFee, vec![2], 0, 10, 3),
        ],
    );
    let receipts = vec![
        TransactionReceipt { transaction_hash: vec![1], gas_used: 3 },
        TransactionReceipt { transaction_hash: vec![2], gas_used: 2 },
    ];
    let first = compute_vanilla_reward(&b, &receipts);
    let second = compute_vanilla_reward(&b, &receipts);
    assert_eq!(first, second);
    let rendered_first = get_vanila_reward(&b, &receipts).unwrap();
    let rendered_second = get_vanila_reward(&b, &receipts).unwrap();
    assert_eq!(rendered_first, rendered_second);
}

#[test]
fn rendered_reward_and_recipient() {
    let b = block_of(5, 5, vec![tx(FeeScheme::Legacy, vec![1], 7, 0, 0)]);
    let receipts = vec![TransactionReceipt { transaction_hash: vec![1], gas_used: 5 }];
    // tips 35, burn 25, reward 10; recipient bytes ab01
    let (reward, recipient) = get_vanila_reward(&b, &receipts).unwrap();
    assert_eq!(reward, "10");
    assert_eq!(recipient, "0xab01");
}
