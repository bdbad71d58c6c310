use eth_indexer::block_reward::BlockReward;
use eth_indexer::schedule::chunk_of;
use eth_indexer::schedule::sort_by_block_number;
use eth_indexer::text::format_address;
use eth_indexer::text::u128_to_dec_string;

fn record(height: u64) -> BlockReward {
    BlockReward {
        block_number: height,
        proposer_reward: u128_to_dec_string(height as u128),
        fee_recipient: String::from("0xab"),
        mev_reward: String::new(),
        relay_responses: vec![],
    }
}

#[test]
fn chunks_cover_the_range_in_order() {
    assert_eq!(chunk_of(100, 104, 2), vec![100, 101]);
    assert_eq!(chunk_of(102, 104, 2), vec![102, 103]);
    assert_eq!(chunk_of(104, 104, 2), vec![104]);
}

#[test]
fn chunk_is_bounded_by_the_remaining_range() {
    assert_eq!(chunk_of(7, 8, 5), vec![7, 8]);
    assert_eq!(chunk_of(7, 7, 1), vec![7]);
}

#[test]
fn emission_is_ascending_whatever_completed_first() {
    // heights 100..=104 under concurrency limit 2: three batches, each
    // completing out of order, still emit 5 records in ascending order
    let mut emitted: Vec<u64> = Vec::new();
    let completions: Vec<Vec<BlockReward>> = vec![
        vec![record(101), record(100)],
        vec![record(103), record(102)],
        vec![record(104)],
    ];
    for batch in completions {
        for r in sort_by_block_number(batch) {
            emitted.push(r.block_number);
        }
    }
    assert_eq!(emitted, vec![100, 101, 102, 103, 104]);
}

#[test]
fn sorting_keeps_every_record() {
    let sorted = sort_by_block_number(vec![record(3), record(1), record(2), record(1)]);
    let heights: Vec<u64> = sorted.iter().map(|r| r.block_number).collect();
    assert_eq!(heights, vec![1, 1, 2, 3]);
    assert_eq!(sorted[0].proposer_reward, "1");
    assert_eq!(sorted[3].proposer_reward, "3");
}

#[test]
fn decimal_rendering_is_exact() {
    assert_eq!(u128_to_dec_string(0), "0");
    assert_eq!(u128_to_dec_string(7), "7");
    assert_eq!(u128_to_dec_string(105), "105");
    assert_eq!(u128_to_dec_string(340282366920938463463374607431768211455), format!("{}", u128::MAX));
}

#[test]
fn address_rendering_is_lowercase_hex() {
    assert_eq!(format_address(&vec![]), "0x");
    assert_eq!(format_address(&vec![0x00, 0x0f, 0xff]), "0x000fff");
    assert_eq!(format_address(&vec![0xab, 0x01]), "0xab01");
}
