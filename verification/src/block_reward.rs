//! Assembling one per-block reward record from the vanilla reward
//! computation and the collected relay responses.

use vstd::prelude::*;
use crate::relay::RelayResponse;
use crate::reward::ExecutionBlock;
use crate::reward::RewardError;
use crate::reward::TransactionReceipt;
use crate::reward::compute_vanilla_reward;
use crate::reward::vanilla_reward_contract;
use crate::text::addr_str_of;
use crate::text::dec_str_of;
use crate::text::format_address;
use crate::text::u128_to_dec_string;

verus! {

/// The terminal record for one block: the proposer's vanilla reward and
/// fee recipient, the value the first-collected relay reported (empty when
/// no relay delivered a payload), and every relay response verbatim.
pub struct BlockReward {
    pub block_number: u64,
    pub proposer_reward: String,
    pub fee_recipient: String,
    pub mev_reward: String,
    pub relay_responses: Vec<RelayResponse>,
}

/// The vanilla proposer reward rendered for reporting: the reward as a
/// decimal string and the fee recipient as a `0x`-prefixed hex address.
pub fn get_vanila_reward(block: &ExecutionBlock, receipts: &Vec<TransactionReceipt>) -> (r: Result<
    (String, String),
    RewardError,
>)
    ensures
        r matches Ok(p) ==> (exists|v: u128|
            {
                &&& #[trigger] vanilla_reward_contract(
                    block.transactions@,
                    receipts@,
                    block.base_fee_per_gas as int,
                    block.gas_used as int,
                    Ok(v),
                )
                &&& p.0@ == dec_str_of(v as nat)
            }) && p.1@ == addr_str_of(block.fee_recipient@),
        r matches Err(e) ==> vanilla_reward_contract(
            block.transactions@,
            receipts@,
            block.base_fee_per_gas as int,
            block.gas_used as int,
            Err(e),
        ),
{
    match compute_vanilla_reward(block, receipts) {
        Ok(reward) => {
            let rendered = u128_to_dec_string(reward);
            let recipient = format_address(&block.fee_recipient);
            Ok((rendered, recipient))
        },
        Err(e) => Err(e),
    }
}

/// One block's assembled reward record. The vanilla reward comes from the
/// block and its receipts; `mev_reward` is the value reported by the
/// first-collected relay, or empty when no relay delivered a payload; the
/// relay responses are kept verbatim. A reward error is the block's own
/// and leaves sibling blocks untouched.
pub fn get_all_block_rewards(
    block: &ExecutionBlock,
    receipts: &Vec<TransactionReceipt>,
    relay_responses: Vec<RelayResponse>,
) -> (r: Result<BlockReward, RewardError>)
    ensures
        r matches Ok(br) ==> {
            &&& br.block_number == block.block_number
            &&& exists|v: u128|
                {
                    &&& #[trigger] vanilla_reward_contract(
                        block.transactions@,
                        receipts@,
                        block.base_fee_per_gas as int,
                        block.gas_used as int,
                        Ok(v),
                    )
                    &&& br.proposer_reward@ == dec_str_of(v as nat)
                }
            &&& br.fee_recipient@ == addr_str_of(block.fee_recipient@)
            &&& relay_responses@.len() == 0 ==> br.mev_reward@ == Seq::<char>::empty()
            &&& relay_responses@.len() > 0 ==> br.mev_reward@ == relay_responses@[0].delivered_payloads_response.value@
            &&& br.relay_responses@ == relay_responses@
        },
        r matches Err(e) ==> vanilla_reward_contract(
            block.transactions@,
            receipts@,
            block.base_fee_per_gas as int,
            block.gas_used as int,
            Err(e),
        ),
{
    let (proposer_reward, fee_recipient) = match get_vanila_reward(block, receipts) {
        Ok(p) => p,
        Err(e) => {
            return Err(e);
        },
    };
    let mev_reward = if relay_responses.len() == 0 {
        String::new()
    } else {
        relay_responses[0].delivered_payloads_response.value.clone()
    };
    Ok(
        BlockReward {
            block_number: block.block_number,
            proposer_reward,
            fee_recipient,
            mev_reward,
            relay_responses,
        },
    )
}

} // verus!
