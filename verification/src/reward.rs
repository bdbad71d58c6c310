//! Vanilla proposer-reward computation: per-transaction tips under the
//! three fee-pricing schemes, the receipt-alignment check, and the final
//! tips-minus-burn subtraction.

use vstd::prelude::*;
use vstd::arithmetic::mul::lemma_mul_inequality;
use vstd::arithmetic::mul::lemma_mul_nonnegative;

verus! {

/// The gas-pricing model a transaction was submitted under.
#[derive(Clone, Copy, PartialEq, Eq, Structural, Debug)]
pub enum FeeScheme {
    /// Pre-EIP-1559 transaction priced by a single gas price.
    Legacy,
    /// EIP-2930 transaction: a single gas price plus an access list.
    AccessList,
    /// EIP-1559 transaction: a fee cap and a priority-fee cap.
    DynamicFee,
    /// A type tag this library does not recognise; priced like Legacy.
    Unknown,
}

/// One transaction of an execution block, reduced to the fields the
/// reward computation reads. Amounts are in wei.
pub struct Transaction {
    pub hash: Vec<u8>,
    pub scheme: FeeScheme,
    /// Gas price; read for Legacy, AccessList and Unknown schemes.
    pub gas_price: u128,
    /// Fee cap; read for the DynamicFee scheme.
    pub max_fee_per_gas: u128,
    /// Priority-fee cap; read for the DynamicFee scheme.
    pub max_priority_fee_per_gas: u128,
}

/// The receipt of one transaction: its hash and the gas it consumed.
pub struct TransactionReceipt {
    pub transaction_hash: Vec<u8>,
    pub gas_used: u128,
}

/// A block with its transactions, as fetched from an execution-layer node.
/// `transactions` is in on-chain inclusion order.
pub struct ExecutionBlock {
    pub block_number: u64,
    pub base_fee_per_gas: u128,
    pub gas_used: u128,
    /// The proposer's fee-recipient address, as raw bytes.
    pub fee_recipient: Vec<u8>,
    pub transactions: Vec<Transaction>,
}

/// Why a block's reward could not be computed. Per-block: the caller may
/// skip the block and go on with its siblings.
#[derive(Clone, Copy, PartialEq, Eq, Structural, Debug)]
pub enum RewardError {
    /// The receipt sequence does not have one receipt per transaction.
    ReceiptCountMismatch { transactions: usize, receipts: usize },
    /// The receipt at `index` belongs to a different transaction than the
    /// one at `index` in the block.
    HashMismatch { index: usize },
    /// An intermediate amount exceeded the machine integer.
    Overflow,
    /// The burned base fee exceeds the collected tips; correct chain data
    /// never produces this, so it is reported rather than clamped.
    BurnExceedsTips { total_tips: u128, burnt: u128 },
}

/// The gas price a transaction effectively pays per unit of gas, over the
/// block's base fee: the fee cap, saturated, for DynamicFee, and the plain
/// gas price for every other scheme.
pub open spec fn spec_effective_gas_price(tx: Transaction, base_fee_per_gas: int) -> int {
    match tx.scheme {
        FeeScheme::DynamicFee => vstd::math::min(
            tx.max_priority_fee_per_gas + base_fee_per_gas,
            tx.max_fee_per_gas as int,
        ),
        _ => tx.gas_price as int,
    }
}

/// The tip one transaction contributes to the proposer.
pub open spec fn spec_tip(tx: Transaction, base_fee_per_gas: int, receipt_gas_used: int) -> int {
    spec_effective_gas_price(tx, base_fee_per_gas) * receipt_gas_used
}

/// Receipts are positionally aligned with the block's transactions:
/// the receipt at each index belongs to the transaction at that index.
pub open spec fn spec_aligned(txs: Seq<Transaction>, rcs: Seq<TransactionReceipt>) -> bool {
    &&& txs.len() == rcs.len()
    &&& forall|i: int| 0 <= i < txs.len() ==> txs[i].hash@ == rcs[i].transaction_hash@
}

/// The sum of all per-transaction tips of a block.
pub open spec fn spec_total_tips(
    txs: Seq<Transaction>,
    rcs: Seq<TransactionReceipt>,
    base_fee_per_gas: int,
) -> int
    decreases txs.len(),
{
    if txs.len() == 0 {
        0
    } else {
        spec_total_tips(txs.drop_last(), rcs.drop_last(), base_fee_per_gas) + spec_tip(
            txs.last(),
            base_fee_per_gas,
            rcs.last().gas_used as int,
        )
    }
}

/// Every tip is nonnegative: the effective price and the gas used are.
pub proof fn lemma_tip_nonneg(tx: Transaction, base_fee_per_gas: int, receipt_gas_used: int)
    requires
        base_fee_per_gas >= 0,
        receipt_gas_used >= 0,
    ensures
        spec_tip(tx, base_fee_per_gas, receipt_gas_used) >= 0,
{
    lemma_mul_nonnegative(spec_effective_gas_price(tx, base_fee_per_gas), receipt_gas_used);
}

/// A saturated DynamicFee price never exceeds the fee cap, so the tip
/// never exceeds the fee cap times the gas the transaction used.
pub proof fn lemma_dynamic_fee_tip_capped(
    tx: Transaction,
    base_fee_per_gas: int,
    receipt_gas_used: int,
)
    requires
        tx.scheme == FeeScheme::DynamicFee,
        receipt_gas_used >= 0,
    ensures
        spec_tip(tx, base_fee_per_gas, receipt_gas_used) <= tx.max_fee_per_gas * receipt_gas_used,
{
    lemma_mul_inequality(
        spec_effective_gas_price(tx, base_fee_per_gas),
        tx.max_fee_per_gas as int,
        receipt_gas_used,
    );
}

/// Under every scheme but DynamicFee the tip is exactly the gas price
/// times the gas the transaction used.
pub proof fn lemma_single_price_tip_exact(
    tx: Transaction,
    base_fee_per_gas: int,
    receipt_gas_used: int,
)
    requires
        tx.scheme != FeeScheme::DynamicFee,
    ensures
        spec_tip(tx, base_fee_per_gas, receipt_gas_used) == tx.gas_price * receipt_gas_used,
{
}

/// A block without transactions collects no tips.
pub proof fn lemma_empty_block_no_tips(rcs: Seq<TransactionReceipt>, base_fee_per_gas: int)
    ensures
        spec_total_tips(Seq::<Transaction>::empty(), rcs, base_fee_per_gas) == 0,
{
}

/// A prefix of the transactions never collects more than the whole block.
proof fn lemma_total_tips_prefix(
    txs: Seq<Transaction>,
    rcs: Seq<TransactionReceipt>,
    base_fee_per_gas: int,
    k: int,
)
    requires
        0 <= k <= txs.len(),
        rcs.len() == txs.len(),
        base_fee_per_gas >= 0,
        forall|i: int| 0 <= i < rcs.len() ==> rcs[i].gas_used >= 0,
    ensures
        spec_total_tips(txs.take(k), rcs.take(k), base_fee_per_gas) <= spec_total_tips(
            txs,
            rcs,
            base_fee_per_gas,
        ),
    decreases txs.len() - k,
{
    if k == txs.len() {
        assert(txs.take(k) =~= txs);
        assert(rcs.take(k) =~= rcs);
    } else {
        assert(txs.take(k + 1).drop_last() =~= txs.take(k));
        assert(rcs.take(k + 1).drop_last() =~= rcs.take(k));
        assert(txs.take(k + 1).last() == txs[k]);
        assert(rcs.take(k + 1).last() == rcs[k]);
        lemma_tip_nonneg(txs[k], base_fee_per_gas, rcs[k].gas_used as int);
        lemma_total_tips_prefix(txs, rcs, base_fee_per_gas, k + 1);
    }
}

/// Addition capped at `sat`: the result never exceeds the cap, even when
/// the raw sum would overflow the machine integer.
pub fn sum_and_saturate(a: u128, b: u128, sat: u128) -> (r: u128)
    ensures
        r == if a + b > sat { sat as int } else { a + b },
{
    match a.checked_add(b) {
        Some(res) => {
            if res > sat {
                sat
            } else {
                res
            }
        },
        None => sat,
    }
}

/// The gas price a transaction effectively pays per unit of gas.
pub fn effective_gas_price(tx: &Transaction, base_fee_per_gas: u128) -> (r: u128)
    ensures
        r == spec_effective_gas_price(*tx, base_fee_per_gas as int),
{
    match tx.scheme {
        FeeScheme::DynamicFee => sum_and_saturate(
            tx.max_priority_fee_per_gas,
            base_fee_per_gas,
            tx.max_fee_per_gas,
        ),
        _ => tx.gas_price,
    }
}

/// The tip one transaction contributes, or `Overflow` exactly when the
/// mathematical tip does not fit the machine integer.
pub fn tip_for_transaction(tx: &Transaction, base_fee_per_gas: u128, receipt_gas_used: u128) -> (r:
    Result<u128, RewardError>)
    ensures
        spec_tip(*tx, base_fee_per_gas as int, receipt_gas_used as int) <= u128::MAX ==> (r
            matches Ok(t) && t == spec_tip(
            *tx,
            base_fee_per_gas as int,
            receipt_gas_used as int,
        )),
        spec_tip(*tx, base_fee_per_gas as int, receipt_gas_used as int) > u128::MAX ==> r == Err::<
            u128,
            RewardError,
        >(RewardError::Overflow),
{
    let price = effective_gas_price(tx, base_fee_per_gas);
    match price.checked_mul(receipt_gas_used) {
        Some(t) => Ok(t),
        None => Err(RewardError::Overflow),
    }
}

/// Everything `compute_vanilla_reward` promises of its result, over the
/// block's transactions, the receipts, the base fee and the block's total
/// gas used. Each case of the input pins the result:
/// - receipt count differing from the transaction count is reported;
/// - otherwise a hash mismatch is reported with the first offending index;
/// - otherwise an amount exceeding the machine integer is reported;
/// - otherwise a burn exceeding the tips is reported with both amounts;
/// - otherwise the reward is exactly the total tips minus the burn.
pub open spec fn vanilla_reward_contract(
    txs: Seq<Transaction>,
    rcs: Seq<TransactionReceipt>,
    base_fee_per_gas: int,
    gas_used: int,
    r: Result<u128, RewardError>,
) -> bool {
    let burnt = base_fee_per_gas * gas_used;
    let total = spec_total_tips(txs, rcs, base_fee_per_gas);
    &&& txs.len() != rcs.len() ==> (r matches Err(RewardError::ReceiptCountMismatch {
        transactions,
        receipts,
    }) && transactions == txs.len() && receipts == rcs.len())
    &&& txs.len() == rcs.len() && !spec_aligned(txs, rcs) ==> (r matches Err(
        RewardError::HashMismatch { index },
    ) && 0 <= index < txs.len() && txs[index as int].hash@ != rcs[index as int].transaction_hash@
        && (forall|j: int| 0 <= j < index ==> txs[j].hash@ == rcs[j].transaction_hash@))
    &&& spec_aligned(txs, rcs) && (burnt > u128::MAX || total > u128::MAX) ==> r == Err::<
        u128,
        RewardError,
    >(RewardError::Overflow)
    &&& spec_aligned(txs, rcs) && burnt <= u128::MAX && total <= u128::MAX && burnt > total ==> (r
        matches Err(RewardError::BurnExceedsTips { total_tips, burnt: b }) && total_tips == total
        && b == burnt)
    &&& spec_aligned(txs, rcs) && total <= u128::MAX && burnt <= total ==> (r matches Ok(v) && v
        == total - burnt)
}

/// The contract pins the result: any two results allowed for the same
/// inputs are equal. Recomputing the reward of an immutable historical
/// block therefore yields identical output.
pub proof fn lemma_vanilla_reward_deterministic(
    txs: Seq<Transaction>,
    rcs: Seq<TransactionReceipt>,
    base_fee_per_gas: int,
    gas_used: int,
    r1: Result<u128, RewardError>,
    r2: Result<u128, RewardError>,
)
    requires
        vanilla_reward_contract(txs, rcs, base_fee_per_gas, gas_used, r1),
        vanilla_reward_contract(txs, rcs, base_fee_per_gas, gas_used, r2),
    ensures
        r1 == r2,
{
    if txs.len() == rcs.len() && !spec_aligned(txs, rcs) {
        let i1 = r1->Err_0->HashMismatch_index;
        let i2 = r2->Err_0->HashMismatch_index;
        if i1 < i2 {
            assert(txs[i1 as int].hash@ == rcs[i1 as int].transaction_hash@);
        }
        if i2 < i1 {
            assert(txs[i2 as int].hash@ == rcs[i2 as int].transaction_hash@);
        }
    }
}

/// The proposer's vanilla reward for a block: the sum of the
/// per-transaction tips minus the burned base fee, in wei. Verifies the
/// receipt alignment before using the receipts and reports, rather than
/// clamps or wraps, every anomaly; see [`vanilla_reward_contract`].
pub fn compute_vanilla_reward(block: &ExecutionBlock, receipts: &Vec<TransactionReceipt>) -> (r:
    Result<u128, RewardError>)
    ensures
        vanilla_reward_contract(
            block.transactions@,
            receipts@,
            block.base_fee_per_gas as int,
            block.gas_used as int,
            r,
        ),
{
    let ghost txs = block.transactions@;
    let ghost rcs = receipts@;
    let ghost base = block.base_fee_per_gas as int;
    let n = block.transactions.len();
    if receipts.len() != n {
        return Err(RewardError::ReceiptCountMismatch {
            transactions: n,
            receipts: receipts.len(),
        });
    }
    let mut i: usize = 0;
    while i < n
        invariant
            i <= n,
            n == txs.len() == rcs.len(),
            txs == block.transactions@,
            rcs == receipts@,
            forall|j: int| 0 <= j < i ==> txs[j].hash@ == rcs[j].transaction_hash@,
        decreases n - i,
    {
        if !(block.transactions[i].hash == receipts[i].transaction_hash) {
            proof {
                assert(!(txs[i as int].hash@ =~= rcs[i as int].transaction_hash@));
            }
            return Err(RewardError::HashMismatch { index: i });
        }
        proof {
            assert(txs[i as int].hash@ =~= rcs[i as int].transaction_hash@);
        }
        i = i + 1;
    }
    assert(spec_aligned(txs, rcs));
    let burnt = match block.base_fee_per_gas.checked_mul(block.gas_used) {
        Some(b) => b,
        None => {
            return Err(RewardError::Overflow);
        },
    };
    let mut tips: u128 = 0;
    let mut i: usize = 0;
    while i < n
        invariant
            i <= n,
            n == txs.len() == rcs.len(),
            txs == block.transactions@,
            rcs == receipts@,
            base == block.base_fee_per_gas as int,
            spec_aligned(txs, rcs),
            tips == spec_total_tips(txs.take(i as int), rcs.take(i as int), base),
        decreases n - i,
    {
        proof {
            assert(txs.take(i + 1).drop_last() =~= txs.take(i as int));
            assert(rcs.take(i + 1).drop_last() =~= rcs.take(i as int));
            lemma_total_tips_prefix(txs, rcs, base, i + 1);
        }
        let tip = match tip_for_transaction(
            &block.transactions[i],
            block.base_fee_per_gas,
            receipts[i].gas_used,
        ) {
            Ok(t) => t,
            Err(_) => {
                proof {
                    lemma_tip_nonneg(txs[i as int], base, rcs[i as int].gas_used as int);
                }
                return Err(RewardError::Overflow);
            },
        };
        tips = match tips.checked_add(tip) {
            Some(t) => t,
            None => {
                return Err(RewardError::Overflow);
            },
        };
        i = i + 1;
    }
    proof {
        assert(txs.take(n as int) =~= txs);
        assert(rcs.take(n as int) =~= rcs);
    }
    if burnt > tips {
        Err(RewardError::BurnExceedsTips { total_tips: tips, burnt })
    } else {
        Ok(tips - burnt)
    }
}

} // verus!
