//! Fees and the split of swap proceeds between fee collectors and destinations.
use vstd::prelude::*;
use crate::error::{ContractError, StdError};
use crate::math::{checked_mul, mul_floor_spec, ratio_floor, Decimal, DECIMAL_FRACTIONAL};
use crate::state::{custom_fee_of, CustomFee, State};
use crate::types::{Coin, Config, CosmosMsg, Destination, FeeCollector, SubMsg, SwapAdjustmentStrategy, Vault};
use crate::validation::collector_allocation_sum;

verus! {

/// The swap fee rate of a vault: the lower of the custom fees of its two
/// denominations where any is set, else the configured default (the weighted-scale
/// rate for weighted-scale vaults).
pub open spec fn swap_fee_rate(fees: Seq<CustomFee>, config: Config, vault: Vault) -> Decimal {
    match (custom_fee_of(fees, vault.balance.denom@), custom_fee_of(fees, vault.target_denom@)) {
        (Some(a), Some(b)) => if a.atomics <= b.atomics {
            a
        } else {
            b
        },
        (Some(a), None) => a,
        (None, Some(b)) => b,
        (None, None) => match vault.swap_adjustment_strategy {
            Some(SwapAdjustmentStrategy::WeightedScale { .. }) => config.weighted_scale_swap_fee_percent,
            _ => config.default_swap_fee_percent,
        },
    }
}

/// The swap fee rate of a vault.
pub fn get_swap_fee_rate(state: &State, vault: &Vault) -> (r: Decimal)
    ensures
        r == swap_fee_rate(state.custom_fees@, state.config, *vault),
{
    let a = state.get_custom_fee(&vault.balance.denom);
    let b = state.get_custom_fee(&vault.target_denom);
    match (a, b) {
        (Some(a), Some(b)) => if a.atomics <= b.atomics {
            a
        } else {
            b
        },
        (Some(a), None) => a,
        (None, Some(b)) => b,
        (None, None) => match vault.swap_adjustment_strategy {
            Some(SwapAdjustmentStrategy::WeightedScale { .. }) => {
                state.config.weighted_scale_swap_fee_percent
            },
            _ => state.config.default_swap_fee_percent,
        },
    }
}

/// The sum of the shares of the destinations that carry a message, in atomics.
pub open spec fn automated_allocation_sum(ds: Seq<Destination>) -> int
    decreases ds.len(),
{
    if ds.len() == 0 {
        0
    } else {
        automated_allocation_sum(ds.drop_last()) + if ds.last().msg is Some {
            ds.last().allocation.atomics as int
        } else {
            0
        }
    }
}

/// The automation fee rate of a vault: the configured automation fee applied to the
/// share of the proceeds that goes to destinations with a message.
pub open spec fn automation_fee_rate(config: Config, vault: Vault) -> int {
    ratio_floor(
        automated_allocation_sum(vault.destinations@),
        config.automation_fee_percent.atomics as int,
        DECIMAL_FRACTIONAL as int,
    )
}

/// The automation fee rate of a vault; fails when the shares or the rate leave 128 bits.
pub fn get_automation_fee_rate(config: &Config, vault: &Vault) -> (r: Result<Decimal, ContractError>)
    ensures
        r is Ok <==> (automated_allocation_sum(vault.destinations@) <= u128::MAX
            && automation_fee_rate(*config, *vault) <= u128::MAX),
        r matches Ok(d) ==> d.atomics == automation_fee_rate(*config, *vault),
        r matches Err(e) ==> e is Std,
{
    let ds = &vault.destinations;
    let mut total: u128 = 0;
    let mut i: usize = 0;
    while i < ds.len()
        invariant
            i <= ds.len(),
            total == automated_allocation_sum(ds@.subrange(0, i as int)),
            ds@ == vault.destinations@,
        decreases ds.len() - i,
    {
        assert(ds@.subrange(0, i + 1).drop_last() == ds@.subrange(0, i as int));
        if ds[i].msg.is_some() {
            match total.checked_add(ds[i].allocation.atomics) {
                Some(t) => {
                    total = t;
                },
                None => {
                    proof {
                        lemma_automated_sum_exceeds(ds@, i as int);
                    }
                    return Err(overflow_error());
                },
            }
        }
        i = i + 1;
    }
    assert(ds@.subrange(0, ds@.len() as int) == ds@);
    match checked_mul(total, config.automation_fee_percent) {
        Ok(v) => Ok(Decimal { atomics: v }),
        Err(_) => Err(overflow_error()),
    }
}

proof fn lemma_automated_sum_monotone(ds: Seq<Destination>, i: int)
    requires
        0 <= i <= ds.len(),
    ensures
        automated_allocation_sum(ds.subrange(0, i)) <= automated_allocation_sum(ds),
        automated_allocation_sum(ds.subrange(0, i)) >= 0,
    decreases ds.len(),
{
    if i == ds.len() {
        assert(ds.subrange(0, i) == ds);
        if ds.len() > 0 {
            lemma_automated_sum_monotone(ds.drop_last(), i - 1);
        }
    } else {
        assert(ds.drop_last().subrange(0, i) == ds.subrange(0, i));
        lemma_automated_sum_monotone(ds.drop_last(), i);
    }
}

proof fn lemma_automated_sum_exceeds(ds: Seq<Destination>, i: int)
    requires
        0 <= i < ds.len(),
        ds[i].msg is Some,
        automated_allocation_sum(ds.subrange(0, i)) + ds[i].allocation.atomics > u128::MAX,
    ensures
        automated_allocation_sum(ds) > u128::MAX,
{
    assert(ds.subrange(0, i + 1).drop_last() == ds.subrange(0, i));
    lemma_automated_sum_monotone(ds, i + 1);
}

/// The error the contract reports when an amount leaves 128 bits.
pub fn overflow_error() -> (e: ContractError)
    ensures
        e is Std,
        e matches ContractError::Std(StdError::Overflow { operation, operand1, operand2 })
            && operation@ == "Mul"@ && operand1@ == "amount"@ && operand2@ == "rate"@,
{
    ContractError::Std(
        StdError::Overflow {
            operation: String::from_str("Mul"),
            operand1: String::from_str("amount"),
            operand2: String::from_str("rate"),
        },
    )
}

/// A message that sends exactly `coin` to `to`, with no reply.
pub open spec fn bank_send_of(m: SubMsg, to: String, coin: Coin) -> bool {
    &&& m.reply_id is None
    &&& m.msg matches CosmosMsg::BankSend { to_address, amount } && to_address == to && amount@
        == seq![coin]
}

/// A message that sends exactly the given coins to `to`, with no reply.
pub open spec fn bank_send_of_all(m: SubMsg, to: String, coins: Seq<Coin>) -> bool {
    &&& m.reply_id is None
    &&& m.msg matches CosmosMsg::BankSend { to_address, amount } && to_address == to && amount@ == coins
}

/// Messages that make exactly the given payments, in order.
pub open spec fn pays(msgs: Seq<SubMsg>, payments: Seq<(String, Coin)>) -> bool {
    msgs.len() == payments.len() && forall|i: int|
        0 <= i < msgs.len() ==> bank_send_of(#[trigger] msgs[i], payments[i].0, payments[i].1)
}

/// A fee collector's share of a fee.
pub open spec fn fee_payment(c: FeeCollector, fee: u128, denom: String) -> (String, Coin) {
    (c.address, Coin { denom, amount: mul_floor_spec(fee, c.allocation) as u128 })
}

/// One fee collector's payments: its share of each fee, in the order of the fees.
pub open spec fn collector_payments(c: FeeCollector, fees: Seq<u128>, denom: String) -> Seq<
    (String, Coin),
> {
    Seq::new(fees.len(), |k: int| fee_payment(c, fees[k], denom))
}

/// The payments of the fees: for each collector in turn, its share of each fee.
pub open spec fn fee_payments(cs: Seq<FeeCollector>, fees: Seq<u128>, denom: String) -> Seq<
    (String, Coin),
>
    decreases cs.len(),
{
    if cs.len() == 0 {
        Seq::empty()
    } else {
        fee_payments(cs.drop_last(), fees, denom) + collector_payments(cs.last(), fees, denom)
    }
}

/// Every fee collector's share is at most one when the shares add up to one.
pub proof fn lemma_collector_share_at_most_one(cs: Seq<FeeCollector>)
    requires
        collector_allocation_sum(cs) == DECIMAL_FRACTIONAL,
    ensures
        forall|i: int| 0 <= i < cs.len() ==> #[trigger] cs[i].allocation.atomics <= DECIMAL_FRACTIONAL,
{
    assert forall|i: int| 0 <= i < cs.len() implies #[trigger] cs[i].allocation.atomics
        <= DECIMAL_FRACTIONAL by {
        lemma_collector_share_bounded(cs, i);
    }
}

proof fn lemma_collector_share_bounded(cs: Seq<FeeCollector>, i: int)
    requires
        0 <= i < cs.len(),
    ensures
        cs[i].allocation.atomics <= collector_allocation_sum(cs),
    decreases cs.len(),
{
    crate::validation::lemma_collector_sum_nonneg(cs.drop_last());
    if i < cs.len() - 1 {
        lemma_collector_share_bounded(cs.drop_last(), i);
        assert(cs.drop_last()[i] == cs[i]);
    }
}

/// The messages that pay each fee collector its share of each fee.
pub fn get_fee_messages(collectors: &Vec<FeeCollector>, fees: &Vec<u128>, denom: &String) -> (r: Vec<
    SubMsg,
>)
    requires
        collector_allocation_sum(collectors@) == DECIMAL_FRACTIONAL,
    ensures
        pays(r@, fee_payments(collectors@, fees@, *denom)),
{
    proof {
        lemma_collector_share_at_most_one(collectors@);
    }
    let mut r: Vec<SubMsg> = Vec::new();
    let mut i: usize = 0;
    while i < collectors.len()
        invariant
            i <= collectors.len(),
            forall|k: int|
                0 <= k < collectors@.len() ==> #[trigger] collectors@[k].allocation.atomics
                    <= DECIMAL_FRACTIONAL,
            pays(r@, fee_payments(collectors@.subrange(0, i as int), fees@, *denom)),
        decreases collectors.len() - i,
    {
        let ghost before = r@;
        assert(collectors@.subrange(0, i + 1).drop_last() == collectors@.subrange(0, i as int));
        let c = &collectors[i];
        let mut j: usize = 0;
        while j < fees.len()
            invariant
                i < collectors.len(),
                j <= fees.len(),
                c == collectors@[i as int],
                c.allocation.atomics <= DECIMAL_FRACTIONAL,
                r@.len() == before.len() + j,
                r@.subrange(0, before.len() as int) == before,
                forall|k: int|
                    0 <= k < j ==> bank_send_of(
                        #[trigger] r@[before.len() + k],
                        fee_payment(*c, fees@[k], *denom).0,
                        fee_payment(*c, fees@[k], *denom).1,
                    ),
            decreases fees.len() - j,
        {
            let amount = crate::math::mul_fraction(fees[j], c.allocation);
            let coin = Coin { denom: denom.clone(), amount };
            let mut coins: Vec<Coin> = Vec::new();
            coins.push(coin);
            assert(coins@ == seq![Coin { denom: *denom, amount: mul_floor_spec(fees@[j as int], c.allocation) as u128 }]);
            r.push(
                SubMsg {
                    msg: CosmosMsg::BankSend { to_address: c.address.clone(), amount: coins },
                    reply_id: None,
                },
            );
            j = j + 1;
        }
        let ghost spec_before = fee_payments(collectors@.subrange(0, i as int), fees@, *denom);
        let ghost spec_after = fee_payments(collectors@.subrange(0, i + 1), fees@, *denom);
        assert(collectors@.subrange(0, i + 1).last() == collectors@[i as int]);
        assert(spec_after == spec_before + collector_payments(collectors@[i as int], fees@, *denom));
        assert forall|k: int| 0 <= k < r@.len() implies bank_send_of(
            #[trigger] r@[k],
            spec_after[k].0,
            spec_after[k].1,
        ) by {
            if k < before.len() {
                assert(r@[k] == before[k]);
            } else {
                assert(r@[k] == r@[before.len() + (k - before.len())]);
            }
        }
        i = i + 1;
    }
    assert(collectors@.subrange(0, collectors@.len() as int) == collectors@);
    r
}

} // verus!
