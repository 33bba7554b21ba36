//! How the proceeds of a swap are split: fees, escrow, and the destinations' shares.
use vstd::prelude::*;
use crate::error::ContractError;
use crate::fees::overflow_error;
use crate::math::{
    checked_mul, lemma_ratio_floor_bounds, mul_floor_spec, ratio_floor, Decimal,
    DECIMAL_FRACTIONAL,
};
use crate::state::PostExecutionAction;
use crate::types::{
    Coin, CosmosMsg, Destination, SubMsg, Vault, AFTER_FAILED_AUTOMATION_REPLY_ID,
};
use crate::validation::destination_allocation_sum;

verus! {

/// The parts that the proceeds of one swap are split into.
pub struct Settlement {
    pub swap_fee: u128,
    pub automation_fee: u128,
    pub escrowed: u128,
    pub disbursed: u128,
}

/// How `received` is split: the swap fee at `swap_rate`, then the automation fee at
/// `automation_rate` on what is left, then the escrow at `escrow_level` of what is
/// left after both fees; the rest goes to the destinations. `None` where a rate is
/// above one, so that a part would exceed what it is taken from.
pub open spec fn settle(received: u128, swap_rate: Decimal, automation_rate: Decimal, escrow_level: Decimal) -> Option<Settlement> {
    let swap_fee = mul_floor_spec(received, swap_rate);
    let after_swap_fee = received - swap_fee;
    let automation_fee = mul_floor_spec(after_swap_fee as u128, automation_rate);
    let after_fees = after_swap_fee - automation_fee;
    let escrowed = mul_floor_spec(after_fees as u128, escrow_level);
    if swap_fee > received || automation_fee > after_swap_fee || escrowed > after_fees {
        None
    } else {
        Some(
            Settlement {
                swap_fee: swap_fee as u128,
                automation_fee: automation_fee as u128,
                escrowed: escrowed as u128,
                disbursed: (after_fees - escrowed) as u128,
            },
        )
    }
}

/// The parts of a settlement add up to what was received: nothing is lost or made up.
pub proof fn lemma_settlement_conserves(received: u128, swap_rate: Decimal, automation_rate: Decimal, escrow_level: Decimal)
    requires
        settle(received, swap_rate, automation_rate, escrow_level) is Some,
    ensures
        ({
            let s = settle(received, swap_rate, automation_rate, escrow_level)->0;
            s.swap_fee + s.automation_fee + s.escrowed + s.disbursed == received
        }),
{
}

/// With every rate at most one the split always exists.
pub proof fn lemma_settlement_exists(received: u128, swap_rate: Decimal, automation_rate: Decimal, escrow_level: Decimal)
    requires
        swap_rate.atomics <= DECIMAL_FRACTIONAL,
        automation_rate.atomics <= DECIMAL_FRACTIONAL,
        escrow_level.atomics <= DECIMAL_FRACTIONAL,
    ensures
        settle(received, swap_rate, automation_rate, escrow_level) is Some,
{
    let swap_fee = mul_floor_spec(received, swap_rate);
    lemma_ratio_floor_bounds(received as int, swap_rate.atomics as int, DECIMAL_FRACTIONAL as int);
    let after_swap_fee = received - swap_fee;
    let automation_fee = mul_floor_spec(after_swap_fee as u128, automation_rate);
    lemma_ratio_floor_bounds(after_swap_fee, automation_rate.atomics as int, DECIMAL_FRACTIONAL as int);
    let after_fees = after_swap_fee - automation_fee;
    lemma_ratio_floor_bounds(after_fees, escrow_level.atomics as int, DECIMAL_FRACTIONAL as int);
}

/// Computes the split of `received`.
pub fn settle_swap(received: u128, swap_rate: Decimal, automation_rate: Decimal, escrow_level: Decimal) -> (r: Result<Settlement, ContractError>)
    ensures
        r is Ok <==> settle(received, swap_rate, automation_rate, escrow_level) is Some,
        r matches Ok(s) ==> s == settle(received, swap_rate, automation_rate, escrow_level)->0,
        r matches Err(e) ==> e is Std,
{
    let swap_fee = match checked_mul(received, swap_rate) {
        Ok(v) => v,
        Err(_) => return Err(overflow_error()),
    };
    if swap_fee > received {
        return Err(overflow_error());
    }
    let after_swap_fee = received - swap_fee;
    let automation_fee = match checked_mul(after_swap_fee, automation_rate) {
        Ok(v) => v,
        Err(_) => return Err(overflow_error()),
    };
    if automation_fee > after_swap_fee {
        return Err(overflow_error());
    }
    let after_fees = after_swap_fee - automation_fee;
    let escrowed = match checked_mul(after_fees, escrow_level) {
        Ok(v) => v,
        Err(_) => return Err(overflow_error()),
    };
    if escrowed > after_fees {
        return Err(overflow_error());
    }
    Ok(Settlement { swap_fee, automation_fee, escrowed, disbursed: after_fees - escrowed })
}

/// A destination's share of `total`.
pub open spec fn share_of(total: u128, d: Destination) -> int {
    mul_floor_spec(total, d.allocation)
}

/// The sum of the destinations' shares of `total`.
pub open spec fn shares_sum(total: u128, ds: Seq<Destination>) -> int
    decreases ds.len(),
{
    if ds.len() == 0 {
        0
    } else {
        shares_sum(total, ds.drop_last()) + share_of(total, ds.last())
    }
}

proof fn lemma_floor_add(x: int, y: int, d: int)
    requires
        x >= 0,
        y >= 0,
        d > 0,
    ensures
        x / d + y / d <= (x + y) / d,
{
    assert(x / d + y / d <= (x + y) / d) by (nonlinear_arith)
        requires
            x >= 0,
            y >= 0,
            d > 0,
    ;
}

/// Rounding each share down never hands out more than the total times the sum of
/// the shares: the destinations together get at most their combined allocation.
pub proof fn lemma_shares_bounded(total: u128, ds: Seq<Destination>)
    ensures
        0 <= shares_sum(total, ds) <= ratio_floor(
            total as int,
            destination_allocation_sum(ds),
            DECIMAL_FRACTIONAL as int,
        ),
    decreases ds.len(),
{
    crate::validation::lemma_destination_sum_nonneg(ds);
    if ds.len() > 0 {
        lemma_shares_bounded(total, ds.drop_last());
        crate::validation::lemma_destination_sum_nonneg(ds.drop_last());
        let a = total as int * destination_allocation_sum(ds.drop_last());
        let b = total as int * ds.last().allocation.atomics;
        assert(a >= 0) by (nonlinear_arith)
            requires
                total >= 0,
                destination_allocation_sum(ds.drop_last()) >= 0,
                a == total as int * destination_allocation_sum(ds.drop_last()),
        ;
        assert(b >= 0) by (nonlinear_arith)
            requires
                total >= 0,
                ds.last().allocation.atomics >= 0,
                b == total as int * ds.last().allocation.atomics,
        ;
        assert(a + b == total as int * destination_allocation_sum(ds)) by (nonlinear_arith)
            requires
                a == total as int * destination_allocation_sum(ds.drop_last()),
                b == total as int * ds.last().allocation.atomics,
                destination_allocation_sum(ds) == destination_allocation_sum(ds.drop_last())
                    + ds.last().allocation.atomics,
        ;
        lemma_floor_add(a, b, DECIMAL_FRACTIONAL as int);
    }
}

/// The destinations of a valid vault together receive at most the total they are sent.
pub proof fn lemma_disbursement_within_total(total: u128, ds: Seq<Destination>)
    requires
        destination_allocation_sum(ds) <= DECIMAL_FRACTIONAL,
    ensures
        0 <= shares_sum(total, ds) <= total,
{
    lemma_shares_bounded(total, ds);
    crate::validation::lemma_destination_sum_nonneg(ds);
    crate::math::lemma_ratio_floor_bounds(
        total as int,
        destination_allocation_sum(ds),
        DECIMAL_FRACTIONAL as int,
    );
}

/// The amount of `denom` among a list of coins.
pub open spec fn coins_of(coins: Seq<Coin>, denom: Seq<char>) -> int
    decreases coins.len(),
{
    if coins.len() == 0 {
        0
    } else {
        coins_of(coins.drop_last(), denom) + if coins.last().denom@ == denom { coins.last().amount as int } else { 0 }
    }
}

/// The amount of `denom` a message takes out of the contract.
pub open spec fn msg_sends(m: SubMsg, denom: Seq<char>) -> int {
    match m.msg {
        CosmosMsg::BankSend { amount, .. } => coins_of(amount@, denom),
        CosmosMsg::ExecuteContract { funds, .. } => coins_of(funds@, denom),
        CosmosMsg::Swap { offer, .. } => coins_of(seq![offer], denom),
        CosmosMsg::Delegate { amount, .. } => coins_of(seq![amount], denom),
        CosmosMsg::FinSubmitOrder { offer, .. } => coins_of(seq![offer], denom),
        _ => 0,
    }
}

/// The amount of `denom` a list of messages takes out of the contract.
pub open spec fn messages_sent(msgs: Seq<SubMsg>, denom: Seq<char>) -> int
    decreases msgs.len(),
{
    if msgs.len() == 0 {
        0
    } else {
        messages_sent(msgs.drop_last(), denom) + msg_sends(msgs.last(), denom)
    }
}

/// The message that pays a destination: a plain send, or a call of the destination's
/// contract with its message, whose outcome comes back.
pub open spec fn disbursement_msg_of(m: SubMsg, d: Destination, coin: Coin) -> bool {
    match d.msg {
        None => crate::fees::bank_send_of(m, d.address, coin),
        Some(text) => {
            &&& m.reply_id == Some(AFTER_FAILED_AUTOMATION_REPLY_ID)
            &&& m.msg matches CosmosMsg::ExecuteContract { contract_addr, msg, funds }
                && contract_addr == d.address && msg == text && funds@ == seq![coin]
        },
    }
}

/// Two messages that are alike in everything, their lists of coins by content.
pub open spec fn same_msg(a: SubMsg, b: SubMsg) -> bool {
    &&& a.reply_id == b.reply_id
    &&& match (a.msg, b.msg) {
        (
            CosmosMsg::BankSend { to_address: t1, amount: a1 },
            CosmosMsg::BankSend { to_address: t2, amount: a2 },
        ) => t1 == t2 && a1@ == a2@,
        (
            CosmosMsg::ExecuteContract { contract_addr: c1, msg: m1, funds: f1 },
            CosmosMsg::ExecuteContract { contract_addr: c2, msg: m2, funds: f2 },
        ) => c1 == c2 && m1 == m2 && f1@ == f2@,
        (x, y) => x == y,
    }
}

/// The coin a destination receives out of `total`.
pub open spec fn share_coin(total: u128, d: Destination, denom: String) -> Coin {
    Coin { denom, amount: share_of(total, d) as u128 }
}

/// The messages that split `total` of the vault's target denomination between its
/// destinations, and, for each destination in order, the message it is paid with and
/// the coins it carries (kept until the outcome of the destination's message is known).
pub fn get_disbursement_messages(vault: &Vault, total: u128) -> (r: Result<(Vec<SubMsg>, Vec<PostExecutionAction>), ContractError>)
    ensures
        r is Ok <==> forall|i: int|
            0 <= i < vault.destinations@.len() ==> #[trigger] share_of(total, vault.destinations@[i])
                <= u128::MAX,
        r matches Err(e) ==> e is Std,
        r matches Ok((msgs, actions)) ==> {
            &&& msgs@.len() == vault.destinations@.len()
            &&& actions@.len() == vault.destinations@.len()
            &&& forall|i: int|
                0 <= i < msgs@.len() ==> disbursement_msg_of(
                    #[trigger] msgs@[i],
                    vault.destinations@[i],
                    share_coin(total, vault.destinations@[i], vault.target_denom),
                )
            &&& forall|i: int|
                0 <= i < actions@.len() ==> same_msg((#[trigger] actions@[i]).msg, msgs@[i])
                    && actions@[i].funds@ == seq![share_coin(total, vault.destinations@[i], vault.target_denom)]
        },
{
    let ds = &vault.destinations;
    let mut msgs: Vec<SubMsg> = Vec::new();
    let mut actions: Vec<PostExecutionAction> = Vec::new();
    let mut i: usize = 0;
    while i < ds.len()
        invariant
            i <= ds.len(),
            ds@ == vault.destinations@,
            forall|j: int| 0 <= j < i ==> #[trigger] share_of(total, ds@[j]) <= u128::MAX,
            msgs@.len() == i,
            actions@.len() == i,
            forall|j: int|
                0 <= j < i ==> disbursement_msg_of(
                    #[trigger] msgs@[j],
                    ds@[j],
                    share_coin(total, ds@[j], vault.target_denom),
                ),
            forall|j: int|
                0 <= j < i ==> same_msg((#[trigger] actions@[j]).msg, msgs@[j])
                    && actions@[j].funds@ == seq![share_coin(total, ds@[j], vault.target_denom)],
        decreases ds.len() - i,
    {
        let d = &ds[i];
        let amount = match checked_mul(total, d.allocation) {
            Ok(v) => v,
            Err(_) => {
                assert(share_of(total, ds@[i as int]) > u128::MAX);
                return Err(overflow_error());
            },
        };
        let mut coins: Vec<Coin> = Vec::new();
        coins.push(Coin { denom: vault.target_denom.clone(), amount });
        let mut action_coins: Vec<Coin> = Vec::new();
        action_coins.push(Coin { denom: vault.target_denom.clone(), amount });
        let mut action_funds: Vec<Coin> = Vec::new();
        action_funds.push(Coin { denom: vault.target_denom.clone(), amount });
        match &d.msg {
            None => {
                msgs.push(
                    SubMsg {
                        msg: CosmosMsg::BankSend { to_address: d.address.clone(), amount: coins },
                        reply_id: None,
                    },
                );
                actions.push(
                    PostExecutionAction {
                        msg: SubMsg {
                            msg: CosmosMsg::BankSend { to_address: d.address.clone(), amount: action_coins },
                            reply_id: None,
                        },
                        funds: action_funds,
                    },
                );
            },
            Some(text) => {
                msgs.push(
                    SubMsg {
                        msg: CosmosMsg::ExecuteContract {
                            contract_addr: d.address.clone(),
                            msg: text.clone(),
                            funds: coins,
                        },
                        reply_id: Some(AFTER_FAILED_AUTOMATION_REPLY_ID),
                    },
                );
                actions.push(
                    PostExecutionAction {
                        msg: SubMsg {
                            msg: CosmosMsg::ExecuteContract {
                                contract_addr: d.address.clone(),
                                msg: text.clone(),
                                funds: action_coins,
                            },
                            reply_id: Some(AFTER_FAILED_AUTOMATION_REPLY_ID),
                        },
                        funds: action_funds,
                    },
                );
            },
        }
        i = i + 1;
    }
    Ok((msgs, actions))
}

} // verus!
