//! The escrow of a vault that is compared to a standard DCA: how the vault performed
//! against that DCA, the fee on the difference, and the payout of what is held back.
use vstd::prelude::*;
use crate::disbursement::{disbursement_msg_of, get_disbursement_messages, same_msg, share_coin, share_of};
use crate::error::{custom, ContractError, StdError};
use crate::fees::{fee_payments, get_fee_messages, overflow_error, pays};
use crate::handlers::admin::contract_wf;
use crate::handlers::vaults::{lemma_push_event_keeps_wf, lemma_update_keeps_wf, put_vault};
use crate::math::{checked_multiply_ratio, ratio_floor, Decimal, DECIMAL_FRACTIONAL};
use crate::state::{has_room, lemma_vault_index, next_event, pair_index, vault_index, DisburseEscrowTask, PostExecutionQueue, State};
use crate::text::{amount_text, decimal_text, join3};
use crate::types::{same_vault, Coin, Env, EventData, PerformanceAssessmentStrategy, Response, Vault};
use crate::validation::{assert_sender_is_executor, is_executor};

verus! {

/// The share of a vault's outperformance that the contract takes as its fee (20%).
pub const PERFORMANCE_FEE_ATOMICS: u128 = 200_000_000_000_000_000u128;

/// A holding in the receive denomination: what was received, plus what is left of
/// the deposit converted at `price` (units of the swapped denomination per unit
/// received), rounded down.
pub open spec fn value_in_receive_denom(received: u128, deposited: u128, swapped: u128, price: Decimal) -> int {
    let remaining = if deposited > swapped { deposited - swapped } else { 0 };
    received + ratio_floor(remaining, DECIMAL_FRACTIONAL as int, price.atomics as int)
}

/// What a vault holds, in the receive denomination.
pub open spec fn vault_value(v: Vault, price: Decimal) -> int {
    value_in_receive_denom(v.received_amount.amount, v.deposited_amount.amount, v.swapped_amount.amount, price)
}

/// What the standard DCA that a vault is compared to holds, in the receive
/// denomination (what the vault holds where it has no performance strategy).
pub open spec fn standard_value(v: Vault, price: Decimal) -> int {
    match v.performance_assessment_strategy {
        Some(PerformanceAssessmentStrategy::CompareToStandardDca { swapped_amount, received_amount }) =>
            value_in_receive_denom(received_amount.amount, v.deposited_amount.amount, swapped_amount.amount, price),
        None => vault_value(v, price),
    }
}

/// How a vault performed against its standard DCA: the ratio of what each holds, in
/// atomics, rounded down (one for a vault without a performance strategy). `None`
/// where a value or the ratio leaves 128 bits or the standard DCA holds nothing.
pub open spec fn performance_factor(v: Vault, price: Decimal) -> Option<int> {
    if v.performance_assessment_strategy is None {
        Some(DECIMAL_FRACTIONAL as int)
    } else if vault_value(v, price) > u128::MAX || standard_value(v, price) > u128::MAX || standard_value(v, price) == 0 {
        None
    } else if ratio_floor(vault_value(v, price), DECIMAL_FRACTIONAL as int, standard_value(v, price)) > u128::MAX {
        None
    } else {
        Some(ratio_floor(vault_value(v, price), DECIMAL_FRACTIONAL as int, standard_value(v, price)))
    }
}

/// The performance fee of a vault: 20% of what it made above its standard DCA (the
/// standard DCA's value grown by the factor, less that value), at most its escrow;
/// nothing where it did not do better.
pub open spec fn performance_fee(v: Vault, price: Decimal) -> Option<int> {
    match performance_factor(v, price) {
        None => None,
        Some(f) => if f <= DECIMAL_FRACTIONAL {
            Some(0)
        } else {
            let sv = standard_value(v, price);
            let grown = ratio_floor(sv, f, DECIMAL_FRACTIONAL as int);
            if grown > u128::MAX {
                None
            } else {
                let fee = ratio_floor(grown - sv, PERFORMANCE_FEE_ATOMICS as int, DECIMAL_FRACTIONAL as int);
                Some(if fee < v.escrowed_amount.amount { fee } else { v.escrowed_amount.amount as int })
            }
        },
    }
}

/// The text of the error where the standard DCA holds nothing to compare with.
pub open spec fn zero_denominator_text() -> Seq<char> {
    "Generic error: "@ + "Denominator must not be zero"@
}

fn value_of(received: u128, deposited: u128, swapped: u128, price: Decimal) -> (r: Option<u128>)
    requires
        price.atomics > 0,
    ensures
        r is Some <==> value_in_receive_denom(received, deposited, swapped, price) <= u128::MAX,
        r matches Some(x) ==> x == value_in_receive_denom(received, deposited, swapped, price),
{
    let remaining: u128 = if deposited > swapped { deposited - swapped } else { 0 };
    match checked_multiply_ratio(remaining, DECIMAL_FRACTIONAL, price.atomics) {
        Ok(c) => received.checked_add(c),
        Err(_) => None,
    }
}

/// How a vault performed against its standard DCA.
pub fn get_performance_factor(v: &Vault, price: Decimal) -> (r: Result<Decimal, ContractError>)
    requires
        price.atomics > 0,
    ensures
        r is Ok <==> performance_factor(*v, price) is Some,
        r matches Ok(d) ==> d.atomics == performance_factor(*v, price)->0,
        r matches Err(e) ==> (standard_value(*v, price) == 0 && vault_value(*v, price) <= u128::MAX ==> e.text() == zero_denominator_text()),
        r matches Err(e) ==> e is Std,
{
    let (sw, rc) = match &v.performance_assessment_strategy {
        None => return Ok(Decimal::one()),
        Some(PerformanceAssessmentStrategy::CompareToStandardDca { swapped_amount, received_amount }) => (swapped_amount.amount, received_amount.amount),
    };
    let a = match value_of(v.received_amount.amount, v.deposited_amount.amount, v.swapped_amount.amount, price) {
        Some(a) => a,
        None => return Err(overflow_error()),
    };
    let b = match value_of(rc, v.deposited_amount.amount, sw, price) {
        Some(b) => b,
        None => return Err(overflow_error()),
    };
    if b == 0 {
        return Err(ContractError::Std(StdError::GenericErr { msg: String::from_str("Denominator must not be zero") }));
    }
    match checked_multiply_ratio(a, DECIMAL_FRACTIONAL, b) {
        Ok(f) => Ok(Decimal { atomics: f }),
        Err(_) => Err(overflow_error()),
    }
}

/// The performance fee of a vault, in its target denomination.
pub fn get_performance_fee(v: &Vault, price: Decimal) -> (r: Result<Coin, ContractError>)
    requires
        price.atomics > 0,
    ensures
        r is Ok <==> performance_fee(*v, price) is Some,
        r matches Ok(c) ==> c.amount == performance_fee(*v, price)->0 && c.denom == v.target_denom,
        r matches Ok(c) ==> c.amount <= v.escrowed_amount.amount,
        r matches Err(e) ==> e is Std,
{
    let f = get_performance_factor(v, price)?;
    if f.atomics <= DECIMAL_FRACTIONAL {
        return Ok(Coin { denom: v.target_denom.clone(), amount: 0 });
    }
    let sv: u128 = match &v.performance_assessment_strategy {
        None => 0,
        Some(PerformanceAssessmentStrategy::CompareToStandardDca { swapped_amount, received_amount }) => {
            match value_of(received_amount.amount, v.deposited_amount.amount, swapped_amount.amount, price) {
                Some(x) => x,
                None => return Err(overflow_error()),
            }
        },
    };
    let grown = match checked_multiply_ratio(sv, f.atomics, DECIMAL_FRACTIONAL) {
        Ok(g) => g,
        Err(_) => return Err(overflow_error()),
    };
    proof {
        assert(grown >= sv) by (nonlinear_arith)
            requires
                grown == (sv * f.atomics) / (DECIMAL_FRACTIONAL as int),
                f.atomics > DECIMAL_FRACTIONAL,
        ;
        crate::math::lemma_ratio_floor_bounds((grown - sv) as int, PERFORMANCE_FEE_ATOMICS as int, DECIMAL_FRACTIONAL as int);
    }
    let fee = crate::math::mul_fraction(grown - sv, Decimal { atomics: PERFORMANCE_FEE_ATOMICS });
    let amount = if fee < v.escrowed_amount.amount { fee } else { v.escrowed_amount.amount };
    Ok(Coin { denom: v.target_denom.clone(), amount })
}

/// The escrow tasks other than those of the given vault, in order.
pub open spec fn tasks_without(ts: Seq<DisburseEscrowTask>, id: u128) -> Seq<DisburseEscrowTask>
    decreases ts.len(),
{
    if ts.len() == 0 {
        Seq::empty()
    } else if ts.last().vault_id == id {
        tasks_without(ts.drop_last(), id)
    } else {
        tasks_without(ts.drop_last(), id).push(ts.last())
    }
}

/// Removes the escrow tasks of a vault.
pub fn delete_disburse_escrow_task(state: &mut State, id: u128)
    ensures
        final(state).disburse_escrow_tasks@ == tasks_without(old(state).disburse_escrow_tasks@, id),
        final(state).config == old(state).config,
        final(state).pairs == old(state).pairs,
        final(state).vaults == old(state).vaults,
        final(state).events == old(state).events,
        final(state).next_vault_id == old(state).next_vault_id,
        final(state).custom_fees == old(state).custom_fees,
        final(state).swap_adjustments == old(state).swap_adjustments,
        final(state).post_execution_actions == old(state).post_execution_actions,
        final(state).vault_cache == old(state).vault_cache,
        final(state).swap_cache == old(state).swap_cache,
        final(state).limit_order_cache == old(state).limit_order_cache,
{
    let mut kept: Vec<DisburseEscrowTask> = Vec::new();
    let mut i: usize = 0;
    while i < state.disburse_escrow_tasks.len()
        invariant
            i <= state.disburse_escrow_tasks.len(),
            kept@ == tasks_without(state.disburse_escrow_tasks@.subrange(0, i as int), id),
        decreases state.disburse_escrow_tasks.len() - i,
    {
        assert(state.disburse_escrow_tasks@.subrange(0, i + 1).drop_last() == state.disburse_escrow_tasks@.subrange(0, i as int));
        let t = state.disburse_escrow_tasks[i];
        if t.vault_id != id {
            kept.push(t);
        }
        i = i + 1;
    }
    assert(state.disburse_escrow_tasks@.subrange(0, state.disburse_escrow_tasks@.len() as int) == state.disburse_escrow_tasks@);
    state.disburse_escrow_tasks = kept;
}

/// The `Debug` text of a coin of cosmwasm-std: `Coin { <amount> "<denom>" }`.
pub open spec fn coin_debug(c: Coin) -> Seq<char> {
    "Coin { "@ + decimal_text(c.amount as nat) + " \""@ + c.denom@ + "\" }"@
}

pub fn coin_debug_text(c: &Coin) -> (s: String)
    ensures
        s@ == coin_debug(*c),
{
    let n = amount_text(c.amount);
    let mut s = join3("Coin { ", n.as_str(), " \"");
    s.append(c.denom.as_str());
    s.append("\" }");
    s
}

/// The escrow payout goes through: the vault exists and either holds no escrow, or
/// its pair exists and its fee and payout can be computed without leaving 128 bits.
pub open spec fn disburse_escrow_succeeds(s: State, env: Env, sender: Seq<char>, id: u128, price: Decimal) -> bool {
    let i = vault_index(s.vaults@, id);
    let v = s.vaults@[i];
    &&& is_executor(s.config, env.contract_address@, sender)
    &&& i >= 0
    &&& v.escrowed_amount.amount > 0 ==> {
        &&& pair_index(s.pairs@, v.balance.denom@, v.target_denom@) >= 0
        &&& performance_fee(v, price) is Some
        &&& forall|k: int| 0 <= k < v.destinations@.len() ==> #[trigger] share_of((v.escrowed_amount.amount - performance_fee(v, price)->0) as u128, v.destinations@[k]) <= u128::MAX
    }
}

/// An executor pays out a vault's escrow: the performance fee at the current price
/// goes to the fee collectors and the rest to the vault's destinations; the escrow is
/// emptied and the vault's escrow tasks are removed. A vault without escrow is left
/// as it is.
#[verifier::rlimit(100)]
pub fn disburse_escrow_handler(state: &mut State, env: &Env, sender: &String, vault_id: u128, current_price: Decimal) -> (r: Result<Response, ContractError>)
    requires
        contract_wf(*old(state)),
        has_room(*old(state)),
        current_price.atomics > 0,
    ensures
        r is Err ==> *final(state) == *old(state),
        r is Ok <==> disburse_escrow_succeeds(*old(state), *env, sender@, vault_id, current_price),
        r matches Err(e) ==> {
            let s = *old(state);
            let v = s.vaults@[vault_index(s.vaults@, vault_id)];
            if !is_executor(s.config, env.contract_address@, sender@) {
                e == ContractError::Unauthorized
            } else if vault_index(s.vaults@, vault_id) < 0 {
                e.text() == crate::state::not_found_text(vault_id)
            } else if pair_index(s.pairs@, v.balance.denom@, v.target_denom@) < 0 {
                e.text() == "Error: "@ + "swapping "@ + v.balance.denom@ + " to "@ + v.target_denom@ + " not supported"@
            } else {
                e is Std
            }
        },
        r matches Ok(resp) ==> {
            let s = *old(state);
            let i = vault_index(s.vaults@, vault_id);
            let v = s.vaults@[i];
            let fee = performance_fee(v, current_price)->0 as u128;
            let payout = (v.escrowed_amount.amount - fee) as u128;
            let fees = fee_payments(s.config.fee_collectors@, seq![fee], v.target_denom);
            let nd = v.destinations@.len();
            let fee_coin = Coin { denom: v.target_denom, amount: fee };
            let payout_coin = Coin { denom: v.escrowed_amount.denom, amount: payout };
            &&& v.escrowed_amount.amount == 0 ==> *final(state) == s && resp.messages@.len() == 0 && resp.attributes@.len() == 0
            &&& v.escrowed_amount.amount > 0 ==> {
                let q = final(state).post_execution_actions@.last();
                &&& final(state).vaults@ == s.vaults@.update(i, final(state).vaults@[i])
                &&& same_vault(final(state).vaults@[i], Vault { escrowed_amount: Coin { denom: v.escrowed_amount.denom, amount: 0 }, ..v })
                &&& final(state).events@ == s.events@.push(next_event(s.events@.len(), v.id, *env, EventData::DcaVaultEscrowDisbursed { amount_disbursed: payout_coin, performance_fee: fee_coin }))
                &&& final(state).disburse_escrow_tasks@ == tasks_without(s.disburse_escrow_tasks@, v.id)
                &&& contract_wf(*final(state))
                &&& final(state).config == s.config
                &&& final(state).pairs == s.pairs
                &&& final(state).next_vault_id == s.next_vault_id
                &&& final(state).custom_fees == s.custom_fees
                &&& final(state).swap_adjustments == s.swap_adjustments
                &&& final(state).vault_cache == s.vault_cache
                &&& final(state).swap_cache == s.swap_cache
                &&& final(state).limit_order_cache == s.limit_order_cache
                &&& final(state).post_execution_actions@.drop_last() == s.post_execution_actions@
                &&& q.vault_id == v.id
                &&& q.entries@.len() == nd
                &&& resp.messages@.len() == nd + fees.len()
                &&& forall|k: int| 0 <= k < nd ==> disbursement_msg_of(#[trigger] resp.messages@[k], v.destinations@[k], share_coin(payout, v.destinations@[k], v.target_denom))
                &&& forall|k: int| 0 <= k < nd ==> same_msg((#[trigger] q.entries@[k]).msg, resp.messages@[k])
                    && q.entries@[k].funds@ == seq![share_coin(payout, v.destinations@[k], v.target_denom)]
                &&& pays(resp.messages@.subrange(nd as int, resp.messages@.len() as int), fees)
                &&& resp.attributes@.len() == 4
                &&& resp.attributes@[0].key@ == "disburse_escrow"@ && resp.attributes@[0].value@ == "true"@
                &&& resp.attributes@[1].key@ == "vault_id"@ && resp.attributes@[1].value@ == decimal_text(v.id as nat)
                &&& resp.attributes@[2].key@ == "performance_fee"@ && resp.attributes@[2].value@ == coin_debug(fee_coin)
                &&& resp.attributes@[3].key@ == "escrow_disbursed"@ && resp.attributes@[3].value@ == coin_debug(payout_coin)
            }
        },
{
    assert_sender_is_executor(&state.config, &env.contract_address, sender)?;
    let i = state.vault_position(vault_id)?;
    proof {
        lemma_vault_index(state.vaults@, vault_id);
    }
    let v = &state.vaults[i];
    if v.escrowed_amount.amount == 0 {
        return Ok(Response::new());
    }
    if state.find_pair(&v.balance.denom, &v.target_denom).is_none() {
        let mut s = join3("swapping ", v.balance.denom.as_str(), " to ");
        s.append(v.target_denom.as_str());
        s.append(" not supported");
        return Err(custom(s));
    }
    let fee = get_performance_fee(v, current_price)?;
    let payout = Coin { denom: v.escrowed_amount.denom.clone(), amount: v.escrowed_amount.amount - fee.amount };
    let (dmsgs, entries) = get_disbursement_messages(v, payout.amount)?;
    let mut fee_list: Vec<u128> = Vec::new();
    fee_list.push(fee.amount);
    assert(fee_list@ == seq![fee.amount]);
    let fmsgs = get_fee_messages(&state.config.fee_collectors, &fee_list, &v.target_denom);
    let ghost dview = dmsgs@;
    let ghost fview = fmsgs@;
    let mut msgs = dmsgs;
    let mut fmsgs = fmsgs;
    msgs.append(&mut fmsgs);
    assert(msgs@.subrange(0, dview.len() as int) == dview);
    assert(msgs@.subrange(dview.len() as int, msgs@.len() as int) == fview);
    let mut nv = v.copy();
    nv.escrowed_amount.amount = 0;
    let id = nv.id;
    let ghost s0 = *state;
    put_vault(state, i, nv);
    proof {
        lemma_update_keeps_wf(s0, *state, i as int, state.vaults@[i as int]);
    }
    let ghost s1 = *state;
    let fee_text = coin_debug_text(&fee);
    let payout_text = coin_debug_text(&payout);
    state.create_event(id, env, EventData::DcaVaultEscrowDisbursed { amount_disbursed: payout, performance_fee: fee });
    proof {
        lemma_push_event_keeps_wf(s1, *state, state.events@.last());
    }
    delete_disburse_escrow_task(state, id);
    state.post_execution_actions.push(PostExecutionQueue { vault_id: id, entries });
    let mut resp = Response::new();
    resp.add_messages(msgs);
    resp.add_attribute("disburse_escrow", String::from_str("true"));
    resp.add_attribute("vault_id", amount_text(id));
    resp.add_attribute("performance_fee", fee_text);
    resp.add_attribute("escrow_disbursed", payout_text);
    Ok(resp)
}

/// A vault's performance against its standard DCA: the fee it owes and the factor.
#[derive(Debug, Clone, PartialEq, Eq)]
pub struct VaultPerformance {
    pub fee: Coin,
    pub factor: Decimal,
}

pub open spec fn no_strategy_text(id: u128) -> Seq<char> {
    "Generic error: "@ + "Vault "@ + decimal_text(id as nat) + " does not have a performance assessment strategy"@
}

pub open spec fn not_dca_plus_text(id: u128) -> Seq<char> {
    "Generic error: "@ + "Vault "@ + decimal_text(id as nat) + " is not a DCA Plus vault"@
}

fn locate_vault_and_pair(state: &State, vault_id: u128) -> (r: Result<usize, StdError>)
    ensures
        r is Ok <==> ({
            let i = vault_index(state.vaults@, vault_id);
            let v = state.vaults@[i];
            i >= 0 && pair_index(state.pairs@, v.balance.denom@, v.target_denom@) >= 0
        }),
        r matches Ok(i) ==> i == vault_index(state.vaults@, vault_id) && i < state.vaults@.len(),
        r matches Err(e) ==> vault_index(state.vaults@, vault_id) < 0 ==> e.text() == crate::state::not_found_text(vault_id),
        r matches Err(e) ==> ({
            let i = vault_index(state.vaults@, vault_id);
            let v = state.vaults@[i];
            i >= 0 ==> e.text() == "Generic error: "@ + "swapping "@ + v.balance.denom@ + " to "@ + v.target_denom@ + " not supported"@
        }),
{
    let i = match state.vault_position(vault_id) {
        Ok(i) => i,
        Err(e) => return Err(e.into_std()),
    };
    let v = &state.vaults[i];
    if state.find_pair(&v.balance.denom, &v.target_denom).is_none() {
        let mut s = join3("swapping ", v.balance.denom.as_str(), " to ");
        s.append(v.target_denom.as_str());
        s.append(" not supported");
        return Err(StdError::GenericErr { msg: s });
    }
    Ok(i)
}

fn performance_of(v: &Vault, price: Decimal) -> (r: Result<VaultPerformance, StdError>)
    requires
        price.atomics > 0,
    ensures
        r is Ok <==> (v.performance_assessment_strategy is Some ==> performance_fee(*v, price) is Some),
        r matches Ok(p) ==> p.fee == (Coin { denom: v.target_denom, amount: performance_fee(*v, price)->0 as u128 })
            && p.factor.atomics == performance_factor(*v, price)->0,
{
    if v.performance_assessment_strategy.is_none() {
        return Ok(VaultPerformance { fee: Coin { denom: v.target_denom.clone(), amount: 0 }, factor: Decimal::one() });
    }
    let fee = match get_performance_fee(v, price) {
        Ok(f) => f,
        Err(e) => return Err(e.into_std()),
    };
    let factor = match get_performance_factor(v, price) {
        Ok(f) => f,
        Err(e) => return Err(e.into_std()),
    };
    Ok(VaultPerformance { fee, factor })
}

/// The performance fee and factor of a vault compared to a standard DCA, at the
/// current price.
pub fn get_vault_performance_handler(state: &State, vault_id: u128, current_price: Decimal) -> (r: Result<VaultPerformance, StdError>)
    requires
        current_price.atomics > 0,
    ensures
        r is Ok <==> ({
            let i = vault_index(state.vaults@, vault_id);
            let v = state.vaults@[i];
            &&& i >= 0
            &&& pair_index(state.pairs@, v.balance.denom@, v.target_denom@) >= 0
            &&& v.performance_assessment_strategy is Some
            &&& performance_fee(v, current_price) is Some
        }),
        r matches Ok(p) ==> ({
            let v = state.vaults@[vault_index(state.vaults@, vault_id)];
            &&& p.fee == (Coin { denom: v.target_denom, amount: performance_fee(v, current_price)->0 as u128 })
            &&& p.factor.atomics == performance_factor(v, current_price)->0
        }),
        r matches Err(e) ==> ({
            let i = vault_index(state.vaults@, vault_id);
            let v = state.vaults@[i];
            &&& i < 0 ==> e.text() == crate::state::not_found_text(vault_id)
            &&& (i >= 0 && pair_index(state.pairs@, v.balance.denom@, v.target_denom@) >= 0 && v.performance_assessment_strategy is None) ==> e.text() == no_strategy_text(vault_id)
        }),
{
    let i = locate_vault_and_pair(state, vault_id)?;
    if state.vaults[i].performance_assessment_strategy.is_none() {
        let n = amount_text(vault_id);
        return Err(StdError::GenericErr { msg: join3("Vault ", n.as_str(), " does not have a performance assessment strategy") });
    }
    performance_of(&state.vaults[i], current_price)
}

/// The performance fee and factor of a vault with a swap adjustment strategy, at the
/// current price (no fee and a factor of one where it has no performance strategy).
pub fn get_dca_plus_performance_handler(state: &State, vault_id: u128, current_price: Decimal) -> (r: Result<VaultPerformance, StdError>)
    requires
        current_price.atomics > 0,
    ensures
        r is Ok <==> ({
            let i = vault_index(state.vaults@, vault_id);
            let v = state.vaults@[i];
            &&& i >= 0
            &&& pair_index(state.pairs@, v.balance.denom@, v.target_denom@) >= 0
            &&& v.swap_adjustment_strategy is Some
            &&& v.performance_assessment_strategy is Some ==> performance_fee(v, current_price) is Some
        }),
        r matches Ok(p) ==> ({
            let v = state.vaults@[vault_index(state.vaults@, vault_id)];
            &&& p.fee == (Coin { denom: v.target_denom, amount: performance_fee(v, current_price)->0 as u128 })
            &&& p.factor.atomics == performance_factor(v, current_price)->0
        }),
        r matches Err(e) ==> ({
            let i = vault_index(state.vaults@, vault_id);
            let v = state.vaults@[i];
            &&& i < 0 ==> e.text() == crate::state::not_found_text(vault_id)
            &&& (i >= 0 && pair_index(state.pairs@, v.balance.denom@, v.target_denom@) >= 0 && v.swap_adjustment_strategy is None) ==> e.text() == not_dca_plus_text(vault_id)
        }),
{
    let i = locate_vault_and_pair(state, vault_id)?;
    if state.vaults[i].swap_adjustment_strategy.is_none() {
        let n = amount_text(vault_id);
        return Err(StdError::GenericErr { msg: join3("Vault ", n.as_str(), " is not a DCA Plus vault") });
    }
    performance_of(&state.vaults[i], current_price)
}

/// The first `n` (at most) items of a sequence.
pub open spec fn first_n<A>(s: Seq<A>, n: nat) -> Seq<A> {
    if s.len() < n { s } else { s.take(n as int) }
}

/// The vaults whose escrow is due by `now`, in the order their tasks were set.
pub open spec fn due_escrow_vaults(ts: Seq<DisburseEscrowTask>, now: u64) -> Seq<u128>
    decreases ts.len(),
{
    if ts.len() == 0 {
        Seq::empty()
    } else if ts.last().due_date <= now {
        due_escrow_vaults(ts.drop_last(), now).push(ts.last().vault_id)
    } else {
        due_escrow_vaults(ts.drop_last(), now)
    }
}

/// The vaults whose escrow is due by the current block, at most `limit` (30 without
/// one) of them.
pub fn get_disburse_escrow_tasks_handler(state: &State, env: &Env, limit: Option<u16>) -> (r: Vec<u128>)
    ensures
        r@ == first_n(due_escrow_vaults(state.disburse_escrow_tasks@, env.time), match limit { Some(l) => l as nat, None => 30 }),
{
    let n: usize = match limit {
        Some(l) => l as usize,
        None => 30,
    };
    let ts = &state.disburse_escrow_tasks;
    let mut r: Vec<u128> = Vec::new();
    let mut i: usize = 0;
    while i < ts.len()
        invariant
            i <= ts.len(),
            r@ == due_escrow_vaults(ts@.subrange(0, i as int), env.time),
        decreases ts.len() - i,
    {
        assert(ts@.subrange(0, i + 1).drop_last() == ts@.subrange(0, i as int));
        if ts[i].due_date <= env.time {
            r.push(ts[i].vault_id);
        }
        i = i + 1;
    }
    assert(ts@.subrange(0, ts@.len() as int) == ts@);
    if r.len() > n {
        r.truncate(n);
    }
    r
}

} // verus!
