//! Running a vault: its trigger fires, it swaps, and the proceeds are paid out.
use vstd::prelude::*;
use crate::disbursement::{disbursement_msg_of, get_disbursement_messages, lemma_settlement_conserves, messages_sent, same_msg, settle, settle_swap, share_coin, share_of, Settlement};
use crate::fees::{fee_payments, get_fee_messages, pays};
use crate::handlers::admin::contract_wf;
use crate::error::{sub_overflow, StdError};
use crate::state::{PostExecutionAction, PostExecutionQueue};
use crate::text::{decimal_text, join};
use crate::types::Attribute;
use crate::error::{custom, ContractError};
use crate::schedule::{get_minimum_receive, get_next_target_time, minimum_receive_with_slippage, next_target_time};
use crate::state::{has_room, next_event, pair_index, queue_index, vault_index, wf, SwapCache};
use crate::handlers::vaults::put_vault;
use crate::handlers::vaults::{lemma_push_event_keeps_wf, lemma_update_keeps_wf};
use crate::text::{amount_text, join3};
use crate::types::{CosmosMsg, Env, EventData, ExecutionSkippedReason, Pair, Response, SelfMsg, SubMsg, TriggerConfiguration, VaultStatus, AFTER_SWAP_REPLY_ID};
use crate::validation::{assert_contract_is_not_paused, assert_target_time_is_in_past, destination_allocation_sum};
use crate::fees::{automated_allocation_sum, automation_fee_rate, get_automation_fee_rate, get_swap_fee_rate, overflow_error, swap_fee_rate};
use crate::handlers::admin::get_swap_adjustment;
use crate::handlers::vaults::standard_remaining;
use crate::math::{checked_multiply_ratio, ratio_floor, Decimal, DECIMAL_FRACTIONAL};
use crate::schedule::{adjusted_swap_amount, expected_receive, get_swap_amount, price_threshold_exceeded, price_threshold_exceeded_spec};
use crate::state::{adjustment_of, State, SwapAdjustment};
use crate::types::{same_vault, Coin, PerformanceAssessmentStrategy, SwapAdjustmentStrategy, Vault, MINIMUM_SWAP_AMOUNT};

verus! {

/// The factor a weighted-scale vault scales its swap by at `price` (units of the swapped
/// denomination per unit received): the price's distance from the base price (the swap
/// amount per base receive amount) relative to the base price, times the multiplier,
/// is taken off one where the price is above the base price (never below nothing, and
/// not at all for an increase-only vault) and added to one where it is not. Without a
/// base price there is no scaling. `None` where a step leaves 128 bits.
pub open spec fn weighted_scale_factor(swap_amount: u128, base_receive_amount: u128, multiplier: Decimal, increase_only: bool, price: Decimal) -> Option<int> {
    let one = DECIMAL_FRACTIONAL as int;
    if base_receive_amount == 0 {
        Some(one)
    } else {
        let base = ratio_floor(swap_amount as int, one, base_receive_amount as int);
        if base > u128::MAX {
            None
        } else if base == 0 {
            Some(one)
        } else {
            let delta = if price.atomics > base { price.atomics - base } else { base - price.atomics };
            let rel = ratio_floor(delta, one, base);
            if rel > u128::MAX {
                None
            } else {
                let scaled = ratio_floor(rel, multiplier.atomics as int, one);
                if scaled > u128::MAX {
                    None
                } else if price.atomics > base {
                    if increase_only {
                        Some(one)
                    } else if scaled > one {
                        Some(0)
                    } else {
                        Some(one - scaled)
                    }
                } else if one + scaled > u128::MAX {
                    None
                } else {
                    Some(one + scaled)
                }
            }
        }
    }
}

/// The scaling factor of a weighted-scale vault.
pub fn get_weighted_scale_factor(swap_amount: u128, base_receive_amount: u128, multiplier: Decimal, increase_only: bool, price: Decimal) -> (r: Option<u128>)
    ensures
        r is Some <==> weighted_scale_factor(swap_amount, base_receive_amount, multiplier, increase_only, price) is Some,
        r matches Some(f) ==> f == weighted_scale_factor(swap_amount, base_receive_amount, multiplier, increase_only, price)->0,
{
    if base_receive_amount == 0 {
        return Some(DECIMAL_FRACTIONAL);
    }
    let base = match checked_multiply_ratio(swap_amount, DECIMAL_FRACTIONAL, base_receive_amount) {
        Ok(b) => b,
        Err(_) => return None,
    };
    if base == 0 {
        return Some(DECIMAL_FRACTIONAL);
    }
    let delta = if price.atomics > base { price.atomics - base } else { base - price.atomics };
    let rel = match checked_multiply_ratio(delta, DECIMAL_FRACTIONAL, base) {
        Ok(v) => v,
        Err(_) => return None,
    };
    let scaled = match checked_multiply_ratio(rel, multiplier.atomics, DECIMAL_FRACTIONAL) {
        Ok(v) => v,
        Err(_) => return None,
    };
    if price.atomics > base {
        if increase_only {
            Some(DECIMAL_FRACTIONAL)
        } else if scaled > DECIMAL_FRACTIONAL {
            Some(0)
        } else {
            Some(DECIMAL_FRACTIONAL - scaled)
        }
    } else {
        DECIMAL_FRACTIONAL.checked_add(scaled)
    }
}

/// The factor a vault scales its swap amount by: one without a strategy, the latest
/// published value of its model (one if none) for a risk-weighted vault, and the
/// weighted-scale factor at `price` for a weighted-scale vault.
pub open spec fn vault_swap_factor(adjs: Seq<SwapAdjustment>, v: Vault, price: Decimal) -> Option<int> {
    match v.swap_adjustment_strategy {
        None => Some(DECIMAL_FRACTIONAL as int),
        Some(SwapAdjustmentStrategy::WeightedScale { base_receive_amount, multiplier, increase_only }) =>
            weighted_scale_factor(v.swap_amount, base_receive_amount, multiplier, increase_only, price),
        Some(st) => Some(match adjustment_of(adjs, st) {
            Some(a) => a.value.atomics as int,
            None => DECIMAL_FRACTIONAL as int,
        }),
    }
}

/// What a vault swaps at `price`: its swap amount scaled by its factor, at most its
/// balance. `None` where the factor leaves 128 bits.
pub open spec fn vault_swap_amount(adjs: Seq<SwapAdjustment>, v: Vault, price: Decimal) -> Option<int> {
    match vault_swap_factor(adjs, v, price) {
        Some(f) => Some(adjusted_swap_amount(v.swap_amount, Decimal { atomics: f as u128 }, v.balance.amount)),
        None => None,
    }
}

/// What a vault swaps at `price`.
pub fn get_vault_swap_amount(state: &State, v: &Vault, price: Decimal) -> (r: Result<u128, ContractError>)
    ensures
        r is Ok <==> vault_swap_amount(state.swap_adjustments@, *v, price) is Some,
        r matches Ok(a) ==> a == vault_swap_amount(state.swap_adjustments@, *v, price)->0 && a <= v.balance.amount,
        r matches Err(e) ==> e is Std,
{
    let factor: u128 = match v.swap_adjustment_strategy {
        None => DECIMAL_FRACTIONAL,
        Some(SwapAdjustmentStrategy::WeightedScale { base_receive_amount, multiplier, increase_only }) => {
            match get_weighted_scale_factor(v.swap_amount, base_receive_amount, multiplier, increase_only, price) {
                Some(f) => f,
                None => return Err(overflow_error()),
            }
        },
        Some(st) => get_swap_adjustment(state, st).atomics,
    };
    Ok(get_swap_amount(v.swap_amount, Decimal { atomics: factor }, v.balance.amount))
}

/// What the standard DCA that a vault is compared to swaps in one execution: the
/// vault's swap amount, at most what the standard DCA has left.
pub open spec fn standard_swap_amount(v: Vault) -> int {
    if v.swap_amount < standard_remaining(v) {
        v.swap_amount as int
    } else {
        standard_remaining(v)
    }
}

/// The vault after the standard DCA it is compared to runs once at `price`: it swaps
/// its amount unless it has nothing left or the price is beyond the vault's minimum
/// receive amount, and receives what the swap is expected to give less the swap and
/// automation fees that a vault without a performance strategy pays. `None` where an
/// amount leaves 128 bits.
pub open spec fn simulated_vault(s: State, v: Vault, price: Decimal) -> Option<Vault> {
    match v.performance_assessment_strategy {
        None => Some(v),
        Some(PerformanceAssessmentStrategy::CompareToStandardDca { swapped_amount, received_amount }) => {
            let amount = standard_swap_amount(v);
            if amount == 0 || price_threshold_exceeded_spec(amount as u128, v.minimum_receive_amount, price) {
                Some(v)
            } else {
                let gross = expected_receive(amount as u128, price);
                let auto = automation_fee_rate(s.config, v);
                if gross > u128::MAX || automated_allocation_sum(v.destinations@) > u128::MAX || auto > u128::MAX {
                    None
                } else {
                    match settle(gross as u128, swap_fee_rate(s.custom_fees@, s.config, v), Decimal { atomics: auto as u128 }, Decimal { atomics: 0 }) {
                        None => None,
                        Some(st) => if received_amount.amount + st.disbursed > u128::MAX {
                            None
                        } else {
                            Some(Vault {
                                performance_assessment_strategy: Some(PerformanceAssessmentStrategy::CompareToStandardDca {
                                    swapped_amount: Coin { denom: swapped_amount.denom, amount: (swapped_amount.amount + amount) as u128 },
                                    received_amount: Coin { denom: received_amount.denom, amount: (received_amount.amount + st.disbursed) as u128 },
                                }),
                                ..v
                            })
                        },
                    }
                }
            }
        },
    }
}

/// Runs the standard DCA that a vault is compared to once at `price`.
pub fn simulate_standard_dca_execution(state: &State, v: Vault, price: Decimal) -> (r: Result<Vault, ContractError>)
    requires
        price.atomics > 0,
    ensures
        r is Ok <==> simulated_vault(*state, v, price) is Some,
        r matches Ok(nv) ==> same_vault(nv, simulated_vault(*state, v, price)->0),
        r matches Err(e) ==> e is Std,
{
    let (swapped, received) = match &v.performance_assessment_strategy {
        None => return Ok(v),
        Some(PerformanceAssessmentStrategy::CompareToStandardDca { swapped_amount, received_amount }) => (swapped_amount.copy(), received_amount.copy()),
    };
    let remaining: u128 = if v.deposited_amount.amount > swapped.amount { v.deposited_amount.amount - swapped.amount } else { 0 };
    let amount: u128 = if v.swap_amount < remaining { v.swap_amount } else { remaining };
    if amount == 0 || price_threshold_exceeded(amount, v.minimum_receive_amount, price) {
        return Ok(v);
    }
    let gross = match checked_multiply_ratio(amount, DECIMAL_FRACTIONAL, price.atomics) {
        Ok(g) => g,
        Err(_) => return Err(overflow_error()),
    };
    let auto = get_automation_fee_rate(&state.config, &v)?;
    let swap_rate = get_swap_fee_rate(state, &v);
    let st = crate::disbursement::settle_swap(gross, swap_rate, auto, Decimal { atomics: 0 })?;
    let total = match received.amount.checked_add(st.disbursed) {
        Some(t) => t,
        None => return Err(overflow_error()),
    };
    let strategy = PerformanceAssessmentStrategy::CompareToStandardDca {
        swapped_amount: Coin { denom: swapped.denom, amount: swapped.amount + amount },
        received_amount: Coin { denom: received.denom, amount: total },
    };
    Ok(Vault { performance_assessment_strategy: Some(strategy), ..v })
}

/// The vault when its trigger fires: a scheduled vault starts now.
pub open spec fn triggered_vault(v: Vault, env: Env) -> Vault {
    if v.is_scheduled_spec() {
        Vault { status: VaultStatus::Active, started_at: Some(env.time), ..v }
    } else {
        v
    }
}

/// A vault runs again while it is active or the standard DCA it is compared to still
/// has funds to swap.
pub open spec fn executes_again(v: Vault) -> bool {
    v.is_active_spec() || v.standard_dca_running_spec()
}

/// The next target time of a vault, an interval after its last one (the current time
/// where it had none), capped at the largest time.
pub open spec fn next_trigger_time(v: Vault, env: Env) -> u64 {
    let last = match v.trigger {
        Some(TriggerConfiguration::Time { target_time }) => target_time,
        _ => env.time,
    };
    let t = next_target_time(env.time, last, v.time_interval);
    if t > u64::MAX { u64::MAX } else { t as u64 }
}

/// The vault with its trigger for the next execution where it runs again, and none
/// where it does not.
pub open spec fn rescheduled_vault(v: Vault, env: Env) -> Vault {
    Vault {
        trigger: if executes_again(v) {
            Some(TriggerConfiguration::Time { target_time: next_trigger_time(v, env) })
        } else {
            None
        },
        ..v
    }
}

/// The trigger of the vault may fire now: the contract runs, the vault exists, is not
/// cancelled, and has a trigger whose time (for a time trigger) has come.
pub open spec fn trigger_fires(s: State, env: Env, id: u128) -> bool {
    let i = vault_index(s.vaults@, id);
    let v = s.vaults@[i];
    &&& !s.config.paused
    &&& i >= 0
    &&& !v.is_cancelled_spec()
    &&& v.trigger is Some
    &&& (v.trigger matches Some(TriggerConfiguration::Time { target_time }) ==> target_time <= env.time)
}

/// The vault after its trigger fires and the standard DCA it is compared to runs.
pub open spec fn executed_vault(s: State, env: Env, id: u128, price: Decimal) -> Vault {
    simulated_vault(s, triggered_vault(s.vaults@[vault_index(s.vaults@, id)], env), price)->0
}

/// The execution goes through: the trigger fires and no amount leaves 128 bits.
pub open spec fn execution_succeeds(s: State, env: Env, id: u128, price: Decimal) -> bool {
    &&& trigger_fires(s, env, id)
    &&& simulated_vault(s, triggered_vault(s.vaults@[vault_index(s.vaults@, id)], env), price) is Some
    &&& (executes_again(executed_vault(s, env, id, price)) && executed_vault(s, env, id, price).is_active_spec())
        ==> vault_swap_amount(s.swap_adjustments@, rescheduled_vault(executed_vault(s, env, id, price), env), price) is Some
}

/// The text of an execution refused because the vault is cancelled.
pub open spec fn cancelled_text(id: u128) -> Seq<char> {
    "vault with id "@ + crate::text::decimal_text(id as nat) + " is cancelled, and is not available for execution"@
}

/// The text of an execution refused because the vault has no trigger.
pub open spec fn no_trigger_text(id: u128) -> Seq<char> {
    "vault with id "@ + crate::text::decimal_text(id as nat) + " has no trigger attached, and is not available for execution"@
}

/// The refusal of a trigger that may not fire, in the order of the checks: the contract
/// is paused, the vault is not found, is cancelled, has no trigger, or its time has not
/// come; `None` when the trigger fires.
pub open spec fn trigger_refusal(s: State, env: Env, id: u128) -> Option<Seq<char>> {
    let i = vault_index(s.vaults@, id);
    let v = s.vaults@[i];
    if s.config.paused {
        Some("Error: "@ + "contract is paused"@)
    } else if i < 0 {
        Some(crate::state::not_found_text(id))
    } else if v.is_cancelled_spec() {
        Some("Error: "@ + cancelled_text(v.id))
    } else if v.trigger is None {
        Some("Error: "@ + no_trigger_text(v.id))
    } else if v.trigger matches Some(TriggerConfiguration::Time { target_time }) && target_time > env.time {
        Some("Error: "@ + "trigger execution time has not yet elapsed"@)
    } else {
        None
    }
}

/// Checks that a vault's trigger may fire now, before anything is asked of the chain
/// for it, and gives the vault's place in the store.
pub fn check_trigger_fires(state: &State, env: &Env, trigger_id: u128) -> (r: Result<usize, ContractError>)
    ensures
        r is Ok <==> trigger_fires(*state, *env, trigger_id),
        r is Ok <==> trigger_refusal(*state, *env, trigger_id) is None,
        r matches Ok(i) ==> i == vault_index(state.vaults@, trigger_id) && i < state.vaults@.len(),
        r matches Err(e) ==> trigger_refusal(*state, *env, trigger_id) == Some(e.text()),
{
    assert_contract_is_not_paused(&state.config)?;
    let i = state.vault_position(trigger_id)?;
    let v0 = &state.vaults[i];
    if v0.is_cancelled() {
        let n = amount_text(v0.id);
        return Err(custom(join3("vault with id ", n.as_str(), " is cancelled, and is not available for execution")));
    }
    if v0.trigger.is_none() {
        let n = amount_text(v0.id);
        return Err(custom(join3("vault with id ", n.as_str(), " has no trigger attached, and is not available for execution")));
    }
    if let Some(TriggerConfiguration::Time { target_time }) = v0.trigger {
        assert_target_time_is_in_past(env.time, target_time)?;
    }
    Ok(i)
}

/// A swap of `offer` on the pair, accepting at least `minimum` back, whose outcome
/// comes back under the swap reply id.
pub open spec fn swap_msg_of(m: SubMsg, pair: Pair, offer: Coin, minimum: u128) -> bool {
    &&& m.reply_id == Some(AFTER_SWAP_REPLY_ID)
    &&& m.msg matches CosmosMsg::Swap { pair: q, offer: o, minimum_receive }
        && q.base_denom == pair.base_denom && q.quote_denom == pair.quote_denom
        && q.route@ == pair.route@ && o == offer && minimum_receive == Some(minimum)
}

/// A vault's trigger fires. A scheduled vault starts; the standard DCA it is compared
/// to, if any, runs at the belief price; the vault gets its next trigger if it runs
/// again (otherwise a vault with a performance strategy has its escrow paid out);
/// an active vault then swaps its amount, unless the price is beyond its minimum
/// receive amount, with the balances before the swap kept for the reply.
#[verifier::rlimit(100)]
pub fn execute_trigger_handler(state: &mut State, env: &Env, trigger_id: u128, belief_price: Decimal, swap_denom_balance: u128, receive_denom_balance: u128) -> (r: Result<Response, ContractError>)
    requires
        wf(*old(state)),
        has_room(*old(state)),
        trigger_refusal(*old(state), *env, trigger_id) is None ==> belief_price.atomics > 0,
    ensures
        r is Err ==> *final(state) == *old(state),
        r is Ok <==> execution_succeeds(*old(state), *env, trigger_id, belief_price),
        r matches Err(e) ==> match trigger_refusal(*old(state), *env, trigger_id) {
            Some(t) => e.text() == t,
            None => e is Std,
        },
        r matches Ok(resp) ==> ({
            let nv = final(state).vaults@[vault_index(old(state).vaults@, trigger_id)];
            (nv.performance_assessment_strategy matches Some(PerformanceAssessmentStrategy::CompareToStandardDca { swapped_amount, .. })
                && nv.deposited_amount.amount > swapped_amount.amount
                && nv.deposited_amount.amount - swapped_amount.amount > MINIMUM_SWAP_AMOUNT) ==> {
                &&& nv.trigger matches Some(TriggerConfiguration::Time { target_time }) && (target_time > env.time || target_time == u64::MAX)
                &&& forall|k: int| 0 <= k < resp.messages@.len()
                    ==> !(#[trigger] resp.messages@[k].msg matches CosmosMsg::ExecuteSelf { msg: SelfMsg::DisburseEscrow { .. } })
            }
        }),
        r matches Ok(resp) ==> {
            let s = *old(state);
            let i = vault_index(s.vaults@, trigger_id);
            let v = s.vaults@[i];
            let p = v.pair;
            let v2 = executed_vault(s, *env, trigger_id, belief_price);
            let v3 = rescheduled_vault(v2, *env);
            let e1 = next_event(s.events@.len(), v.id, *env, EventData::DcaVaultExecutionTriggered {
                base_denom: p.base_denom,
                quote_denom: p.quote_denom,
                asset_price: belief_price,
            });
            let swaps = executes_again(v2) && v2.is_active_spec();
            let amount = vault_swap_amount(s.swap_adjustments@, v3, belief_price)->0;
            let skipped = price_threshold_exceeded_spec(amount as u128, v3.minimum_receive_amount, belief_price);
            &&& final(state).vaults@ == s.vaults@.update(i, final(state).vaults@[i])
            &&& same_vault(final(state).vaults@[i], v3)
            &&& wf(*final(state))
            &&& final(state).config == s.config
            &&& final(state).pairs == s.pairs
            &&& final(state).next_vault_id == s.next_vault_id
            &&& final(state).custom_fees == s.custom_fees
            &&& final(state).swap_adjustments == s.swap_adjustments
            &&& final(state).disburse_escrow_tasks == s.disburse_escrow_tasks
            &&& final(state).post_execution_actions == s.post_execution_actions
            &&& final(state).limit_order_cache == s.limit_order_cache
            &&& resp.attributes@.len() == 1
            &&& resp.attributes@[0].key@ == "method"@
            &&& resp.attributes@[0].value@ == "execute_trigger"@
            &&& !executes_again(v2) ==> {
                &&& final(state).events@ == s.events@.push(e1)
                &&& final(state).vault_cache == s.vault_cache
                &&& final(state).swap_cache == s.swap_cache
                &&& resp.messages@ == if v2.performance_assessment_strategy is Some {
                    seq![SubMsg { msg: CosmosMsg::ExecuteSelf { msg: SelfMsg::DisburseEscrow { vault_id: v.id } }, reply_id: None }]
                } else {
                    Seq::<SubMsg>::empty()
                }
            }
            &&& (executes_again(v2) && (!swaps || skipped)) ==> {
                &&& final(state).events@ == if swaps {
                    s.events@.push(e1).push(next_event(s.events@.len() + 1, v.id, *env, EventData::DcaVaultExecutionSkipped {
                        reason: ExecutionSkippedReason::PriceThresholdExceeded { price: belief_price },
                    }))
                } else {
                    s.events@.push(e1)
                }
                &&& final(state).vault_cache == s.vault_cache
                &&& final(state).swap_cache == s.swap_cache
                &&& resp.messages@.len() == 0
            }
            &&& (swaps && !skipped) ==> {
                &&& final(state).events@ == s.events@.push(e1)
                &&& final(state).vault_cache == Some(v.id)
                &&& final(state).swap_cache == Some(SwapCache {
                    swap_denom_balance: Coin { denom: v.balance.denom, amount: swap_denom_balance },
                    receive_denom_balance: Coin { denom: v.target_denom, amount: receive_denom_balance },
                })
                &&& resp.messages@.len() == 1
                &&& swap_msg_of(resp.messages@[0], p, Coin { denom: v.balance.denom, amount: amount as u128 },
                    minimum_receive_with_slippage(amount as u128, belief_price, crate::types::effective_slippage(s.config, v)) as u128)
            }
        },
{
    let i = check_trigger_fires(state, env, trigger_id)?;
    let v0 = &state.vaults[i];
    let pair = v0.pair.copy();
    let mut v = v0.copy();
    if v.is_scheduled() {
        v.status = VaultStatus::Active;
        v.started_at = Some(env.time);
    }
    let mut v = simulate_standard_dca_execution(state, v, belief_price)?;
    let again = v.is_active() || v.standard_dca_running();
    let swaps = again && v.is_active();
    let last = match v.trigger {
        Some(TriggerConfiguration::Time { target_time }) => target_time,
        _ => env.time,
    };
    let next = get_next_target_time(env.time, last, &v.time_interval);
    proof {
        crate::schedule::lemma_next_target_time_is_future(env.time, last, v.time_interval);
    }
    v.trigger = if again { Some(TriggerConfiguration::Time { target_time: next }) } else { None };
    let amount: u128 = if swaps { get_vault_swap_amount(state, &v, belief_price)? } else { 0 };
    let skipped = swaps && price_threshold_exceeded(amount, v.minimum_receive_amount, belief_price);
    let has_strategy = v.performance_assessment_strategy.is_some();
    let id = v.id;
    let swap_denom = v.balance.denom.clone();
    let target_denom = v.target_denom.clone();
    let slippage = crate::types::vault_slippage(&state.config, &v);
    let ghost s0 = *state;
    put_vault(state, i, v);
    proof {
        lemma_update_keeps_wf(s0, *state, i as int, state.vaults@[i as int]);
    }
    let ghost s1 = *state;
    state.create_event(id, env, EventData::DcaVaultExecutionTriggered {
        base_denom: pair.base_denom.clone(),
        quote_denom: pair.quote_denom.clone(),
        asset_price: belief_price,
    });
    proof {
        lemma_push_event_keeps_wf(s1, *state, state.events@.last());
    }
    let mut resp = Response::new();
    resp.add_attribute("method", String::from_str("execute_trigger"));
    if !again {
        if has_strategy {
            resp.add_message(SubMsg { msg: CosmosMsg::ExecuteSelf { msg: SelfMsg::DisburseEscrow { vault_id: id } }, reply_id: None });
        }
        return Ok(resp);
    }
    if !swaps {
        return Ok(resp);
    }
    if skipped {
        let ghost s2 = *state;
        state.create_event(id, env, EventData::DcaVaultExecutionSkipped {
            reason: ExecutionSkippedReason::PriceThresholdExceeded { price: belief_price },
        });
        proof {
            lemma_push_event_keeps_wf(s2, *state, state.events@.last());
        }
        return Ok(resp);
    }
    let minimum = get_minimum_receive(amount, belief_price, slippage);
    state.vault_cache = Some(id);
    state.swap_cache = Some(SwapCache {
        swap_denom_balance: Coin { denom: swap_denom.clone(), amount: swap_denom_balance },
        receive_denom_balance: Coin { denom: target_denom, amount: receive_denom_balance },
    });
    resp.add_message(SubMsg {
        msg: CosmosMsg::Swap { pair, offer: Coin { denom: swap_denom, amount }, minimum_receive: Some(minimum) },
        reply_id: Some(AFTER_SWAP_REPLY_ID),
    });
    Ok(resp)
}

/// The fee rates of a vault's swap: none for a vault compared to a standard DCA (its
/// fee comes out of its escrow), else its swap fee rate and its automation fee rate.
/// `None` where the automation rate leaves 128 bits.
pub open spec fn fee_rates(s: State, v: Vault) -> Option<(Decimal, Decimal)> {
    if v.performance_assessment_strategy is Some {
        Some((Decimal { atomics: 0 }, Decimal { atomics: 0 }))
    } else if automated_allocation_sum(v.destinations@) > u128::MAX || automation_fee_rate(s.config, v) > u128::MAX {
        None
    } else {
        Some((swap_fee_rate(s.custom_fees@, s.config, v), Decimal { atomics: automation_fee_rate(s.config, v) as u128 }))
    }
}

/// The contract's balances of a vault's two denominations after its swap.
#[derive(Debug, Clone, Copy, PartialEq, Eq, Structural)]
pub struct SwapBalances {
    pub swap_denom: u128,
    pub receive_denom: u128,
}

/// What a swap sent and received, and how what it received is settled.
pub struct SwapProceeds {
    pub sent: u128,
    pub received: u128,
    pub settlement: Settlement,
}

/// What a swap sent and received, from the balances before it (kept in the swap
/// cache) and after it, and how what it received is settled. `None` without a swap
/// cache, where a balance moved the wrong way, or where an amount leaves 128 bits.
pub open spec fn swap_proceeds(s: State, v: Vault, b: SwapBalances) -> Option<SwapProceeds> {
    let swap_balance = b.swap_denom;
    let receive_balance = b.receive_denom;
    match s.swap_cache {
        None => None,
        Some(c) => if swap_balance > c.swap_denom_balance.amount || receive_balance < c.receive_denom_balance.amount {
            None
        } else {
            let sent = (c.swap_denom_balance.amount - swap_balance) as u128;
            let received = (receive_balance - c.receive_denom_balance.amount) as u128;
            match fee_rates(s, v) {
                None => None,
                Some((a, b)) => match settle(received, a, b, v.escrow_level) {
                    None => None,
                    Some(st) => Some(SwapProceeds { sent, received, settlement: st }),
                },
            }
        },
    }
}

/// The vault after a swap that sent `sent` and whose proceeds were settled as `st`:
/// the balance less what was sent, the swap added to its statistics (what it keeps of
/// the proceeds, escrow included) and the escrow to its escrowed amount; inactive once
/// nothing is left. `None` where more was sent than it held or a sum leaves 128 bits.
pub open spec fn swapped_vault(v: Vault, sent: u128, st: Settlement) -> Option<Vault> {
    let kept = st.disbursed + st.escrowed;
    if sent > v.balance.amount || v.swapped_amount.amount + sent > u128::MAX || v.received_amount.amount + kept > u128::MAX
        || v.escrowed_amount.amount + st.escrowed > u128::MAX {
        None
    } else {
        let balance = (v.balance.amount - sent) as u128;
        Some(Vault {
            balance: Coin { denom: v.balance.denom, amount: balance },
            swapped_amount: Coin { denom: v.swapped_amount.denom, amount: (v.swapped_amount.amount + sent) as u128 },
            received_amount: Coin { denom: v.received_amount.denom, amount: (v.received_amount.amount + kept) as u128 },
            escrowed_amount: Coin { denom: v.escrowed_amount.denom, amount: (v.escrowed_amount.amount + st.escrowed) as u128 },
            status: if balance == 0 { VaultStatus::Inactive } else { v.status },
            ..v
        })
    }
}

/// A vault that does not continue loses its trigger.
pub open spec fn settled_vault(v: Vault) -> Vault {
    if v.should_not_continue_spec() {
        Vault { trigger: None, ..v }
    } else {
        v
    }
}

/// The text of the error of a load of an empty cache of the given type.
pub open spec fn cache_missing_text(kind: Seq<char>) -> Seq<char> {
    kind + " not found"@
}

/// The text `{amount}{denom}` of a coin.
pub open spec fn coin_text(c: Coin) -> Seq<char> {
    decimal_text(c.amount as nat) + c.denom@
}

/// The text of a coin.
pub fn coin_to_string(c: &Coin) -> (s: String)
    ensures
        s@ == coin_text(*c),
{
    let mut s = amount_text(c.amount);
    s.append(c.denom.as_str());
    s
}

/// The vault that the pending swap belongs to, and the place where it is stored.
pub open spec fn cached_vault_index(s: State) -> int {
    match s.vault_cache {
        Some(id) => vault_index(s.vaults@, id),
        None => -1,
    }
}

/// Paying out a swap goes through: the cached vault exists and, for a swap that went
/// through, its proceeds can be settled and its vault updated without leaving 128 bits.
pub open spec fn disburse_succeeds(s: State, balances: Option<SwapBalances>) -> bool {
    let i = cached_vault_index(s);
    let v = s.vaults@[i];
    &&& i >= 0
    &&& balances matches Some(b) ==> {
        &&& swap_proceeds(s, v, b) is Some
        &&& swapped_vault(v, swap_proceeds(s, v, b)->0.sent, swap_proceeds(s, v, b)->0.settlement) is Some
        &&& forall|k: int| 0 <= k < v.destinations@.len() ==> #[trigger] share_of(swap_proceeds(s, v, b)->0.settlement.disbursed, v.destinations@[k]) <= u128::MAX
    }
}

/// The outcome of a vault's swap comes back, with the contract's balances of the two
/// denominations after it where it went through. Where it went through, the fees go
/// to the fee collectors, the escrow is kept, the rest is split between the
/// destinations (whose messages are queued for their outcome) and the vault's
/// statistics move on; where it failed, the execution is recorded as skipped. A vault
/// that does not continue has its trigger removed and its escrow, if any, paid out.
#[verifier::rlimit(100)]
pub fn disburse_funds_handler(state: &mut State, env: &Env, balances: Option<SwapBalances>) -> (r: Result<Response, ContractError>)
    requires
        contract_wf(*old(state)),
        has_room(*old(state)),
    ensures
        r is Err ==> *final(state) == *old(state),
        r is Ok <==> disburse_succeeds(*old(state), balances),
        r matches Err(e) ==> {
            if old(state).vault_cache is None {
                e.text() == cache_missing_text("dca::state::cache::VaultCache"@)
            } else if cached_vault_index(*old(state)) < 0 {
                e.text() == crate::state::not_found_text(old(state).vault_cache->0)
            } else {
                e is Std
            }
        },
        r matches Ok(resp) ==> {
            let s = *old(state);
            let i = cached_vault_index(s);
            let v = s.vaults@[i];
            let outcome = swap_proceeds(s, v, balances->0)->0;
            let st = outcome.settlement;
            let v1 = if balances is Some { swapped_vault(v, outcome.sent, st)->0 } else { v };
            let escrow_due = v1.should_not_continue_spec() && v1.escrowed_amount.amount > 0;
            let fees = fee_payments(s.config.fee_collectors@, seq![st.swap_fee, st.automation_fee], v.target_denom);
            let nf = if balances is Some { fees.len() } else { 0 };
            let nd = if balances is Some { v.destinations@.len() } else { 0 };
            &&& final(state).vaults@ == s.vaults@.update(i, final(state).vaults@[i])
            &&& same_vault(final(state).vaults@[i], settled_vault(v1))
            &&& contract_wf(*final(state))
            &&& final(state).config == s.config
            &&& final(state).pairs == s.pairs
            &&& final(state).next_vault_id == s.next_vault_id
            &&& final(state).custom_fees == s.custom_fees
            &&& final(state).swap_adjustments == s.swap_adjustments
            &&& final(state).disburse_escrow_tasks == s.disburse_escrow_tasks
            &&& final(state).vault_cache == s.vault_cache
            &&& final(state).swap_cache == s.swap_cache
            &&& final(state).limit_order_cache == s.limit_order_cache
            &&& resp.messages@.len() == nf + nd + if escrow_due { 1int } else { 0int }
            &&& balances is Some ==> pays(resp.messages@.subrange(0, nf as int), fees)
            &&& forall|k: int| 0 <= k < nd ==> disbursement_msg_of(#[trigger] resp.messages@[nf + k], v.destinations@[k], share_coin(st.disbursed, v.destinations@[k], v.target_denom))
            &&& escrow_due ==> resp.messages@.last() == SubMsg { msg: CosmosMsg::ExecuteSelf { msg: SelfMsg::DisburseEscrow { vault_id: v.id } }, reply_id: None }
            &&& (balances is Some && destination_allocation_sum(v.destinations@) <= DECIMAL_FRACTIONAL)
                ==> messages_sent(resp.messages@, v.target_denom@) + st.escrowed <= outcome.received
            &&& balances is Some ==> final(state).vaults@[i].received_amount.amount
                == v.received_amount.amount + outcome.received - st.swap_fee - st.automation_fee
            &&& balances is Some ==> final(state).vaults@[i].escrowed_amount.amount == v.escrowed_amount.amount + st.escrowed
            &&& resp.attributes@[0].key@ == "funds_disbursed"@
            &&& resp.attributes@[0].value@ == decimal_text(v.id as nat)
            &&& balances is None ==> {
                &&& final(state).events@ == s.events@.push(next_event(s.events@.len(), v.id, *env, EventData::DcaVaultExecutionSkipped { reason: ExecutionSkippedReason::SlippageToleranceExceeded }))
                &&& final(state).post_execution_actions == s.post_execution_actions
                &&& resp.attributes@.len() == 2
                &&& resp.attributes@[1].key@ == "execution_skipped"@
                &&& resp.attributes@[1].value@ == "slippage_tolerance_exceeded"@
            }
            &&& balances is Some ==> {
                let c = s.swap_cache->0;
                let sent = Coin { denom: c.swap_denom_balance.denom, amount: outcome.sent };
                let received = Coin { denom: v.target_denom, amount: outcome.received };
                let fee = (st.swap_fee + st.automation_fee) as u128;
                let q = final(state).post_execution_actions@.last();
                &&& final(state).events@ == s.events@.push(next_event(s.events@.len(), v.id, *env, EventData::DcaVaultExecutionCompleted {
                    sent,
                    received,
                    fee: Coin { denom: v.target_denom, amount: fee },
                }))
                &&& final(state).post_execution_actions@.drop_last() == s.post_execution_actions@
                &&& q.vault_id == v.id
                &&& q.entries@.len() == nd
                &&& forall|k: int| 0 <= k < nd ==> same_msg((#[trigger] q.entries@[k]).msg, resp.messages@[nf + k])
                    && q.entries@[k].funds@ == seq![share_coin(st.disbursed, v.destinations@[k], v.target_denom)]
                &&& resp.attributes@.len() == 4
                &&& resp.attributes@[1].key@ == "swapped_amount"@
                &&& resp.attributes@[1].value@ == coin_text(sent)
                &&& resp.attributes@[2].key@ == "received_amount"@
                &&& resp.attributes@[2].value@ == coin_text(received)
                &&& resp.attributes@[3].key@ == "fee_amount"@
                &&& resp.attributes@[3].value@ == decimal_text(fee as nat)
            }
        },
{
    let id = match state.vault_cache {
        Some(id) => id,
        None => return Err(ContractError::Std(StdError::NotFound { kind: String::from_str("dca::state::cache::VaultCache") })),
    };
    let i = state.vault_position(id)?;
    proof {
        crate::state::lemma_vault_index(state.vaults@, id);
    }
    let v = &state.vaults[i];
    let mut nv = v.copy();
    let ghost gv = *v;
    let ghost mut g_st = Settlement { swap_fee: 0, automation_fee: 0, escrowed: 0, disbursed: 0 };
    let ghost mut g_received: u128 = 0;
    let ghost mut g_fees: Seq<u128> = Seq::empty();
    let ghost mut fview: Seq<SubMsg> = Seq::empty();
    let ghost mut dview: Seq<SubMsg> = Seq::empty();
    let mut msgs: Vec<SubMsg> = Vec::new();
    let mut attributes: Vec<Attribute> = Vec::new();
    let mut actions: Option<Vec<PostExecutionAction>> = None;
    let mut completed: Option<(Coin, Coin, Coin)> = None;
    match balances {
        Some(b) => {
            let sb = b.swap_denom;
            let rb = b.receive_denom;
            let c = match &state.swap_cache {
                Some(c) => c,
                None => return Err(ContractError::Std(StdError::NotFound { kind: String::from_str("dca::state::cache::SwapCache") })),
            };
            if sb > c.swap_denom_balance.amount {
                return Err(sub_overflow(c.swap_denom_balance.amount, sb));
            }
            if rb < c.receive_denom_balance.amount {
                return Err(sub_overflow(rb, c.receive_denom_balance.amount));
            }
            let sent = c.swap_denom_balance.amount - sb;
            let received = rb - c.receive_denom_balance.amount;
            let (swap_rate, auto_rate) = if v.performance_assessment_strategy.is_some() {
                (Decimal { atomics: 0 }, Decimal { atomics: 0 })
            } else {
                let a = get_automation_fee_rate(&state.config, v)?;
                (get_swap_fee_rate(state, v), a)
            };
            let st = settle_swap(received, swap_rate, auto_rate, v.escrow_level)?;
            if sent > v.balance.amount {
                return Err(sub_overflow(v.balance.amount, sent));
            }
            let swapped = match v.swapped_amount.amount.checked_add(sent) {
                Some(x) => x,
                None => return Err(overflow_error()),
            };
            let kept = st.disbursed + st.escrowed;
            let total_received = match v.received_amount.amount.checked_add(kept) {
                Some(x) => x,
                None => return Err(overflow_error()),
            };
            let escrowed = match v.escrowed_amount.amount.checked_add(st.escrowed) {
                Some(x) => x,
                None => return Err(overflow_error()),
            };
            let (dmsgs, dactions) = get_disbursement_messages(v, st.disbursed)?;
            let mut fee_list: Vec<u128> = Vec::new();
            fee_list.push(st.swap_fee);
            fee_list.push(st.automation_fee);
            assert(fee_list@ == seq![st.swap_fee, st.automation_fee]);
            let fmsgs = get_fee_messages(&state.config.fee_collectors, &fee_list, &v.target_denom);
            proof {
                fview = fmsgs@;
                dview = dmsgs@;
                g_st = st;
                g_received = received;
                g_fees = fee_list@;
                lemma_settlement_conserves(received, swap_rate, auto_rate, v.escrow_level);
                assert(fee_rates(*state, *v) == Some((swap_rate, auto_rate)));
                assert(swap_proceeds(*state, *v, b) == Some(SwapProceeds { sent, received, settlement: st }));
            }
            msgs = fmsgs;
            let mut dmsgs = dmsgs;
            msgs.append(&mut dmsgs);
            assert(msgs@.subrange(0, fview.len() as int) == fview);
            nv.balance.amount = v.balance.amount - sent;
            nv.swapped_amount.amount = swapped;
            nv.received_amount.amount = total_received;
            nv.escrowed_amount.amount = escrowed;
            if nv.balance.amount == 0 {
                nv.status = VaultStatus::Inactive;
            }
            actions = Some(dactions);
            let fee = st.swap_fee + st.automation_fee;
            completed = Some((
                Coin { denom: c.swap_denom_balance.denom.clone(), amount: sent },
                Coin { denom: v.target_denom.clone(), amount: received },
                Coin { denom: v.target_denom.clone(), amount: fee },
            ));
        },
        None => {},
    }
    let escrow_due = nv.should_not_continue() && nv.escrowed_amount.amount > 0;
    if nv.should_not_continue() {
        nv.trigger = None;
    }
    let ghost before_escrow = msgs@;
    if escrow_due {
        msgs.push(SubMsg { msg: CosmosMsg::ExecuteSelf { msg: SelfMsg::DisburseEscrow { vault_id: id } }, reply_id: None });
    }
    assert(msgs@.subrange(0, before_escrow.len() as int) == before_escrow);
    let ghost s0 = *state;
    put_vault(state, i, nv);
    proof {
        lemma_update_keeps_wf(s0, *state, i as int, state.vaults@[i as int]);
    }
    let ghost s1 = *state;
    let mut resp = Response::new();
    resp.add_attribute("funds_disbursed", amount_text(id));
    match completed {
        Some((sent, received, fee)) => {
            let fee_text = amount_text(fee.amount);
            resp.add_attribute("swapped_amount", coin_to_string(&sent));
            resp.add_attribute("received_amount", coin_to_string(&received));
            resp.add_attribute("fee_amount", fee_text);
            state.create_event(id, env, EventData::DcaVaultExecutionCompleted { sent, received, fee });
        },
        None => {
            resp.add_attribute("execution_skipped", String::from_str("slippage_tolerance_exceeded"));
            state.create_event(id, env, EventData::DcaVaultExecutionSkipped { reason: ExecutionSkippedReason::SlippageToleranceExceeded });
        },
    }
    proof {
        lemma_push_event_keeps_wf(s1, *state, state.events@.last());
    }
    if let Some(entries) = actions {
        state.post_execution_actions.push(PostExecutionQueue { vault_id: id, entries });
    }
    let ghost before_add = resp.messages@;
    resp.add_messages(msgs);
    proof {
        if balances is Some && destination_allocation_sum(gv.destinations@) <= DECIMAL_FRACTIONAL {
            let m = resp.messages@;
            let nf = fview.len() as int;
            let nd = dview.len() as int;
            assert(before_add.len() == 0);
            assert(m =~= msgs@);
            assert(m.subrange(0, nf) =~= fview);
            assert forall|k: int| 0 <= k < gv.destinations@.len() implies disbursement_msg_of(
                #[trigger] m[fee_payments(state.config.fee_collectors@, g_fees, gv.target_denom).len() + k],
                gv.destinations@[k], share_coin(g_st.disbursed, gv.destinations@[k], gv.target_denom)) by {
                assert(m[nf + k] == dview[k]);
            }
            crate::laws::law_disbursement_within_received(m, state.config.fee_collectors@, gv.destinations@,
                gv.target_denom, g_received, g_st, g_fees);
        }
    }
    Ok(resp)
}

/// A copy of a list of coins.
pub fn copy_coins(cs: &Vec<Coin>) -> (r: Vec<Coin>)
    ensures
        r@ == cs@,
{
    let mut r: Vec<Coin> = Vec::new();
    let mut i: usize = 0;
    while i < cs.len()
        invariant
            i <= cs.len(),
            r@ == cs@.subrange(0, i as int),
        decreases cs.len() - i,
    {
        r.push(cs[i].copy());
        i = i + 1;
    }
    assert(r@ == cs@);
    r
}

/// The queue of post-execution actions that a destination's reply belongs to holds an
/// entry for it, and no more entries than the vault has destinations.
pub open spec fn automation_reply_expected(s: State) -> bool {
    match s.vault_cache {
        None => true,
        Some(id) => (vault_index(s.vaults@, id) >= 0 && queue_index(s.post_execution_actions@, id) >= 0) ==> {
            let entries = s.post_execution_actions@[queue_index(s.post_execution_actions@, id)].entries@;
            &&& entries.len() > 0
            &&& entries.len() - 1 <= s.vaults@[vault_index(s.vaults@, id)].destinations@.len()
        },
    }
}

/// The text of the error of a load of a missing queue of post-execution actions.
pub open spec fn queue_missing_text() -> Seq<char> {
    "alloc::collections::vec_deque::VecDeque<dca::state::cache::PostExecutionActionCacheEntry>"@ + " not found"@
}

/// The outcome of a destination's message comes back: its entry leaves the front of
/// the vault's queue; where the message failed, the event is recorded and its coins go
/// back to the vault's owner.
pub fn handle_failed_automation_handler(state: &mut State, env: &Env, succeeded: bool) -> (r: Result<Response, ContractError>)
    requires
        wf(*old(state)),
        has_room(*old(state)),
        automation_reply_expected(*old(state)),
    ensures
        r is Err ==> *final(state) == *old(state),
        r is Ok <==> ({
            let s = *old(state);
            s.vault_cache is Some && vault_index(s.vaults@, s.vault_cache->0) >= 0 && queue_index(s.post_execution_actions@, s.vault_cache->0) >= 0
        }),
        r matches Err(e) ==> {
            let s = *old(state);
            if s.vault_cache is None {
                e.text() == cache_missing_text("dca::state::cache::VaultCache"@)
            } else if vault_index(s.vaults@, s.vault_cache->0) < 0 {
                e.text() == crate::state::not_found_text(s.vault_cache->0)
            } else {
                e.text() == queue_missing_text()
            }
        },
        r matches Ok(resp) ==> {
            let s = *old(state);
            let id = s.vault_cache->0;
            let v = s.vaults@[vault_index(s.vaults@, id)];
            let q = queue_index(s.post_execution_actions@, id);
            let entries = s.post_execution_actions@[q].entries@;
            let first = entries[0];
            let n = v.destinations@.len() - (entries.len() - 1);
            &&& final(state).post_execution_actions@.len() == s.post_execution_actions@.len()
            &&& final(state).post_execution_actions@.drop_last() == s.post_execution_actions@.remove(q)
            &&& final(state).post_execution_actions@.last().vault_id == id
            &&& final(state).post_execution_actions@.last().entries@ == entries.drop_first()
            &&& final(state).vaults == s.vaults
            &&& final(state).config == s.config
            &&& final(state).pairs == s.pairs
            &&& final(state).next_vault_id == s.next_vault_id
            &&& final(state).custom_fees == s.custom_fees
            &&& final(state).swap_adjustments == s.swap_adjustments
            &&& final(state).disburse_escrow_tasks == s.disburse_escrow_tasks
            &&& final(state).vault_cache == s.vault_cache
            &&& final(state).swap_cache == s.swap_cache
            &&& final(state).limit_order_cache == s.limit_order_cache
            &&& wf(*final(state))
            &&& resp.attributes@.len() == 1
            &&& resp.attributes@[0].key@ == "destination_msg_"@ + decimal_text(n as nat)
            &&& succeeded ==> {
                &&& resp.attributes@[0].value@ == "succeeded"@
                &&& resp.messages@.len() == 0
                &&& final(state).events == s.events
            }
            &&& !succeeded ==> {
                &&& resp.attributes@[0].value@ == "failed"@
                &&& resp.messages@.len() == 1
                &&& crate::fees::bank_send_of_all(resp.messages@[0], v.owner, first.funds@)
                &&& final(state).events@ == s.events@.push(next_event(s.events@.len(), id, *env, EventData::DcaVaultPostExecutionActionFailed { msg: first.msg, funds: first.funds }))
            }
        },
{
    let id = match state.vault_cache {
        Some(id) => id,
        None => return Err(ContractError::Std(StdError::NotFound { kind: String::from_str("dca::state::cache::VaultCache") })),
    };
    let i = state.vault_position(id)?;
    proof {
        crate::state::lemma_vault_index(state.vaults@, id);
    }
    let q = match state.find_queue(id) {
        Some(q) => q,
        None => return Err(ContractError::Std(StdError::NotFound {
            kind: String::from_str("alloc::collections::vec_deque::VecDeque<dca::state::cache::PostExecutionActionCacheEntry>"),
        })),
    };
    let n_dest = state.vaults[i].destinations.len();
    let owner = state.vaults[i].owner.clone();
    let ghost s0 = *state;
    let queue = state.post_execution_actions.remove(q);
    let mut entries = queue.entries;
    let first = entries.remove(0);
    let n = n_dest - entries.len();
    state.post_execution_actions.push(PostExecutionQueue { vault_id: id, entries });
    assert(state.post_execution_actions@.drop_last() == s0.post_execution_actions@.remove(q as int));
    let key = join("destination_msg_", amount_text(n as u128).as_str());
    let mut resp = Response::new();
    if succeeded {
        resp.add_attribute(key.as_str(), String::from_str("succeeded"));
        return Ok(resp);
    }
    resp.add_attribute(key.as_str(), String::from_str("failed"));
    let funds = copy_coins(&first.funds);
    resp.add_message(SubMsg { msg: CosmosMsg::BankSend { to_address: owner, amount: funds }, reply_id: None });
    let ghost s1 = *state;
    state.create_event(id, env, EventData::DcaVaultPostExecutionActionFailed { msg: first.msg, funds: first.funds });
    proof {
        lemma_push_event_keeps_wf(s1, *state, state.events@.last());
    }
    Ok(resp)
}

/// What an outcome that comes back to the contract belongs to.
#[derive(Debug, Clone, Copy, PartialEq, Eq, Structural)]
pub enum ReplyKind {
    Swap,
    Delegation,
    ProvideLiquidity,
    BondLpTokens,
}

pub open spec fn unhandled_reply_text(id: u64) -> Seq<char> {
    "unhandled DCA contract reply id: "@ + decimal_text(id as nat)
}

/// Which handler an outcome goes to, by its reply id.
pub fn route_reply(id: u64) -> (r: Result<ReplyKind, ContractError>)
    ensures
        id == AFTER_SWAP_REPLY_ID <==> r == Ok::<ReplyKind, ContractError>(ReplyKind::Swap),
        id == crate::types::AFTER_DELEGATION_REPLY_ID <==> r == Ok::<ReplyKind, ContractError>(ReplyKind::Delegation),
        id == crate::types::AFTER_PROVIDE_LIQUIDITY_REPLY_ID <==> r == Ok::<ReplyKind, ContractError>(ReplyKind::ProvideLiquidity),
        id == crate::types::AFTER_BOND_LP_TOKENS_REPLY_ID <==> r == Ok::<ReplyKind, ContractError>(ReplyKind::BondLpTokens),
        r is Err <==> !(id == AFTER_SWAP_REPLY_ID || id == crate::types::AFTER_DELEGATION_REPLY_ID
            || id == crate::types::AFTER_PROVIDE_LIQUIDITY_REPLY_ID || id == crate::types::AFTER_BOND_LP_TOKENS_REPLY_ID),
        r matches Err(e) ==> e.text() == "Error: "@ + unhandled_reply_text(id),
{
    if id == AFTER_SWAP_REPLY_ID {
        Ok(ReplyKind::Swap)
    } else if id == crate::types::AFTER_DELEGATION_REPLY_ID {
        Ok(ReplyKind::Delegation)
    } else if id == crate::types::AFTER_PROVIDE_LIQUIDITY_REPLY_ID {
        Ok(ReplyKind::ProvideLiquidity)
    } else if id == crate::types::AFTER_BOND_LP_TOKENS_REPLY_ID {
        Ok(ReplyKind::BondLpTokens)
    } else {
        let n = crate::text::u64_text(id);
        Err(custom(join("unhandled DCA contract reply id: ", n.as_str())))
    }
}

} // verus!
