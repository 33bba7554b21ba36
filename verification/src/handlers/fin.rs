//! Vaults that run on a FIN market: a resting limit order is their trigger; it is
//! placed, moved, withdrawn or retracted, and the swaps it leads to are paid out.
use vstd::prelude::*;
use crate::error::{custom, ContractError, StdError};
use crate::handlers::delegation::{attribute_in_events, digits_value, get_attribute_in_event, is_digit, missing_attribute_text};
use crate::handlers::vaults::{lemma_push_event_keeps_wf, lemma_update_keeps_wf, put_vault};
use crate::handlers::execution::{fee_rates, get_vault_swap_amount, vault_swap_amount, SwapBalances};
use crate::handlers::escrow::{get_performance_fee, performance_fee};
use crate::handlers::admin::contract_wf;
use crate::disbursement::{disbursement_msg_of, get_disbursement_messages, lemma_settlement_conserves, messages_sent, settle, settle_swap, share_coin, share_of, Settlement};
use crate::fees::{fee_payments, get_automation_fee_rate, get_fee_messages, get_swap_fee_rate, overflow_error, pays};
use crate::math::{Decimal, DECIMAL_FRACTIONAL};
use crate::schedule::{get_minimum_receive, minimum_receive_with_slippage};
use crate::state::{next_event, pair_index, SwapCache};
use crate::types::{Env, EventData, ExecutionSkippedReason, SelfMsg, AFTER_FIN_SWAP_REPLY_ID, MINIMUM_SWAP_AMOUNT};
use crate::validation::{assert_sender_is_admin_or_vault_owner, destination_allocation_sum};
use crate::state::{has_room, lemma_vault_index, vault_index, wf, LimitOrderCache, State};
use crate::text::{amount_text, decimal_text, join, join3};
use crate::types::{same_vault, Coin, CosmosMsg, ReplyEvent, Response, SubMsg, TriggerConfiguration, Vault, VaultStatus, AFTER_FIN_LIMIT_ORDER_RETRACTED_FOR_MIGRATE_REPLY_ID, AFTER_FIN_LIMIT_ORDER_SUBMITTED_FOR_MIGRATE_REPLY_ID, AFTER_FIN_LIMIT_ORDER_WITHDRAWN_FOR_CANCEL_VAULT_REPLY_ID, TWO_MICRONS};
use crate::validation::assert_sender_is_admin;

verus! {

/// A text that `u128::from_str` reads back: one or more decimal digits of a number
/// that fits in 128 bits.
pub open spec fn u128_text_parses(s: Seq<char>) -> bool {
    &&& s.len() > 0
    &&& forall|i: int| 0 <= i < s.len() ==> is_digit(#[trigger] s[i])
    &&& digits_value(s) <= u128::MAX
}

proof fn lemma_digits_prefix(s: Seq<char>, i: int)
    requires
        0 <= i <= s.len(),
        forall|j: int| 0 <= j < s.len() ==> is_digit(#[trigger] s[j]),
    ensures
        0 <= digits_value(s.take(i)) <= digits_value(s),
    decreases s.len(),
{
    if s.len() > 0 {
        if i == s.len() {
            assert(s.take(i) == s);
            lemma_digits_prefix(s.drop_last(), 0);
            assert(s.drop_last().take(0) == s.take(0));
        } else {
            assert(s.drop_last().take(i) == s.take(i));
            assert forall|j: int| 0 <= j < s.drop_last().len() implies is_digit(#[trigger] s.drop_last()[j]) by {
                assert(s.drop_last()[j] == s[j]);
            }
            lemma_digits_prefix(s.drop_last(), i);
        }
    } else {
        assert(s.take(i) == s);
    }
}

/// Reads a number written in decimal digits.
pub fn parse_u128_text(text: &String) -> (r: u128)
    requires
        u128_text_parses(text@),
    ensures
        r == digits_value(text@),
{
    let ghost s = text@;
    let n = text.as_str().unicode_len();
    let mut k: usize = 0;
    let mut v: u128 = 0;
    while k < n
        invariant
            n == s.len(),
            text@ == s,
            u128_text_parses(s),
            k <= n,
            v == digits_value(s.take(k as int)),
        decreases n - k,
    {
        let c = text.as_str().get_char(k);
        proof {
            lemma_digits_prefix(s, k + 1);
            assert(s.take(k + 1).drop_last() == s.take(k as int));
            assert(s.take(k + 1).last() == c);
            assert(is_digit(s[k as int]));
        }
        v = v * 10 + ((c as u32) - ('0' as u32)) as u128;
        k = k + 1;
    }
    assert(s.take(n as int) == s);
    v
}

/// The text of an error that a FIN reply reports.
pub open spec fn fin_failure_text(prefix: Seq<char>, id: u128, reason: Seq<char>) -> Seq<char> {
    prefix + decimal_text(id as nat) + " - "@ + reason
}

/// The trigger of the vault the cached id names, if the vault exists.
pub open spec fn cached_trigger(s: State) -> Option<TriggerConfiguration> {
    match s.vault_cache {
        Some(id) => if vault_index(s.vaults@, id) >= 0 { s.vaults@[vault_index(s.vaults@, id)].trigger } else { None },
        None => None,
    }
}

/// The order index a FIN market reports of a placed limit order.
pub open spec fn reported_order_idx(events: Seq<ReplyEvent>) -> Option<Seq<char>> {
    attribute_in_events(events, "wasm"@, "order_idx"@)
}

/// The vault with its limit order's index set.
pub open spec fn with_order_idx(v: Vault, idx: u128) -> Vault {
    Vault {
        trigger: match v.trigger {
            Some(TriggerConfiguration::FinLimitOrder { target_price, .. }) => Some(TriggerConfiguration::FinLimitOrder { target_price, order_idx: Some(idx) }),
            other => other,
        },
        ..v
    }
}

fn set_order_idx(state: &mut State, id: u128, idx: u128) -> (r: Result<(), ContractError>)
    requires
        wf(*old(state)),
    ensures
        r is Ok <==> vault_index(old(state).vaults@, id) >= 0,
        r is Err ==> *final(state) == *old(state),
        r matches Err(e) ==> e.text() == crate::state::not_found_text(id),
        r is Ok ==> {
            let i = vault_index(old(state).vaults@, id);
            &&& final(state).vaults@ == old(state).vaults@.update(i, final(state).vaults@[i])
            &&& same_vault(final(state).vaults@[i], with_order_idx(old(state).vaults@[i], idx))
            &&& wf(*final(state))
            &&& final(state).events == old(state).events
            &&& final(state).config == old(state).config
            &&& final(state).pairs == old(state).pairs
            &&& final(state).vault_cache == old(state).vault_cache
            &&& final(state).swap_cache == old(state).swap_cache
            &&& final(state).limit_order_cache == old(state).limit_order_cache
            &&& final(state).disburse_escrow_tasks == old(state).disburse_escrow_tasks
            &&& final(state).post_execution_actions == old(state).post_execution_actions
            &&& final(state).custom_fees == old(state).custom_fees
            &&& final(state).swap_adjustments == old(state).swap_adjustments
        },
{
    let i = state.vault_position(id)?;
    proof {
        lemma_vault_index(state.vaults@, id);
    }
    let mut nv = state.vaults[i].copy();
    if let Some(TriggerConfiguration::FinLimitOrder { target_price, .. }) = nv.trigger {
        nv.trigger = Some(TriggerConfiguration::FinLimitOrder { target_price, order_idx: Some(idx) });
    }
    let ghost s0 = *state;
    put_vault(state, i, nv);
    proof {
        lemma_update_keeps_wf(s0, *state, i as int, state.vaults@[i as int]);
    }
    Ok(())
}

/// A FIN limit order was placed for the cached vault: the index the market reports is
/// kept in the vault's trigger.
pub fn after_fin_limit_order_submitted(state: &mut State, reply: Result<Vec<ReplyEvent>, String>) -> (r: Result<Response, ContractError>)
    requires
        wf(*old(state)),
        reply matches Ok(events) ==> (reported_order_idx(events@) matches Some(t) ==> u128_text_parses(t)),
        reply is Ok ==> cached_trigger(*old(state)) matches Some(TriggerConfiguration::FinLimitOrder { .. }),
    ensures
        r is Err ==> *final(state) == *old(state),
        r is Ok <==> (reply matches Ok(events) && reported_order_idx(events@) is Some && old(state).vault_cache is Some),
        r matches Err(e) ==> match reply {
            Err(reason) => e.text() == "Error: "@ + "failed to create vault with fin limit order trigger: "@ + reason@,
            Ok(events) => if reported_order_idx(events@) is None {
                e.text() == missing_attribute_text("wasm"@, "order_idx"@)
            } else {
                e.text() == crate::handlers::execution::cache_missing_text("dca::state::cache::Cache"@)
            },
        },
        r matches Ok(resp) ==> {
            let s = *old(state);
            let id = s.vault_cache->0;
            let i = vault_index(s.vaults@, id);
            let idx = digits_value(reported_order_idx(reply->Ok_0@)->0);
            &&& final(state).vaults@ == s.vaults@.update(i, final(state).vaults@[i])
            &&& same_vault(final(state).vaults@[i], with_order_idx(s.vaults@[i], idx as u128))
            &&& wf(*final(state))
            &&& final(state).events == s.events
            &&& final(state).config == s.config
            &&& final(state).vault_cache == s.vault_cache
            &&& resp.messages@.len() == 0
            &&& resp.attributes@.len() == 2
            &&& resp.attributes@[0].key@ == "method"@ && resp.attributes@[0].value@ == "fin_limit_order_submitted"@
            &&& resp.attributes@[1].key@ == "order_idx"@ && resp.attributes@[1].value@ == decimal_text(idx as nat)
        },
{
    let events = match reply {
        Ok(events) => events,
        Err(reason) => return Err(custom(join("failed to create vault with fin limit order trigger: ", reason.as_str()))),
    };
    let text = match get_attribute_in_event(&events, "wasm", "order_idx") {
        Ok(t) => t,
        Err(e) => return Err(ContractError::Std(e)),
    };
    let idx = parse_u128_text(&text);
    let id = match state.vault_cache {
        Some(id) => id,
        None => return Err(ContractError::Std(StdError::NotFound { kind: String::from_str("dca::state::cache::Cache") })),
    };
    set_order_idx(state, id, idx)?;
    let mut resp = Response::new();
    resp.add_attribute("method", String::from_str("fin_limit_order_submitted"));
    resp.add_attribute("order_idx", amount_text(idx));
    Ok(resp)
}

/// A FIN limit order placed again for the cached vault went through: the index the
/// market reports is kept in the vault's trigger.
pub fn after_fin_limit_order_submitted_for_migrate_trigger(state: &mut State, events: Vec<ReplyEvent>) -> (r: Result<Response, ContractError>)
    requires
        wf(*old(state)),
        reported_order_idx(events@) matches Some(t) ==> u128_text_parses(t),
        cached_trigger(*old(state)) is Some || old(state).vault_cache is None || vault_index(old(state).vaults@, old(state).vault_cache->0) < 0,
    ensures
        r is Err ==> *final(state) == *old(state),
        r is Ok <==> (reported_order_idx(events@) is Some && old(state).vault_cache is Some
            && vault_index(old(state).vaults@, old(state).vault_cache->0) >= 0
            && cached_trigger(*old(state)) matches Some(TriggerConfiguration::FinLimitOrder { .. })),
        r matches Err(e) ==> {
            let s = *old(state);
            if reported_order_idx(events@) is None {
                e.text() == missing_attribute_text("wasm"@, "order_idx"@)
            } else if s.vault_cache is None {
                e.text() == crate::handlers::execution::cache_missing_text("dca::state::cache::Cache"@)
            } else if vault_index(s.vaults@, s.vault_cache->0) < 0 {
                e.text() == crate::state::not_found_text(s.vault_cache->0)
            } else {
                e.text() == "Error: "@ + "vault does not have a fin limit order trigger"@
            }
        },
        r matches Ok(resp) ==> {
            let s = *old(state);
            let i = vault_index(s.vaults@, s.vault_cache->0);
            let idx = digits_value(reported_order_idx(events@)->0);
            &&& final(state).vaults@ == s.vaults@.update(i, final(state).vaults@[i])
            &&& same_vault(final(state).vaults@[i], with_order_idx(s.vaults@[i], idx as u128))
            &&& wf(*final(state))
            &&& final(state).events == s.events
            &&& final(state).config == s.config
            &&& resp.messages@.len() == 0
            &&& resp.attributes@.len() == 0
        },
{
    let text = match get_attribute_in_event(&events, "wasm", "order_idx") {
        Ok(t) => t,
        Err(e) => return Err(ContractError::Std(e)),
    };
    let idx = parse_u128_text(&text);
    let id = match state.vault_cache {
        Some(id) => id,
        None => return Err(ContractError::Std(StdError::NotFound { kind: String::from_str("dca::state::cache::Cache") })),
    };
    let i = state.vault_position(id)?;
    proof {
        lemma_vault_index(state.vaults@, id);
    }
    match state.vaults[i].trigger {
        Some(TriggerConfiguration::FinLimitOrder { .. }) => {},
        _ => return Err(custom(String::from_str("vault does not have a fin limit order trigger"))),
    }
    set_order_idx(state, id, idx)?;
    Ok(Response::new())
}

/// What a FIN market reports of a resting limit order.
#[derive(Debug, Clone, Copy, PartialEq, Eq)]
pub struct FinOrderDetails {
    pub filled_amount: u128,
    pub quote_price: crate::math::Decimal,
}

/// The messages that move a vault's unfilled FIN limit order: retract it, and place two
/// micro units of the swapped denomination at the same price.
pub open spec fn migrate_msgs_of(msgs: Seq<SubMsg>, pair_address: String, idx: u128, details: FinOrderDetails, swap_denom: String) -> bool {
    &&& msgs.len() == 2
    &&& msgs[0] == SubMsg { msg: CosmosMsg::FinRetractOrder { pair_address, order_idx: idx }, reply_id: Some(AFTER_FIN_LIMIT_ORDER_RETRACTED_FOR_MIGRATE_REPLY_ID) }
    &&& msgs[1] == SubMsg {
        msg: CosmosMsg::FinSubmitOrder { pair_address, price: details.quote_price, offer: Coin { denom: swap_denom, amount: TWO_MICRONS } },
        reply_id: Some(AFTER_FIN_LIMIT_ORDER_SUBMITTED_FOR_MIGRATE_REPLY_ID),
    }
}

/// The admin moves a vault's unfilled FIN limit order to a new one of two micro units at
/// the same price (the market's details of the order are handed in): the vault is
/// cached for the replies and two micro units leave its balance.
pub fn migrate_price_trigger(state: &mut State, sender: &String, vault_id: u128, pair_address: &String, details: FinOrderDetails) -> (r: Result<Response, ContractError>)
    requires
        wf(*old(state)),
        vault_index(old(state).vaults@, vault_id) >= 0 ==> ({
            let v = old(state).vaults@[vault_index(old(state).vaults@, vault_id)];
            v.balance.amount >= TWO_MICRONS && v.trigger is Some
        }),
    ensures
        r is Err ==> *final(state) == *old(state),
        r is Ok <==> ({
            let s = *old(state);
            let v = s.vaults@[vault_index(s.vaults@, vault_id)];
            &&& sender@ == s.config.admin@
            &&& vault_index(s.vaults@, vault_id) >= 0
            &&& v.trigger matches Some(TriggerConfiguration::FinLimitOrder { order_idx: Some(_), .. })
            &&& details.filled_amount == 0
        }),
        r matches Err(e) ==> {
            let s = *old(state);
            let v = s.vaults@[vault_index(s.vaults@, vault_id)];
            if sender@ != s.config.admin@ {
                e == ContractError::Unauthorized
            } else if vault_index(s.vaults@, vault_id) < 0 {
                e.text() == crate::state::not_found_text(vault_id)
            } else if !(v.trigger matches Some(TriggerConfiguration::FinLimitOrder { .. })) {
                e.text() == "Error: "@ + "vault does not have a fin limit order"@
            } else if v.trigger matches Some(TriggerConfiguration::FinLimitOrder { order_idx: None, .. }) {
                e.text() == "Error: "@ + "fin limit order does not have an order idx"@
            } else {
                e.text() == "Error: "@ + "fin limit order is already partially or completely filled"@
            }
        },
        r matches Ok(resp) ==> {
            let s = *old(state);
            let i = vault_index(s.vaults@, vault_id);
            let v = s.vaults@[i];
            let idx = match v.trigger { Some(TriggerConfiguration::FinLimitOrder { order_idx: Some(x), .. }) => x, _ => 0 };
            &&& final(state).vaults@ == s.vaults@.update(i, final(state).vaults@[i])
            &&& same_vault(final(state).vaults@[i], Vault { balance: Coin { denom: v.balance.denom, amount: (v.balance.amount - TWO_MICRONS) as u128 }, ..v })
            &&& final(state).vault_cache == Some(vault_id)
            &&& wf(*final(state))
            &&& final(state).events == s.events
            &&& final(state).config == s.config
            &&& migrate_msgs_of(resp.messages@, *pair_address, idx, details, v.balance.denom)
        },
        r matches Ok(resp) ==> resp.attributes@.len() == 0,
{
    assert_sender_is_admin(&state.config, sender)?;
    let i = state.vault_position(vault_id)?;
    proof {
        lemma_vault_index(state.vaults@, vault_id);
    }
    let v = &state.vaults[i];
    let idx = match v.trigger {
        Some(TriggerConfiguration::FinLimitOrder { order_idx: Some(idx), .. }) => idx,
        Some(TriggerConfiguration::FinLimitOrder { order_idx: None, .. }) => return Err(custom(String::from_str("fin limit order does not have an order idx"))),
        _ => return Err(custom(String::from_str("vault does not have a fin limit order"))),
    };
    if details.filled_amount > 0 {
        return Err(custom(String::from_str("fin limit order is already partially or completely filled")));
    }
    let swap_denom = v.balance.denom.clone();
    let mut nv = v.copy();
    nv.balance.amount = v.balance.amount - TWO_MICRONS;
    let ghost s0 = *state;
    put_vault(state, i, nv);
    proof {
        lemma_update_keeps_wf(s0, *state, i as int, state.vaults@[i as int]);
    }
    state.vault_cache = Some(vault_id);
    let mut resp = Response::new();
    resp.add_message(SubMsg { msg: CosmosMsg::FinRetractOrder { pair_address: pair_address.clone(), order_idx: idx }, reply_id: Some(AFTER_FIN_LIMIT_ORDER_RETRACTED_FOR_MIGRATE_REPLY_ID) });
    resp.add_message(SubMsg {
        msg: CosmosMsg::FinSubmitOrder { pair_address: pair_address.clone(), price: details.quote_price, offer: Coin { denom: swap_denom, amount: TWO_MICRONS } },
        reply_id: Some(AFTER_FIN_LIMIT_ORDER_SUBMITTED_FOR_MIGRATE_REPLY_ID),
    });
    Ok(resp)
}

/// The vault after it is cancelled: nothing left in it and no trigger.
pub open spec fn fin_cancelled_vault(v: Vault) -> Vault {
    Vault { status: VaultStatus::Cancelled, balance: Coin { denom: v.balance.denom, amount: 0 }, trigger: None, ..v }
}

pub open spec fn limit_cache_missing_text() -> Seq<char> {
    "dca::state::cache::LimitOrderCache"@ + " not found"@
}

/// The cached vault and limit order exist, for a reply that went through.
pub open spec fn fin_reply_ready(s: State, went_through: bool) -> bool {
    &&& s.vault_cache is Some
    &&& vault_index(s.vaults@, s.vault_cache->0) >= 0
    &&& went_through ==> s.limit_order_cache is Some
}

pub open spec fn fin_reply_error(s: State, e: ContractError, failure: Option<(Seq<char>, Seq<char>)>) -> bool {
    if s.vault_cache is None {
        e.text() == crate::handlers::execution::cache_missing_text("dca::state::cache::Cache"@)
    } else if vault_index(s.vaults@, s.vault_cache->0) < 0 {
        e.text() == crate::state::not_found_text(s.vault_cache->0)
    } else {
        match failure {
            Some((prefix, reason)) => e.text() == "Error: "@ + fin_failure_text(prefix, s.vault_cache->0, reason),
            None => e.text() == limit_cache_missing_text(),
        }
    }
}

fn cached_vault_position(state: &State) -> (r: Result<usize, ContractError>)
    ensures
        r is Ok <==> state.vault_cache is Some && vault_index(state.vaults@, state.vault_cache->0) >= 0,
        r matches Ok(i) ==> i == vault_index(state.vaults@, state.vault_cache->0) && i < state.vaults@.len()
            && state.vaults@[i as int].id == state.vault_cache->0,
        r matches Err(e) ==> if state.vault_cache is None {
            e.text() == crate::handlers::execution::cache_missing_text("dca::state::cache::Cache"@)
        } else {
            e.text() == crate::state::not_found_text(state.vault_cache->0)
        },
{
    let id = match state.vault_cache {
        Some(id) => id,
        None => return Err(ContractError::Std(StdError::NotFound { kind: String::from_str("dca::state::cache::Cache") })),
    };
    let i = state.vault_position(id)?;
    proof {
        lemma_vault_index(state.vaults@, id);
    }
    Ok(i)
}

pub(crate) fn fin_failure(prefix: &str, id: u128, reason: &String) -> (e: ContractError)
    ensures
        e.text() == "Error: "@ + fin_failure_text(prefix@, id, reason@),
{
    let n = amount_text(id);
    let mut s = join(prefix, n.as_str());
    s.append(" - ");
    s.append(reason.as_str());
    custom(s)
}

pub(crate) fn limit_order_cache_of(state: &State) -> (r: Result<LimitOrderCache, ContractError>)
    ensures
        r is Ok <==> state.limit_order_cache is Some,
        r matches Ok(c) ==> c == state.limit_order_cache->0,
        r matches Err(e) ==> e.text() == limit_cache_missing_text(),
{
    match &state.limit_order_cache {
        Some(c) => Ok(LimitOrderCache {
            order_idx: c.order_idx,
            original_offer_amount: c.original_offer_amount,
            filled: c.filled,
            swap_denom_balance: c.swap_denom_balance.copy(),
            receive_denom_balance: c.receive_denom_balance.copy(),
        }),
        None => Err(ContractError::Std(StdError::NotFound { kind: String::from_str("dca::state::cache::LimitOrderCache") })),
    }
}

fn cancel_cached_vault(state: &mut State, i: usize)
    requires
        wf(*old(state)),
        i < old(state).vaults@.len(),
    ensures
        final(state).vaults@ == old(state).vaults@.update(i as int, final(state).vaults@[i as int]),
        same_vault(final(state).vaults@[i as int], fin_cancelled_vault(old(state).vaults@[i as int])),
        wf(*final(state)),
        final(state).events == old(state).events,
        final(state).config == old(state).config,
        final(state).pairs == old(state).pairs,
        final(state).vault_cache == old(state).vault_cache,
        final(state).limit_order_cache == old(state).limit_order_cache,
        final(state).swap_cache == old(state).swap_cache,
        final(state).next_vault_id == old(state).next_vault_id,
{
    let mut nv = state.vaults[i].copy();
    nv.status = VaultStatus::Cancelled;
    nv.balance.amount = 0;
    nv.trigger = None;
    let ghost s0 = *state;
    put_vault(state, i, nv);
    proof {
        lemma_update_keeps_wf(s0, *state, i as int, state.vaults@[i as int]);
    }
}

/// The filled part of a cancelled vault's FIN limit order was withdrawn (the contract's
/// balance of the receive denomination afterwards is handed in): what came out goes to
/// the owner, and the vault is cancelled.
pub fn after_fin_limit_order_withdrawn_for_cancel_vault(state: &mut State, outcome: Result<u128, String>) -> (r: Result<Response, ContractError>)
    requires
        wf(*old(state)),
        outcome matches Ok(b) ==> (old(state).limit_order_cache is Some ==> b >= old(state).limit_order_cache->0.receive_denom_balance.amount),
    ensures
        r is Err ==> *final(state) == *old(state),
        r is Ok <==> fin_reply_ready(*old(state), true) && outcome is Ok,
        r matches Err(e) ==> fin_reply_error(*old(state), e, match outcome {
            Err(reason) => Some(("failed to withdraw fin limit order for vault id: "@, reason@)),
            Ok(_) => None,
        }),
        r matches Ok(resp) ==> {
            let s = *old(state);
            let i = vault_index(s.vaults@, s.vault_cache->0);
            let v = s.vaults@[i];
            let withdrawn = (outcome->Ok_0 - s.limit_order_cache->0.receive_denom_balance.amount) as u128;
            &&& final(state).vaults@ == s.vaults@.update(i, final(state).vaults@[i])
            &&& same_vault(final(state).vaults@[i], fin_cancelled_vault(v))
            &&& wf(*final(state))
            &&& final(state).events == s.events
            &&& final(state).config == s.config
            &&& resp.attributes@.len() == 1
            &&& resp.attributes@[0].key@ == "method"@ && resp.attributes@[0].value@ == "fin_limit_order_withdrawn_for_cancel_vault"@
            &&& withdrawn > 0 ==> resp.messages@.len() == 1 && crate::fees::bank_send_of(resp.messages@[0], v.owner, Coin { denom: v.target_denom, amount: withdrawn })
            &&& withdrawn == 0 ==> resp.messages@.len() == 0
        },
{
    let i = cached_vault_position(state)?;
    let balance = match outcome {
        Ok(b) => b,
        Err(reason) => return Err(fin_failure("failed to withdraw fin limit order for vault id: ", state.vaults[i].id, &reason)),
    };
    let c = limit_order_cache_of(state)?;
    let withdrawn = balance - c.receive_denom_balance.amount;
    let mut resp = Response::new();
    resp.add_attribute("method", String::from_str("fin_limit_order_withdrawn_for_cancel_vault"));
    if withdrawn > 0 {
        let mut coins: Vec<Coin> = Vec::new();
        coins.push(Coin { denom: state.vaults[i].target_denom.clone(), amount: withdrawn });
        resp.add_message(SubMsg { msg: CosmosMsg::BankSend { to_address: state.vaults[i].owner.clone(), amount: coins }, reply_id: None });
    }
    cancel_cached_vault(state, i);
    Ok(resp)
}

/// A vault's FIN limit order was retracted (the contract's balance of the swapped
/// denomination afterwards is handed in). Where all of the order came back, it and the
/// vault's balance go to the owner and the vault is cancelled; otherwise the order was
/// partly filled: the balance and what came back go to the owner and the filled part is
/// withdrawn next.
pub fn after_fin_limit_order_retracted(state: &mut State, pair_address: &String, outcome: Result<u128, String>) -> (r: Result<Response, ContractError>)
    requires
        wf(*old(state)),
        outcome matches Ok(b) ==> (old(state).limit_order_cache is Some ==> b >= old(state).limit_order_cache->0.swap_denom_balance.amount),
        outcome matches Ok(b) ==> (old(state).limit_order_cache is Some && fin_reply_ready(*old(state), true) ==>
            old(state).vaults@[vault_index(old(state).vaults@, old(state).vault_cache->0)].balance.amount + b - old(state).limit_order_cache->0.swap_denom_balance.amount <= u128::MAX),
    ensures
        r is Err ==> *final(state) == *old(state),
        r is Ok <==> fin_reply_ready(*old(state), true) && outcome is Ok,
        r matches Err(e) ==> fin_reply_error(*old(state), e, match outcome {
            Err(reason) => Some(("failed to retract fin limit order for vault id: "@, reason@)),
            Ok(_) => None,
        }),
        r matches Ok(resp) ==> {
            let s = *old(state);
            let i = vault_index(s.vaults@, s.vault_cache->0);
            let v = s.vaults@[i];
            let c = s.limit_order_cache->0;
            let retracted = outcome->Ok_0 - c.swap_denom_balance.amount;
            let returned = Coin { denom: v.balance.denom, amount: (v.balance.amount + retracted) as u128 };
            &&& resp.attributes@.len() == 2
            &&& resp.attributes@[0].key@ == "method"@ && resp.attributes@[0].value@ == "fin_limit_order_retracted"@
            &&& resp.attributes@[1].key@ == "withdraw_required"@
            &&& final(state).events == s.events
            &&& final(state).config == s.config
            &&& wf(*final(state))
            &&& retracted == c.original_offer_amount ==> {
                &&& resp.attributes@[1].value@ == "false"@
                &&& final(state).vaults@ == s.vaults@.update(i, final(state).vaults@[i])
                &&& same_vault(final(state).vaults@[i], fin_cancelled_vault(v))
                &&& resp.messages@.len() == 1
                &&& crate::fees::bank_send_of(resp.messages@[0], v.owner, returned)
            }
            &&& retracted != c.original_offer_amount ==> {
                &&& resp.attributes@[1].value@ == "true"@
                &&& *final(state) == s
                &&& resp.messages@.len() == if returned.amount > 0 { 2int } else { 1int }
                &&& returned.amount > 0 ==> crate::fees::bank_send_of(resp.messages@[0], v.owner, returned)
                &&& resp.messages@.last() == SubMsg {
                    msg: CosmosMsg::FinWithdrawOrder { pair_address: *pair_address, order_idx: c.order_idx },
                    reply_id: Some(AFTER_FIN_LIMIT_ORDER_WITHDRAWN_FOR_CANCEL_VAULT_REPLY_ID),
                }
            }
        },
{
    let i = cached_vault_position(state)?;
    let balance = match outcome {
        Ok(b) => b,
        Err(reason) => return Err(fin_failure("failed to retract fin limit order for vault id: ", state.vaults[i].id, &reason)),
    };
    let c = limit_order_cache_of(state)?;
    let retracted = balance - c.swap_denom_balance.amount;
    let returned = Coin { denom: state.vaults[i].balance.denom.clone(), amount: state.vaults[i].balance.amount + retracted };
    let owner = state.vaults[i].owner.clone();
    let mut resp = Response::new();
    resp.add_attribute("method", String::from_str("fin_limit_order_retracted"));
    if retracted != c.original_offer_amount {
        if returned.amount > 0 {
            let mut coins: Vec<Coin> = Vec::new();
            coins.push(returned);
            resp.add_message(SubMsg { msg: CosmosMsg::BankSend { to_address: owner, amount: coins }, reply_id: None });
        }
        resp.add_message(SubMsg {
            msg: CosmosMsg::FinWithdrawOrder { pair_address: pair_address.clone(), order_idx: c.order_idx },
            reply_id: Some(AFTER_FIN_LIMIT_ORDER_WITHDRAWN_FOR_CANCEL_VAULT_REPLY_ID),
        });
        resp.add_attribute("withdraw_required", String::from_str("true"));
        return Ok(resp);
    }
    let mut coins: Vec<Coin> = Vec::new();
    coins.push(returned);
    resp.add_message(SubMsg { msg: CosmosMsg::BankSend { to_address: owner, amount: coins }, reply_id: None });
    cancel_cached_vault(state, i);
    resp.add_attribute("withdraw_required", String::from_str("false"));
    Ok(resp)
}

/// The filled part of a running vault's FIN limit order was withdrawn (the contract's
/// balances afterwards are handed in): what came out goes to the owner, the balances
/// before the swap are kept, and the vault swaps its amount on its pair at the belief
/// price.
pub fn after_fin_limit_order_withdrawn_for_execute_vault(state: &mut State, outcome: Result<SwapBalances, String>, belief_price: Decimal) -> (r: Result<Response, ContractError>)
    requires
        wf(*old(state)),
        belief_price.atomics > 0,
        outcome matches Ok(b) ==> (old(state).limit_order_cache is Some ==> b.receive_denom >= old(state).limit_order_cache->0.receive_denom_balance.amount),
    ensures
        r is Err ==> *final(state) == *old(state),
        r is Ok <==> ({
            let s = *old(state);
            let v = s.vaults@[vault_index(s.vaults@, s.vault_cache->0)];
            &&& fin_reply_ready(s, true)
            &&& outcome is Ok
            &&& pair_index(s.pairs@, v.balance.denom@, v.target_denom@) >= 0
            &&& vault_swap_amount(s.swap_adjustments@, v, belief_price) is Some
        }),
        r matches Err(e) ==> {
            let s = *old(state);
            let v = s.vaults@[vault_index(s.vaults@, s.vault_cache->0)];
            if fin_reply_ready(s, outcome is Ok) || outcome is Err {
                if outcome is Err || s.limit_order_cache is None {
                    fin_reply_error(s, e, match outcome {
                        Err(reason) => Some(("failed to withdraw fin limit order for vault id: "@, reason@)),
                        Ok(_) => None,
                    })
                } else if pair_index(s.pairs@, v.balance.denom@, v.target_denom@) < 0 {
                    e.text() == "Error: "@ + "swapping "@ + v.balance.denom@ + " to "@ + v.target_denom@ + " not supported"@
                } else {
                    e is Std
                }
            } else {
                fin_reply_error(s, e, None)
            }
        },
        r matches Ok(resp) ==> {
            let s = *old(state);
            let i = vault_index(s.vaults@, s.vault_cache->0);
            let v = s.vaults@[i];
            let b = outcome->Ok_0;
            let c = s.limit_order_cache->0;
            let withdrawn = (b.receive_denom - c.receive_denom_balance.amount) as u128;
            let amount = vault_swap_amount(s.swap_adjustments@, v, belief_price)->0 as u128;
            let p = s.pairs@[pair_index(s.pairs@, v.balance.denom@, v.target_denom@)];
            &&& final(state).vaults == s.vaults
            &&& final(state).events == s.events
            &&& final(state).config == s.config
            &&& final(state).vault_cache == s.vault_cache
            &&& final(state).limit_order_cache == s.limit_order_cache
            &&& final(state).swap_cache == Some(SwapCache {
                swap_denom_balance: Coin { denom: v.balance.denom, amount: b.swap_denom },
                receive_denom_balance: Coin { denom: v.target_denom, amount: (b.receive_denom - withdrawn) as u128 },
            })
            &&& wf(*final(state))
            &&& resp.messages@.len() == 2
            &&& crate::fees::bank_send_of(resp.messages@[0], v.owner, Coin { denom: v.target_denom, amount: withdrawn })
            &&& resp.messages@[1].reply_id == Some(AFTER_FIN_SWAP_REPLY_ID)
            &&& resp.messages@[1].msg matches CosmosMsg::Swap { pair: q, offer, minimum_receive }
                && q.base_denom == p.base_denom && q.quote_denom == p.quote_denom && q.route@ == p.route@
                && offer == (Coin { denom: v.balance.denom, amount })
                && minimum_receive == Some(minimum_receive_with_slippage(amount, belief_price, crate::types::effective_slippage(s.config, v)) as u128)
            &&& resp.attributes@.len() == 2
            &&& resp.attributes@[0].key@ == "method"@ && resp.attributes@[0].value@ == "fin_limit_order_withdrawn_for_execute_vault"@
            &&& resp.attributes@[1].key@ == "vault_id"@ && resp.attributes@[1].value@ == decimal_text(v.id as nat)
        },
{
    let i = cached_vault_position(state)?;
    let b = match outcome {
        Ok(b) => b,
        Err(reason) => return Err(fin_failure("failed to withdraw fin limit order for vault id: ", state.vaults[i].id, &reason)),
    };
    let c = limit_order_cache_of(state)?;
    let v = &state.vaults[i];
    let p = match state.find_pair(&v.balance.denom, &v.target_denom) {
        Some(p) => p,
        None => {
            let mut s = join3("swapping ", v.balance.denom.as_str(), " to ");
            s.append(v.target_denom.as_str());
            s.append(" not supported");
            return Err(custom(s));
        },
    };
    let amount = get_vault_swap_amount(state, v, belief_price)?;
    let withdrawn = b.receive_denom - c.receive_denom_balance.amount;
    let minimum = get_minimum_receive(amount, belief_price, crate::types::vault_slippage(&state.config, v));
    let pair = state.pairs[p].copy();
    let id = v.id;
    let owner = v.owner.clone();
    let swap_denom = v.balance.denom.clone();
    let target_denom = v.target_denom.clone();
    let mut resp = Response::new();
    resp.add_attribute("method", String::from_str("fin_limit_order_withdrawn_for_execute_vault"));
    resp.add_attribute("vault_id", amount_text(id));
    let mut coins: Vec<Coin> = Vec::new();
    coins.push(Coin { denom: target_denom.clone(), amount: withdrawn });
    resp.add_message(SubMsg { msg: CosmosMsg::BankSend { to_address: owner, amount: coins }, reply_id: None });
    resp.add_message(SubMsg {
        msg: CosmosMsg::Swap { pair, offer: Coin { denom: swap_denom.clone(), amount }, minimum_receive: Some(minimum) },
        reply_id: Some(AFTER_FIN_SWAP_REPLY_ID),
    });
    state.swap_cache = Some(SwapCache {
        swap_denom_balance: Coin { denom: swap_denom, amount: b.swap_denom },
        receive_denom_balance: Coin { denom: target_denom, amount: b.receive_denom - withdrawn },
    });
    Ok(resp)
}

/// The escrow level a FIN swap keeps back: the vault's level where it is compared to a
/// standard DCA, none otherwise.
pub open spec fn fin_escrow_level(v: Vault) -> Decimal {
    if v.performance_assessment_strategy is Some { v.escrow_level } else { Decimal { atomics: 0 } }
}

/// What a FIN swap sent and received, by the balances before (the swap cache) and after.
pub open spec fn fin_sent(s: State, b: SwapBalances) -> u128 {
    (s.swap_cache->0.swap_denom_balance.amount - b.swap_denom) as u128
}

pub open spec fn fin_received(s: State, b: SwapBalances) -> u128 {
    (b.receive_denom - s.swap_cache->0.receive_denom_balance.amount) as u128
}

/// The settlement of a FIN swap's proceeds, where the rates allow one.
pub open spec fn fin_settlement(s: State, v: Vault, b: SwapBalances) -> Option<Settlement> {
    match fee_rates(s, v) {
        None => None,
        Some((a, c)) => settle(fin_received(s, b), a, c, fin_escrow_level(v)),
    }
}

/// The vault after a FIN swap went through: its swap amount leaves its balance, the
/// swap is added to its statistics and the escrow to its escrowed amount; inactive once
/// nothing is left. `None` where a sum leaves 128 bits.
pub open spec fn fin_swapped_vault(v: Vault, sent: u128, deducted: u128, st: Settlement) -> Option<Vault> {
    let kept = st.disbursed + st.escrowed;
    if v.swapped_amount.amount + sent > u128::MAX || v.received_amount.amount + kept > u128::MAX
        || v.escrowed_amount.amount + st.escrowed > u128::MAX {
        None
    } else {
        let balance = (v.balance.amount - deducted) as u128;
        Some(Vault {
            balance: Coin { denom: v.balance.denom, amount: balance },
            swapped_amount: Coin { denom: v.swapped_amount.denom, amount: (v.swapped_amount.amount + sent) as u128 },
            received_amount: Coin { denom: v.received_amount.denom, amount: (v.received_amount.amount + kept) as u128 },
            escrowed_amount: Coin { denom: v.escrowed_amount.denom, amount: (v.escrowed_amount.amount + st.escrowed) as u128 },
            status: if balance == 0 { VaultStatus::Inactive } else { v.status },
            ..v
        })
    }
}

/// The vault after a FIN swap failed: inactive where it no longer holds enough to swap.
pub open spec fn fin_skipped_vault(v: Vault) -> Vault {
    if v.has_sufficient_funds_spec() { v } else { Vault { status: VaultStatus::Inactive, ..v } }
}

/// The vault after it is settled: a finished vault compared to a standard DCA loses its
/// trigger.
pub open spec fn fin_finished(v: Vault) -> bool {
    v.performance_assessment_strategy is Some && v.should_not_continue_spec()
}

pub open spec fn fin_settled_vault(v: Vault) -> Vault {
    if fin_finished(v) { Vault { trigger: None, ..v } } else { v }
}

/// The vault after the outcome of a FIN swap, where it can be computed.
pub open spec fn fin_swap_outcome(s: State, v: Vault, balances: Option<SwapBalances>, price: Decimal) -> Option<Vault> {
    match balances {
        None => Some(fin_skipped_vault(v)),
        Some(b) => match (fin_settlement(s, v, b), vault_swap_amount(s.swap_adjustments@, v, price)) {
            (Some(st), Some(d)) => fin_swapped_vault(v, fin_sent(s, b), d as u128, st),
            _ => None,
        },
    }
}

/// The outcome of a vault's FIN swap comes back, with the contract's balances after it
/// where it went through. Where it went through, the fees go to the fee collectors, a
/// vault compared to a standard DCA keeps its escrow, the rest is split between the
/// destinations, and the vault's swap amount (at the belief price) leaves its balance;
/// where it failed, the execution is recorded as skipped and a vault without enough left
/// becomes inactive. A finished vault compared to a standard DCA has its escrow paid out
/// and its trigger removed.
#[verifier::rlimit(100)]
pub fn after_fin_swap(state: &mut State, env: &Env, balances: Option<SwapBalances>, belief_price: Decimal) -> (r: Result<Response, ContractError>)
    requires
        contract_wf(*old(state)),
        has_room(*old(state)),
        balances is Some ==> belief_price.atomics > 0,
        balances matches Some(b) ==> (old(state).swap_cache matches Some(c) ==> b.swap_denom <= c.swap_denom_balance.amount && b.receive_denom >= c.receive_denom_balance.amount),
    ensures
        r is Err ==> *final(state) == *old(state),
        r is Ok <==> ({
            let s = *old(state);
            let v = s.vaults@[vault_index(s.vaults@, s.vault_cache->0)];
            &&& s.vault_cache is Some
            &&& vault_index(s.vaults@, s.vault_cache->0) >= 0
            &&& balances is Some ==> s.swap_cache is Some
            &&& fin_swap_outcome(s, v, balances, belief_price) is Some
            &&& balances matches Some(b) ==> forall|k: int| 0 <= k < v.destinations@.len() ==> #[trigger] share_of(fin_settlement(s, v, b)->0.disbursed, v.destinations@[k]) <= u128::MAX
        }),
        r matches Err(e) ==> {
            let s = *old(state);
            if s.vault_cache is None {
                e.text() == crate::handlers::execution::cache_missing_text("dca::state::cache::Cache"@)
            } else if vault_index(s.vaults@, s.vault_cache->0) < 0 {
                e.text() == crate::state::not_found_text(s.vault_cache->0)
            } else {
                e is Std
            }
        },
        r is Ok && balances is None ==> ({
            let i = vault_index(old(state).vaults@, old(state).vault_cache->0);
            let v = old(state).vaults@[i];
            &&& final(state).vaults@[i].balance == v.balance
            &&& v.balance.amount <= MINIMUM_SWAP_AMOUNT ==> final(state).vaults@[i].status == VaultStatus::Inactive
        }),
        r matches Ok(resp) ==> {
            let s = *old(state);
            let i = vault_index(s.vaults@, s.vault_cache->0);
            let v = s.vaults@[i];
            let v1 = fin_swap_outcome(s, v, balances, belief_price)->0;
            let st = fin_settlement(s, v, balances->0)->0;
            let fees = fee_payments(s.config.fee_collectors@, seq![st.swap_fee, st.automation_fee], v.target_denom);
            let nf = if balances is Some { fees.len() } else { 0 };
            let nd = if balances is Some { v.destinations@.len() } else { 0 };
            &&& final(state).vaults@ == s.vaults@.update(i, final(state).vaults@[i])
            &&& same_vault(final(state).vaults@[i], fin_settled_vault(v1))
            &&& contract_wf(*final(state))
            &&& final(state).config == s.config
            &&& final(state).vault_cache == s.vault_cache
            &&& final(state).swap_cache == s.swap_cache
            &&& final(state).post_execution_actions == s.post_execution_actions
            &&& resp.messages@.len() == nf + nd + if fin_finished(v1) { 1int } else { 0int }
            &&& balances is Some ==> pays(resp.messages@.subrange(0, nf as int), fees)
            &&& forall|k: int| 0 <= k < nd ==> disbursement_msg_of(#[trigger] resp.messages@[nf + k], v.destinations@[k], share_coin(st.disbursed, v.destinations@[k], v.target_denom))
            &&& fin_finished(v1) ==> resp.messages@.last() == SubMsg { msg: CosmosMsg::ExecuteSelf { msg: SelfMsg::DisburseEscrow { vault_id: v.id } }, reply_id: None }
            &&& (balances is Some && destination_allocation_sum(v.destinations@) <= DECIMAL_FRACTIONAL)
                ==> messages_sent(resp.messages@, v.target_denom@) + st.escrowed <= fin_received(s, balances->0)
            &&& balances is Some ==> final(state).vaults@[i].received_amount.amount
                == v.received_amount.amount + fin_received(s, balances->0) - st.swap_fee - st.automation_fee
            &&& balances is Some ==> final(state).vaults@[i].escrowed_amount.amount == v.escrowed_amount.amount + st.escrowed
            &&& resp.attributes@.len() == 3
            &&& resp.attributes@[0].key@ == "owner"@ && resp.attributes@[0].value == v.owner
            &&& resp.attributes@[1].key@ == "vault_id"@ && resp.attributes@[1].value@ == decimal_text(v.id as nat)
            &&& resp.attributes@[2].key@ == "status"@
            &&& balances is Some ==> {
                let b = balances->0;
                &&& resp.attributes@[2].value@ == "success"@
                &&& final(state).events@ == s.events@.push(next_event(s.events@.len(), v.id, *env, EventData::DcaVaultExecutionCompleted {
                    sent: Coin { denom: v.balance.denom, amount: fin_sent(s, b) },
                    received: Coin { denom: v.target_denom, amount: fin_received(s, b) },
                    fee: Coin { denom: v.target_denom, amount: (st.swap_fee + st.automation_fee) as u128 },
                }))
            }
            &&& balances is None ==> {
                &&& resp.attributes@[2].value@ == "skipped"@
                &&& final(state).events@ == s.events@.push(next_event(s.events@.len(), v.id, *env, EventData::DcaVaultExecutionSkipped {
                    reason: if v.has_sufficient_funds_spec() { ExecutionSkippedReason::SlippageToleranceExceeded } else { ExecutionSkippedReason::UnknownFailure },
                }))
            }
        },
{
    let i = cached_vault_position(state)?;
    let v = &state.vaults[i];
    let mut nv = v.copy();
    let mut msgs: Vec<SubMsg> = Vec::new();
    let mut completed: Option<(Coin, Coin, Coin)> = None;
    let ghost mut fview: Seq<SubMsg> = Seq::empty();
    let ghost mut dview: Seq<SubMsg> = Seq::empty();
    let ghost gv = *v;
    let ghost mut g_st = Settlement { swap_fee: 0, automation_fee: 0, escrowed: 0, disbursed: 0 };
    let ghost mut g_received: u128 = 0;
    let ghost mut g_fees: Seq<u128> = Seq::empty();
    match balances {
        Some(b) => {
            let c = match &state.swap_cache {
                Some(c) => c,
                None => return Err(ContractError::Std(StdError::NotFound { kind: String::from_str("dca::state::cache::SwapCache") })),
            };
            let sent = c.swap_denom_balance.amount - b.swap_denom;
            let received = b.receive_denom - c.receive_denom_balance.amount;
            let (swap_rate, auto_rate) = if v.performance_assessment_strategy.is_some() {
                (Decimal { atomics: 0 }, Decimal { atomics: 0 })
            } else {
                let a = get_automation_fee_rate(&state.config, v)?;
                (get_swap_fee_rate(state, v), a)
            };
            let level = if v.performance_assessment_strategy.is_some() { v.escrow_level } else { Decimal { atomics: 0 } };
            let st = settle_swap(received, swap_rate, auto_rate, level)?;
            let deducted = get_vault_swap_amount(state, v, belief_price)?;
            proof {
                assert(fee_rates(*state, *v) == Some((swap_rate, auto_rate)));
                assert(fin_settlement(*state, *v, b) == Some(st));
            }
            let swapped = match v.swapped_amount.amount.checked_add(sent) {
                Some(x) => x,
                None => return Err(overflow_error()),
            };
            let total_received = match v.received_amount.amount.checked_add(st.disbursed + st.escrowed) {
                Some(x) => x,
                None => return Err(overflow_error()),
            };
            let escrowed = match v.escrowed_amount.amount.checked_add(st.escrowed) {
                Some(x) => x,
                None => return Err(overflow_error()),
            };
            let (dmsgs, _entries) = get_disbursement_messages(v, st.disbursed)?;
            let mut fee_list: Vec<u128> = Vec::new();
            fee_list.push(st.swap_fee);
            fee_list.push(st.automation_fee);
            assert(fee_list@ == seq![st.swap_fee, st.automation_fee]);
            let fmsgs = get_fee_messages(&state.config.fee_collectors, &fee_list, &v.target_denom);
            proof {
                fview = fmsgs@;
                dview = dmsgs@;
                g_st = st;
                g_received = received;
                g_fees = fee_list@;
                lemma_settlement_conserves(received, swap_rate, auto_rate, level);
            }
            msgs = fmsgs;
            let mut dmsgs = dmsgs;
            msgs.append(&mut dmsgs);
            assert(msgs@.subrange(0, fview.len() as int) == fview);
            nv.balance.amount = v.balance.amount - deducted;
            nv.swapped_amount.amount = swapped;
            nv.received_amount.amount = total_received;
            nv.escrowed_amount.amount = escrowed;
            if nv.balance.amount == 0 {
                nv.status = VaultStatus::Inactive;
            }
            completed = Some((
                Coin { denom: v.balance.denom.clone(), amount: sent },
                Coin { denom: v.target_denom.clone(), amount: received },
                Coin { denom: v.target_denom.clone(), amount: st.swap_fee + st.automation_fee },
            ));
        },
        None => {
            if !v.has_sufficient_funds() {
                nv.status = VaultStatus::Inactive;
            }
        },
    }
    let finished = nv.performance_assessment_strategy.is_some() && nv.should_not_continue();
    if finished {
        nv.trigger = None;
    }
    let ghost before_escrow = msgs@;
    let id = nv.id;
    if finished {
        msgs.push(SubMsg { msg: CosmosMsg::ExecuteSelf { msg: SelfMsg::DisburseEscrow { vault_id: id } }, reply_id: None });
    }
    assert(msgs@.subrange(0, before_escrow.len() as int) == before_escrow);
    let sufficient = v.has_sufficient_funds();
    let owner = v.owner.clone();
    let ghost s0 = *state;
    put_vault(state, i, nv);
    proof {
        lemma_update_keeps_wf(s0, *state, i as int, state.vaults@[i as int]);
    }
    let ghost s1 = *state;
    let mut resp = Response::new();
    resp.add_attribute("owner", owner);
    resp.add_attribute("vault_id", amount_text(id));
    match completed {
        Some((sent, received, fee)) => {
            resp.add_attribute("status", String::from_str("success"));
            state.create_event(id, env, EventData::DcaVaultExecutionCompleted { sent, received, fee });
        },
        None => {
            resp.add_attribute("status", String::from_str("skipped"));
            let reason = if sufficient { ExecutionSkippedReason::SlippageToleranceExceeded } else { ExecutionSkippedReason::UnknownFailure };
            state.create_event(id, env, EventData::DcaVaultExecutionSkipped { reason });
        },
    }
    proof {
        lemma_push_event_keeps_wf(s1, *state, state.events@.last());
    }
    let ghost before_add = resp.messages@;
    resp.add_messages(msgs);
    proof {
        if balances is Some && destination_allocation_sum(gv.destinations@) <= DECIMAL_FRACTIONAL {
            let m = resp.messages@;
            let nf = fview.len() as int;
            assert(m =~= msgs@);
            assert(m.subrange(0, nf) =~= fview);
            assert forall|k: int| 0 <= k < gv.destinations@.len() implies disbursement_msg_of(
                #[trigger] m[fee_payments(s0.config.fee_collectors@, g_fees, gv.target_denom).len() + k],
                gv.destinations@[k], share_coin(g_st.disbursed, gv.destinations@[k], gv.target_denom)) by {
                assert(m[nf + k] == dview[k]);
            }
            crate::laws::law_disbursement_within_received(m, s0.config.fee_collectors@, gv.destinations@,
                gv.target_denom, g_received, g_st, g_fees);
        }
    }
    Ok(resp)
}

/// The admin or the owner claims the escrow of a vault compared to a standard DCA: the
/// performance fee at the current price goes to the fee collectors, the rest to the
/// destinations, and the escrow is emptied.
pub fn claim_escrowed_funds_handler(state: &mut State, sender: &String, vault_id: u128, current_price: Decimal) -> (r: Result<Response, ContractError>)
    requires
        contract_wf(*old(state)),
        current_price.atomics > 0,
    ensures
        r is Err ==> *final(state) == *old(state),
        r is Ok <==> ({
            let s = *old(state);
            let v = s.vaults@[vault_index(s.vaults@, vault_id)];
            &&& vault_index(s.vaults@, vault_id) >= 0
            &&& (sender@ == s.config.admin@ || sender@ == v.owner@)
            &&& v.performance_assessment_strategy is Some
            &&& performance_fee(v, current_price) is Some
            &&& forall|k: int| 0 <= k < v.destinations@.len() ==> #[trigger] share_of((v.escrowed_amount.amount - performance_fee(v, current_price)->0) as u128, v.destinations@[k]) <= u128::MAX
        }),
        r matches Err(e) ==> {
            let s = *old(state);
            let v = s.vaults@[vault_index(s.vaults@, vault_id)];
            if vault_index(s.vaults@, vault_id) < 0 {
                e.text() == crate::state::not_found_text(vault_id)
            } else if sender@ != s.config.admin@ && sender@ != v.owner@ {
                e == ContractError::Unauthorized
            } else if v.performance_assessment_strategy is None {
                e.text() == "Error: "@ + "Vault is not a DCA+ vault"@
            } else {
                e is Std
            }
        },
        r matches Ok(resp) ==> {
            let s = *old(state);
            let i = vault_index(s.vaults@, vault_id);
            let v = s.vaults@[i];
            let fee = performance_fee(v, current_price)->0 as u128;
            let payout = (v.escrowed_amount.amount - fee) as u128;
            let fees = fee_payments(s.config.fee_collectors@, seq![fee], v.target_denom);
            let nd = v.destinations@.len();
            &&& final(state).vaults@ == s.vaults@.update(i, final(state).vaults@[i])
            &&& same_vault(final(state).vaults@[i], Vault { escrowed_amount: Coin { denom: v.escrowed_amount.denom, amount: 0 }, ..v })
            &&& wf(*final(state))
            &&& final(state).events == s.events
            &&& final(state).config == s.config
            &&& resp.messages@.len() == nd + fees.len()
            &&& forall|k: int| 0 <= k < nd ==> disbursement_msg_of(#[trigger] resp.messages@[k], v.destinations@[k], share_coin(payout, v.destinations@[k], v.target_denom))
            &&& pays(resp.messages@.subrange(nd as int, resp.messages@.len() as int), fees)
            &&& resp.attributes@.len() == 0
        },
{
    let i = state.vault_position(vault_id)?;
    proof {
        lemma_vault_index(state.vaults@, vault_id);
    }
    let v = &state.vaults[i];
    assert_sender_is_admin_or_vault_owner(&state.config, &v.owner, sender)?;
    if v.performance_assessment_strategy.is_none() {
        return Err(custom(String::from_str("Vault is not a DCA+ vault")));
    }
    let fee = get_performance_fee(v, current_price)?;
    let payout = v.escrowed_amount.amount - fee.amount;
    let (dmsgs, _entries) = get_disbursement_messages(v, payout)?;
    let mut fee_list: Vec<u128> = Vec::new();
    fee_list.push(fee.amount);
    assert(fee_list@ == seq![fee.amount]);
    let fmsgs = get_fee_messages(&state.config.fee_collectors, &fee_list, &v.target_denom);
    let ghost dview = dmsgs@;
    let ghost fview = fmsgs@;
    let mut msgs = dmsgs;
    let mut fmsgs = fmsgs;
    msgs.append(&mut fmsgs);
    assert(msgs@.subrange(0, dview.len() as int) == dview);
    assert(msgs@.subrange(dview.len() as int, msgs@.len() as int) == fview);
    let mut nv = v.copy();
    nv.escrowed_amount.amount = 0;
    let ghost s0 = *state;
    put_vault(state, i, nv);
    proof {
        lemma_update_keeps_wf(s0, *state, i as int, state.vaults@[i as int]);
    }
    let mut resp = Response::new();
    resp.add_messages(msgs);
    Ok(resp)
}

} // verus!
