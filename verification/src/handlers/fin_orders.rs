//! Replies to orders on a FIN market that settle a vault straight from what the
//! market reports: a market swap's traded amounts, a limit order's placement, its
//! retraction, and the withdrawal of its filled part. Each reply finds its vault
//! through the vault cache and clears the caches once the vault is settled.
use vstd::prelude::*;
use crate::disbursement::{share_coin, share_of};
use crate::error::{custom, ContractError, StdError};
use crate::fees::{bank_send_of, fee_payments, get_fee_messages, pays};
use crate::handlers::admin::contract_wf;
use crate::handlers::delegation::{attribute_in_events, digits_value, get_attribute_in_event};
use crate::handlers::fin::{reported_order_idx, fin_failure, fin_failure_text, limit_cache_missing_text, limit_order_cache_of, parse_u128_text, u128_text_parses};
use crate::handlers::vaults::{lemma_push_event_keeps_wf, lemma_update_keeps_wf, put_vault};
use crate::math::{checked_mul, mul_floor_spec, Decimal, DECIMAL_FRACTIONAL};
use crate::state::{has_room, lemma_vault_index, next_event, not_found_text, vault_index, wf, State};
use crate::handlers::execution::cache_missing_text;
use crate::schedule::get_next_target_time;
use crate::text::{amount_text, decimal_text, join};
use crate::types::{same_vault, Coin, CosmosMsg, Destination, Env, EventData, ExecutionSkippedReason, PositionType, ReplyEvent, Response, SubMsg, TriggerConfiguration, Vault, VaultStatus, AFTER_FIN_LIMIT_ORDER_WITHDRAWN_FOR_CANCEL_VAULT_REPLY_ID};

verus! {

/// The text a FIN market's error carries when a swap would exceed its slippage.
pub const ERROR_SWAP_SLIPPAGE: &'static str = "Max spread assertion";

/// The text a FIN market's error carries when the contract lacks the funds to swap.
pub const ERROR_SWAP_INSUFFICIENT_FUNDS: &'static str = "insufficient funds";

/// `needle` stands in `hay` from place `i` on.
pub open spec fn occurs_at(hay: Seq<char>, needle: Seq<char>, i: int) -> bool {
    &&& 0 <= i
    &&& i + needle.len() <= hay.len()
    &&& hay.subrange(i, i + needle.len()) == needle
}

/// `needle` stands somewhere in `hay` (the empty text stands in every text).
pub open spec fn text_contains(hay: Seq<char>, needle: Seq<char>) -> bool {
    exists|i: int| occurs_at(hay, needle, i)
}

fn occurs_at_place(hay: &str, needle: &str, i: usize) -> (b: bool)
    requires
        i + needle@.len() <= hay@.len(),
        hay@.len() <= usize::MAX,
    ensures
        b == occurs_at(hay@, needle@, i as int),
{
    let m = needle.unicode_len();
    let mut k: usize = 0;
    while k < m
        invariant
            k <= m,
            m == needle@.len(),
            i + m <= hay@.len(),
            hay@.len() <= usize::MAX,
            forall|j: int| 0 <= j < k ==> hay@[i + j] == needle@[j],
        decreases m - k,
    {
        if hay.get_char(i + k) != needle.get_char(k) {
            assert(hay@.subrange(i as int, i + m)[k as int] != needle@[k as int]);
            return false;
        }
        k = k + 1;
    }
    assert(hay@.subrange(i as int, i + m) =~= needle@);
    true
}

/// Whether `needle` stands somewhere in `hay`.
pub fn contains_text(hay: &String, needle: &str) -> (b: bool)
    ensures
        b == text_contains(hay@, needle@),
{
    let h = hay.as_str();
    let n = h.unicode_len();
    let m = needle.unicode_len();
    if m > n {
        assert forall|i: int| !occurs_at(hay@, needle@, i) by {}
        return false;
    }
    let last = n - m;
    let mut i: usize = 0;
    while i < last
        invariant
            i <= last,
            last + m == n,
            n == hay@.len(),
            m == needle@.len(),
            h@ == hay@,
            forall|j: int| 0 <= j < i ==> !occurs_at(hay@, needle@, j),
        decreases last - i,
    {
        if occurs_at_place(h, needle, i) {
            return true;
        }
        i = i + 1;
    }
    if occurs_at_place(h, needle, last) {
        return true;
    }
    assert forall|j: int| !occurs_at(hay@, needle@, j) by {
        if 0 <= j < i {
        }
    }
    false
}

/// Why a failed FIN swap did not go through, by the text of its error.
pub open spec fn fin_skipped_reason(error: Seq<char>) -> ExecutionSkippedReason {
    if text_contains(error, ERROR_SWAP_SLIPPAGE@) {
        ExecutionSkippedReason::SlippageToleranceExceeded
    } else if text_contains(error, ERROR_SWAP_INSUFFICIENT_FUNDS@) {
        ExecutionSkippedReason::InsufficientFunds
    } else {
        ExecutionSkippedReason::UnknownFailure
    }
}

/// Why a failed FIN swap did not go through, by the text of its error.
pub fn skipped_reason(error: &String) -> (r: ExecutionSkippedReason)
    ensures
        r == fin_skipped_reason(error@),
{
    if contains_text(error, ERROR_SWAP_SLIPPAGE) {
        ExecutionSkippedReason::SlippageToleranceExceeded
    } else if contains_text(error, ERROR_SWAP_INSUFFICIENT_FUNDS) {
        ExecutionSkippedReason::InsufficientFunds
    } else {
        ExecutionSkippedReason::UnknownFailure
    }
}

/// Messages that send each destination, in order, its share of `total` of `denom`.
pub open spec fn pays_shares(msgs: Seq<SubMsg>, ds: Seq<Destination>, total: u128, denom: String) -> bool {
    &&& msgs.len() == ds.len()
    &&& forall|k: int| 0 <= k < msgs.len() ==> bank_send_of(#[trigger] msgs[k], ds[k].address, share_coin(total, ds[k], denom))
}

/// Every destination's share of `total` fits in 128 bits.
pub open spec fn shares_fit(total: u128, ds: Seq<Destination>) -> bool {
    forall|k: int| 0 <= k < ds.len() ==> #[trigger] share_of(total, ds[k]) <= u128::MAX
}

/// The messages that send each destination its share of `total` of `denom`.
pub fn destination_transfers(ds: &Vec<Destination>, total: u128, denom: &String) -> (r: Vec<SubMsg>)
    requires
        shares_fit(total, ds@),
    ensures
        pays_shares(r@, ds@, total, *denom),
{
    let mut msgs: Vec<SubMsg> = Vec::new();
    let mut i: usize = 0;
    while i < ds.len()
        invariant
            i <= ds.len(),
            shares_fit(total, ds@),
            msgs@.len() == i,
            forall|k: int| 0 <= k < i ==> bank_send_of(#[trigger] msgs@[k], ds@[k].address, share_coin(total, ds@[k], *denom)),
        decreases ds.len() - i,
    {
        assert(share_of(total, ds@[i as int]) <= u128::MAX);
        let amount = match checked_mul(total, ds[i].allocation) {
            Ok(a) => a,
            Err(_) => {
                return msgs;
            },
        };
        let mut coins: Vec<Coin> = Vec::new();
        coins.push(Coin { denom: denom.clone(), amount });
        msgs.push(SubMsg { msg: CosmosMsg::BankSend { to_address: ds[i].address.clone(), amount: coins }, reply_id: None });
        i = i + 1;
    }
    msgs
}

/// The execution fee of `received`: the configuration's default swap fee of it, rounded
/// down.
pub open spec fn execution_fee(s: State, received: u128) -> int {
    mul_floor_spec(received, s.config.default_swap_fee_percent)
}

/// The fee of `received` is no more than `received`, and each destination's share of
/// what is left fits in 128 bits.
pub open spec fn payout_computable(s: State, v: Vault, received: u128) -> bool {
    &&& execution_fee(s, received) <= received
    &&& shares_fit((received - execution_fee(s, received)) as u128, v.destinations@)
}

/// The payout of `received` of the vault's target denomination: each destination's share
/// of what is left after the execution fee, then each fee collector's share of the fee.
pub open spec fn pays_out(msgs: Seq<SubMsg>, s: State, v: Vault, received: u128) -> bool {
    let fee = execution_fee(s, received) as u128;
    let total = (received - fee) as u128;
    let nd = v.destinations@.len() as int;
    &&& nd <= msgs.len()
    &&& pays_shares(msgs.subrange(0, nd), v.destinations@, total, v.target_denom)
    &&& pays(msgs.subrange(nd, msgs.len() as int), fee_payments(s.config.fee_collectors@, seq![fee], v.target_denom))
}

/// The messages that pay out `received` of the vault's target denomination, and the
/// execution fee kept of it.
fn payout_messages(state: &State, v: &Vault, received: u128) -> (r: (Vec<SubMsg>, u128))
    requires
        contract_wf(*state),
        payout_computable(*state, *v, received),
    ensures
        r.1 == execution_fee(*state, received),
        pays_out(r.0@, *state, *v, received),
{
    let fee = match checked_mul(received, state.config.default_swap_fee_percent) {
        Ok(f) => f,
        Err(_) => 0,
    };
    let total = received - fee;
    let dmsgs = destination_transfers(&v.destinations, total, &v.target_denom);
    let mut fee_list: Vec<u128> = Vec::new();
    fee_list.push(fee);
    assert(fee_list@ == seq![fee]);
    let fmsgs = get_fee_messages(&state.config.fee_collectors, &fee_list, &v.target_denom);
    let ghost dview = dmsgs@;
    let ghost fview = fmsgs@;
    let mut msgs = dmsgs;
    let mut fmsgs = fmsgs;
    msgs.append(&mut fmsgs);
    assert(msgs@.subrange(0, dview.len() as int) == dview);
    assert(msgs@.subrange(dview.len() as int, msgs@.len() as int) == fview);
    (msgs, fee)
}

/// The vault the cache names, where it exists.
pub open spec fn cached_vault(s: State) -> Option<Vault> {
    match s.vault_cache {
        Some(id) => if vault_index(s.vaults@, id) >= 0 {
            Some(s.vaults@[vault_index(s.vaults@, id)])
        } else {
            None
        },
        None => None,
    }
}

/// The next target time after `last` at `now`, capped at the largest time.
pub open spec fn capped_next_target_time(now: u64, last: u64, interval: crate::types::TimeInterval) -> u64 {
    if crate::schedule::next_target_time(now, last, interval) > u64::MAX {
        u64::MAX
    } else {
        crate::schedule::next_target_time(now, last, interval) as u64
    }
}

/// What a vault swaps at once: its swap amount, or all it holds where that is less.
pub open spec fn order_amount(v: Vault) -> u128 {
    if v.balance.amount < v.swap_amount {
        v.balance.amount
    } else {
        v.swap_amount
    }
}

/// The vault after `spent` leaves its balance in an execution at `now`, with its next
/// trigger: inactive once it holds less than its swap amount, and started now where it
/// had not started.
pub open spec fn executed_vault(v: Vault, spent: u128, now: u64, trigger: TriggerConfiguration) -> Vault {
    let balance = (v.balance.amount - spent) as u128;
    Vault {
        balance: Coin { denom: v.balance.denom, amount: balance },
        status: if balance < v.swap_amount { VaultStatus::Inactive } else { v.status },
        started_at: if v.started_at is None { Some(now) } else { v.started_at },
        trigger: Some(trigger),
        ..v
    }
}

fn execute_vault(v: &Vault, spent: u128, now: u64, trigger: TriggerConfiguration) -> (r: Vault)
    requires
        spent <= v.balance.amount,
    ensures
        same_vault(r, executed_vault(*v, spent, now, trigger)),
{
    let mut nv = v.copy();
    nv.balance.amount = v.balance.amount - spent;
    if nv.balance.amount < v.swap_amount {
        nv.status = VaultStatus::Inactive;
    }
    if v.started_at.is_none() {
        nv.started_at = Some(now);
    }
    nv.trigger = Some(trigger);
    nv
}

/// The text of an amount a market swap reports under `key` in its `wasm-trade` event.
pub open spec fn trade_amount(events: Seq<ReplyEvent>, key: Seq<char>) -> Option<Seq<char>> {
    attribute_in_events(events, "wasm-trade"@, key)
}

/// A market swap's reply reports both amounts it traded, as numbers.
pub open spec fn trade_reported(events: Seq<ReplyEvent>) -> bool {
    &&& trade_amount(events, "base_amount"@) matches Some(t) && u128_text_parses(t)
    &&& trade_amount(events, "quote_amount"@) matches Some(t) && u128_text_parses(t)
}

/// The amount a market swap reports under `key`.
pub open spec fn traded(events: Seq<ReplyEvent>, key: Seq<char>) -> u128 {
    digits_value(trade_amount(events, key)->0) as u128
}

fn traded_amount(events: &Vec<ReplyEvent>, key: &str) -> (r: u128)
    requires
        trade_amount(events@, key@) matches Some(t) && u128_text_parses(t),
    ensures
        r == traded(events@, key@),
{
    match get_attribute_in_event(events, "wasm-trade", key) {
        Ok(t) => parse_u128_text(&t),
        Err(_) => 0,
    }
}

/// Whether the vault enters a position on its pair: as its position type says, or,
/// where it was created without one, when it swaps the pair's quote denomination.
pub open spec fn enters_position(v: Vault) -> bool {
    match v.position_type {
        Some(p) => p == PositionType::Enter,
        None => v.balance.denom@ == v.pair.quote_denom@,
    }
}

/// What a market swap of the vault sent: the quote amount where the vault enters a
/// position, the base amount where it exits.
pub open spec fn swap_sent(v: Vault, events: Seq<ReplyEvent>) -> u128 {
    if enters_position(v) {
        traded(events, "quote_amount"@)
    } else {
        traded(events, "base_amount"@)
    }
}

/// What a market swap of the vault received: the base amount where the vault enters a
/// position, the quote amount where it exits.
pub open spec fn swap_received(v: Vault, events: Seq<ReplyEvent>) -> u128 {
    if enters_position(v) {
        traded(events, "base_amount"@)
    } else {
        traded(events, "quote_amount"@)
    }
}

/// The target time of a vault's time trigger.
pub open spec fn target_time_of(v: Vault) -> u64 {
    match v.trigger {
        Some(TriggerConfiguration::Time { target_time }) => target_time,
        _ => 0,
    }
}

/// The vault's time trigger moved on from its target time past `now`.
pub open spec fn rescheduled(v: Vault, now: u64) -> TriggerConfiguration {
    TriggerConfiguration::Time { target_time: capped_next_target_time(now, target_time_of(v), v.time_interval) }
}

pub open spec fn trigger_missing_text() -> Seq<char> {
    "base::triggers::trigger::Trigger"@ + " not found"@
}

fn cached_vault_place(state: &State) -> (r: Result<usize, ContractError>)
    ensures
        r is Ok <==> cached_vault(*state) is Some,
        r matches Ok(i) ==> i == vault_index(state.vaults@, state.vault_cache->0) && i < state.vaults@.len()
            && state.vaults@[i as int].id == state.vault_cache->0,
        r matches Err(e) ==> if state.vault_cache is None {
            e.text() == cache_missing_text("dca::state::cache::Cache"@)
        } else {
            e.text() == not_found_text(state.vault_cache->0)
        },
{
    let id = match state.vault_cache {
        Some(id) => id,
        None => return Err(ContractError::Std(StdError::NotFound { kind: String::from_str("dca::state::cache::Cache") })),
    };
    let i = state.vault_position(id)?;
    proof {
        lemma_vault_index(state.vaults@, id);
    }
    Ok(i)
}

/// The outcome of a vault's market swap on a FIN pair comes back. Where it went through,
/// the amounts the market reports give what was sent and received (by whether the vault
/// enters or exits a position on the pair it holds), the execution fee goes to the fee collectors
/// and the rest is split between the destinations; the vault's swap amount leaves its
/// balance, and it becomes inactive once it holds less than that. Where it failed, the
/// execution is recorded as skipped, for the reason the error's text gives. Either way
/// the time trigger moves to its next target time and the cache is cleared.
#[verifier::rlimit(50)]
pub fn fin_swap_completed(state: &mut State, env: &Env, reply: Result<Vec<ReplyEvent>, String>) -> (r: Result<Response, ContractError>)
    requires
        contract_wf(*old(state)),
        has_room(*old(state)),
        cached_vault(*old(state)) matches Some(v) ==> !(v.trigger matches Some(TriggerConfiguration::FinLimitOrder { .. })),
        cached_vault(*old(state)) matches Some(v) ==> (v.trigger is Some ==> (reply matches Ok(events) ==> trade_reported(events@))),
        cached_vault(*old(state)) matches Some(v) ==> (v.trigger is Some ==> (reply matches Ok(events) ==> payout_computable(*old(state), v, swap_received(v, events@)))),
    ensures
        r is Err ==> *final(state) == *old(state),
        r is Ok <==> (cached_vault(*old(state)) matches Some(v) && v.trigger is Some),
        r matches Err(e) ==> {
            let s = *old(state);
            if s.vault_cache is None {
                e.text() == cache_missing_text("dca::state::cache::Cache"@)
            } else if cached_vault(s) is None {
                e.text() == not_found_text(s.vault_cache->0)
            } else {
                e.text() == trigger_missing_text()
            }
        },
        r matches Ok(resp) ==> {
            let s = *old(state);
            let i = vault_index(s.vaults@, s.vault_cache->0);
            let v = s.vaults@[i];
            let next = rescheduled(v, env.time);
            &&& final(state).vaults@ == s.vaults@.update(i, final(state).vaults@[i])
            &&& final(state).vault_cache is None
            &&& contract_wf(*final(state))
            &&& final(state).config == s.config
            &&& final(state).pairs == s.pairs
            &&& final(state).limit_order_cache == s.limit_order_cache
            &&& final(state).swap_cache == s.swap_cache
            &&& resp.attributes@.len() == 4
            &&& resp.attributes@[0].key@ == "method"@ && resp.attributes@[0].value@ == "after_fin_swap_completed"@
            &&& resp.attributes@[1].key@ == "owner"@ && resp.attributes@[1].value == v.owner
            &&& resp.attributes@[2].key@ == "vault_id"@ && resp.attributes@[2].value@ == decimal_text(v.id as nat)
            &&& resp.attributes@[3].key@ == "status"@
            &&& match reply {
                Ok(events) => {
                    let received = swap_received(v, events@);
                    &&& resp.attributes@[3].value@ == "success"@
                    &&& same_vault(final(state).vaults@[i], executed_vault(v, order_amount(v), env.time, next))
                    &&& pays_out(resp.messages@, s, v, received)
                    &&& final(state).events@ == s.events@.push(next_event(s.events@.len(), v.id, *env, EventData::DcaVaultExecutionCompleted {
                        sent: Coin { denom: v.balance.denom, amount: swap_sent(v, events@) },
                        received: Coin { denom: v.target_denom, amount: received },
                        fee: Coin { denom: v.target_denom, amount: execution_fee(s, received) as u128 },
                    }))
                },
                Err(error) => {
                    &&& resp.attributes@[3].value@ == "skipped"@
                    &&& same_vault(final(state).vaults@[i], Vault { trigger: Some(next), ..v })
                    &&& resp.messages@.len() == 0
                    &&& final(state).events@ == s.events@.push(next_event(s.events@.len(), v.id, *env, EventData::DcaVaultExecutionSkipped { reason: fin_skipped_reason(error@) }))
                },
            }
        },
{
    let i = cached_vault_place(state)?;
    let v = &state.vaults[i];
    let id = v.id;
    let target = match v.trigger {
        Some(TriggerConfiguration::Time { target_time }) => target_time,
        _ => return Err(ContractError::Std(StdError::NotFound { kind: String::from_str("base::triggers::trigger::Trigger") })),
    };
    let next = TriggerConfiguration::Time { target_time: get_next_target_time(env.time, target, &v.time_interval) };
    let owner = v.owner.clone();
    let mut resp = Response::new();
    resp.add_attribute("method", String::from_str("after_fin_swap_completed"));
    resp.add_attribute("owner", owner);
    resp.add_attribute("vault_id", amount_text(id));
    let ghost s0 = *state;
    match reply {
        Ok(events) => {
            let base = traded_amount(&events, "base_amount");
            let quote = traded_amount(&events, "quote_amount");
            let enter = match v.position_type {
                Some(p) => p == PositionType::Enter,
                None => v.balance.denom == v.pair.quote_denom,
            };
            let (sent, received) = if enter { (quote, base) } else { (base, quote) };
            let (msgs, fee) = payout_messages(state, v, received);
            let spent = if v.balance.amount < v.swap_amount { v.balance.amount } else { v.swap_amount };
            let nv = execute_vault(v, spent, env.time, next);
            let swap_denom = v.balance.denom.clone();
            let target_denom = v.target_denom.clone();
            put_vault(state, i, nv);
            proof {
                lemma_update_keeps_wf(s0, *state, i as int, state.vaults@[i as int]);
            }
            let ghost s1 = *state;
            state.create_event(id, env, EventData::DcaVaultExecutionCompleted {
                sent: Coin { denom: swap_denom, amount: sent },
                received: Coin { denom: target_denom.clone(), amount: received },
                fee: Coin { denom: target_denom, amount: fee },
            });
            proof {
                lemma_push_event_keeps_wf(s1, *state, state.events@.last());
            }
            resp.add_attribute("status", String::from_str("success"));
            resp.add_messages(msgs);
        },
        Err(error) => {
            let reason = skipped_reason(&error);
            let mut nv = v.copy();
            nv.trigger = Some(next);
            put_vault(state, i, nv);
            proof {
                lemma_update_keeps_wf(s0, *state, i as int, state.vaults@[i as int]);
            }
            let ghost s1 = *state;
            state.create_event(id, env, EventData::DcaVaultExecutionSkipped { reason });
            proof {
                lemma_push_event_keeps_wf(s1, *state, state.events@.last());
            }
            resp.add_attribute("status", String::from_str("skipped"));
        },
    }
    state.vault_cache = None;
    Ok(resp)
}

/// Removes the vault at place `i` from the store.
fn remove_vault(state: &mut State, i: usize)
    requires
        wf(*old(state)),
        i < old(state).vaults@.len(),
    ensures
        final(state).vaults@ == old(state).vaults@.remove(i as int),
        wf(*final(state)),
        final(state).config == old(state).config,
        final(state).pairs == old(state).pairs,
        final(state).events == old(state).events,
        final(state).next_vault_id == old(state).next_vault_id,
        final(state).custom_fees == old(state).custom_fees,
        final(state).swap_adjustments == old(state).swap_adjustments,
        final(state).disburse_escrow_tasks == old(state).disburse_escrow_tasks,
        final(state).post_execution_actions == old(state).post_execution_actions,
        final(state).vault_cache == old(state).vault_cache,
        final(state).swap_cache == old(state).swap_cache,
        final(state).limit_order_cache == old(state).limit_order_cache,
{
    let ghost s0 = *state;
    state.vaults.remove(i);
    proof {
        let vs = s0.vaults@;
        let ws = state.vaults@;
        assert forall|a: int| 0 <= a < ws.len() implies #[trigger] ws[a] == vs[if a < i { a } else { a + 1 }] by {}
        assert forall|a: int, b: int| 0 <= a < b < ws.len() implies (#[trigger] ws[a]).id != (#[trigger] ws[b]).id by {
            let a1 = if a < i { a } else { a + 1 };
            let b1 = if b < i { b } else { b + 1 };
            assert(ws[a] == vs[a1]);
            assert(ws[b] == vs[b1]);
        }
        assert forall|a: int| 0 <= a < ws.len() implies (#[trigger] ws[a]).id < state.next_vault_id by {
            assert(ws[a] == vs[if a < i { a } else { a + 1 }]);
        }
    }
}

/// The filled part of a running vault's FIN limit order was withdrawn: the vault's time
/// trigger is set a full interval from now, the order's offer leaves the vault's balance
/// (inactive once it holds less than its swap amount), what the order filled is paid out
/// after the execution fee, the execution is recorded, and the caches are cleared.
#[verifier::rlimit(50)]
pub fn fin_limit_order_withdrawn_for_execute_vault(state: &mut State, env: &Env, reply: Result<(), String>) -> (r: Result<Response, ContractError>)
    requires
        contract_wf(*old(state)),
        has_room(*old(state)),
        cached_vault(*old(state)) matches Some(v) ==> (old(state).limit_order_cache matches Some(c) ==> (reply is Ok ==> (
            c.original_offer_amount <= v.balance.amount && payout_computable(*old(state), v, c.filled)))),
    ensures
        r is Err ==> *final(state) == *old(state),
        r is Ok <==> (cached_vault(*old(state)) is Some && old(state).limit_order_cache is Some && reply is Ok),
        r matches Err(e) ==> {
            let s = *old(state);
            if s.vault_cache is None {
                e.text() == cache_missing_text("dca::state::cache::Cache"@)
            } else if s.limit_order_cache is None {
                e.text() == limit_cache_missing_text()
            } else if cached_vault(s) is None {
                e.text() == not_found_text(s.vault_cache->0)
            } else {
                e.text() == "Error: "@ + fin_failure_text("failed to withdraw fin limit order for vault id: "@, s.vault_cache->0, reply->Err_0@)
            }
        },
        r matches Ok(resp) ==> {
            let s = *old(state);
            let i = vault_index(s.vaults@, s.vault_cache->0);
            let v = s.vaults@[i];
            let c = s.limit_order_cache->0;
            let next = TriggerConfiguration::Time { target_time: capped_next_target_time(env.time, env.time, v.time_interval) };
            &&& final(state).vaults@ == s.vaults@.update(i, final(state).vaults@[i])
            &&& same_vault(final(state).vaults@[i], executed_vault(v, c.original_offer_amount, env.time, next))
            &&& final(state).events@ == s.events@.push(next_event(s.events@.len(), v.id, *env, EventData::DcaVaultExecutionCompleted {
                sent: Coin { denom: v.balance.denom, amount: c.original_offer_amount },
                received: Coin { denom: v.target_denom, amount: c.filled },
                fee: Coin { denom: v.target_denom, amount: execution_fee(s, c.filled) as u128 },
            }))
            &&& final(state).vault_cache is None
            &&& final(state).limit_order_cache is None
            &&& contract_wf(*final(state))
            &&& final(state).config == s.config
            &&& final(state).pairs == s.pairs
            &&& final(state).swap_cache == s.swap_cache
            &&& pays_out(resp.messages@, s, v, c.filled)
            &&& resp.attributes@.len() == 2
            &&& resp.attributes@[0].key@ == "method"@ && resp.attributes@[0].value@ == "after_fin_limit_order_withdrawn_for_execute_trigger"@
            &&& resp.attributes@[1].key@ == "vault_id"@ && resp.attributes@[1].value@ == decimal_text(v.id as nat)
        },
{
    let id = match state.vault_cache {
        Some(id) => id,
        None => return Err(ContractError::Std(StdError::NotFound { kind: String::from_str("dca::state::cache::Cache") })),
    };
    let c = limit_order_cache_of(state)?;
    let i = state.vault_position(id)?;
    proof {
        lemma_vault_index(state.vaults@, id);
    }
    let v = &state.vaults[i];
    if let Err(reason) = reply {
        return Err(fin_failure("failed to withdraw fin limit order for vault id: ", v.id, &reason));
    }
    let next = TriggerConfiguration::Time { target_time: get_next_target_time(env.time, env.time, &v.time_interval) };
    let (msgs, fee) = payout_messages(state, v, c.filled);
    let nv = execute_vault(v, c.original_offer_amount, env.time, next);
    let swap_denom = v.balance.denom.clone();
    let target_denom = v.target_denom.clone();
    let ghost s0 = *state;
    put_vault(state, i, nv);
    proof {
        lemma_update_keeps_wf(s0, *state, i as int, state.vaults@[i as int]);
    }
    let ghost s1 = *state;
    state.create_event(id, env, EventData::DcaVaultExecutionCompleted {
        sent: Coin { denom: swap_denom, amount: c.original_offer_amount },
        received: Coin { denom: target_denom.clone(), amount: c.filled },
        fee: Coin { denom: target_denom, amount: fee },
    });
    proof {
        lemma_push_event_keeps_wf(s1, *state, state.events@.last());
    }
    state.limit_order_cache = None;
    state.vault_cache = None;
    let mut resp = Response::new();
    resp.add_attribute("method", String::from_str("after_fin_limit_order_withdrawn_for_execute_trigger"));
    resp.add_attribute("vault_id", amount_text(id));
    resp.add_messages(msgs);
    Ok(resp)
}

/// The filled part of a cancelled vault's FIN limit order was withdrawn: what the order
/// filled goes to the owner, and the vault, with its trigger, leaves the store; the
/// caches are cleared.
pub fn fin_limit_order_withdrawn_for_cancel_vault(state: &mut State, reply: Result<(), String>) -> (r: Result<Response, ContractError>)
    requires
        wf(*old(state)),
        cached_vault(*old(state)) matches Some(v) ==> (old(state).limit_order_cache is Some ==> (reply is Ok ==> v.trigger is Some)),
    ensures
        r is Err ==> *final(state) == *old(state),
        r is Ok <==> (cached_vault(*old(state)) is Some && reply is Ok && old(state).limit_order_cache is Some),
        r matches Err(e) ==> {
            let s = *old(state);
            if s.vault_cache is None {
                e.text() == cache_missing_text("dca::state::cache::Cache"@)
            } else if cached_vault(s) is None {
                e.text() == not_found_text(s.vault_cache->0)
            } else if reply is Err {
                e.text() == "Error: "@ + fin_failure_text("failed to withdraw fin limit order for vault id: "@, s.vault_cache->0, reply->Err_0@)
            } else {
                e.text() == limit_cache_missing_text()
            }
        },
        r matches Ok(resp) ==> {
            let s = *old(state);
            let i = vault_index(s.vaults@, s.vault_cache->0);
            let v = s.vaults@[i];
            &&& final(state).vaults@ == s.vaults@.remove(i)
            &&& final(state).vault_cache is None
            &&& final(state).limit_order_cache is None
            &&& wf(*final(state))
            &&& final(state).events == s.events
            &&& final(state).config == s.config
            &&& resp.messages@.len() == 1
            &&& bank_send_of(resp.messages@[0], v.owner, Coin { denom: v.target_denom, amount: s.limit_order_cache->0.filled })
            &&& resp.attributes@.len() == 1
            &&& resp.attributes@[0].key@ == "method"@ && resp.attributes@[0].value@ == "after_cancel_trigger_withdraw_order"@
        },
{
    let i = cached_vault_place(state)?;
    if let Err(reason) = reply {
        return Err(fin_failure("failed to withdraw fin limit order for vault id: ", state.vaults[i].id, &reason));
    }
    let c = limit_order_cache_of(state)?;
    let v = &state.vaults[i];
    let mut coins: Vec<Coin> = Vec::new();
    coins.push(Coin { denom: v.target_denom.clone(), amount: c.filled });
    let owner = v.owner.clone();
    remove_vault(state, i);
    state.limit_order_cache = None;
    state.vault_cache = None;
    let mut resp = Response::new();
    resp.add_attribute("method", String::from_str("after_cancel_trigger_withdraw_order"));
    resp.add_message(SubMsg { msg: CosmosMsg::BankSend { to_address: owner, amount: coins }, reply_id: None });
    Ok(resp)
}

/// The text of the amount a retracted limit order gave back, in the `wasm` event.
pub open spec fn retracted_amount_text(events: Seq<ReplyEvent>) -> Option<Seq<char>> {
    attribute_in_events(events, "wasm"@, "amount"@)
}

/// The amount a retracted limit order gave back.
pub open spec fn retracted_amount(events: Seq<ReplyEvent>) -> u128 {
    digits_value(retracted_amount_text(events)->0) as u128
}

/// What a partly filled, retracted order leaves the owner of the vault's balance: all of
/// it but the part of the swap amount that the order did not give back.
pub open spec fn retracted_balance(v: Vault, retracted: u128) -> int {
    v.balance.amount - (v.swap_amount - retracted)
}

/// A cancelled vault's FIN limit order was retracted. The cancellation is recorded.
/// Where all of the order's offer came back, the vault's balance goes to the owner and
/// the vault, with its trigger, leaves the store, and the caches are cleared; otherwise
/// the order was partly filled: its filled part is withdrawn next (the vault's id names
/// the order) and the vault's balance less what the order kept goes to the owner.
#[verifier::rlimit(50)]
pub fn fin_limit_order_retracted(state: &mut State, env: &Env, pair_address: &String, reply: Result<Vec<ReplyEvent>, String>) -> (r: Result<Response, ContractError>)
    requires
        wf(*old(state)),
        has_room(*old(state)),
        cached_vault(*old(state)) matches Some(v) ==> (old(state).limit_order_cache matches Some(c) ==> (reply matches Ok(events) ==> {
            &&& retracted_amount_text(events@) matches Some(t) && u128_text_parses(t)
            &&& retracted_amount(events@) != c.original_offer_amount ==> (retracted_amount(events@) <= v.swap_amount && 0 <= retracted_balance(v, retracted_amount(events@)))
        })),
    ensures
        r is Err ==> *final(state) == *old(state),
        r is Ok <==> (cached_vault(*old(state)) is Some && reply is Ok && old(state).limit_order_cache is Some),
        r matches Err(e) ==> {
            let s = *old(state);
            if s.vault_cache is None {
                e.text() == cache_missing_text("dca::state::cache::Cache"@)
            } else if cached_vault(s) is None {
                e.text() == not_found_text(s.vault_cache->0)
            } else if reply is Err {
                e.text() == "Error: "@ + fin_failure_text("failed to retract fin limit order for vault id: "@, s.vault_cache->0, reply->Err_0@)
            } else {
                e.text() == limit_cache_missing_text()
            }
        },
        r matches Ok(resp) ==> {
            let s = *old(state);
            let i = vault_index(s.vaults@, s.vault_cache->0);
            let v = s.vaults@[i];
            let c = s.limit_order_cache->0;
            let retracted = retracted_amount(reply->Ok_0@);
            &&& final(state).events@ == s.events@.push(next_event(s.events@.len(), v.id, *env, EventData::DcaVaultCancelled))
            &&& wf(*final(state))
            &&& final(state).config == s.config
            &&& resp.attributes@.len() == 2
            &&& resp.attributes@[0].key@ == "method"@ && resp.attributes@[0].value@ == "after_retract_order"@
            &&& resp.attributes@[1].key@ == "withdraw_required"@
            &&& retracted == c.original_offer_amount ==> {
                &&& resp.attributes@[1].value@ == "false"@
                &&& final(state).vaults@ == s.vaults@.remove(i)
                &&& final(state).vault_cache is None
                &&& final(state).limit_order_cache is None
                &&& resp.messages@.len() == 1
                &&& bank_send_of(resp.messages@[0], v.owner, v.balance)
            }
            &&& retracted != c.original_offer_amount ==> {
                &&& resp.attributes@[1].value@ == "true"@
                &&& final(state).vaults == s.vaults
                &&& final(state).vault_cache == s.vault_cache
                &&& final(state).limit_order_cache == s.limit_order_cache
                &&& resp.messages@.len() == 2
                &&& resp.messages@[0] == SubMsg {
                    msg: CosmosMsg::FinWithdrawOrder { pair_address: *pair_address, order_idx: v.id },
                    reply_id: Some(AFTER_FIN_LIMIT_ORDER_WITHDRAWN_FOR_CANCEL_VAULT_REPLY_ID),
                }
                &&& bank_send_of(resp.messages@[1], v.owner, Coin { denom: v.balance.denom, amount: retracted_balance(v, retracted) as u128 })
            }
        },
{
    let i = cached_vault_place(state)?;
    let events = match reply {
        Ok(events) => events,
        Err(reason) => return Err(fin_failure("failed to retract fin limit order for vault id: ", state.vaults[i].id, &reason)),
    };
    let c = limit_order_cache_of(state)?;
    let retracted = match get_attribute_in_event(&events, "wasm", "amount") {
        Ok(t) => parse_u128_text(&t),
        Err(_) => 0,
    };
    let v = &state.vaults[i];
    let id = v.id;
    let owner = v.owner.clone();
    let mut resp = Response::new();
    resp.add_attribute("method", String::from_str("after_retract_order"));
    if retracted != c.original_offer_amount {
        let left = v.balance.amount - (v.swap_amount - retracted);
        let mut coins: Vec<Coin> = Vec::new();
        coins.push(Coin { denom: v.balance.denom.clone(), amount: left });
        resp.add_attribute("withdraw_required", String::from_str("true"));
        resp.add_message(SubMsg {
            msg: CosmosMsg::FinWithdrawOrder { pair_address: pair_address.clone(), order_idx: id },
            reply_id: Some(AFTER_FIN_LIMIT_ORDER_WITHDRAWN_FOR_CANCEL_VAULT_REPLY_ID),
        });
        resp.add_message(SubMsg { msg: CosmosMsg::BankSend { to_address: owner, amount: coins }, reply_id: None });
        let ghost s1 = *state;
        state.create_event(id, env, EventData::DcaVaultCancelled);
        proof {
            lemma_push_event_keeps_wf(s1, *state, state.events@.last());
        }
        return Ok(resp);
    }
    let mut coins: Vec<Coin> = Vec::new();
    coins.push(v.balance.copy());
    resp.add_attribute("withdraw_required", String::from_str("false"));
    resp.add_message(SubMsg { msg: CosmosMsg::BankSend { to_address: owner, amount: coins }, reply_id: None });
    let ghost s1 = *state;
    state.create_event(id, env, EventData::DcaVaultCancelled);
    proof {
        lemma_push_event_keeps_wf(s1, *state, state.events@.last());
    }
    remove_vault(state, i);
    state.limit_order_cache = None;
    state.vault_cache = None;
    Ok(resp)
}

/// A FIN limit order was placed for the cached vault: its trigger becomes the order the
/// market reports, at a target price of one, and the cache is cleared.
pub fn fin_limit_order_submitted(state: &mut State, reply: Result<Vec<ReplyEvent>, String>) -> (r: Result<Response, ContractError>)
    requires
        wf(*old(state)),
        reply matches Ok(events) ==> (reported_order_idx(events@) matches Some(t) && u128_text_parses(t)),
    ensures
        r is Err ==> *final(state) == *old(state),
        r is Ok <==> (reply is Ok && cached_vault(*old(state)) is Some),
        r matches Err(e) ==> {
            let s = *old(state);
            if reply is Err {
                e.text() == "Error: "@ + "failed to create vault with fin limit order trigger: "@ + reply->Err_0@
            } else if s.vault_cache is None {
                e.text() == cache_missing_text("dca::state::cache::Cache"@)
            } else {
                e.text() == not_found_text(s.vault_cache->0)
            }
        },
        r matches Ok(resp) ==> {
            let s = *old(state);
            let i = vault_index(s.vaults@, s.vault_cache->0);
            let idx = digits_value(reported_order_idx(reply->Ok_0@)->0) as u128;
            &&& final(state).vaults@ == s.vaults@.update(i, final(state).vaults@[i])
            &&& same_vault(final(state).vaults@[i], Vault {
                trigger: Some(TriggerConfiguration::FinLimitOrder { target_price: Decimal { atomics: DECIMAL_FRACTIONAL }, order_idx: Some(idx) }),
                ..s.vaults@[i]
            })
            &&& final(state).vault_cache is None
            &&& wf(*final(state))
            &&& final(state).events == s.events
            &&& final(state).config == s.config
            &&& resp.messages@.len() == 0
            &&& resp.attributes@.len() == 2
            &&& resp.attributes@[0].key@ == "method"@ && resp.attributes@[0].value@ == "fin_limit_order_submitted"@
            &&& resp.attributes@[1].key@ == "order_idx"@ && resp.attributes@[1].value@ == decimal_text(idx as nat)
        },
{
    let events = match reply {
        Ok(events) => events,
        Err(reason) => return Err(custom(join("failed to create vault with fin limit order trigger: ", reason.as_str()))),
    };
    let idx = match get_attribute_in_event(&events, "wasm", "order_idx") {
        Ok(t) => parse_u128_text(&t),
        Err(_) => 0,
    };
    let i = cached_vault_place(state)?;
    let mut nv = state.vaults[i].copy();
    nv.trigger = Some(TriggerConfiguration::FinLimitOrder { target_price: Decimal::one(), order_idx: Some(idx) });
    let ghost s0 = *state;
    put_vault(state, i, nv);
    proof {
        lemma_update_keeps_wf(s0, *state, i as int, state.vaults@[i as int]);
    }
    state.vault_cache = None;
    let mut resp = Response::new();
    resp.add_attribute("method", String::from_str("fin_limit_order_submitted"));
    resp.add_attribute("order_idx", amount_text(idx));
    Ok(resp)
}

/// The vault runs on the FIN limit order with the given index.
pub open spec fn has_order(v: Vault, order_idx: u128) -> bool {
    v.trigger matches Some(TriggerConfiguration::FinLimitOrder { order_idx: Some(o), .. }) && o == order_idx
}

/// The trigger id (the vault's id) of the first vault, in the order of the store, that
/// runs on the FIN limit order with the given index.
pub open spec fn order_trigger_id(vs: Seq<Vault>, order_idx: u128) -> Option<u128>
    decreases vs.len(),
{
    if vs.len() == 0 {
        None
    } else {
        match order_trigger_id(vs.drop_last(), order_idx) {
            Some(id) => Some(id),
            None => if has_order(vs.last(), order_idx) {
                Some(vs.last().id)
            } else {
                None
            },
        }
    }
}

/// The id of the trigger that runs on the FIN limit order with the given index.
pub fn get_trigger_id_by_fin_limit_order_idx(state: &State, order_idx: u128) -> (r: Result<u128, StdError>)
    ensures
        r is Ok <==> order_trigger_id(state.vaults@, order_idx) is Some,
        r matches Ok(id) ==> id == order_trigger_id(state.vaults@, order_idx)->0,
        r matches Err(e) ==> e.text() == "u128"@ + " not found"@,
{
    let vs = &state.vaults;
    let mut i: usize = 0;
    while i < vs.len()
        invariant
            i <= vs.len(),
            vs@ == state.vaults@,
            order_trigger_id(vs@.subrange(0, i as int), order_idx) is None,
        decreases vs.len() - i,
    {
        assert(vs@.subrange(0, i + 1).drop_last() == vs@.subrange(0, i as int));
        if let Some(TriggerConfiguration::FinLimitOrder { order_idx: Some(o), .. }) = vs[i].trigger {
            if o == order_idx {
                proof {
                    assert(vs@.subrange(0, i + 1).last() == vs@[i as int]);
                    assert(order_trigger_id(vs@.subrange(0, i + 1), order_idx) == Some(vs@[i as int].id));
                    lemma_order_trigger_id_prefix(vs@, i + 1, order_idx);
                }
                return Ok(vs[i].id);
            }
        }
        i = i + 1;
    }
    assert(vs@.subrange(0, vs@.len() as int) == vs@);
    Err(StdError::NotFound { kind: String::from_str("u128") })
}

proof fn lemma_order_trigger_id_prefix(vs: Seq<Vault>, n: int, order_idx: u128)
    requires
        0 <= n <= vs.len(),
        order_trigger_id(vs.subrange(0, n), order_idx) is Some,
    ensures
        order_trigger_id(vs, order_idx) == order_trigger_id(vs.subrange(0, n), order_idx),
    decreases vs.len(),
{
    if n < vs.len() {
        assert(vs.drop_last().subrange(0, n) == vs.subrange(0, n));
        lemma_order_trigger_id_prefix(vs.drop_last(), n, order_idx);
    } else {
        assert(vs.subrange(0, n) == vs);
    }
}

} // verus!
