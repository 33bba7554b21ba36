//! Properties of the contract as a whole: what every swap's payout, every fee split,
//! every schedule and every update of the stored state keeps.
use vstd::prelude::*;
use crate::disbursement::{coins_of, disbursement_msg_of, lemma_disbursement_within_total, lemma_settlement_conserves, messages_sent, settle, share_coin, share_of, shares_sum, Settlement};
use crate::fees::{bank_send_of, collector_payments, fee_payments, pays};
use crate::handlers::admin::{pairs_after_save, updated_config, ConfigUpdate};
use crate::handlers::escrow::{performance_fee, performance_factor, standard_value};
use crate::handlers::execution::{rescheduled_vault, settled_vault, swapped_vault, vault_swap_amount, weighted_scale_factor};
use crate::handlers::fin::{fin_settled_vault, fin_swap_outcome, fin_swapped_vault};
use crate::handlers::events::events_page;
use crate::handlers::vaults::{cancelled_vault, deposited_vault};
use crate::handlers::fin_orders::{executed_vault, execution_fee, order_amount, rescheduled, target_time_of};
use crate::math::{lemma_ratio_floor_bounds, mul_floor_spec, ratio_floor, Decimal, DECIMAL_FRACTIONAL};
use crate::schedule::{lemma_next_target_time_is_future, interval_nanos};
use crate::state::{custom_fee_of, lemma_pair_index, pair_index, vault_index, wf, CustomFee, SwapAdjustment, State};
use crate::types::{Coin, Env, Event, FeeCollector, Pair, PerformanceAssessmentStrategy, SubMsg, TriggerConfiguration, Vault, VaultStatus, Destination, MINIMUM_SWAP_AMOUNT};
use crate::validation::{collector_allocation_sum, destination_allocation_sum, lemma_collector_sum_nonneg};

verus! {

/// Out of what a swap received, the fees, the escrow and the destinations' shares
/// together never exceed it, for a vault whose destinations share at most the whole.
pub proof fn law_payout_within_received(received: u128, swap_rate: Decimal, automation_rate: Decimal, escrow_level: Decimal, ds: Seq<Destination>)
    requires
        settle(received, swap_rate, automation_rate, escrow_level) is Some,
        destination_allocation_sum(ds) <= DECIMAL_FRACTIONAL,
    ensures
        ({
            let st = settle(received, swap_rate, automation_rate, escrow_level)->0;
            st.swap_fee + st.automation_fee + st.escrowed + shares_sum(st.disbursed, ds) <= received
        }),
{
    lemma_settlement_conserves(received, swap_rate, automation_rate, escrow_level);
    let st = settle(received, swap_rate, automation_rate, escrow_level)->0;
    lemma_disbursement_within_total(st.disbursed, ds);
}

/// The fee collectors' shares of a fee, rounded down, added up.
pub open spec fn collector_shares_sum(fee: u128, cs: Seq<FeeCollector>) -> int
    decreases cs.len(),
{
    if cs.len() == 0 {
        0
    } else {
        collector_shares_sum(fee, cs.drop_last()) + mul_floor_spec(fee, cs.last().allocation)
    }
}

proof fn lemma_collector_shares_bounded(fee: u128, cs: Seq<FeeCollector>)
    ensures
        0 <= collector_shares_sum(fee, cs) <= ratio_floor(fee as int, collector_allocation_sum(cs), DECIMAL_FRACTIONAL as int),
    decreases cs.len(),
{
    lemma_collector_sum_nonneg(cs);
    if cs.len() > 0 {
        lemma_collector_shares_bounded(fee, cs.drop_last());
        lemma_collector_sum_nonneg(cs.drop_last());
        let a = fee as int * collector_allocation_sum(cs.drop_last());
        let b = fee as int * cs.last().allocation.atomics;
        assert(a >= 0) by (nonlinear_arith)
            requires
                fee >= 0,
                collector_allocation_sum(cs.drop_last()) >= 0,
                a == fee as int * collector_allocation_sum(cs.drop_last()),
        ;
        assert(b >= 0) by (nonlinear_arith)
            requires
                fee >= 0,
                cs.last().allocation.atomics >= 0,
                b == fee as int * cs.last().allocation.atomics,
        ;
        assert(a + b == fee as int * collector_allocation_sum(cs)) by (nonlinear_arith)
            requires
                a == fee as int * collector_allocation_sum(cs.drop_last()),
                b == fee as int * cs.last().allocation.atomics,
                collector_allocation_sum(cs) == collector_allocation_sum(cs.drop_last()) + cs.last().allocation.atomics,
        ;
        assert(a / (DECIMAL_FRACTIONAL as int) + b / (DECIMAL_FRACTIONAL as int) <= (a + b) / (DECIMAL_FRACTIONAL as int)) by (nonlinear_arith)
            requires
                a >= 0,
                b >= 0,
        ;
    }
}

/// Fee collectors whose shares add up to the whole are together paid at most the fee.
pub proof fn law_fee_split_within_fee(fee: u128, cs: Seq<FeeCollector>)
    requires
        collector_allocation_sum(cs) == DECIMAL_FRACTIONAL,
    ensures
        0 <= collector_shares_sum(fee, cs) <= fee,
{
    lemma_collector_shares_bounded(fee, cs);
    lemma_ratio_floor_bounds(fee as int, DECIMAL_FRACTIONAL as int, DECIMAL_FRACTIONAL as int);
}

/// The total of a list of payments.
pub open spec fn payment_total(ps: Seq<(String, Coin)>) -> int
    decreases ps.len(),
{
    if ps.len() == 0 {
        0
    } else {
        payment_total(ps.drop_last()) + ps.last().1.amount
    }
}

proof fn lemma_sent_concat(a: Seq<SubMsg>, b: Seq<SubMsg>, denom: Seq<char>)
    ensures
        messages_sent(a + b, denom) == messages_sent(a, denom) + messages_sent(b, denom),
    decreases b.len(),
{
    if b.len() == 0 {
        assert(a + b =~= a);
    } else {
        assert((a + b).drop_last() =~= a + b.drop_last());
        assert((a + b).last() == b.last());
        lemma_sent_concat(a, b.drop_last(), denom);
    }
}

proof fn lemma_one_coin(c: Coin, denom: Seq<char>)
    ensures
        coins_of(seq![c], denom) == if c.denom@ == denom { c.amount as int } else { 0 },
{
    assert(seq![c].drop_last() =~= Seq::<Coin>::empty());
    assert(seq![c].last() == c);
    assert(coins_of(Seq::<Coin>::empty(), denom) == 0);
}

proof fn lemma_payment_total_concat(a: Seq<(String, Coin)>, b: Seq<(String, Coin)>)
    ensures
        payment_total(a + b) == payment_total(a) + payment_total(b),
    decreases b.len(),
{
    if b.len() == 0 {
        assert(a + b =~= a);
    } else {
        assert((a + b).drop_last() =~= a + b.drop_last());
        lemma_payment_total_concat(a, b.drop_last());
    }
}

/// Messages that make payments all in `denom` send exactly their total of it.
proof fn lemma_sent_by_payments(msgs: Seq<SubMsg>, ps: Seq<(String, Coin)>, denom: Seq<char>)
    requires
        pays(msgs, ps),
        forall|i: int| 0 <= i < ps.len() ==> (#[trigger] ps[i]).1.denom@ == denom,
    ensures
        messages_sent(msgs, denom) == payment_total(ps),
    decreases msgs.len(),
{
    if msgs.len() > 0 {
        let k = msgs.len() - 1;
        assert(bank_send_of(msgs[k], ps[k].0, ps[k].1));
        lemma_one_coin(ps[k].1, denom);
        assert(pays(msgs.drop_last(), ps.drop_last())) by {
            assert forall|i: int| 0 <= i < msgs.drop_last().len() implies bank_send_of(
                #[trigger] msgs.drop_last()[i], ps.drop_last()[i].0, ps.drop_last()[i].1) by {
                assert(bank_send_of(msgs[i], ps[i].0, ps[i].1));
            }
        }
        assert forall|i: int| 0 <= i < ps.drop_last().len() implies (#[trigger] ps.drop_last()[i]).1.denom@ == denom by {
            assert(ps[i].1.denom@ == denom);
        }
        lemma_sent_by_payments(msgs.drop_last(), ps.drop_last(), denom);
    }
}

/// The payments of two fees to collectors whose shares are each at most the whole are
/// the collectors' shares of the two fees, all in `denom`.
proof fn lemma_fee_payments_total(cs: Seq<FeeCollector>, fees: Seq<u128>, denom: String)
    requires
        fees.len() == 2,
        forall|i: int| 0 <= i < cs.len() ==> #[trigger] cs[i].allocation.atomics <= DECIMAL_FRACTIONAL,
    ensures
        payment_total(fee_payments(cs, fees, denom)) == collector_shares_sum(fees[0], cs) + collector_shares_sum(fees[1], cs),
        forall|i: int| 0 <= i < fee_payments(cs, fees, denom).len()
            ==> (#[trigger] fee_payments(cs, fees, denom)[i]).1.denom == denom,
    decreases cs.len(),
{
    let f1 = fees[0];
    let f2 = fees[1];
    if cs.len() > 0 {
        let c = cs.last();
        assert forall|i: int| 0 <= i < cs.drop_last().len() implies #[trigger] cs.drop_last()[i].allocation.atomics <= DECIMAL_FRACTIONAL by {
            assert(cs[i].allocation.atomics <= DECIMAL_FRACTIONAL);
        }
        lemma_fee_payments_total(cs.drop_last(), fees, denom);
        assert(c.allocation.atomics <= DECIMAL_FRACTIONAL);
        lemma_ratio_floor_bounds(f1 as int, c.allocation.atomics as int, DECIMAL_FRACTIONAL as int);
        lemma_ratio_floor_bounds(f2 as int, c.allocation.atomics as int, DECIMAL_FRACTIONAL as int);
        let cp = collector_payments(c, fees, denom);
        assert(cp.len() == 2);
        assert(cp.drop_last().drop_last() =~= Seq::<(String, Coin)>::empty());
        assert(cp[0].1.amount == mul_floor_spec(f1, c.allocation));
        assert(cp[1].1.amount == mul_floor_spec(f2, c.allocation));
        assert(payment_total(cp.drop_last().drop_last()) == 0);
        assert(payment_total(cp.drop_last()) == cp[0].1.amount);
        assert(payment_total(cp) == mul_floor_spec(f1, c.allocation) + mul_floor_spec(f2, c.allocation));
        lemma_payment_total_concat(fee_payments(cs.drop_last(), fees, denom), cp);
    }
}

proof fn lemma_sent_by_shares(msgs: Seq<SubMsg>, ds: Seq<Destination>, total: u128, denom: String)
    requires
        msgs.len() == ds.len(),
        shares_sum(total, ds) <= u128::MAX,
        forall|k: int| 0 <= k < ds.len() ==> disbursement_msg_of(#[trigger] msgs[k], ds[k], share_coin(total, ds[k], denom)),
    ensures
        messages_sent(msgs, denom@) == shares_sum(total, ds),
    decreases msgs.len(),
{
    if msgs.len() > 0 {
        let k = msgs.len() - 1;
        let d = ds[k];
        assert(disbursement_msg_of(msgs[k], d, share_coin(total, d, denom)));
        crate::disbursement::lemma_shares_bounded(total, ds.drop_last());
        crate::validation::lemma_destination_sum_nonneg(ds);
        lemma_ratio_floor_bounds(total as int, 0, DECIMAL_FRACTIONAL as int);
        assert(share_of(total, d) >= 0) by (nonlinear_arith)
            requires
                share_of(total, d) == (total as int * d.allocation.atomics as int) / (DECIMAL_FRACTIONAL as int),
        ;
        lemma_one_coin(share_coin(total, d, denom), denom@);
        assert forall|j: int| 0 <= j < ds.drop_last().len() implies disbursement_msg_of(
            #[trigger] msgs.drop_last()[j], ds.drop_last()[j], share_coin(total, ds.drop_last()[j], denom)) by {
            assert(disbursement_msg_of(msgs[j], ds[j], share_coin(total, ds[j], denom)));
        }
        lemma_sent_by_shares(msgs.drop_last(), ds.drop_last(), total, denom);
    }
}

/// What the messages of a disbursement send of the vault's target denomination (the
/// fee collectors' shares of the swap and automation fees, then the destinations'
/// shares of what is left for them, then at most a call of the contract itself),
/// together with what goes to escrow, never exceeds what the swap received, where the
/// collectors' shares add up to the whole and the destinations' to at most the whole.
pub proof fn law_disbursement_within_received(
    msgs: Seq<SubMsg>,
    cs: Seq<FeeCollector>,
    ds: Seq<Destination>,
    denom: String,
    received: u128,
    st: Settlement,
    fees: Seq<u128>,
)
    requires
        collector_allocation_sum(cs) == DECIMAL_FRACTIONAL,
        destination_allocation_sum(ds) <= DECIMAL_FRACTIONAL,
        st.swap_fee + st.automation_fee + st.escrowed + st.disbursed == received,
        fees == seq![st.swap_fee, st.automation_fee],
        msgs.len() >= fee_payments(cs, fees, denom).len() + ds.len(),
        pays(msgs.subrange(0, fee_payments(cs, fees, denom).len() as int), fee_payments(cs, fees, denom)),
        forall|k: int| 0 <= k < ds.len() ==> disbursement_msg_of(
            #[trigger] msgs[fee_payments(cs, fees, denom).len() + k], ds[k], share_coin(st.disbursed, ds[k], denom)),
        forall|j: int| fee_payments(cs, fees, denom).len() + ds.len() <= j < msgs.len()
            ==> (#[trigger] msgs[j]).msg is ExecuteSelf,
    ensures
        messages_sent(msgs, denom@) + st.escrowed <= received,
{
    let payments = fee_payments(cs, fees, denom);
    let nf = payments.len() as int;
    let nd = ds.len() as int;
    let a = msgs.subrange(0, nf);
    let b = msgs.subrange(nf, nf + nd);
    let c = msgs.subrange(nf + nd, msgs.len() as int);
    assert(msgs =~= a + b + c);
    lemma_sent_concat(a + b, c, denom@);
    lemma_sent_concat(a, b, denom@);
    crate::fees::lemma_collector_share_at_most_one(cs);
    lemma_fee_payments_total(cs, fees, denom);
    assert forall|i: int| 0 <= i < payments.len() implies (#[trigger] payments[i]).1.denom@ == denom@ by {
        assert(payments[i].1.denom == denom);
    }
    lemma_sent_by_payments(a, payments, denom@);
    law_fee_split_within_fee(st.swap_fee, cs);
    law_fee_split_within_fee(st.automation_fee, cs);
    crate::disbursement::lemma_disbursement_within_total(st.disbursed, ds);
    assert forall|k: int| 0 <= k < ds.len() implies disbursement_msg_of(#[trigger] b[k], ds[k], share_coin(st.disbursed, ds[k], denom)) by {
        assert(b[k] == msgs[nf + k]);
    }
    lemma_sent_by_shares(b, ds, st.disbursed, denom);
    assert forall|j: int| 0 <= j < c.len() implies (#[trigger] c[j]).msg is ExecuteSelf by {
        assert(c[j] == msgs[nf + nd + j]);
    }
    lemma_sent_self_calls(c, denom@);
}

proof fn lemma_sent_self_calls(msgs: Seq<SubMsg>, denom: Seq<char>)
    requires
        forall|j: int| 0 <= j < msgs.len() ==> (#[trigger] msgs[j]).msg is ExecuteSelf,
    ensures
        messages_sent(msgs, denom) == 0,
    decreases msgs.len(),
{
    if msgs.len() > 0 {
        assert(msgs.last().msg is ExecuteSelf);
        assert forall|j: int| 0 <= j < msgs.drop_last().len() implies (#[trigger] msgs.drop_last()[j]).msg is ExecuteSelf by {
            assert(msgs[j].msg is ExecuteSelf);
        }
        lemma_sent_self_calls(msgs.drop_last(), denom);
    }
}

/// A vault stored after the others, with the next id of a well-formed store, is the one
/// its id finds: reading a created vault gives back what was written.
pub proof fn law_created_vault_is_found(s: State, vaults: Seq<Vault>, v: Vault)
    requires
        wf(s),
        vaults == s.vaults@.push(v),
        v.id == s.next_vault_id,
    ensures
        vault_index(vaults, v.id) == s.vaults@.len(),
        vaults[vault_index(vaults, v.id)] == v,
{
    crate::state::lemma_vault_index(s.vaults@, v.id);
    assert(vaults.drop_last() == s.vaults@);
    assert(forall|j: int| 0 <= j < s.vaults@.len() ==> #[trigger] s.vaults@[j].id != v.id);
}

/// A cancelled vault holds nothing, has no trigger, and stays cancelled: a second
/// cancellation is refused.
pub proof fn law_cancel_is_final(v: Vault, nv: Vault)
    requires
        cancelled_vault(nv, v),
    ensures
        nv.is_cancelled_spec(),
        nv.balance.amount == 0,
        nv.trigger is None,
        nv.id == v.id,
        nv.owner == v.owner,
{
}

/// An update that names no field leaves the configuration as it was.
pub proof fn law_empty_config_update_keeps_config(c: crate::types::Config, u: ConfigUpdate)
    requires
        u.executors is None,
        u.fee_collectors is None,
        u.default_swap_fee_percent is None,
        u.weighted_scale_swap_fee_percent is None,
        u.automation_fee_percent is None,
        u.default_page_limit is None,
        u.paused is None,
        u.risk_weighted_average_escrow_level is None,
        u.twap_period is None,
        u.default_slippage_tolerance is None,
    ensures
        updated_config(c, u) == c,
{
}

/// Setting a custom fee for a denomination and then removing it leaves every other
/// denomination's fee as it was, and that denomination without one.
pub proof fn law_custom_fee_roundtrip(f0: Seq<CustomFee>, f1: Seq<CustomFee>, f2: Seq<CustomFee>, denom: Seq<char>, fee: Decimal)
    requires
        custom_fee_of(f1, denom) == Some(fee),
        forall|d: Seq<char>| d != denom ==> custom_fee_of(f1, d) == custom_fee_of(f0, d),
        custom_fee_of(f2, denom) is None,
        forall|d: Seq<char>| d != denom ==> custom_fee_of(f2, d) == custom_fee_of(f1, d),
    ensures
        forall|d: Seq<char>| d != denom ==> custom_fee_of(f2, d) == custom_fee_of(f0, d),
        custom_fee_of(f0, denom) is None ==> forall|d: Seq<char>| custom_fee_of(f2, d) == custom_fee_of(f0, d),
{
}

/// A vault never swaps more than it holds.
pub proof fn law_swap_within_balance(adjs: Seq<SwapAdjustment>, v: Vault, price: Decimal)
    requires
        vault_swap_amount(adjs, v, price) is Some,
    ensures
        0 <= vault_swap_amount(adjs, v, price)->0 <= v.balance.amount,
{
    let f = crate::handlers::execution::vault_swap_factor(adjs, v, price)->0;
    lemma_ratio_floor_bounds(v.swap_amount as int, 0, DECIMAL_FRACTIONAL as int);
    assert(ratio_floor(v.swap_amount as int, (f as u128) as int, DECIMAL_FRACTIONAL as int) >= 0) by (nonlinear_arith)
        requires
            v.swap_amount >= 0,
            (f as u128) >= 0,
    ;
}

/// An increase-only weighted-scale vault never swaps less than its swap amount: its
/// factor is at least one.
pub proof fn law_increase_only_never_shrinks(swap_amount: u128, base_receive_amount: u128, multiplier: Decimal, price: Decimal)
    requires
        weighted_scale_factor(swap_amount, base_receive_amount, multiplier, true, price) is Some,
    ensures
        weighted_scale_factor(swap_amount, base_receive_amount, multiplier, true, price)->0 >= DECIMAL_FRACTIONAL,
{
    let one = DECIMAL_FRACTIONAL as int;
    if base_receive_amount != 0 {
        let base = ratio_floor(swap_amount as int, one, base_receive_amount as int);
        assert(base >= 0) by (nonlinear_arith)
            requires
                base == (swap_amount as int * one) / (base_receive_amount as int),
                swap_amount >= 0,
                one > 0,
                base_receive_amount > 0,
        ;
        if base > 0 && base <= u128::MAX {
            let delta = if price.atomics > base { price.atomics - base } else { base - price.atomics };
            let rel = ratio_floor(delta, one, base);
            assert(rel >= 0) by (nonlinear_arith)
                requires
                    rel == (delta * one) / base,
                    delta >= 0,
                    one > 0,
                    base > 0,
            ;
            let scaled = ratio_floor(rel, multiplier.atomics as int, one);
            assert(scaled >= 0) by (nonlinear_arith)
                requires
                    scaled == (rel * multiplier.atomics) / one,
                    rel >= 0,
                    multiplier.atomics >= 0,
                    one > 0,
            ;
        }
    }
}

/// The performance fee is never more than the escrow it is paid from, and nothing is
/// owed where the vault did no better than its standard DCA.
pub proof fn law_performance_fee_within_escrow(v: Vault, price: Decimal)
    requires
        performance_fee(v, price) is Some,
        price.atomics > 0,
    ensures
        0 <= performance_fee(v, price)->0 <= v.escrowed_amount.amount,
        performance_factor(v, price)->0 <= DECIMAL_FRACTIONAL ==> performance_fee(v, price)->0 == 0,
{
    let f = performance_factor(v, price)->0;
    if f > DECIMAL_FRACTIONAL {
        let sv = standard_value(v, price);
        let grown = ratio_floor(sv, f, DECIMAL_FRACTIONAL as int);
        assert forall|r: int| r >= 0 implies #[trigger] ratio_floor(r, DECIMAL_FRACTIONAL as int, price.atomics as int) >= 0 by {
            assert((r * DECIMAL_FRACTIONAL as int) / (price.atomics as int) >= 0) by (nonlinear_arith)
                requires
                    r >= 0,
                    price.atomics > 0,
            ;
        }
        assert(sv >= 0);
        assert(grown >= sv) by (nonlinear_arith)
            requires
                grown == (sv * f) / (DECIMAL_FRACTIONAL as int),
                f > DECIMAL_FRACTIONAL,
                sv >= 0,
        ;
        lemma_ratio_floor_bounds(grown - sv, crate::handlers::escrow::PERFORMANCE_FEE_ATOMICS as int, DECIMAL_FRACTIONAL as int);
    }
}

/// A vault that runs again gets a trigger after the current block (or at the largest
/// time, where the schedule runs past it), on the schedule of its interval.
pub proof fn law_rescheduled_trigger_is_future(v: Vault, env: Env)
    requires
        crate::handlers::execution::executes_again(v),
        interval_nanos(v.time_interval) > 0,
    ensures
        rescheduled_vault(v, env).trigger matches Some(TriggerConfiguration::Time { target_time })
            && (target_time > env.time || target_time == u64::MAX),
{
    let last = match v.trigger {
        Some(TriggerConfiguration::Time { target_time }) => target_time,
        _ => env.time,
    };
    lemma_next_target_time_is_future(env.time, last, v.time_interval);
}

/// A vault that does not continue after its swap is paid out keeps no trigger.
pub proof fn law_finished_vault_has_no_trigger(v: Vault)
    requires
        v.should_not_continue_spec(),
    ensures
        settled_vault(v).trigger is None,
{
}

/// A deposit adds exactly its amount to the vault's balance and to what was deposited.
pub proof fn law_deposit_adds_amount(v: Vault, amount: u128)
    requires
        v.balance.amount + amount <= u128::MAX,
        v.deposited_amount.amount + amount <= u128::MAX,
    ensures
        deposited_vault(v, amount).balance.amount == v.balance.amount + amount,
        deposited_vault(v, amount).deposited_amount.amount == v.deposited_amount.amount + amount,
        deposited_vault(v, amount).balance.denom == v.balance.denom,
{
}

proof fn lemma_direction_selects_alike(es: Seq<Event>, resource: Option<u128>, start_after: Option<u64>)
    ensures
        crate::handlers::events::selected_events(es, resource, start_after, Some(true))
            == crate::handlers::events::selected_events(es, resource, start_after, Some(false)),
    decreases es.len(),
{
    if es.len() > 0 {
        lemma_direction_selects_alike(es.drop_last(), resource, start_after);
    }
}

/// A page of events never holds more than its limit, and reading in reverse gives
/// the same events newest first.
pub proof fn law_event_page_within_limit(es: Seq<Event>, resource: Option<u128>, start_after: Option<u64>, n: nat)
    ensures
        events_page(es, resource, start_after, Some(true), n).len() <= n,
        events_page(es, resource, start_after, None, n).len() <= n,
        events_page(es, resource, start_after, Some(true), n).len() == events_page(es, resource, start_after, Some(false), n).len(),
        forall|i: int| 0 <= i < events_page(es, resource, start_after, Some(true), n).len() ==> {
            let sel = crate::handlers::events::selected_events(es, resource, start_after, Some(true));
            #[trigger] events_page(es, resource, start_after, Some(true), n)[i] == sel[sel.len() - 1 - i]
        },
{
    lemma_direction_selects_alike(es, resource, start_after);
}

/// Saving a pair twice leaves the store as saving it once does: the pairs are the same,
/// and nothing else in the store changes either time.
pub proof fn law_repeated_pair_save(s0: State, s1: State, s2: State, p: Pair)
    requires
        s1.pairs@ == pairs_after_save(s0.pairs@, p),
        s1 == (State { pairs: s1.pairs, ..s0 }),
        s2.pairs@ == pairs_after_save(s1.pairs@, p),
        s2 == (State { pairs: s2.pairs, ..s1 }),
    ensures
        s2.pairs@ == s1.pairs@,
        s2 == (State { pairs: s2.pairs, ..s0 }),
{
    law_saved_pair_is_found(s0.pairs@, p);
}

/// In a log whose events are numbered from one, the events after `a` are the ones from
/// place `a` on.
proof fn lemma_selected_after(es: Seq<Event>, a: u64)
    requires
        forall|i: int| 0 <= i < es.len() ==> (#[trigger] es[i]).id == i + 1,
    ensures
        crate::handlers::events::selected_events(es, None, Some(a), None)
            == es.subrange(if a < es.len() { a as int } else { es.len() as int }, es.len() as int),
    decreases es.len(),
{
    if es.len() > 0 {
        let d = es.drop_last();
        assert forall|i: int| 0 <= i < d.len() implies (#[trigger] d[i]).id == i + 1 by {
            assert(d[i] == es[i]);
        }
        lemma_selected_after(d, a);
        assert(es.last().id == es.len());
        if a < es.len() {
            assert(d.subrange(a as int, d.len() as int).push(es.last()) =~= es.subrange(a as int, es.len() as int));
        } else {
            assert(es.subrange(es.len() as int, es.len() as int) =~= Seq::<Event>::empty());
        }
    }
}

/// Reading the log forward after event `a` gives the events numbered `a + 1`, `a + 2`,
/// and so on, in that order, as many as the limit allows and the log holds.
pub proof fn law_event_page_follows_start(s: State, a: u64, n: nat)
    requires
        wf(s),
    ensures
        events_page(s.events@, None, Some(a), None, n).len() == (if s.events@.len() <= a { 0 }
            else if s.events@.len() - a < n { (s.events@.len() - a) as nat } else { n }),
        forall|j: int| 0 <= j < events_page(s.events@, None, Some(a), None, n).len()
            ==> (#[trigger] events_page(s.events@, None, Some(a), None, n)[j]).id == a + 1 + j,
{
    let es = s.events@;
    lemma_selected_after(es, a);
    let sel = crate::handlers::events::selected_events(es, None, Some(a), None);
    assert forall|j: int| 0 <= j < events_page(es, None, Some(a), None, n).len()
        implies (#[trigger] events_page(es, None, Some(a), None, n)[j]).id == a + 1 + j by {
        assert(events_page(es, None, Some(a), None, n)[j] == sel[j]);
        assert(sel[j] == es[a + j]);
    }
}

proof fn lemma_selected_all(es: Seq<Event>)
    ensures
        crate::handlers::events::selected_events(es, None, None, None) == es,
    decreases es.len(),
{
    if es.len() > 0 {
        lemma_selected_all(es.drop_last());
        assert(es.drop_last().push(es.last()) =~= es);
    }
}

/// Reading the log forward without a start gives the events numbered 1, 2, and so on,
/// in that order, as many as the limit allows and the log holds.
pub proof fn law_event_page_from_first(s: State, n: nat)
    requires
        wf(s),
    ensures
        events_page(s.events@, None, None, None, n).len() == (if s.events@.len() < n { s.events@.len() } else { n }),
        forall|j: int| 0 <= j < events_page(s.events@, None, None, None, n).len()
            ==> (#[trigger] events_page(s.events@, None, None, None, n)[j]).id == j + 1,
{
    let es = s.events@;
    lemma_selected_all(es);
    assert forall|j: int| 0 <= j < events_page(es, None, None, None, n).len()
        implies (#[trigger] events_page(es, None, None, None, n)[j]).id == j + 1 by {
        assert(events_page(es, None, None, None, n)[j] == es[j]);
    }
}

/// The pair that two denominations find does not depend on their order.
proof fn lemma_pair_index_symmetric(pairs: Seq<Pair>, a: Seq<char>, b: Seq<char>)
    ensures
        pair_index(pairs, a, b) == pair_index(pairs, b, a),
    decreases pairs.len(),
{
    if pairs.len() > 0 {
        lemma_pair_index_symmetric(pairs.drop_last(), a, b);
    }
}

/// After a pair is saved, its two denominations, in either order, find it; saving it
/// again changes nothing.
pub proof fn law_saved_pair_is_found(pairs: Seq<Pair>, p: Pair)
    ensures
        pair_index(pairs_after_save(pairs, p), p.base_denom@, p.quote_denom@) >= 0,
        pairs_after_save(pairs, p)[pair_index(pairs_after_save(pairs, p), p.base_denom@, p.quote_denom@)] == p,
        pair_index(pairs_after_save(pairs, p), p.quote_denom@, p.base_denom@)
            == pair_index(pairs_after_save(pairs, p), p.base_denom@, p.quote_denom@),
        pairs_after_save(pairs_after_save(pairs, p), p) == pairs_after_save(pairs, p),
{
    let a = p.base_denom@;
    let b = p.quote_denom@;
    let i = pair_index(pairs, a, b);
    let after = pairs_after_save(pairs, p);
    let k = if i >= 0 { i } else { pairs.len() as int };
    lemma_pair_index(pairs, a, b);
    lemma_pair_index(after, a, b);
    lemma_pair_index_symmetric(after, a, b);
    assert(after[k] == p);
    assert(p.trades(a, b));
    let idx = pair_index(after, a, b);
    if idx != k {
        assert(idx >= 0);
        if idx < k {
            assert(after[idx] == pairs[idx]);
        }
    }
    assert(idx == k);
    assert(pairs_after_save(after, p) =~= after.update(k, p));
    assert(after.update(k, p) =~= after);
}

/// Out of what a FIN execution received, the execution fee and the destinations' shares
/// of the rest together never exceed it, for a vault whose destinations share at most
/// the whole.
pub proof fn law_fin_payout_within_received(s: State, v: Vault, received: u128)
    requires
        execution_fee(s, received) <= received,
        destination_allocation_sum(v.destinations@) <= DECIMAL_FRACTIONAL,
    ensures
        execution_fee(s, received) >= 0,
        execution_fee(s, received) + shares_sum((received - execution_fee(s, received)) as u128, v.destinations@) <= received,
{
    let a = s.config.default_swap_fee_percent.atomics;
    assert((received as int * a as int) / (DECIMAL_FRACTIONAL as int) >= 0) by (nonlinear_arith);
    lemma_disbursement_within_total((received - execution_fee(s, received)) as u128, v.destinations@);
}

/// After the reply of a vault's FIN market swap, its time trigger lies after the current
/// block (or at the largest time, where the schedule runs past it).
pub proof fn law_fin_swap_reschedules_into_future(v: Vault, now: u64)
    ensures
        rescheduled(v, now) matches TriggerConfiguration::Time { target_time }
            && (target_time > now || target_time == u64::MAX),
{
    lemma_next_target_time_is_future(now, target_time_of(v), v.time_interval);
}

/// A FIN execution takes no more than the vault holds, and leaves the vault inactive
/// exactly where less than its swap amount is left (its status unchanged otherwise).
pub proof fn law_fin_execution_within_balance(v: Vault, now: u64, trigger: TriggerConfiguration)
    ensures
        order_amount(v) <= v.balance.amount,
        executed_vault(v, order_amount(v), now, trigger).balance.amount == v.balance.amount - order_amount(v),
        executed_vault(v, order_amount(v), now, trigger).is_inactive_spec()
            <== v.balance.amount - order_amount(v) < v.swap_amount,
        v.balance.amount - order_amount(v) >= v.swap_amount
            ==> executed_vault(v, order_amount(v), now, trigger).status == v.status,
{
}

/// A vault removed from a well-formed store is no longer found by its id.
pub proof fn law_removed_vault_is_not_found(s: State, i: int)
    requires
        wf(s),
        0 <= i < s.vaults@.len(),
    ensures
        vault_index(s.vaults@.remove(i), s.vaults@[i].id) == -1,
{
    let vs = s.vaults@;
    let ws = vs.remove(i);
    crate::state::lemma_vault_index(ws, vs[i].id);
    assert forall|j: int| 0 <= j < ws.len() implies #[trigger] ws[j].id != vs[i].id by {
        let j1 = if j < i { j } else { j + 1 };
        assert(ws[j] == vs[j1]);
    }
}

/// A vault whose standard DCA, after this execution, still has more than the minimum
/// swap amount left to swap runs again, whatever its own status: it keeps a time trigger
/// after the current block (or at the largest time), so its escrow is not paid out yet.
pub proof fn law_running_standard_dca_keeps_vault_scheduled(v: Vault, env: Env)
    requires
        v.performance_assessment_strategy matches Some(PerformanceAssessmentStrategy::CompareToStandardDca { swapped_amount, .. })
            && v.deposited_amount.amount > swapped_amount.amount
            && v.deposited_amount.amount - swapped_amount.amount > MINIMUM_SWAP_AMOUNT,
    ensures
        crate::handlers::execution::executes_again(v),
        rescheduled_vault(v, env).trigger matches Some(TriggerConfiguration::Time { target_time })
            && (target_time > env.time || target_time == u64::MAX),
{
    let last = match v.trigger {
        Some(TriggerConfiguration::Time { target_time }) => target_time,
        _ => env.time,
    };
    lemma_next_target_time_is_future(env.time, last, v.time_interval);
}

/// After a swap goes through, the vault's received statistic grows by everything it
/// received less the swap and automation fees, escrow included, whatever the escrow
/// level; the escrow grows by the escrowed part. This holds after a market swap and
/// after a FIN swap alike.
pub proof fn law_received_statistic_includes_escrow(
    v: Vault,
    sent: u128,
    deducted: u128,
    received: u128,
    swap_rate: Decimal,
    automation_rate: Decimal,
    escrow_level: Decimal,
)
    requires
        settle(received, swap_rate, automation_rate, escrow_level) is Some,
    ensures
        ({
            let st = settle(received, swap_rate, automation_rate, escrow_level)->0;
            &&& swapped_vault(v, sent, st) matches Some(nv) ==> {
                &&& nv.received_amount.amount == v.received_amount.amount + received - st.swap_fee - st.automation_fee
                &&& nv.escrowed_amount.amount == v.escrowed_amount.amount + st.escrowed
                &&& nv.balance.amount == v.balance.amount - sent
            }
            &&& fin_swapped_vault(v, sent, deducted, st) matches Some(nv) ==> {
                &&& nv.received_amount.amount == v.received_amount.amount + received - st.swap_fee - st.automation_fee
                &&& nv.escrowed_amount.amount == v.escrowed_amount.amount + st.escrowed
            }
        }),
{
    lemma_settlement_conserves(received, swap_rate, automation_rate, escrow_level);
}

/// A deposit into a vault that is neither scheduled nor cancelled and that then holds
/// more than the minimum swap amount makes it active; an inactive vault without a
/// trigger gets one (the handler sets it to the current time and executes the vault).
pub proof fn law_deposit_reactivates_vault(v: Vault, amount: u128)
    requires
        v.status != VaultStatus::Scheduled,
        v.status != VaultStatus::Cancelled,
        v.balance.amount + amount <= u128::MAX,
        v.balance.amount + amount > MINIMUM_SWAP_AMOUNT,
    ensures
        deposited_vault(v, amount).status == VaultStatus::Active,
        deposited_vault(v, amount).balance.amount == v.balance.amount + amount,
        (v.status == VaultStatus::Inactive && v.trigger is None) ==> deposited_vault(v, amount).trigger != v.trigger,
{
}

/// After a FIN swap fails, a vault left with at most the minimum swap amount is
/// inactive, and its balance is as it was.
pub proof fn law_failed_fin_swap_deactivates_low_vault(s: State, v: Vault, price: Decimal)
    requires
        v.balance.amount <= MINIMUM_SWAP_AMOUNT,
    ensures
        fin_swap_outcome(s, v, None, price) matches Some(v1)
            && fin_settled_vault(v1).status == VaultStatus::Inactive
            && fin_settled_vault(v1).balance == v.balance,
{
}

/// An accepted configuration update sets each field it gives to the given value and
/// keeps each field it leaves out; the admin never changes.
pub proof fn law_config_update_sets_given_fields(c: crate::types::Config, u: ConfigUpdate)
    ensures
        updated_config(c, u).admin == c.admin,
        u.executors matches Some(x) ==> updated_config(c, u).executors == x,
        u.executors is None ==> updated_config(c, u).executors == c.executors,
        u.fee_collectors matches Some(x) ==> updated_config(c, u).fee_collectors == x,
        u.fee_collectors is None ==> updated_config(c, u).fee_collectors == c.fee_collectors,
        u.default_swap_fee_percent matches Some(x) ==> updated_config(c, u).default_swap_fee_percent == x,
        u.default_swap_fee_percent is None ==> updated_config(c, u).default_swap_fee_percent == c.default_swap_fee_percent,
        u.weighted_scale_swap_fee_percent matches Some(x) ==> updated_config(c, u).weighted_scale_swap_fee_percent == x,
        u.weighted_scale_swap_fee_percent is None ==> updated_config(c, u).weighted_scale_swap_fee_percent == c.weighted_scale_swap_fee_percent,
        u.automation_fee_percent matches Some(x) ==> updated_config(c, u).automation_fee_percent == x,
        u.automation_fee_percent is None ==> updated_config(c, u).automation_fee_percent == c.automation_fee_percent,
        u.default_page_limit matches Some(x) ==> updated_config(c, u).default_page_limit == x,
        u.default_page_limit is None ==> updated_config(c, u).default_page_limit == c.default_page_limit,
        u.paused matches Some(x) ==> updated_config(c, u).paused == x,
        u.paused is None ==> updated_config(c, u).paused == c.paused,
        u.risk_weighted_average_escrow_level matches Some(x) ==> updated_config(c, u).risk_weighted_average_escrow_level == x,
        u.risk_weighted_average_escrow_level is None ==> updated_config(c, u).risk_weighted_average_escrow_level == c.risk_weighted_average_escrow_level,
        u.twap_period matches Some(x) ==> updated_config(c, u).twap_period == x,
        u.twap_period is None ==> updated_config(c, u).twap_period == c.twap_period,
        u.default_slippage_tolerance matches Some(x) ==> updated_config(c, u).default_slippage_tolerance == x,
        u.default_slippage_tolerance is None ==> updated_config(c, u).default_slippage_tolerance == c.default_slippage_tolerance,
{
}

} // verus!
