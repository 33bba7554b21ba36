//! The contract's stored state and the lookups and updates on it.
use vstd::prelude::*;
use crate::error::{ContractError, StdError};
use crate::math::Decimal;
use crate::text::{amount_text, join3};
use crate::validation::PoolInfo;
use crate::types::{
    Coin, Config, Env, Event, EventData, Pair, SubMsg, SwapAdjustmentStrategy, Vault,
};

verus! {

/// A swap fee that replaces the default one for a denomination.
#[derive(Debug, Clone, PartialEq, Eq)]
pub struct CustomFee {
    pub denom: String,
    pub fee: Decimal,
}

/// The latest value published for a swap adjustment model.
#[derive(Debug, Clone, Copy, PartialEq, Eq)]
pub struct SwapAdjustment {
    pub strategy: SwapAdjustmentStrategy,
    pub value: Decimal,
    pub updated_at: u64,
}

/// A vault whose escrow is due to be paid out at a given time.
#[derive(Debug, Clone, Copy, PartialEq, Eq)]
pub struct DisburseEscrowTask {
    pub vault_id: u128,
    pub due_date: u64,
}

/// A destination's message that is on its way, and the coins it carries.
#[derive(Debug, Clone, PartialEq, Eq)]
pub struct PostExecutionAction {
    pub msg: SubMsg,
    pub funds: Vec<Coin>,
}

/// The destination messages of a vault whose outcome has not come back yet, oldest first.
#[derive(Debug, Clone, PartialEq, Eq)]
pub struct PostExecutionQueue {
    pub vault_id: u128,
    pub entries: Vec<PostExecutionAction>,
}

/// The contract's balances of a vault's two denominations just before a swap.
#[derive(Debug, Clone, PartialEq, Eq)]
pub struct SwapCache {
    pub swap_denom_balance: Coin,
    pub receive_denom_balance: Coin,
}

/// What the contract knew of a FIN limit order when it acted on it.
#[derive(Debug, Clone, PartialEq, Eq)]
pub struct LimitOrderCache {
    pub order_idx: u128,
    pub original_offer_amount: u128,
    pub filled: u128,
    pub swap_denom_balance: Coin,
    pub receive_denom_balance: Coin,
}

/// A correction recorded against a resource (a vault): when and at which height it was
/// made, and what it changed, as written when it was made.
#[derive(Debug, Clone, PartialEq, Eq)]
pub struct DataFix {
    pub id: u64,
    pub resource_id: u128,
    pub timestamp: u64,
    pub block_height: u64,
    pub data: String,
}

impl DataFix {
    /// The fix's own copy.
    pub fn copy(&self) -> (f: DataFix)
        ensures
            f == *self,
    {
        DataFix { id: self.id, resource_id: self.resource_id, timestamp: self.timestamp, block_height: self.block_height, data: self.data.clone() }
    }
}

/// Everything the contract stores.
#[derive(Debug, Clone, PartialEq, Eq)]
pub struct State {
    pub config: Config,
    pub pairs: Vec<Pair>,
    pub pools: Vec<PoolInfo>,
    pub vaults: Vec<Vault>,
    pub next_vault_id: u128,
    pub events: Vec<Event>,
    pub custom_fees: Vec<CustomFee>,
    pub swap_adjustments: Vec<SwapAdjustment>,
    pub disburse_escrow_tasks: Vec<DisburseEscrowTask>,
    pub post_execution_actions: Vec<PostExecutionQueue>,
    pub vault_cache: Option<u128>,
    pub swap_cache: Option<SwapCache>,
    pub limit_order_cache: Option<LimitOrderCache>,
    pub data_fixes: Vec<DataFix>,
}

/// The place of the first vault with the given id, or -1.
pub open spec fn vault_index(vaults: Seq<Vault>, id: u128) -> int
    decreases vaults.len(),
{
    if vaults.len() == 0 {
        -1
    } else if vaults.last().id == id && vault_index(vaults.drop_last(), id) == -1 {
        vaults.len() - 1
    } else {
        vault_index(vaults.drop_last(), id)
    }
}

pub proof fn lemma_vault_index(vaults: Seq<Vault>, id: u128)
    ensures
        -1 <= vault_index(vaults, id) < vaults.len(),
        vault_index(vaults, id) >= 0 ==> vaults[vault_index(vaults, id)].id == id,
        vault_index(vaults, id) >= 0 ==> forall|j: int|
            0 <= j < vault_index(vaults, id) ==> #[trigger] vaults[j].id != id,
        vault_index(vaults, id) == -1 <==> forall|j: int|
            0 <= j < vaults.len() ==> #[trigger] vaults[j].id != id,
    decreases vaults.len(),
{
    if vaults.len() > 0 {
        lemma_vault_index(vaults.drop_last(), id);
        assert forall|j: int| 0 <= j < vaults.len() - 1 implies vaults.drop_last()[j] == vaults[j] by {}
    }
}

/// The place of the pair that trades the two denominations, or -1.
pub open spec fn pair_index(pairs: Seq<Pair>, a: Seq<char>, b: Seq<char>) -> int
    decreases pairs.len(),
{
    if pairs.len() == 0 {
        -1
    } else if pairs.last().trades(a, b) && pair_index(pairs.drop_last(), a, b) == -1 {
        pairs.len() - 1
    } else {
        pair_index(pairs.drop_last(), a, b)
    }
}

pub proof fn lemma_pair_index(pairs: Seq<Pair>, a: Seq<char>, b: Seq<char>)
    ensures
        -1 <= pair_index(pairs, a, b) < pairs.len(),
        pair_index(pairs, a, b) >= 0 ==> pairs[pair_index(pairs, a, b)].trades(a, b),
        pair_index(pairs, a, b) >= 0 ==> forall|j: int|
            0 <= j < pair_index(pairs, a, b) ==> !(#[trigger] pairs[j]).trades(a, b),
        pair_index(pairs, a, b) == -1 <==> forall|j: int|
            0 <= j < pairs.len() ==> !(#[trigger] pairs[j]).trades(a, b),
    decreases pairs.len(),
{
    if pairs.len() > 0 {
        lemma_pair_index(pairs.drop_last(), a, b);
        assert forall|j: int| 0 <= j < pairs.len() - 1 implies pairs.drop_last()[j] == pairs[j] by {}
    }
}

/// The custom fee set for a denomination, if any.
pub open spec fn custom_fee_of(fees: Seq<CustomFee>, denom: Seq<char>) -> Option<Decimal>
    decreases fees.len(),
{
    if fees.len() == 0 {
        None
    } else if fees.last().denom@ == denom {
        Some(fees.last().fee)
    } else {
        custom_fee_of(fees.drop_last(), denom)
    }
}

/// The latest value published for a swap adjustment model, if any.
pub open spec fn adjustment_of(adjs: Seq<SwapAdjustment>, strategy: SwapAdjustmentStrategy) -> Option<
    SwapAdjustment,
>
    decreases adjs.len(),
{
    if adjs.len() == 0 {
        None
    } else if adjs.last().strategy == strategy {
        Some(adjs.last())
    } else {
        adjustment_of(adjs.drop_last(), strategy)
    }
}

/// The place of the latest queue of post-execution actions of a vault, or -1.
pub open spec fn queue_index(qs: Seq<PostExecutionQueue>, id: u128) -> int
    decreases qs.len(),
{
    if qs.len() == 0 {
        -1
    } else if qs.last().vault_id == id {
        qs.len() - 1
    } else {
        queue_index(qs.drop_last(), id)
    }
}

pub proof fn lemma_queue_index(qs: Seq<PostExecutionQueue>, id: u128)
    ensures
        -1 <= queue_index(qs, id) < qs.len(),
        queue_index(qs, id) >= 0 ==> qs[queue_index(qs, id)].vault_id == id,
    decreases qs.len(),
{
    if qs.len() > 0 {
        lemma_queue_index(qs.drop_last(), id);
    }
}

/// An event appended to a log of `n` events, as the next one.
pub open spec fn next_event(n: nat, resource_id: u128, env: Env, data: EventData) -> Event {
    Event {
        id: (n + 1) as u64,
        resource_id,
        timestamp: env.time,
        block_height: env.height,
        data,
    }
}

/// Room left in the counters of the state for the events and vaults of one more message.
pub open spec fn has_room(s: State) -> bool {
    &&& s.events@.len() + 16 < u64::MAX
    &&& s.next_vault_id + 1 < u128::MAX
}

/// The invariant of the stored state.
pub open spec fn wf(s: State) -> bool {
    &&& forall|i: int, j: int|
        0 <= i < j < s.vaults@.len() ==> (#[trigger] s.vaults@[i]).id != (#[trigger] s.vaults@[j]).id
    &&& forall|i: int| 0 <= i < s.vaults@.len() ==> (#[trigger] s.vaults@[i]).id < s.next_vault_id
    &&& forall|i: int| 0 <= i < s.events@.len() ==> (#[trigger] s.events@[i]).id == i + 1
}

impl State {
    /// The place of the vault with the given id.
    pub fn find_vault(&self, id: u128) -> (r: Option<usize>)
        ensures
            r is Some <==> vault_index(self.vaults@, id) >= 0,
            r matches Some(i) ==> i == vault_index(self.vaults@, id) && i < self.vaults@.len(),
    {
        proof {
            lemma_vault_index(self.vaults@, id);
        }
        let mut i: usize = 0;
        while i < self.vaults.len()
            invariant
                i <= self.vaults.len(),
                forall|j: int| 0 <= j < i ==> #[trigger] self.vaults@[j].id != id,
                -1 <= vault_index(self.vaults@, id) < self.vaults@.len(),
                vault_index(self.vaults@, id) >= 0 ==> self.vaults@[vault_index(
                    self.vaults@,
                    id,
                )].id == id,
                vault_index(self.vaults@, id) >= 0 ==> forall|j: int|
                    0 <= j < vault_index(self.vaults@, id) ==> #[trigger] self.vaults@[j].id != id,
                vault_index(self.vaults@, id) == -1 <==> forall|j: int|
                    0 <= j < self.vaults@.len() ==> #[trigger] self.vaults@[j].id != id,
            decreases self.vaults.len() - i,
        {
            if self.vaults[i].id == id {
                return Some(i);
            }
            i = i + 1;
        }
        None
    }

    /// The place of the vault with the given id, or the standard not-found error.
    pub fn vault_position(&self, id: u128) -> (r: Result<usize, ContractError>)
        ensures
            r is Ok <==> vault_index(self.vaults@, id) >= 0,
            r matches Ok(i) ==> i == vault_index(self.vaults@, id) && i < self.vaults@.len(),
            r matches Err(e) ==> e.text() == not_found_text(id),
            r matches Err(e) ==> e is Std,
    {
        match self.find_vault(id) {
            Some(i) => Ok(i),
            None => {
                let n = amount_text(id);
                Err(
                    ContractError::Std(
                        StdError::NotFound { kind: join3("vault for id ", n.as_str(), "") },
                    ),
                )
            },
        }
    }

    /// Appends an event to the log, with the next id.
    pub fn create_event(&mut self, resource_id: u128, env: &Env, data: EventData)
        requires
            old(self).events@.len() + 1 < u64::MAX,
        ensures
            final(self).events@ == old(self).events@.push(
                next_event(old(self).events@.len(), resource_id, *env, data),
            ),
            final(self).config == old(self).config,
            final(self).pairs == old(self).pairs,
            final(self).vaults == old(self).vaults,
            final(self).next_vault_id == old(self).next_vault_id,
            final(self).custom_fees == old(self).custom_fees,
            final(self).swap_adjustments == old(self).swap_adjustments,
            final(self).disburse_escrow_tasks == old(self).disburse_escrow_tasks,
            final(self).post_execution_actions == old(self).post_execution_actions,
            final(self).vault_cache == old(self).vault_cache,
            final(self).swap_cache == old(self).swap_cache,
            final(self).limit_order_cache == old(self).limit_order_cache,
    {
        let id = (self.events.len() as u64) + 1;
        self.events.push(
            Event { id, resource_id, timestamp: env.time, block_height: env.height, data },
        );
    }

    /// The place of the pair that trades the two denominations.
    pub fn find_pair(&self, a: &String, b: &String) -> (r: Option<usize>)
        ensures
            r is Some <==> pair_index(self.pairs@, a@, b@) >= 0,
            r matches Some(i) ==> i == pair_index(self.pairs@, a@, b@) && i < self.pairs@.len(),
    {
        proof {
            lemma_pair_index(self.pairs@, a@, b@);
        }
        let mut i: usize = 0;
        while i < self.pairs.len()
            invariant
                i <= self.pairs.len(),
                forall|j: int| 0 <= j < i ==> !(#[trigger] self.pairs@[j]).trades(a@, b@),
                -1 <= pair_index(self.pairs@, a@, b@) < self.pairs@.len(),
                pair_index(self.pairs@, a@, b@) >= 0 ==> self.pairs@[pair_index(
                    self.pairs@,
                    a@,
                    b@,
                )].trades(a@, b@),
                pair_index(self.pairs@, a@, b@) >= 0 ==> forall|j: int|
                    0 <= j < pair_index(self.pairs@, a@, b@) ==> !(#[trigger] self.pairs@[j]).trades(
                        a@,
                        b@,
                    ),
                pair_index(self.pairs@, a@, b@) == -1 <==> forall|j: int|
                    0 <= j < self.pairs@.len() ==> !(#[trigger] self.pairs@[j]).trades(a@, b@),
            decreases self.pairs.len() - i,
        {
            let p = &self.pairs[i];
            if (p.base_denom == *a && p.quote_denom == *b) || (p.base_denom == *b && p.quote_denom
                == *a) {
                return Some(i);
            }
            i = i + 1;
        }
        None
    }

    /// The place of the latest queue of post-execution actions of a vault.
    pub fn find_queue(&self, id: u128) -> (r: Option<usize>)
        ensures
            r is Some <==> queue_index(self.post_execution_actions@, id) >= 0,
            r matches Some(i) ==> i == queue_index(self.post_execution_actions@, id) && i < self.post_execution_actions@.len(),
    {
        proof {
            lemma_queue_index(self.post_execution_actions@, id);
        }
        let mut i = self.post_execution_actions.len();
        assert(self.post_execution_actions@.subrange(0, i as int) == self.post_execution_actions@);
        while i > 0
            invariant
                i <= self.post_execution_actions.len(),
                queue_index(self.post_execution_actions@, id) == queue_index(self.post_execution_actions@.subrange(0, i as int), id),
            decreases i,
        {
            assert(self.post_execution_actions@.subrange(0, i as int).drop_last() == self.post_execution_actions@.subrange(0, i - 1));
            if self.post_execution_actions[i - 1].vault_id == id {
                return Some(i - 1);
            }
            i = i - 1;
        }
        None
    }

    /// The custom fee set for a denomination, if any.
    pub fn get_custom_fee(&self, denom: &String) -> (r: Option<Decimal>)
        ensures
            r == custom_fee_of(self.custom_fees@, denom@),
    {
        let mut i = self.custom_fees.len();
        assert(self.custom_fees@.subrange(0, i as int) == self.custom_fees@);
        while i > 0
            invariant
                i <= self.custom_fees.len(),
                custom_fee_of(self.custom_fees@, denom@) == custom_fee_of(
                    self.custom_fees@.subrange(0, i as int),
                    denom@,
                ),
            decreases i,
        {
            let ghost pre = self.custom_fees@.subrange(0, i as int);
            assert(pre.drop_last() == self.custom_fees@.subrange(0, i - 1));
            if self.custom_fees[i - 1].denom == *denom {
                return Some(self.custom_fees[i - 1].fee);
            }
            i = i - 1;
        }
        None
    }
}

pub open spec fn not_found_text(id: u128) -> Seq<char> {
    "vault for id "@ + crate::text::decimal_text(id as nat) + ""@ + " not found"@
}

} // verus!
