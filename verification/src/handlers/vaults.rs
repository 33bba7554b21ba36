//! Creating, funding, updating and cancelling vaults, and reading them back.
use vstd::prelude::*;
use crate::error::{custom, ContractError, StdError};
use crate::math::{Decimal, DECIMAL_FRACTIONAL};
use crate::state::{has_room, next_event, not_found_text, pair_index, vault_index, wf, DisburseEscrowTask, State};
use crate::debug_text::{destinations_debug, destinations_text};
use crate::text::{amount_text, decimal_fraction_text, decimal_text, join3};
use crate::types::{copy_destinations, same_vault, Attribute, BaseDenom, Coin, PositionType, CosmosMsg, Destination, Env, EventData, MessageInfo, PerformanceAssessmentStrategy, Response, SelfMsg, SubMsg, SwapAdjustmentStrategy, SwapAdjustmentStrategyParams, TimeInterval, TriggerConfiguration, Vault, VaultStatus, MINIMUM_SWAP_AMOUNT, NANOS_PER_SECOND};
use crate::validation::{assert_contract_is_not_paused, assert_destination_allocations_add_up_to_one, assert_destination_callback_addresses_are_valid, assert_destinations_limit_is_not_breached, assert_exactly_one_asset, assert_label_is_no_longer_than_100_characters, assert_no_destination_allocations_are_zero, assert_sender_is_admin_or_vault_owner, assert_sender_is_vault_owner, assert_slippage_tolerance_is_less_than_or_equal_to_one, assert_swap_amount_is_greater_than_50000, assert_target_start_time_is_in_future, assert_time_interval_is_valid, assert_vault_is_not_cancelled, assert_weighted_scale_multiplier_is_no_more_than_10, destination_allocation_sum, exactly_one_asset_text, MAX_LABEL_LENGTH, first_bad_callback, invalid_address_text, valid_time_interval, AddressBook, MAX_DESTINATIONS, MAX_WEIGHTED_SCALE_MULTIPLIER_ATOMICS};

verus! {

/// The risk-weighted model whose horizon fits a vault that runs for `days` days.
pub open spec fn model_id_for_days(days: int) -> u8 {
    if days <= 32 {
        30
    } else if days <= 38 {
        35
    } else if days <= 44 {
        40
    } else if days <= 51 {
        45
    } else if days <= 57 {
        50
    } else if days <= 65 {
        55
    } else if days <= 77 {
        60
    } else if days <= 96 {
        70
    } else if days <= 123 {
        80
    } else {
        90
    }
}

/// The number of days that a deposit lasts at one swap of `swap_amount` per interval.
pub open spec fn execution_days(deposit: u128, swap_amount: u128, interval: TimeInterval) -> int {
    ((deposit / swap_amount) as int * interval.seconds_spec()) / 86400
}

/// Picks the risk-weighted model for a vault from how long its deposit lasts.
pub fn get_risk_weighted_average_model_id(deposit: u128, swap_amount: u128, interval: &TimeInterval) -> (m: u8)
    requires
        swap_amount > 0,
    ensures
        m == model_id_for_days(execution_days(deposit, swap_amount, *interval)),
{
    let executions = deposit / swap_amount;
    let seconds = interval.seconds() as u128;
    // executions * seconds fits: executions < 2^128 and a large product only means many days.
    let days: u128 = if executions > 0 && seconds > u128::MAX / executions {
        proof {
            assert(executions * seconds > u128::MAX) by (nonlinear_arith)
                requires
                    executions > 0,
                    seconds > u128::MAX / executions,
            ;
        }
        124
    } else {
        proof {
            assert(executions * seconds <= u128::MAX) by (nonlinear_arith)
                requires
                    executions == 0 || seconds <= u128::MAX / executions,
            ;
        }
        (executions * seconds) / 86400
    };
    proof {
        if executions > 0 && seconds > u128::MAX / executions {
            assert((executions * seconds) / 86400 > 123) by (nonlinear_arith)
                requires
                    executions * seconds > u128::MAX,
            ;
        }
    }
    if days <= 32 {
        30
    } else if days <= 38 {
        35
    } else if days <= 44 {
        40
    } else if days <= 51 {
        45
    } else if days <= 57 {
        50
    } else if days <= 65 {
        55
    } else if days <= 77 {
        60
    } else if days <= 96 {
        70
    } else if days <= 123 {
        80
    } else {
        90
    }
}

/// The request to create a vault.
#[derive(Debug, Clone, PartialEq, Eq)]
pub struct CreateVaultMsg {
    pub owner: String,
    pub label: Option<String>,
    pub destinations: Vec<Destination>,
    pub target_denom: String,
    pub position_type: Option<PositionType>,
    pub slippage_tolerance: Option<Decimal>,
    pub minimum_receive_amount: Option<u128>,
    pub swap_amount: u128,
    pub time_interval: TimeInterval,
    pub target_start_time_utc_seconds: Option<u64>,
    pub use_dca_plus: Option<bool>,
}

/// The destinations a new vault gets: the given ones, or all to the owner.
pub open spec fn effective_destinations(m: CreateVaultMsg) -> Seq<Destination> {
    if m.destinations@.len() == 0 {
        seq![Destination { address: m.owner, allocation: Decimal { atomics: DECIMAL_FRACTIONAL }, msg: None }]
    } else {
        m.destinations@
    }
}

pub open spec fn callbacks_valid(api: AddressBook, ds: Seq<Destination>) -> bool {
    forall|i: int| 0 <= i < ds.len() && ds[i].msg is Some ==> api.valid(#[trigger] ds[i].address@)
}

/// Everything a vault creation checks, in order, holds.
pub open spec fn create_vault_accepted(s: State, api: AddressBook, env: Env, info: MessageInfo, m: CreateVaultMsg) -> bool {
    &&& !s.config.paused
    &&& api.valid(m.owner@)
    &&& info.funds@.len() == 1
    &&& m.swap_amount > MINIMUM_SWAP_AMOUNT
    &&& m.destinations@.len() <= MAX_DESTINATIONS
    &&& valid_time_interval(m.time_interval)
    &&& pair_index(s.pairs@, info.funds@[0].denom@, m.target_denom@) >= 0
    &&& (m.target_start_time_utc_seconds matches Some(t) ==> t * NANOS_PER_SECOND > env.time)
    &&& callbacks_valid(api, effective_destinations(m))
    &&& forall|i: int| 0 <= i < effective_destinations(m).len() ==> #[trigger] effective_destinations(m)[i].allocation.atomics > 0
    &&& destination_allocation_sum(effective_destinations(m)) == DECIMAL_FRACTIONAL
}

/// The checks of a creation that run before its start time is read all pass.
pub open spec fn checks_before_start_time_pass(s: State, api: AddressBook, info: MessageInfo, m: CreateVaultMsg) -> bool {
    &&& !s.config.paused
    &&& api.valid(m.owner@)
    &&& info.funds@.len() == 1
    &&& m.swap_amount > MINIMUM_SWAP_AMOUNT
    &&& m.destinations@.len() <= MAX_DESTINATIONS
    &&& valid_time_interval(m.time_interval)
    &&& pair_index(s.pairs@, info.funds@[0].denom@, m.target_denom@) >= 0
}

/// The refusal a vault creation answers with: the text of the first check, in the
/// order in which they run, that fails; `None` when every check holds.
pub open spec fn create_vault_refusal(s: State, api: AddressBook, env: Env, info: MessageInfo, m: CreateVaultMsg) -> Option<Seq<char>> {
    let ds = effective_destinations(m);
    if s.config.paused {
        Some("Error: "@ + "contract is paused"@)
    } else if !api.valid(m.owner@) {
        Some("Error: "@ + invalid_address_text("owner address "@, m.owner@))
    } else if info.funds@.len() != 1 {
        Some("Error: "@ + exactly_one_asset_text(info.funds@.len()))
    } else if m.swap_amount <= MINIMUM_SWAP_AMOUNT {
        Some("Error: "@ + "swap amount must be greater than 50000"@)
    } else if m.destinations@.len() > MAX_DESTINATIONS {
        Some("Error: "@ + "no more than 10 destinations can be provided"@)
    } else if !valid_time_interval(m.time_interval) {
        Some("Error: "@ + "custom time interval must be at least 60 seconds"@)
    } else if pair_index(s.pairs@, info.funds@[0].denom@, m.target_denom@) < 0 {
        Some("Error: "@ + ("swapping "@ + info.funds@[0].denom@ + " to "@ + m.target_denom@ + " not supported"@))
    } else if m.target_start_time_utc_seconds matches Some(t) && t * NANOS_PER_SECOND <= env.time {
        Some("Error: "@ + "target_start_time_utc_seconds must be some time in the future"@)
    } else {
        destination_list_refusal(api, ds)
    }
}

/// The refusal of a list of destinations by the checks that a creation and an update
/// both run last, in order: callback addresses, shares above zero, shares adding up to one.
pub open spec fn destination_list_refusal(api: AddressBook, ds: Seq<Destination>) -> Option<Seq<char>> {
    if first_bad_callback(api, ds) is Some {
        Some("Error: "@ + invalid_address_text("destination address "@, first_bad_callback(api, ds)->0))
    } else if exists|i: int| 0 <= i < ds.len() && #[trigger] ds[i].allocation.atomics == 0 {
        Some("Error: "@ + "all destination allocations must be greater than 0"@)
    } else if destination_allocation_sum(ds) != DECIMAL_FRACTIONAL {
        Some("Error: "@ + "destination allocations must add up to 1"@)
    } else {
        None
    }
}

/// The vault that a creation stores.
pub open spec fn created_vault(v: Vault, s: State, env: Env, info: MessageInfo, m: CreateVaultMsg) -> bool {
    let deposit = info.funds@[0];
    let pair = s.pairs@[pair_index(s.pairs@, deposit.denom@, m.target_denom@)];
    &&& v.id == s.next_vault_id
    &&& v.owner == m.owner
    &&& v.label == m.label
    &&& v.destinations@ == effective_destinations(m)
    &&& v.created_at == env.time
    &&& v.started_at is None
    &&& v.status == (if deposit.amount <= MINIMUM_SWAP_AMOUNT { VaultStatus::Inactive } else { VaultStatus::Scheduled })
    &&& v.balance == deposit
    &&& v.target_denom == m.target_denom
    &&& v.swap_amount == m.swap_amount
    &&& v.position_type == m.position_type
    &&& v.slippage_tolerance == m.slippage_tolerance
    &&& v.minimum_receive_amount == m.minimum_receive_amount
    &&& v.time_interval == m.time_interval
    &&& v.deposited_amount == deposit
    &&& v.pair.base_denom == pair.base_denom && v.pair.quote_denom == pair.quote_denom && v.pair.route@ == pair.route@
    &&& v.swapped_amount == (Coin { denom: deposit.denom, amount: 0 })
    &&& v.received_amount.amount == 0 && v.received_amount.denom@ == pair.other_denom(deposit.denom@)
    &&& v.escrowed_amount.amount == 0 && v.escrowed_amount.denom@ == pair.other_denom(deposit.denom@)
    &&& (m.use_dca_plus == Some(true)) ==> {
        &&& v.swap_adjustment_strategy == Some(SwapAdjustmentStrategy::RiskWeightedAverage {
            model_id: model_id_for_days(execution_days(deposit.amount, m.swap_amount, m.time_interval)),
            base_denom: BaseDenom::Bitcoin,
            position_type: pair.position_type_spec(deposit.denom@),
        })
        &&& v.escrow_level == s.config.risk_weighted_average_escrow_level
        &&& v.performance_assessment_strategy matches Some(PerformanceAssessmentStrategy::CompareToStandardDca { swapped_amount, received_amount })
            && swapped_amount.amount == 0 && received_amount.amount == 0
            && swapped_amount.denom == deposit.denom && received_amount.denom@ == pair.other_denom(deposit.denom@)
    }
    &&& (m.use_dca_plus != Some(true)) ==> {
        &&& v.swap_adjustment_strategy is None
        &&& v.performance_assessment_strategy is None
        &&& v.escrow_level.atomics == 0
    }
    &&& v.trigger == (if v.status == VaultStatus::Inactive { None } else {
        Some(TriggerConfiguration::Time { target_time: match m.target_start_time_utc_seconds {
            Some(t) => (t * NANOS_PER_SECOND) as u64,
            None => env.time,
        } })
    })
}

/// Creates a vault from the single coin sent with the message.
///
/// The vault starts inactive when the deposit is at most the minimum swap amount,
/// scheduled otherwise; a scheduled vault gets a time trigger at the requested start
/// time, or now, in which case the contract also asks to execute it at once.
#[verifier::rlimit(60)]
pub fn create_vault_handler(state: &mut State, api: &AddressBook, env: &Env, info: &MessageInfo, m: CreateVaultMsg) -> (r: Result<Response, ContractError>)
    requires
        wf(*old(state)),
        has_room(*old(state)),
        checks_before_start_time_pass(*old(state), *api, *info, m)
            ==> (m.target_start_time_utc_seconds matches Some(t) ==> t * NANOS_PER_SECOND <= u64::MAX),
    ensures
        r is Err ==> *final(state) == *old(state),
        r is Ok <==> create_vault_accepted(*old(state), *api, *env, *info, m),
        r is Ok <==> create_vault_refusal(*old(state), *api, *env, *info, m) is None,
        r matches Err(e) ==> create_vault_refusal(*old(state), *api, *env, *info, m) == Some(e.text()),
        r matches Ok(resp) ==> {
            let v = final(state).vaults@.last();
            &&& final(state).vaults@.len() == old(state).vaults@.len() + 1
            &&& final(state).vaults@.drop_last() == old(state).vaults@
            &&& created_vault(v, *old(state), *env, *info, m)
            &&& final(state).next_vault_id == old(state).next_vault_id + 1
            &&& final(state).vault_cache == Some(v.id)
            &&& final(state).events@ == old(state).events@.push(next_event(old(state).events@.len(), v.id, *env, EventData::DcaVaultFundsDeposited { amount: info.funds@[0] }))
            &&& wf(*final(state))
            &&& final(state).config == old(state).config
            &&& final(state).pairs == old(state).pairs
            &&& final(state).custom_fees == old(state).custom_fees
            &&& resp.attributes@.len() == 2
            &&& resp.attributes@[0].key@ == "owner"@ && resp.attributes@[0].value == m.owner
            &&& resp.attributes@[1].key@ == "vault_id"@ && resp.attributes@[1].value@ == decimal_text(v.id as nat)
            &&& (v.status != VaultStatus::Inactive && m.target_start_time_utc_seconds is None) ==> resp.messages@ == seq![
                SubMsg { msg: CosmosMsg::ExecuteSelf { msg: SelfMsg::ExecuteTrigger { trigger_id: v.id } }, reply_id: None }]
            &&& !(v.status != VaultStatus::Inactive && m.target_start_time_utc_seconds is None) ==> resp.messages@.len() == 0
        },
{
    assert_contract_is_not_paused(&state.config)?;
    if api.addr_validate(&m.owner).is_err() {
        return Err(custom(join3("owner address ", m.owner.as_str(), " is invalid")));
    }
    assert_exactly_one_asset(&info.funds)?;
    assert_swap_amount_is_greater_than_50000(m.swap_amount)?;
    assert_destinations_limit_is_not_breached(&m.destinations)?;
    assert_time_interval_is_valid(&m.time_interval)?;
    let deposit = info.funds[0].copy();
    let pair_place = match state.find_pair(&deposit.denom, &m.target_denom) {
        Some(i) => i,
        None => {
            let mut s = join3("swapping ", deposit.denom.as_str(), " to ");
            s.append(m.target_denom.as_str());
            s.append(" not supported");
            return Err(custom(s));
        },
    };
    if let Some(t) = m.target_start_time_utc_seconds {
        assert_target_start_time_is_in_future(env.time, t * NANOS_PER_SECOND)?;
    }
    let destinations = if m.destinations.len() == 0 {
        let mut ds: Vec<Destination> = Vec::new();
        ds.push(Destination { address: m.owner.clone(), allocation: Decimal::one(), msg: None });
        ds
    } else {
        copy_destinations(&m.destinations)
    };
    assert(destinations@ == effective_destinations(m));
    assert_destination_callback_addresses_are_valid(api, &destinations)?;
    assert_no_destination_allocations_are_zero(&destinations)?;
    assert_destination_allocations_add_up_to_one(&destinations)?;

    let pair = &state.pairs[pair_place];
    let receive_denom = if deposit.denom == pair.quote_denom {
        pair.base_denom.clone()
    } else {
        pair.quote_denom.clone()
    };
    let position_type = pair.position_type(&deposit.denom);
    let pair_copy = pair.copy();
    let use_dca_plus = match m.use_dca_plus {
        Some(b) => b,
        None => false,
    };
    let (swap_adjustment_strategy, performance_assessment_strategy, escrow_level) = if use_dca_plus {
        let model_id = get_risk_weighted_average_model_id(deposit.amount, m.swap_amount, &m.time_interval);
        (
            Some(SwapAdjustmentStrategy::RiskWeightedAverage { model_id, base_denom: BaseDenom::Bitcoin, position_type }),
            Some(PerformanceAssessmentStrategy::CompareToStandardDca {
                swapped_amount: Coin { denom: deposit.denom.clone(), amount: 0 },
                received_amount: Coin { denom: receive_denom.clone(), amount: 0 },
            }),
            state.config.risk_weighted_average_escrow_level,
        )
    } else {
        (None, None, Decimal::zero())
    };
    let status = if deposit.amount <= MINIMUM_SWAP_AMOUNT {
        VaultStatus::Inactive
    } else {
        VaultStatus::Scheduled
    };
    let trigger = if deposit.amount <= MINIMUM_SWAP_AMOUNT {
        None
    } else {
        Some(TriggerConfiguration::Time { target_time: match m.target_start_time_utc_seconds {
            Some(t) => t * NANOS_PER_SECOND,
            None => env.time,
        } })
    };
    let id = state.next_vault_id;
    let vault = Vault {
        id,
        created_at: env.time,
        started_at: None,
        owner: m.owner.clone(),
        label: m.label,
        destinations,
        status,
        balance: deposit.copy(),
        target_denom: m.target_denom.clone(),
        swap_amount: m.swap_amount,
        position_type: m.position_type,
        slippage_tolerance: m.slippage_tolerance,
        minimum_receive_amount: m.minimum_receive_amount,
        time_interval: m.time_interval,
        escrow_level,
        deposited_amount: deposit.copy(),
        swapped_amount: Coin { denom: deposit.denom.clone(), amount: 0 },
        received_amount: Coin { denom: receive_denom.clone(), amount: 0 },
        escrowed_amount: Coin { denom: receive_denom, amount: 0 },
        swap_adjustment_strategy,
        performance_assessment_strategy,
        trigger,
        pair: pair_copy,
    };
    let ghost before = *state;
    state.vaults.push(vault);
    state.next_vault_id = id + 1;
    state.vault_cache = Some(id);
    state.create_event(id, env, EventData::DcaVaultFundsDeposited { amount: deposit });
    proof {
        assert(state.vaults@.drop_last() == before.vaults@);
        assert forall|i: int, j: int| 0 <= i < j < state.vaults@.len() implies (#[trigger] state.vaults@[i]).id != (#[trigger] state.vaults@[j]).id by {
            if j < before.vaults@.len() {
                assert(state.vaults@[i] == before.vaults@[i]);
                assert(state.vaults@[j] == before.vaults@[j]);
            } else {
                assert(state.vaults@[i] == before.vaults@[i]);
                assert(before.vaults@[i].id < before.next_vault_id);
            }
        }
        assert forall|i: int| 0 <= i < state.vaults@.len() implies (#[trigger] state.vaults@[i]).id < state.next_vault_id by {
            if i < before.vaults@.len() {
                assert(state.vaults@[i] == before.vaults@[i]);
            }
        }
        assert forall|i: int| 0 <= i < state.events@.len() implies (#[trigger] state.events@[i]).id == i + 1 by {
            if i < before.events@.len() {
                assert(state.events@[i] == before.events@[i]);
            }
        }
    }
    let mut resp = Response::new();
    resp.add_attribute("owner", m.owner);
    resp.add_attribute("vault_id", amount_text(id));
    if status == VaultStatus::Inactive {
        return Ok(resp);
    }
    if m.target_start_time_utc_seconds.is_none() {
        resp.add_message(SubMsg { msg: CosmosMsg::ExecuteSelf { msg: SelfMsg::ExecuteTrigger { trigger_id: id } }, reply_id: None });
    }
    Ok(resp)
}

/// The `{:?}` text of a position type.
pub open spec fn position_type_debug(p: PositionType) -> Seq<char> {
    match p {
        PositionType::Enter => "Enter"@,
        PositionType::Exit => "Exit"@,
    }
}

/// The `{:?}` text of a flag.
pub open spec fn bool_debug(b: bool) -> Seq<char> {
    if b {
        "true"@
    } else {
        "false"@
    }
}

/// The `{:?}` text of a base denomination.
pub open spec fn base_denom_debug(b: BaseDenom) -> Seq<char> {
    match b {
        BaseDenom::Bitcoin => "Bitcoin"@,
    }
}

/// The `{:?}` text of the fields of a weighted-scale strategy (amounts as `Uint128`,
/// the multiplier as `Decimal`).
pub open spec fn weighted_scale_debug(base_receive_amount: u128, multiplier: Decimal, increase_only: bool) -> Seq<char> {
    "WeightedScale { base_receive_amount: Uint128("@ + decimal_text(base_receive_amount as nat)
        + "), multiplier: Decimal("@ + decimal_fraction_text(multiplier) + "), increase_only: "@
        + bool_debug(increase_only) + " }"@
}

/// The `{:?}` text of a swap adjustment strategy.
pub open spec fn strategy_debug(s: SwapAdjustmentStrategy) -> Seq<char> {
    match s {
        SwapAdjustmentStrategy::RiskWeightedAverage { model_id, base_denom, position_type } =>
            "RiskWeightedAverage { model_id: "@ + decimal_text(model_id as nat) + ", base_denom: "@
                + base_denom_debug(base_denom) + ", position_type: "@ + position_type_debug(position_type) + " }"@,
        SwapAdjustmentStrategy::WeightedScale { base_receive_amount, multiplier, increase_only } =>
            weighted_scale_debug(base_receive_amount, multiplier, increase_only),
    }
}

/// The `{:?}` text of swap adjustment parameters.
pub open spec fn params_debug(p: SwapAdjustmentStrategyParams) -> Seq<char> {
    match p {
        SwapAdjustmentStrategyParams::RiskWeightedAverage { base_denom } =>
            "RiskWeightedAverage { base_denom: "@ + base_denom_debug(base_denom) + " }"@,
        SwapAdjustmentStrategyParams::WeightedScale { base_receive_amount, multiplier, increase_only } =>
            weighted_scale_debug(base_receive_amount, multiplier, increase_only),
    }
}

/// The `{:?}` text of an optional value, from the text of the value.
pub open spec fn option_debug(inner: Option<Seq<char>>) -> Seq<char> {
    match inner {
        Some(t) => "Some("@ + t + ")"@,
        None => "None"@,
    }
}

fn weighted_scale_text(base_receive_amount: u128, multiplier: Decimal, increase_only: bool) -> (t: String)
    ensures
        t@ == weighted_scale_debug(base_receive_amount, multiplier, increase_only),
{
    let mut t = String::from_str("WeightedScale { base_receive_amount: Uint128(");
    let amount = amount_text(base_receive_amount);
    t.append(amount.as_str());
    t.append("), multiplier: Decimal(");
    let m = crate::text::fraction_text(multiplier);
    t.append(m.as_str());
    t.append("), increase_only: ");
    if increase_only {
        t.append("true");
    } else {
        t.append("false");
    }
    t.append(" }");
    t
}

fn base_denom_text(b: BaseDenom) -> (t: &'static str)
    ensures
        t@ == base_denom_debug(b),
{
    match b {
        BaseDenom::Bitcoin => "Bitcoin",
    }
}

/// The `{:?}` text of a swap adjustment strategy.
fn strategy_text(s: &SwapAdjustmentStrategy) -> (t: String)
    ensures
        t@ == strategy_debug(*s),
{
    match s {
        SwapAdjustmentStrategy::RiskWeightedAverage { model_id, base_denom, position_type } => {
            let mut t = String::from_str("RiskWeightedAverage { model_id: ");
            let id = amount_text(*model_id as u128);
            t.append(id.as_str());
            t.append(", base_denom: ");
            t.append(base_denom_text(*base_denom));
            t.append(", position_type: ");
            match position_type {
                PositionType::Enter => t.append("Enter"),
                PositionType::Exit => t.append("Exit"),
            }
            t.append(" }");
            t
        },
        SwapAdjustmentStrategy::WeightedScale { base_receive_amount, multiplier, increase_only } => {
            weighted_scale_text(*base_receive_amount, *multiplier, *increase_only)
        },
    }
}

/// The `{:?}` text of swap adjustment parameters.
fn params_text(p: &SwapAdjustmentStrategyParams) -> (t: String)
    ensures
        t@ == params_debug(*p),
{
    match p {
        SwapAdjustmentStrategyParams::RiskWeightedAverage { base_denom } => {
            let mut t = String::from_str("RiskWeightedAverage { base_denom: ");
            t.append(base_denom_text(*base_denom));
            t.append(" }");
            t
        },
        SwapAdjustmentStrategyParams::WeightedScale { base_receive_amount, multiplier, increase_only } => {
            weighted_scale_text(*base_receive_amount, *multiplier, *increase_only)
        },
    }
}

/// `Some(..)` around a text, or `None`.
fn option_text(inner: Option<String>) -> (t: String)
    ensures
        t@ == option_debug(match inner { Some(i) => Some(i@), None => None }),
{
    match inner {
        Some(i) => {
            let mut t = String::from_str("Some(");
            t.append(i.as_str());
            t.append(")");
            t
        },
        None => String::from_str("None"),
    }
}

/// The text of the error of an update to swap adjustment parameters that the vault's
/// strategy does not take.
pub open spec fn strategy_change_text(from: Option<SwapAdjustmentStrategy>, to: Seq<char>) -> Seq<char> {
    "Error: "@ + "cannot update swap adjustment strategy from "@ + option_debug(match from {
        Some(s) => Some(strategy_debug(s)),
        None => None,
    }) + " to "@ + to
}

fn strategy_change_error(from: &Option<SwapAdjustmentStrategy>, to: String) -> (e: ContractError)
    ensures
        e.text() == strategy_change_text(*from, to@),
{
    let f = option_text(match from {
        Some(s) => Some(strategy_text(s)),
        None => None,
    });
    let mut s = join3("cannot update swap adjustment strategy from ", f.as_str(), " to ");
    s.append(to.as_str());
    custom(s)
}

/// Replaces the vault at place `i`.
pub(crate) fn put_vault(state: &mut State, i: usize, v: Vault)
    requires
        i < old(state).vaults@.len(),
    ensures
        final(state).vaults@ == old(state).vaults@.update(i as int, v),
        final(state).config == old(state).config,
        final(state).pairs == old(state).pairs,
        final(state).events == old(state).events,
        final(state).next_vault_id == old(state).next_vault_id,
        final(state).custom_fees == old(state).custom_fees,
        final(state).swap_adjustments == old(state).swap_adjustments,
        final(state).disburse_escrow_tasks == old(state).disburse_escrow_tasks,
        final(state).post_execution_actions == old(state).post_execution_actions,
        final(state).vault_cache == old(state).vault_cache,
        final(state).swap_cache == old(state).swap_cache,
        final(state).limit_order_cache == old(state).limit_order_cache,
{
    state.vaults.set(i, v);
}

/// Replacing a vault by one with the same id keeps the store well formed.
pub proof fn lemma_update_keeps_wf(s: State, t: State, i: int, v: Vault)
    requires
        wf(s),
        0 <= i < s.vaults@.len(),
        v.id == s.vaults@[i].id,
        t.vaults@ == s.vaults@.update(i, v),
        t.next_vault_id == s.next_vault_id,
        t.events == s.events,
    ensures
        wf(t),
{
    assert forall|a: int, b: int| 0 <= a < b < t.vaults@.len() implies (#[trigger] t.vaults@[a]).id != (#[trigger] t.vaults@[b]).id by {
        assert(t.vaults@[a].id == s.vaults@[a].id);
        assert(t.vaults@[b].id == s.vaults@[b].id);
    }
    assert forall|a: int| 0 <= a < t.vaults@.len() implies (#[trigger] t.vaults@[a]).id < t.next_vault_id by {
        assert(t.vaults@[a].id == s.vaults@[a].id);
    }
}

/// Appending events keeps the store well formed.
pub proof fn lemma_push_event_keeps_wf(s: State, t: State, e: crate::types::Event)
    requires
        wf(s),
        t.vaults == s.vaults,
        t.next_vault_id == s.next_vault_id,
        t.events@ == s.events@.push(e),
        e.id == s.events@.len() + 1,
    ensures
        wf(t),
{
    assert forall|a: int| 0 <= a < t.events@.len() implies (#[trigger] t.events@[a]).id == a + 1 by {
        if a < s.events@.len() {
            assert(t.events@[a] == s.events@[a]);
        }
    }
}

/// The text of `{:?}` of a vault id (`Uint128(n)`).
pub open spec fn id_debug(id: u128) -> Seq<char> {
    "Uint128("@ + decimal_text(id as nat) + ")"@
}

/// The vault after a deposit of `amount` (the model of a risk-weighted vault is
/// chosen again for the new balance).
pub open spec fn deposited_vault(v: Vault, amount: u128) -> Vault {
    let balance = Coin { denom: v.balance.denom, amount: (v.balance.amount + amount) as u128 };
    let status = if v.status != VaultStatus::Scheduled && balance.amount > MINIMUM_SWAP_AMOUNT {
        VaultStatus::Active
    } else {
        v.status
    };
    Vault {
        balance,
        status,
        deposited_amount: Coin { denom: v.deposited_amount.denom, amount: (v.deposited_amount.amount + amount) as u128 },
        swap_adjustment_strategy: match v.swap_adjustment_strategy {
            Some(SwapAdjustmentStrategy::RiskWeightedAverage { base_denom, position_type, .. }) => Some(SwapAdjustmentStrategy::RiskWeightedAverage {
                model_id: model_id_for_days(execution_days(balance.amount, v.swap_amount, v.time_interval)),
                base_denom,
                position_type,
            }),
            other => other,
        },
        trigger: if status == VaultStatus::Active && v.status == VaultStatus::Inactive && v.trigger is None {
            Some(TriggerConfiguration::Time { target_time: 0 })
        } else {
            v.trigger
        },
        ..v
    }
}

/// Adds funds to a vault of the given owner; an inactive vault that now holds enough
/// becomes active and, without a trigger, gets one for now and is executed at once.
#[verifier::rlimit(60)]
pub fn deposit(state: &mut State, api: &AddressBook, env: &Env, info: &MessageInfo, address: &String, vault_id: u128) -> (r: Result<Response, ContractError>)
    requires
        wf(*old(state)),
        has_room(*old(state)),
    ensures
        r is Err ==> *final(state) == *old(state),
        r is Ok <==> {
            let i = vault_index(old(state).vaults@, vault_id);
            let v = old(state).vaults@[i];
            &&& !old(state).config.paused
            &&& api.valid(address@)
            &&& info.funds@.len() == 1
            &&& i >= 0
            &&& address@ == v.owner@
            &&& !v.is_cancelled_spec()
            &&& info.funds@[0].denom@ == v.balance.denom@
            &&& v.balance.amount + info.funds@[0].amount <= u128::MAX
            &&& v.deposited_amount.amount + info.funds@[0].amount <= u128::MAX
            &&& (v.swap_adjustment_strategy is Some ==> v.swap_amount > 0)
        },
        r matches Ok(resp) ==> {
            let i = vault_index(old(state).vaults@, vault_id);
            let v = old(state).vaults@[i];
            let nv = final(state).vaults@[i];
            let d = deposited_vault(v, info.funds@[0].amount);
            &&& final(state).vaults@ == old(state).vaults@.update(i, nv)
            &&& nv.balance == d.balance && nv.status == d.status && nv.deposited_amount == d.deposited_amount
            &&& nv.swap_adjustment_strategy == d.swap_adjustment_strategy
            &&& same_vault(nv, Vault { trigger: nv.trigger, ..d })
            &&& (d.trigger != v.trigger) ==> nv.trigger == Some(TriggerConfiguration::Time { target_time: env.time })
            &&& (d.trigger == v.trigger) ==> nv.trigger == v.trigger
            &&& final(state).events@ == old(state).events@.push(next_event(old(state).events@.len(), v.id, *env, EventData::DcaVaultFundsDeposited { amount: info.funds@[0] }))
            &&& wf(*final(state))
            &&& final(state).config == old(state).config
            &&& resp.attributes@.len() == 1
            &&& resp.attributes@[0].key@ == "method"@ && resp.attributes@[0].value@ == "deposit"@
            &&& (d.trigger != v.trigger) ==> resp.messages@ == seq![SubMsg { msg: CosmosMsg::ExecuteSelf { msg: SelfMsg::ExecuteTrigger { trigger_id: v.id } }, reply_id: None }]
            &&& (d.trigger == v.trigger) ==> resp.messages@.len() == 0
        },
        r matches Ok(resp) ==> ({
            let i = vault_index(old(state).vaults@, vault_id);
            let v = old(state).vaults@[i];
            let nv = final(state).vaults@[i];
            &&& nv.balance.amount == v.balance.amount + info.funds@[0].amount
            &&& (v.status != VaultStatus::Scheduled && nv.balance.amount > MINIMUM_SWAP_AMOUNT) ==> nv.status == VaultStatus::Active
            &&& (v.status == VaultStatus::Inactive && v.trigger is None && nv.balance.amount > MINIMUM_SWAP_AMOUNT) ==> {
                &&& nv.trigger == Some(TriggerConfiguration::Time { target_time: env.time })
                &&& resp.messages@ == seq![SubMsg { msg: CosmosMsg::ExecuteSelf { msg: SelfMsg::ExecuteTrigger { trigger_id: v.id } }, reply_id: None }]
            }
        }),
{
    assert_contract_is_not_paused(&state.config)?;
    api.addr_validate(address)?;
    assert_exactly_one_asset(&info.funds)?;
    let i = state.vault_position(vault_id)?;
    let v = &state.vaults[i];
    if *address != v.owner {
        let n = amount_text(vault_id);
        let mut s = join3("provided an incorrect owner address for vault id=Uint128(", n.as_str(), ")");
        return Err(custom(s));
    }
    assert_vault_is_not_cancelled(v)?;
    crate::validation::assert_deposited_denom_matches_send_denom(&info.funds[0].denom, &v.balance.denom)?;
    let amount = info.funds[0].amount;
    if amount > u128::MAX - v.balance.amount || amount > u128::MAX - v.deposited_amount.amount {
        return Err(crate::fees::overflow_error());
    }
    if v.swap_adjustment_strategy.is_some() && v.swap_amount == 0 {
        return Err(crate::fees::overflow_error());
    }
    let was_inactive = v.status == VaultStatus::Inactive;
    let mut nv = v.copy();
    nv.balance.amount = v.balance.amount + amount;
    nv.deposited_amount.amount = v.deposited_amount.amount + amount;
    if nv.status != VaultStatus::Scheduled && nv.balance.amount > MINIMUM_SWAP_AMOUNT {
        nv.status = VaultStatus::Active;
    }
    nv.swap_adjustment_strategy = match v.swap_adjustment_strategy {
        Some(SwapAdjustmentStrategy::RiskWeightedAverage { base_denom, position_type, .. }) => Some(SwapAdjustmentStrategy::RiskWeightedAverage {
            model_id: get_risk_weighted_average_model_id(nv.balance.amount, v.swap_amount, &v.time_interval),
            base_denom,
            position_type,
        }),
        other => other,
    };
    let start_now = nv.status == VaultStatus::Active && was_inactive && nv.trigger.is_none();
    if start_now {
        nv.trigger = Some(TriggerConfiguration::Time { target_time: env.time });
    }
    let id = nv.id;
    let ghost s0 = *state;
    put_vault(state, i, nv);
    proof {
        lemma_update_keeps_wf(s0, *state, i as int, state.vaults@[i as int]);
    }
    let ghost s1 = *state;
    state.create_event(id, env, EventData::DcaVaultFundsDeposited { amount: info.funds[0].copy() });
    proof {
        lemma_push_event_keeps_wf(s1, *state, state.events@.last());
    }
    let mut resp = Response::new();
    resp.add_attribute("method", String::from_str("deposit"));
    if start_now {
        resp.add_message(SubMsg { msg: CosmosMsg::ExecuteSelf { msg: SelfMsg::ExecuteTrigger { trigger_id: id } }, reply_id: None });
    }
    Ok(resp)
}

/// The changes an owner asks for; `None` keeps a field.
#[derive(Debug, Clone, PartialEq, Eq, Default)]
pub struct VaultUpdate {
    pub label: Option<String>,
    pub destinations: Option<Vec<Destination>>,
    pub slippage_tolerance: Option<Decimal>,
    pub minimum_receive_amount: Option<u128>,
    pub time_interval: Option<TimeInterval>,
    pub swap_adjustment_strategy: Option<SwapAdjustmentStrategyParams>,
}

/// The destinations an update sets: the given ones, or all to the owner when the list is empty.
pub open spec fn updated_destinations(ds: Seq<Destination>, owner: String) -> Seq<Destination> {
    if ds.len() == 0 {
        seq![Destination { address: owner, allocation: Decimal { atomics: DECIMAL_FRACTIONAL }, msg: None }]
    } else {
        ds
    }
}

/// Only a weighted-scale vault may change its weighted-scale parameters.
pub open spec fn strategy_update_allowed(v: Vault, p: Option<SwapAdjustmentStrategyParams>) -> bool {
    match p {
        None => true,
        Some(SwapAdjustmentStrategyParams::WeightedScale { multiplier, .. }) => v.swap_adjustment_strategy matches Some(SwapAdjustmentStrategy::WeightedScale { .. })
            && multiplier.atomics <= MAX_WEIGHTED_SCALE_MULTIPLIER_ATOMICS,
        Some(_) => false,
    }
}

/// Every check of an update passes.
pub open spec fn update_vault_accepted(v: Vault, api: AddressBook, sender: Seq<char>, u: VaultUpdate) -> bool {
    &&& update_checks_pass(v, api, sender, u)
    &&& strategy_update_allowed(v, u.swap_adjustment_strategy)
}

/// The swap adjustment parameters of an update are of another kind than the vault's
/// strategy (only weighted-scale parameters for a weighted-scale vault are taken).
pub open spec fn strategy_change_refused(v: Vault, p: Option<SwapAdjustmentStrategyParams>) -> bool {
    match p {
        Some(SwapAdjustmentStrategyParams::WeightedScale { .. }) => !(v.swap_adjustment_strategy matches Some(SwapAdjustmentStrategy::WeightedScale { .. })),
        Some(_) => true,
        None => false,
    }
}

/// The text of refused swap adjustment parameters in the error: weighted-scale ones as
/// the optional value of the update, others bare.
pub open spec fn refused_params_text(p: Option<SwapAdjustmentStrategyParams>) -> Seq<char> {
    match p {
        Some(SwapAdjustmentStrategyParams::WeightedScale { base_receive_amount, multiplier, increase_only }) =>
            option_debug(Some(weighted_scale_debug(base_receive_amount, multiplier, increase_only))),
        Some(q) => params_debug(q),
        None => Seq::empty(),
    }
}

/// Every check of an update before the one of its swap adjustment parameters passes.
pub open spec fn update_checks_pass(v: Vault, api: AddressBook, sender: Seq<char>, u: VaultUpdate) -> bool {
    &&& sender == v.owner@
    &&& !v.is_cancelled_spec()
    &&& (u.label matches Some(l) ==> l@.len() <= 100)
    &&& (u.destinations matches Some(ds) ==> {
        let eff = updated_destinations(ds@, v.owner);
        &&& eff.len() <= MAX_DESTINATIONS
        &&& callbacks_valid(api, eff)
        &&& forall|i: int| 0 <= i < eff.len() ==> #[trigger] eff[i].allocation.atomics > 0
        &&& destination_allocation_sum(eff) == DECIMAL_FRACTIONAL
    })
    &&& (u.slippage_tolerance matches Some(x) ==> x.atomics <= DECIMAL_FRACTIONAL)
    &&& (u.time_interval matches Some(t) ==> valid_time_interval(t))
}

/// The refusal an update answers with when the vault exists: the text of the first
/// check, in the order in which they run, that fails; `None` when every check holds.
pub open spec fn update_vault_refusal(v: Vault, api: AddressBook, sender: Seq<char>, u: VaultUpdate) -> Option<Seq<char>> {
    let destinations_refusal: Option<Seq<char>> = match u.destinations {
        Some(ds) => {
            let eff = updated_destinations(ds@, v.owner);
            if eff.len() > MAX_DESTINATIONS {
                Some("Error: "@ + "no more than 10 destinations can be provided"@)
            } else {
                destination_list_refusal(api, eff)
            }
        },
        None => None,
    };
    if sender != v.owner@ {
        Some("Unauthorized"@)
    } else if v.is_cancelled_spec() {
        Some("Error: "@ + "vault is already cancelled"@)
    } else if u.label matches Some(l) && l@.len() > MAX_LABEL_LENGTH {
        Some("Error: "@ + "Vault label cannot be longer than 100 characters"@)
    } else if destinations_refusal is Some {
        destinations_refusal
    } else if u.slippage_tolerance matches Some(x) && x.atomics > DECIMAL_FRACTIONAL {
        Some("Error: "@ + "slippage tolerance must be less than or equal to 1"@)
    } else if u.time_interval matches Some(t) && !valid_time_interval(t) {
        Some("Error: "@ + "custom time interval must be at least 60 seconds"@)
    } else if strategy_change_refused(v, u.swap_adjustment_strategy) {
        Some(strategy_change_text(v.swap_adjustment_strategy, refused_params_text(u.swap_adjustment_strategy)))
    } else if u.swap_adjustment_strategy matches Some(SwapAdjustmentStrategyParams::WeightedScale { multiplier, .. })
        && multiplier.atomics > MAX_WEIGHTED_SCALE_MULTIPLIER_ATOMICS {
        Some("Error: "@ + "Cannot set weighted scale multiplier to more than 10"@)
    } else {
        None
    }
}

/// The vault after an accepted update.
pub open spec fn updated_vault(nv: Vault, v: Vault, u: VaultUpdate) -> bool {
    &&& nv.label == (match u.label { Some(l) => Some(l), None => v.label })
    &&& nv.destinations@ == (match u.destinations { Some(ds) => updated_destinations(ds@, v.owner), None => v.destinations@ })
    &&& nv.slippage_tolerance == (match u.slippage_tolerance { Some(x) => Some(x), None => v.slippage_tolerance })
    &&& nv.minimum_receive_amount == (match u.minimum_receive_amount { Some(x) => Some(x), None => v.minimum_receive_amount })
    &&& nv.time_interval == (match u.time_interval { Some(t) => t, None => v.time_interval })
    &&& nv.swap_adjustment_strategy == (match u.swap_adjustment_strategy {
        Some(SwapAdjustmentStrategyParams::WeightedScale { base_receive_amount, multiplier, increase_only }) => Some(SwapAdjustmentStrategy::WeightedScale { base_receive_amount, multiplier, increase_only }),
        _ => v.swap_adjustment_strategy,
    })
    &&& nv.id == v.id && nv.created_at == v.created_at && nv.started_at == v.started_at && nv.owner == v.owner
    &&& nv.status == v.status && nv.balance == v.balance && nv.target_denom == v.target_denom
    &&& nv.swap_amount == v.swap_amount && nv.escrow_level == v.escrow_level && nv.position_type == v.position_type
    &&& nv.deposited_amount == v.deposited_amount && nv.swapped_amount == v.swapped_amount
    &&& nv.received_amount == v.received_amount && nv.escrowed_amount == v.escrowed_amount
    &&& nv.performance_assessment_strategy == v.performance_assessment_strategy && nv.trigger == v.trigger
    &&& nv.pair.base_denom == v.pair.base_denom && nv.pair.quote_denom == v.pair.quote_denom && nv.pair.route@ == v.pair.route@
}

/// The key and value of each attribute, in order.
pub open spec fn attribute_pairs(attrs: Seq<Attribute>) -> Seq<(Seq<char>, Seq<char>)> {
    attrs.map_values(|a: Attribute| (a.key@, a.value@))
}

pub open spec fn push_some(s: Seq<(Seq<char>, Seq<char>)>, o: Option<(Seq<char>, Seq<char>)>) -> Seq<(Seq<char>, Seq<char>)> {
    match o {
        Some(x) => s.push(x),
        None => s,
    }
}

/// The attributes of an accepted update: the vault, its id and owner, then one for each
/// field the update sets, in the order label, destinations (their `{:?}` text),
/// slippage tolerance, minimum receive amount, time interval.
pub open spec fn update_vault_attributes(v: Vault, u: VaultUpdate) -> Seq<(Seq<char>, Seq<char>)> {
    let base = seq![("update_vault"@, "true"@), ("vault_id"@, decimal_text(v.id as nat)), ("owner"@, v.owner@)];
    let with_label = push_some(base, match u.label { Some(l) => Some(("label"@, l@)), None => None });
    let with_destinations = push_some(with_label, match u.destinations {
        Some(ds) => Some(("destinations"@, destinations_debug(updated_destinations(ds@, v.owner)))),
        None => None,
    });
    let with_slippage = push_some(with_destinations, match u.slippage_tolerance {
        Some(x) => Some(("slippage_tolerance"@, decimal_fraction_text(x))),
        None => None,
    });
    let with_minimum = push_some(with_slippage, match u.minimum_receive_amount {
        Some(x) => Some(("minimum_receive_amount"@, decimal_text(x as nat))),
        None => None,
    });
    push_some(with_minimum, match u.time_interval {
        Some(t) => Some(("time_interval"@, time_interval_name(t))),
        None => None,
    })
}

proof fn lemma_pairs_after_add(before: Seq<Attribute>, after: Seq<Attribute>)
    requires
        after.len() == before.len() + 1,
        after.drop_last() == before,
    ensures
        attribute_pairs(after) == attribute_pairs(before).push((after.last().key@, after.last().value@)),
{
    assert forall|i: int| 0 <= i < before.len() implies after[i] == before[i] by {
        assert(after.drop_last()[i] == after[i]);
    }
    assert(attribute_pairs(after) =~= attribute_pairs(before).push((after.last().key@, after.last().value@)));
}

/// The response to an accepted update of `v`.
fn update_vault_response(v: &Vault, u: &VaultUpdate) -> (resp: Response)
    ensures
        resp.messages@.len() == 0,
        attribute_pairs(resp.attributes@) == update_vault_attributes(*v, *u),
{
    let mut resp = Response::new();
    assert(attribute_pairs(resp.attributes@) =~= Seq::empty());
    let ghost a0 = resp.attributes@;
    resp.add_attribute("update_vault", String::from_str("true"));
    proof { lemma_pairs_after_add(a0, resp.attributes@); }
    let ghost a1 = resp.attributes@;
    resp.add_attribute("vault_id", amount_text(v.id));
    proof { lemma_pairs_after_add(a1, resp.attributes@); }
    let ghost a2 = resp.attributes@;
    resp.add_attribute("owner", v.owner.clone());
    proof {
        lemma_pairs_after_add(a2, resp.attributes@);
        assert(attribute_pairs(resp.attributes@) =~= seq![("update_vault"@, "true"@), ("vault_id"@, decimal_text(v.id as nat)), ("owner"@, v.owner@)]);
    }
    if let Some(label) = &u.label {
        let ghost b = resp.attributes@;
        resp.add_attribute("label", label.clone());
        proof { lemma_pairs_after_add(b, resp.attributes@); }
    }
    if let Some(ds) = &u.destinations {
        let ds2 = if ds.len() == 0 {
            let mut d: Vec<Destination> = Vec::new();
            d.push(Destination { address: v.owner.clone(), allocation: Decimal::one(), msg: None });
            d
        } else {
            copy_destinations(ds)
        };
        assert(ds2@ == updated_destinations(ds@, v.owner));
        let ghost b = resp.attributes@;
        resp.add_attribute("destinations", destinations_text(&ds2));
        proof { lemma_pairs_after_add(b, resp.attributes@); }
    }
    if let Some(x) = u.slippage_tolerance {
        let ghost b = resp.attributes@;
        resp.add_attribute("slippage_tolerance", crate::text::fraction_text(x));
        proof { lemma_pairs_after_add(b, resp.attributes@); }
    }
    if let Some(x) = u.minimum_receive_amount {
        let ghost b = resp.attributes@;
        resp.add_attribute("minimum_receive_amount", amount_text(x));
        proof { lemma_pairs_after_add(b, resp.attributes@); }
    }
    if let Some(t) = &u.time_interval {
        let ghost b = resp.attributes@;
        resp.add_attribute("time_interval", time_interval_text(t));
        proof { lemma_pairs_after_add(b, resp.attributes@); }
    }
    resp
}

/// The owner updates the label, destinations, slippage tolerance, minimum receive
/// amount, time interval or weighted-scale parameters of a vault that is not cancelled.
#[verifier::rlimit(80)]
pub fn update_vault_handler(state: &mut State, api: &AddressBook, sender: &String, vault_id: u128, u: VaultUpdate) -> (r: Result<Response, ContractError>)
    requires
        wf(*old(state)),
    ensures
        r is Err ==> *final(state) == *old(state),
        r is Ok <==> vault_index(old(state).vaults@, vault_id) >= 0
            && update_vault_accepted(old(state).vaults@[vault_index(old(state).vaults@, vault_id)], *api, sender@, u),
        r matches Err(e) ==> vault_index(old(state).vaults@, vault_id) >= 0 ==> {
            let v = old(state).vaults@[vault_index(old(state).vaults@, vault_id)];
            &&& sender@ != v.owner@ ==> e == ContractError::Unauthorized
            &&& sender@ == v.owner@ && v.is_cancelled_spec() ==> e.text() == "Error: "@ + "vault is already cancelled"@
            &&& update_vault_refusal(v, *api, sender@, u) == Some(e.text())
        },
        r matches Err(e) ==> vault_index(old(state).vaults@, vault_id) < 0 ==> e.text() == not_found_text(vault_id),
        vault_index(old(state).vaults@, vault_id) >= 0 ==> (r is Ok <==> update_vault_refusal(
            old(state).vaults@[vault_index(old(state).vaults@, vault_id)], *api, sender@, u) is None),
        r is Ok ==> {
            let i = vault_index(old(state).vaults@, vault_id);
            &&& final(state).vaults@ == old(state).vaults@.update(i, final(state).vaults@[i])
            &&& updated_vault(final(state).vaults@[i], old(state).vaults@[i], u)
            &&& wf(*final(state))
            &&& final(state).events == old(state).events
            &&& final(state).config == old(state).config
        },
        r matches Ok(resp) ==> {
            &&& resp.messages@.len() == 0
            &&& attribute_pairs(resp.attributes@)
                == update_vault_attributes(old(state).vaults@[vault_index(old(state).vaults@, vault_id)], u)
        },
{
    let i = state.vault_position(vault_id)?;
    proof {
        crate::state::lemma_vault_index(state.vaults@, vault_id);
    }
    let v = &state.vaults[i];
    assert_sender_is_vault_owner(&v.owner, sender)?;
    assert_vault_is_not_cancelled(v)?;
    let mut nv = v.copy();
    match &u.label {
        Some(label) => {
            assert_label_is_no_longer_than_100_characters(label)?;
            nv.label = Some(label.clone());
        },
        None => {},
    }
    match &u.destinations {
        Some(ds) => {
            let ds2 = if ds.len() == 0 {
                let mut d: Vec<Destination> = Vec::new();
                d.push(Destination { address: v.owner.clone(), allocation: Decimal::one(), msg: None });
                d
            } else {
                copy_destinations(ds)
            };
            assert(ds2@ == updated_destinations(ds@, v.owner));
            assert_destinations_limit_is_not_breached(&ds2)?;
            assert_destination_callback_addresses_are_valid(api, &ds2)?;
            assert_no_destination_allocations_are_zero(&ds2)?;
            assert_destination_allocations_add_up_to_one(&ds2)?;
            nv.destinations = ds2;
        },
        None => {},
    }
    if let Some(x) = u.slippage_tolerance {
        assert_slippage_tolerance_is_less_than_or_equal_to_one(x)?;
        nv.slippage_tolerance = Some(x);
    }
    if let Some(x) = u.minimum_receive_amount {
        nv.minimum_receive_amount = Some(x);
    }
    if let Some(t) = u.time_interval {
        assert_time_interval_is_valid(&t)?;
        nv.time_interval = t;
    }
    let resp = update_vault_response(v, &u);
    match u.swap_adjustment_strategy {
        Some(SwapAdjustmentStrategyParams::WeightedScale { base_receive_amount, multiplier, increase_only }) => {
            match v.swap_adjustment_strategy {
                Some(SwapAdjustmentStrategy::WeightedScale { .. }) => {
                    assert_weighted_scale_multiplier_is_no_more_than_10(multiplier)?;
                    nv.swap_adjustment_strategy = Some(SwapAdjustmentStrategy::WeightedScale { base_receive_amount, multiplier, increase_only });
                },
                _ => {
                    let to = option_text(Some(params_text(&SwapAdjustmentStrategyParams::WeightedScale { base_receive_amount, multiplier, increase_only })));
                    return Err(strategy_change_error(&v.swap_adjustment_strategy, to));
                },
            }
        },
        Some(p) => {
            return Err(strategy_change_error(&v.swap_adjustment_strategy, params_text(&p)));
        },
        None => {},
    }
    let ghost s0 = *state;
    put_vault(state, i, nv);
    proof {
        lemma_update_keeps_wf(s0, *state, i as int, state.vaults@[i as int]);
    }
    Ok(resp)
}

/// The name a time interval is written with in messages.
pub fn time_interval_text(t: &TimeInterval) -> (s: String)
    ensures
        s@ == time_interval_name(*t),
{
    match t {
        TimeInterval::EverySecond => String::from_str("every_second"),
        TimeInterval::EveryMinute => String::from_str("every_minute"),
        TimeInterval::HalfHourly => String::from_str("half_hourly"),
        TimeInterval::Hourly => String::from_str("hourly"),
        TimeInterval::HalfDaily => String::from_str("half_daily"),
        TimeInterval::Daily => String::from_str("daily"),
        TimeInterval::Weekly => String::from_str("weekly"),
        TimeInterval::Fortnightly => String::from_str("fortnightly"),
        TimeInterval::Monthly => String::from_str("monthly"),
        TimeInterval::Custom { .. } => String::from_str("custom"),
    }
}

pub open spec fn time_interval_name(t: TimeInterval) -> Seq<char> {
    match t {
        TimeInterval::EverySecond => "every_second"@,
        TimeInterval::EveryMinute => "every_minute"@,
        TimeInterval::HalfHourly => "half_hourly"@,
        TimeInterval::Hourly => "hourly"@,
        TimeInterval::HalfDaily => "half_daily"@,
        TimeInterval::Daily => "daily"@,
        TimeInterval::Weekly => "weekly"@,
        TimeInterval::Fortnightly => "fortnightly"@,
        TimeInterval::Monthly => "monthly"@,
        TimeInterval::Custom { .. } => "custom"@,
    }
}

/// Sets the label of a vault; only its owner may (the label replaces the old one
/// when given).
pub fn update_vault_label(state: &mut State, sender: &String, vault_id: u128, label: Option<String>) -> (r: Result<Response, ContractError>)
    requires
        wf(*old(state)),
    ensures
        r is Err ==> *final(state) == *old(state),
        r is Ok <==> vault_index(old(state).vaults@, vault_id) >= 0 && sender@ == old(state).vaults@[vault_index(old(state).vaults@, vault_id)].owner@,
        r matches Err(e) ==> vault_index(old(state).vaults@, vault_id) >= 0 ==> e == ContractError::Unauthorized,
        r is Ok ==> {
            let i = vault_index(old(state).vaults@, vault_id);
            let v = old(state).vaults@[i];
            &&& final(state).vaults@ == old(state).vaults@.update(i, final(state).vaults@[i])
            &&& same_vault(final(state).vaults@[i], Vault { label: match label { Some(l) => Some(l), None => v.label }, ..v })
            &&& wf(*final(state))
            &&& final(state).events == old(state).events
        },
        r matches Ok(resp) ==> {
            &&& resp.messages@.len() == 0
            &&& resp.attributes@.len() == 1
            &&& resp.attributes@[0].key@ == "method"@ && resp.attributes@[0].value@ == "update_vault"@
        },
{
    let i = state.vault_position(vault_id)?;
    assert_sender_is_vault_owner(&state.vaults[i].owner, sender)?;
    let mut nv = state.vaults[i].copy();
    if let Some(l) = label {
        nv.label = Some(l);
    }
    let ghost s0 = *state;
    put_vault(state, i, nv);
    proof {
        lemma_update_keeps_wf(s0, *state, i as int, state.vaults@[i as int]);
    }
    let mut resp = Response::new();
    resp.add_attribute("method", String::from_str("update_vault"));
    Ok(resp)
}

/// What a FIN market reports of a resting limit order.
#[derive(Debug, Clone, Copy, PartialEq, Eq)]
pub struct LimitOrderDetails {
    pub offer_amount: u128,
    pub filled_amount: u128,
}

/// The amount the standard DCA that a vault is compared to still has to swap.
pub open spec fn standard_remaining(v: Vault) -> int {
    match v.performance_assessment_strategy {
        Some(PerformanceAssessmentStrategy::CompareToStandardDca { swapped_amount, .. }) =>
            if v.deposited_amount.amount > swapped_amount.amount { v.deposited_amount.amount - swapped_amount.amount } else { 0 },
        None => 0,
    }
}

/// When the standard DCA of a vault would finish, counted from `now`: one interval per
/// remaining swap (rounded up), capped at the largest time.
pub open spec fn expected_completion(v: Vault, now: u64) -> u64 {
    let execs = if v.swap_amount == 0 || standard_remaining(v) == 0 { 0 } else { (standard_remaining(v) - 1) / (v.swap_amount as int) + 1 };
    let t = now + execs * v.time_interval.seconds_spec() * NANOS_PER_SECOND;
    if t > u64::MAX { u64::MAX } else { t as u64 }
}

/// When the standard DCA of a vault would finish.
pub fn get_expected_execution_completed_date(v: &Vault, now: u64) -> (t: u64)
    ensures
        t == expected_completion(*v, now),
{
    let remaining: u128 = match &v.performance_assessment_strategy {
        Some(PerformanceAssessmentStrategy::CompareToStandardDca { swapped_amount, .. }) => {
            if v.deposited_amount.amount > swapped_amount.amount {
                v.deposited_amount.amount - swapped_amount.amount
            } else {
                0
            }
        },
        None => 0,
    };
    let execs: u128 = if v.swap_amount == 0 || remaining == 0 {
        0
    } else {
        let q = (remaining - 1) / v.swap_amount;
        assert(q <= remaining - 1) by (nonlinear_arith)
            requires
                v.swap_amount >= 1,
                q == (remaining - 1) as int / (v.swap_amount as int),
                remaining >= 1,
        ;
        q + 1
    };
    let step: u128 = (v.time_interval.seconds() as u128) * (NANOS_PER_SECOND as u128);
    let room: u128 = (u64::MAX - now) as u128;
    proof {
        assert(execs * v.time_interval.seconds_spec() * NANOS_PER_SECOND == execs * step) by (nonlinear_arith)
            requires
                step == v.time_interval.seconds_spec() * NANOS_PER_SECOND,
        ;
    }
    if execs > 0 && step > 0 && execs > room / step {
        proof {
            assert(execs * step > room) by (nonlinear_arith)
                requires
                    execs > room / step,
                    step > 0,
            ;
        }
        return u64::MAX;
    }
    proof {
        assert(execs * step <= room) by (nonlinear_arith)
            requires
                execs == 0 || step == 0 || execs <= room / step,
        ;
    }
    now + (execs * step) as u64
}

/// The vault after it is cancelled: nothing left in it and no trigger.
pub open spec fn cancelled_vault(nv: Vault, v: Vault) -> bool {
    same_vault(nv, Vault {
        status: VaultStatus::Cancelled,
        balance: Coin { denom: v.balance.denom, amount: 0 },
        trigger: None,
        ..v
    })
}

/// The messages that take back a vault's resting FIN limit order when it is cancelled:
/// for a vault whose trigger is a FIN order with an index, and given what the market
/// reports of that order, a retraction where some of the offer is still open, then a
/// withdrawal where some of it was filled; nothing otherwise.
pub open spec fn order_recall_msgs(v: Vault, pair_address: String, order: Option<LimitOrderDetails>) -> Seq<SubMsg> {
    match (v.trigger, order) {
        (Some(TriggerConfiguration::FinLimitOrder { order_idx: Some(idx), .. }), Some(o)) => {
            let retract: Seq<SubMsg> = if o.offer_amount > 0 {
                seq![SubMsg { msg: CosmosMsg::FinRetractOrder { pair_address, order_idx: idx }, reply_id: None }]
            } else {
                Seq::empty()
            };
            let withdraw: Seq<SubMsg> = if o.filled_amount > 0 {
                seq![SubMsg { msg: CosmosMsg::FinWithdrawOrder { pair_address, order_idx: idx }, reply_id: None }]
            } else {
                Seq::empty()
            };
            retract + withdraw
        },
        _ => Seq::empty(),
    }
}

/// The admin or the owner cancels a vault: its balance goes back to the owner, a
/// resting FIN limit order is retracted and withdrawn as far as the market reports it
/// open or filled (`limit_order`; nothing is recalled without that report),
/// and a vault that is compared to a standard DCA gets an escrow payout scheduled for
/// when that DCA would have finished.
#[verifier::rlimit(80)]
pub fn cancel_vault(
    state: &mut State,
    env: &Env,
    sender: &String,
    vault_id: u128,
    pair_address: &String,
    limit_order: Option<LimitOrderDetails>,
) -> (r: Result<Response, ContractError>)
    requires
        wf(*old(state)),
        has_room(*old(state)),
    ensures
        r is Err ==> *final(state) == *old(state),
        r is Ok <==> {
            let i = vault_index(old(state).vaults@, vault_id);
            &&& i >= 0
            &&& (sender@ == old(state).config.admin@ || sender@ == old(state).vaults@[i].owner@)
            &&& !old(state).vaults@[i].is_cancelled_spec()
        },
        r matches Err(e) ==> vault_index(old(state).vaults@, vault_id) >= 0 ==> {
            let v = old(state).vaults@[vault_index(old(state).vaults@, vault_id)];
            &&& (sender@ != old(state).config.admin@ && sender@ != v.owner@) ==> e == ContractError::Unauthorized
            &&& (sender@ == old(state).config.admin@ || sender@ == v.owner@) ==> e.text() == "Error: "@ + "vault is already cancelled"@
        },
        r matches Ok(resp) ==> {
            let i = vault_index(old(state).vaults@, vault_id);
            let v = old(state).vaults@[i];
            &&& final(state).vaults@ == old(state).vaults@.update(i, final(state).vaults@[i])
            &&& cancelled_vault(final(state).vaults@[i], v)
            &&& final(state).events@ == old(state).events@.push(next_event(old(state).events@.len(), v.id, *env, EventData::DcaVaultCancelled))
            &&& v.performance_assessment_strategy is Some ==> final(state).disburse_escrow_tasks@ == old(state).disburse_escrow_tasks@.push(DisburseEscrowTask { vault_id: v.id, due_date: expected_completion(v, env.time) })
            &&& v.performance_assessment_strategy is None ==> final(state).disburse_escrow_tasks == old(state).disburse_escrow_tasks
            &&& wf(*final(state))
            &&& final(state).config == old(state).config
            &&& resp.messages@.len() == (if v.balance.amount > 0 { 1int } else { 0int }) + order_recall_msgs(v, *pair_address, limit_order).len()
            &&& v.balance.amount > 0 ==> crate::fees::bank_send_of(resp.messages@[0], v.owner, v.balance)
            &&& resp.messages@.subrange(if v.balance.amount > 0 { 1int } else { 0int }, resp.messages@.len() as int) == order_recall_msgs(v, *pair_address, limit_order)
        },
        r matches Ok(resp) ==> {
            &&& resp.attributes@.len() == 3
            &&& resp.attributes@[0].key@ == "method"@ && resp.attributes@[0].value@ == "cancel_vault"@
            &&& resp.attributes@[1].key@ == "owner"@ && resp.attributes@[1].value == old(state).vaults@[vault_index(old(state).vaults@, vault_id)].owner
            &&& resp.attributes@[2].key@ == "vault_id"@ && resp.attributes@[2].value@ == decimal_text(vault_id as nat)
        },
{
    let i = state.vault_position(vault_id)?;
    proof {
        crate::state::lemma_vault_index(state.vaults@, vault_id);
    }
    let v = &state.vaults[i];
    assert_sender_is_admin_or_vault_owner(&state.config, &v.owner, sender)?;
    assert_vault_is_not_cancelled(v)?;
    let mut nv = v.copy();
    let mut resp = Response::new();
    if v.balance.amount > 0 {
        let mut coins: Vec<Coin> = Vec::new();
        coins.push(v.balance.copy());
        resp.add_message(SubMsg { msg: CosmosMsg::BankSend { to_address: v.owner.clone(), amount: coins }, reply_id: None });
    }
    if let Some(TriggerConfiguration::FinLimitOrder { order_idx: Some(idx), .. }) = v.trigger {
        if let Some(order) = limit_order {
            if order.offer_amount > 0 {
                resp.add_message(SubMsg { msg: CosmosMsg::FinRetractOrder { pair_address: pair_address.clone(), order_idx: idx }, reply_id: None });
            }
            if order.filled_amount > 0 {
                resp.add_message(SubMsg { msg: CosmosMsg::FinWithdrawOrder { pair_address: pair_address.clone(), order_idx: idx }, reply_id: None });
            }
        }
    }
    let has_strategy = v.performance_assessment_strategy.is_some();
    let due = get_expected_execution_completed_date(v, env.time);
    nv.status = VaultStatus::Cancelled;
    nv.balance.amount = 0;
    nv.trigger = None;
    let id = nv.id;
    let owner = nv.owner.clone();
    let ghost s0 = *state;
    put_vault(state, i, nv);
    proof {
        lemma_update_keeps_wf(s0, *state, i as int, state.vaults@[i as int]);
    }
    let ghost s1 = *state;
    state.create_event(id, env, EventData::DcaVaultCancelled);
    proof {
        lemma_push_event_keeps_wf(s1, *state, state.events@.last());
    }
    if has_strategy {
        state.disburse_escrow_tasks.push(DisburseEscrowTask { vault_id: id, due_date: due });
    }
    resp.add_attribute("method", String::from_str("cancel_vault"));
    resp.add_attribute("owner", owner);
    resp.add_attribute("vault_id", amount_text(id));
    Ok(resp)
}

/// Sets the position type of a risk-weighted vault from its pair again.
pub fn fix_position_type(state: &mut State, vault_id: u128) -> (r: Result<Response, ContractError>)
    requires
        wf(*old(state)),
    ensures
        r is Err ==> *final(state) == *old(state),
        r is Ok <==> vault_index(old(state).vaults@, vault_id) >= 0 && {
            let v = old(state).vaults@[vault_index(old(state).vaults@, vault_id)];
            v.swap_adjustment_strategy matches Some(SwapAdjustmentStrategy::RiskWeightedAverage { .. }) ==> pair_index(old(state).pairs@, v.balance.denom@, v.target_denom@) >= 0
        },
        r is Ok ==> {
            let i = vault_index(old(state).vaults@, vault_id);
            let v = old(state).vaults@[i];
            &&& wf(*final(state))
            &&& final(state).events == old(state).events
            &&& match v.swap_adjustment_strategy {
                Some(SwapAdjustmentStrategy::RiskWeightedAverage { model_id, base_denom, .. }) => {
                    let pair = old(state).pairs@[pair_index(old(state).pairs@, v.balance.denom@, v.target_denom@)];
                    &&& final(state).vaults@ == old(state).vaults@.update(i, final(state).vaults@[i])
                    &&& same_vault(final(state).vaults@[i], Vault {
                        swap_adjustment_strategy: Some(SwapAdjustmentStrategy::RiskWeightedAverage { model_id, base_denom, position_type: pair.position_type_spec(v.balance.denom@) }),
                        ..v
                    })
                },
                _ => final(state).vaults == old(state).vaults,
            }
        },
        r matches Ok(resp) ==> {
            &&& resp.messages@.len() == 0
            &&& resp.attributes@.len() == 2
            &&& resp.attributes@[0].key@ == "fix_position_type"@ && resp.attributes@[0].value@ == "true"@
            &&& resp.attributes@[1].key@ == "vault_id"@ && resp.attributes@[1].value@ == decimal_text(vault_id as nat)
        },
{
    let i = state.vault_position(vault_id)?;
    let mut resp = Response::new();
    resp.add_attribute("fix_position_type", String::from_str("true"));
    resp.add_attribute("vault_id", amount_text(vault_id));
    if let Some(SwapAdjustmentStrategy::RiskWeightedAverage { model_id, base_denom, .. }) = state.vaults[i].swap_adjustment_strategy {
        let v = &state.vaults[i];
        let p = match state.find_pair(&v.balance.denom, &v.target_denom) {
            Some(p) => p,
            None => {
                let mut s = join3("swapping ", v.balance.denom.as_str(), " to ");
                s.append(v.target_denom.as_str());
                s.append(" not supported");
                return Err(custom(s));
            },
        };
        let position_type = state.pairs[p].position_type(&v.balance.denom);
        let mut nv = v.copy();
        nv.swap_adjustment_strategy = Some(SwapAdjustmentStrategy::RiskWeightedAverage { model_id, base_denom, position_type });
        let ghost s0 = *state;
        put_vault(state, i, nv);
        proof {
            lemma_update_keeps_wf(s0, *state, i as int, state.vaults@[i as int]);
        }
    }
    Ok(resp)
}

/// The vault with the given id.
pub fn get_vault_handler(state: &State, vault_id: u128) -> (r: Result<Vault, ContractError>)
    ensures
        r is Ok <==> vault_index(state.vaults@, vault_id) >= 0,
        r matches Ok(v) ==> same_vault(v, state.vaults@[vault_index(state.vaults@, vault_id)]),
        r matches Err(e) ==> e.text() == crate::state::not_found_text(vault_id),
{
    let i = state.vault_position(vault_id)?;
    Ok(state.vaults[i].copy())
}

/// The vault with the given id, for a query.
pub fn get_vault_by_id(state: &State, vault_id: u128) -> (r: Result<Vault, StdError>)
    ensures
        r is Ok <==> vault_index(state.vaults@, vault_id) >= 0,
        r matches Ok(v) ==> same_vault(v, state.vaults@[vault_index(state.vaults@, vault_id)]),
        r matches Err(e) ==> e.text() == crate::state::not_found_text(vault_id),
{
    match state.vault_position(vault_id) {
        Ok(i) => Ok(state.vaults[i].copy()),
        Err(e) => Err(e.into_std()),
    }
}

/// The vaults of a page: those after `start_after` in id order... as stored, in the
/// order of the store, up to `limit` of them.
pub open spec fn page_of(vaults: Seq<Vault>, start_after: Option<u128>, owner: Option<Seq<char>>, status: Option<VaultStatus>) -> Seq<Vault>
    decreases vaults.len(),
{
    if vaults.len() == 0 {
        Seq::empty()
    } else {
        let v = vaults.last();
        let keep = (start_after matches Some(a) ==> v.id > a)
            && (owner matches Some(o) ==> v.owner@ == o)
            && (status matches Some(st) ==> v.status == st);
        if keep {
            page_of(vaults.drop_last(), start_after, owner, status).push(v)
        } else {
            page_of(vaults.drop_last(), start_after, owner, status)
        }
    }
}

/// Two lists of vaults that hold the same values.
pub open spec fn same_vaults(a: Seq<Vault>, b: Seq<Vault>) -> bool {
    a.len() == b.len() && forall|i: int| 0 <= i < a.len() ==> same_vault(#[trigger] a[i], b[i])
}

/// The vaults that match, in the order of the store, after `start_after`, up to the limit.
fn select_vaults(state: &State, start_after: Option<u128>, owner: Option<&String>, status: Option<VaultStatus>, limit: usize) -> (r: Vec<Vault>)
    ensures
        ({
            let all = page_of(state.vaults@, start_after, match owner { Some(o) => Some(o@), None => None }, status);
            same_vaults(r@, all.take(if all.len() < limit { all.len() as int } else { limit as int }))
        }),
{
    let ghost o = match owner { Some(o) => Some(o@), None => None::<Seq<char>> };
    let mut r: Vec<Vault> = Vec::new();
    let mut i: usize = 0;
    while i < state.vaults.len()
        invariant
            i <= state.vaults.len(),
            o == match owner { Some(x) => Some(x@), None => None::<Seq<char>> },
            ({
                let done = page_of(state.vaults@.subrange(0, i as int), start_after, o, status);
                same_vaults(r@, done.take(if done.len() < limit { done.len() as int } else { limit as int }))
            }),
        decreases state.vaults.len() - i,
    {
        let ghost done = page_of(state.vaults@.subrange(0, i as int), start_after, o, status);
        assert(state.vaults@.subrange(0, i + 1).drop_last() == state.vaults@.subrange(0, i as int));
        assert(state.vaults@.subrange(0, i + 1).last() == state.vaults@[i as int]);
        let v = &state.vaults[i];
        let keep = (match start_after { Some(a) => v.id > a, None => true })
            && (match owner { Some(x) => v.owner == *x, None => true })
            && (match status { Some(st) => v.status == st, None => true });
        if keep && r.len() < limit {
            proof {
                assert(done.len() < limit);
            }
            r.push(v.copy());
            proof {
                let next = page_of(state.vaults@.subrange(0, i + 1), start_after, o, status);
                assert(next == done.push(state.vaults@[i as int]));
                assert(next.take(next.len() as int) == next);
                assert(done.take(done.len() as int) == done);
                assert forall|k: int| 0 <= k < r@.len() implies same_vault(#[trigger] r@[k], next.take(if next.len() < limit { next.len() as int } else { limit as int })[k]) by {
                    if k < r@.len() - 1 {
                        assert(next[k] == done[k]);
                    }
                }
            }
        } else {
            proof {
                let next = page_of(state.vaults@.subrange(0, i + 1), start_after, o, status);
                if keep {
                    assert(next == done.push(state.vaults@[i as int]));
                    assert(r@.len() == limit);
                    assert forall|k: int| 0 <= k < r@.len() implies same_vault(#[trigger] r@[k], next.take(limit as int)[k]) by {
                        assert(next[k] == done[k]);
                    }
                } else {
                    assert(next == done);
                }
            }
        }
        i = i + 1;
    }
    assert(state.vaults@.subrange(0, state.vaults@.len() as int) == state.vaults@);
    r
}

/// The number of items a page holds: the limit given, or the configured default.
pub open spec fn page_size(state: State, limit: Option<u16>) -> nat {
    match limit {
        Some(l) => l as nat,
        None => state.config.default_page_limit as nat,
    }
}

/// A page of vaults after `start_after`, at most `limit` (or the default page size) long.
pub fn get_vaults_handler(state: &State, start_after: Option<u128>, limit: Option<u16>) -> (r: Result<Vec<Vault>, StdError>)
    ensures
        r is Ok <==> (limit matches Some(l) ==> l <= crate::validation::MAX_PAGE_LIMIT),
        r matches Err(e) ==> (limit matches Some(l) && l > crate::validation::MAX_PAGE_LIMIT ==> e.text() == "Generic error: "@ + "limit cannot be greater than 1000."@),
        r matches Ok(vs) ==> ({
            let all = page_of(state.vaults@, start_after, None, None);
            let n = page_size(*state, limit);
            same_vaults(vs@, all.take(if all.len() < n { all.len() as int } else { n as int }))
        }),
{
    crate::validation::assert_page_limit_is_within_max(limit)?;
    let n = match limit {
        Some(l) => l as usize,
        None => state.config.default_page_limit as usize,
    };
    Ok(select_vaults(state, start_after, None, None, n))
}

/// A page of the vaults of an owner, optionally of one status only.
pub fn get_vaults_by_address_handler(state: &State, api: &AddressBook, address: &String, status: Option<VaultStatus>, start_after: Option<u128>, limit: Option<u16>) -> (r: Result<Vec<Vault>, StdError>)
    ensures
        r is Ok <==> api.valid(address@) && (limit matches Some(l) ==> l <= crate::validation::MAX_PAGE_LIMIT),
        r matches Ok(vs) ==> ({
            let all = page_of(state.vaults@, start_after, Some(address@), status);
            let n = page_size(*state, limit);
            same_vaults(vs@, all.take(if all.len() < n { all.len() as int } else { n as int }))
        }),
{
    match api.addr_validate(address) {
        Ok(()) => {},
        Err(e) => return Err(e.into_std()),
    }
    crate::validation::assert_page_limit_is_within_max(limit)?;
    let n = match limit {
        Some(l) => l as usize,
        None => state.config.default_page_limit as usize,
    };
    Ok(select_vaults(state, start_after, Some(address), status, n))
}

} // verus!
