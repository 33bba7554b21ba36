//! Instantiation, migration and the admin's messages: configuration, pairs,
//! custom fees and swap adjustments.
use vstd::prelude::*;
use crate::debug_text::{config_debug, config_text};
use crate::error::{custom, ContractError, StdError};
use crate::math::{Decimal, DECIMAL_FRACTIONAL};
use crate::state::{
    adjustment_of, custom_fee_of, pair_index, wf, CustomFee, State, SwapAdjustment,
};
use crate::text::{decimal_text, decimal_fraction_text, fraction_text, join, u64_text};
use crate::types::{Config, Env, FeeCollector, Pair, Response, SwapAdjustmentStrategy};
use crate::validation::{
    assert_default_slippage_tolerance_is_less_than_or_equal_to_one,
    assert_fee_collector_addresses_are_valid, assert_fee_collector_allocations_add_up_to_one,
    assert_fee_level_is_valid, assert_no_more_than_10_fee_collectors, assert_page_limit_is_valid,
    assert_risk_weighted_average_escrow_level_is_no_greater_than_100_percent,
    assert_route_has_no_duplicate_entries, assert_route_matches_denoms, assert_route_not_empty,
    assert_sender_is_admin, assert_sender_is_executor, assert_twap_period_is_valid,
    collector_allocation_sum, is_executor, route_matches_denoms, PoolInfo,
    invalid_address_text, rejection, valid_config, AddressBook, MAX_FEE_ATOMICS,
    MAX_FEE_COLLECTORS, MAX_PAGE_LIMIT, MAX_TWAP_PERIOD, MIN_PAGE_LIMIT, MIN_TWAP_PERIOD,
};

verus! {

/// The first check of a configuration that fails, as the text of its error.
pub open spec fn config_error(c: Config, api: AddressBook) -> Option<Seq<char>> {
    if c.default_swap_fee_percent.atomics > MAX_FEE_ATOMICS
        || c.weighted_scale_swap_fee_percent.atomics > MAX_FEE_ATOMICS
        || c.automation_fee_percent.atomics > MAX_FEE_ATOMICS {
        Some("Error: "@ + "fee level cannot be larger than 5%"@)
    } else if c.default_page_limit > MAX_PAGE_LIMIT {
        Some("Error: "@ + "limit cannot be greater than 1000."@)
    } else if c.default_page_limit < MIN_PAGE_LIMIT {
        Some("Error: "@ + "limit cannot be less than 30."@)
    } else if c.default_slippage_tolerance.atomics > DECIMAL_FRACTIONAL {
        Some("Error: "@ + "default slippage tolerance must be less than or equal to 1"@)
    } else if !(MIN_TWAP_PERIOD <= c.twap_period <= MAX_TWAP_PERIOD) {
        Some("Error: "@ + "twap_period must be between 30 and 3600"@)
    } else if first_rejected(executor_addresses(c), api) is Some {
        Some("Error: "@ + invalid_address_text("executor address "@, first_rejected(executor_addresses(c), api)->0))
    } else if c.fee_collectors@.len() > MAX_FEE_COLLECTORS {
        Some("Error: "@ + "no more than 10 fee collectors are allowed"@)
    } else if first_rejected(collector_addresses(c), api) is Some {
        Some("Error: "@ + invalid_address_text("fee collector address "@, first_rejected(collector_addresses(c), api)->0))
    } else if collector_allocation_sum(c.fee_collectors@) != DECIMAL_FRACTIONAL {
        Some("Error: "@ + "fee collector allocations must add up to 1"@)
    } else if c.risk_weighted_average_escrow_level.atomics > DECIMAL_FRACTIONAL {
        Some("Error: "@ + "risk_weighted_average_escrow_level cannot be greater than 100%"@)
    } else {
        None
    }
}

/// The checks of a configuration that come before its addresses.
pub open spec fn scalar_checks_pass(c: Config) -> bool {
    &&& c.default_swap_fee_percent.atomics <= MAX_FEE_ATOMICS
    &&& c.weighted_scale_swap_fee_percent.atomics <= MAX_FEE_ATOMICS
    &&& c.automation_fee_percent.atomics <= MAX_FEE_ATOMICS
    &&& MIN_PAGE_LIMIT <= c.default_page_limit <= MAX_PAGE_LIMIT
    &&& c.default_slippage_tolerance.atomics <= DECIMAL_FRACTIONAL
    &&& MIN_TWAP_PERIOD <= c.twap_period <= MAX_TWAP_PERIOD
}

/// The first address of a list that the chain refused.
pub open spec fn first_rejected(addrs: Seq<Seq<char>>, api: AddressBook) -> Option<Seq<char>>
    decreases addrs.len(),
{
    if addrs.len() == 0 {
        None
    } else if !api.valid(addrs[0]) {
        Some(addrs[0])
    } else {
        first_rejected(addrs.drop_first(), api)
    }
}

pub proof fn lemma_first_rejected(addrs: Seq<Seq<char>>, api: AddressBook)
    ensures
        first_rejected(addrs, api) is None <==> forall|i: int|
            0 <= i < addrs.len() ==> api.valid(#[trigger] addrs[i]),
    decreases addrs.len(),
{
    if addrs.len() > 0 {
        lemma_first_rejected(addrs.drop_first(), api);
        assert forall|i: int| 0 < i < addrs.len() implies addrs.drop_first()[i - 1] == addrs[i] by {}
        if forall|i: int| 0 <= i < addrs.len() ==> api.valid(#[trigger] addrs[i]) {
            assert forall|i: int| 0 <= i < addrs.len() - 1 implies api.valid(
                #[trigger] addrs.drop_first()[i],
            ) by {
                assert(addrs.drop_first()[i] == addrs[i + 1]);
            }
        }
    }
}

pub open spec fn executor_addresses(c: Config) -> Seq<Seq<char>> {
    c.executors@.map_values(|s: String| s@)
}

pub open spec fn collector_addresses(c: Config) -> Seq<Seq<char>> {
    c.fee_collectors@.map_values(|f: FeeCollector| f.address@)
}

/// A configuration that passes every check (and whose addresses the chain accepts).
pub proof fn lemma_config_error_none(c: Config, api: AddressBook)
    requires
        config_error(c, api) is None,
    ensures
        valid_config(c),
{
}

/// Runs the checks of a configuration in the contract's order.
pub fn check_config(c: &Config, api: &AddressBook) -> (r: Result<(), ContractError>)
    ensures
        r is Ok <==> config_error(*c, *api) is None,
        r matches Err(e) ==> Some(e.text()) == config_error(*c, *api),
{
    assert_fee_level_is_valid(&c.default_swap_fee_percent)?;
    assert_fee_level_is_valid(&c.weighted_scale_swap_fee_percent)?;
    assert_fee_level_is_valid(&c.automation_fee_percent)?;
    assert_page_limit_is_valid(Some(c.default_page_limit))?;
    assert_default_slippage_tolerance_is_less_than_or_equal_to_one(c.default_slippage_tolerance)?;
    assert_twap_period_is_valid(c.twap_period)?;
    let ghost ex = executor_addresses(*c);
    let mut i: usize = 0;
    assert(ex.subrange(0, ex.len() as int) == ex);
    while i < c.executors.len()
        invariant
            i <= c.executors.len(),
            ex == executor_addresses(*c),
            ex.len() == c.executors@.len(),
            scalar_checks_pass(*c),
            first_rejected(ex, *api) == first_rejected(ex.subrange(i as int, ex.len() as int), *api),
        decreases c.executors.len() - i,
    {
        assert(ex.subrange(i as int, ex.len() as int).drop_first() == ex.subrange(i + 1, ex.len() as int));
        assert(ex.subrange(i as int, ex.len() as int)[0] == c.executors@[i as int]@);
        if api.addr_validate(&c.executors[i]).is_err() {
            let mut s = join("executor address ", c.executors[i].as_str());
            s.append(" is invalid");
            return Err(custom(s));
        }
        i = i + 1;
    }
    assert_no_more_than_10_fee_collectors(&c.fee_collectors)?;
    let ghost fc = collector_addresses(*c);
    let mut k: usize = 0;
    assert(fc.subrange(0, fc.len() as int) == fc);
    while k < c.fee_collectors.len()
        invariant
            k <= c.fee_collectors.len(),
            fc == collector_addresses(*c),
            fc.len() == c.fee_collectors@.len(),
            scalar_checks_pass(*c),
            first_rejected(executor_addresses(*c), *api) is None,
            c.fee_collectors@.len() <= MAX_FEE_COLLECTORS,
            first_rejected(fc, *api) == first_rejected(fc.subrange(k as int, fc.len() as int), *api),
        decreases c.fee_collectors.len() - k,
    {
        assert(fc.subrange(k as int, fc.len() as int).drop_first() == fc.subrange(k + 1, fc.len() as int));
        assert(fc.subrange(k as int, fc.len() as int)[0] == c.fee_collectors@[k as int].address@);
        if api.addr_validate(&c.fee_collectors[k].address).is_err() {
            let mut s = join("fee collector address ", c.fee_collectors[k].address.as_str());
            s.append(" is invalid");
            return Err(custom(s));
        }
        k = k + 1;
    }
    assert_fee_collector_allocations_add_up_to_one(&c.fee_collectors)?;
    assert_risk_weighted_average_escrow_level_is_no_greater_than_100_percent(
        c.risk_weighted_average_escrow_level,
    )?;
    Ok(())
}

/// A state with the given configuration and nothing stored yet.
pub open spec fn fresh_state(s: State, c: Config) -> bool {
    &&& s.config == c
    &&& s.pairs@.len() == 0
    &&& s.pools@.len() == 0
    &&& s.vaults@.len() == 0
    &&& s.next_vault_id == 1
    &&& s.events@.len() == 0
    &&& s.custom_fees@.len() == 0
    &&& s.swap_adjustments@.len() == 0
    &&& s.disburse_escrow_tasks@.len() == 0
    &&& s.post_execution_actions@.len() == 0
    &&& s.vault_cache is None
    &&& s.swap_cache is None
    &&& s.limit_order_cache is None
}

/// The invariant the contract keeps beyond the shape of its stores: a valid fee split.
pub open spec fn contract_wf(s: State) -> bool {
    &&& wf(s)
    &&& collector_allocation_sum(s.config.fee_collectors@) == DECIMAL_FRACTIONAL
    &&& forall|i: int, j: int|
        0 <= i < j < s.custom_fees@.len() ==> (#[trigger] s.custom_fees@[i]).denom@ != (
        #[trigger] s.custom_fees@[j]).denom@
}

/// Sets the contract up: checks the admin's address and the configuration, and
/// starts an empty state holding it.
pub fn instantiate_handler(api: &AddressBook, msg: Config) -> (r: Result<(State, Response), ContractError>)
    ensures
        r is Ok <==> api.valid(msg.admin@) && config_error(msg, *api) is None,
        r matches Err(e) ==> (!api.valid(msg.admin@) ==> e.text() == "Generic error: "@ + rejection(api.rejected@, msg.admin@)->0)
            && (api.valid(msg.admin@) ==> Some(e.text()) == config_error(msg, *api)),
        r matches Ok((s, resp)) ==> {
            &&& fresh_state(s, msg)
            &&& contract_wf(s)
            &&& valid_config(s.config)
            &&& resp.messages@.len() == 0
            &&& resp.attributes@.len() == 2
            &&& resp.attributes@[0].key@ == "method"@ && resp.attributes@[0].value@ == "instantiate"@
            &&& resp.attributes@[1].key@ == "admin"@ && resp.attributes@[1].value@ == msg.admin@
        },
{
    api.addr_validate(&msg.admin)?;
    check_config(&msg, api)?;
    let admin = msg.admin.clone();
    let s = State {
        config: msg,
        pairs: Vec::new(),
        pools: Vec::new(),
        vaults: Vec::new(),
        next_vault_id: 1,
        events: Vec::new(),
        custom_fees: Vec::new(),
        swap_adjustments: Vec::new(),
        disburse_escrow_tasks: Vec::new(),
        post_execution_actions: Vec::new(),
        vault_cache: None,
        swap_cache: None,
        limit_order_cache: None,
        data_fixes: Vec::new(),
    };
    let mut resp = Response::new();
    resp.add_attribute("method", String::from_str("instantiate"));
    resp.add_attribute("admin", admin);
    Ok((s, resp))
}

/// The configuration a migration brings.
#[derive(Debug, Clone, PartialEq, Eq)]
pub struct MigrateMsg {
    pub config: Config,
}

/// Replaces the configuration on a migration, after checking the admin's address,
/// the fee collectors and an escrow level below 100%.
pub fn migrate_handler(state: &mut State, api: &AddressBook, msg: MigrateMsg) -> (r: Result<Response, ContractError>)
    requires
        contract_wf(*old(state)),
    ensures
        r is Err ==> *final(state) == *old(state),
        r is Ok <==> {
            &&& api.valid(msg.config.admin@)
            &&& forall|i: int| 0 <= i < msg.config.fee_collectors@.len() ==> api.valid(#[trigger] msg.config.fee_collectors@[i].address@)
            &&& collector_allocation_sum(msg.config.fee_collectors@) == DECIMAL_FRACTIONAL
            &&& msg.config.risk_weighted_average_escrow_level.atomics < DECIMAL_FRACTIONAL
        },
        r is Ok ==> final(state).config == msg.config && contract_wf(*final(state)),
        r is Ok ==> final(state).vaults == old(state).vaults && final(state).events == old(state).events,
        r matches Ok(resp) ==> {
            &&& resp.messages@.len() == 0
            &&& resp.attributes@.len() == 1
            &&& resp.attributes@[0].key@ == "method"@ && resp.attributes@[0].value@ == "migrate"@
        },
{
    api.addr_validate(&msg.config.admin)?;
    assert_fee_collector_addresses_are_valid(api, &msg.config.fee_collectors)?;
    assert_fee_collector_allocations_add_up_to_one(&msg.config.fee_collectors)?;
    if msg.config.risk_weighted_average_escrow_level.atomics >= DECIMAL_FRACTIONAL {
        return Err(crate::error::custom_str("risk_weighted_average_escrow_level must be less than 100%"));
    }
    state.config = msg.config;
    let mut resp = Response::new();
    resp.add_attribute("method", String::from_str("migrate"));
    Ok(resp)
}

/// The fields of the configuration that an update replaces; `None` keeps a field.
#[derive(Debug, Clone, PartialEq, Eq, Default)]
pub struct ConfigUpdate {
    pub executors: Option<Vec<String>>,
    pub fee_collectors: Option<Vec<FeeCollector>>,
    pub default_swap_fee_percent: Option<Decimal>,
    pub weighted_scale_swap_fee_percent: Option<Decimal>,
    pub automation_fee_percent: Option<Decimal>,
    pub default_page_limit: Option<u16>,
    pub paused: Option<bool>,
    pub risk_weighted_average_escrow_level: Option<Decimal>,
    pub twap_period: Option<u64>,
    pub default_slippage_tolerance: Option<Decimal>,
}

pub open spec fn or_keep<T>(new: Option<T>, old: T) -> T {
    match new {
        Some(v) => v,
        None => old,
    }
}

/// The configuration after an update: each given field replaced, the admin kept.
pub open spec fn updated_config(c: Config, u: ConfigUpdate) -> Config {
    Config {
        admin: c.admin,
        executors: or_keep(u.executors, c.executors),
        fee_collectors: or_keep(u.fee_collectors, c.fee_collectors),
        default_swap_fee_percent: or_keep(u.default_swap_fee_percent, c.default_swap_fee_percent),
        weighted_scale_swap_fee_percent: or_keep(u.weighted_scale_swap_fee_percent, c.weighted_scale_swap_fee_percent),
        automation_fee_percent: or_keep(u.automation_fee_percent, c.automation_fee_percent),
        default_page_limit: or_keep(u.default_page_limit, c.default_page_limit),
        paused: or_keep(u.paused, c.paused),
        risk_weighted_average_escrow_level: or_keep(u.risk_weighted_average_escrow_level, c.risk_weighted_average_escrow_level),
        twap_period: or_keep(u.twap_period, c.twap_period),
        default_slippage_tolerance: or_keep(u.default_slippage_tolerance, c.default_slippage_tolerance),
    }
}

/// The admin updates the configuration; the result must pass every check.
pub fn update_config_handler(state: &mut State, api: &AddressBook, sender: &String, u: ConfigUpdate) -> (r: Result<Response, ContractError>)
    requires
        contract_wf(*old(state)),
    ensures
        r is Err ==> *final(state) == *old(state),
        r is Ok <==> sender@ == old(state).config.admin@ && config_error(updated_config(old(state).config, u), *api) is None,
        r matches Err(e) ==> (sender@ != old(state).config.admin@ ==> e == ContractError::Unauthorized)
            && (sender@ == old(state).config.admin@ ==> Some(e.text()) == config_error(updated_config(old(state).config, u), *api)),
        r is Ok ==> {
            &&& final(state).config == updated_config(old(state).config, u)
            &&& valid_config(final(state).config)
            &&& contract_wf(*final(state))
            &&& final(state).vaults == old(state).vaults
            &&& final(state).events == old(state).events
            &&& final(state).pairs == old(state).pairs
            &&& final(state).custom_fees == old(state).custom_fees
        },
        r matches Ok(resp) ==> {
            &&& resp.messages@.len() == 0
            &&& resp.attributes@.len() == 2
            &&& resp.attributes@[0].key@ == "method"@ && resp.attributes@[0].value@ == "update_config"@
            &&& resp.attributes@[1].key@ == "config"@ && resp.attributes@[1].value@ == config_debug(final(state).config)
        },
        r is Ok ==> {
            &&& final(state).config.admin == old(state).config.admin
            &&& u.executors matches Some(x) ==> final(state).config.executors == x
            &&& u.fee_collectors matches Some(x) ==> final(state).config.fee_collectors == x
            &&& u.default_swap_fee_percent matches Some(x) ==> final(state).config.default_swap_fee_percent == x
            &&& u.weighted_scale_swap_fee_percent matches Some(x) ==> final(state).config.weighted_scale_swap_fee_percent == x
            &&& u.automation_fee_percent matches Some(x) ==> final(state).config.automation_fee_percent == x
            &&& u.default_page_limit matches Some(x) ==> final(state).config.default_page_limit == x
            &&& u.paused matches Some(x) ==> final(state).config.paused == x
            &&& u.risk_weighted_average_escrow_level matches Some(x) ==> final(state).config.risk_weighted_average_escrow_level == x
            &&& u.twap_period matches Some(x) ==> final(state).config.twap_period == x
            &&& u.default_slippage_tolerance matches Some(x) ==> final(state).config.default_slippage_tolerance == x
        },
{
    apply_config_update(state, api, sender, u)?;
    Ok(config_updated_response(&state.config))
}

/// Checks and stores the updated configuration.
#[verifier::rlimit(50)]
fn apply_config_update(state: &mut State, api: &AddressBook, sender: &String, u: ConfigUpdate) -> (r: Result<(), ContractError>)
    requires
        contract_wf(*old(state)),
    ensures
        r is Err ==> *final(state) == *old(state),
        r is Ok <==> sender@ == old(state).config.admin@ && config_error(updated_config(old(state).config, u), *api) is None,
        r matches Err(e) ==> (sender@ != old(state).config.admin@ ==> e == ContractError::Unauthorized)
            && (sender@ == old(state).config.admin@ ==> Some(e.text()) == config_error(updated_config(old(state).config, u), *api)),
        r is Ok ==> {
            &&& final(state).config == updated_config(old(state).config, u)
            &&& valid_config(final(state).config)
            &&& contract_wf(*final(state))
            &&& final(state).vaults == old(state).vaults
            &&& final(state).events == old(state).events
            &&& final(state).pairs == old(state).pairs
            &&& final(state).custom_fees == old(state).custom_fees
        },
{
    assert_sender_is_admin(&state.config, sender)?;
    let old_c = &state.config;
    let candidate = Config {
        admin: old_c.admin.clone(),
        executors: match &u.executors {
            Some(v) => clone_strings(v),
            None => clone_strings(&old_c.executors),
        },
        fee_collectors: match &u.fee_collectors {
            Some(v) => clone_collectors(v),
            None => clone_collectors(&old_c.fee_collectors),
        },
        default_swap_fee_percent: match u.default_swap_fee_percent {
            Some(v) => v,
            None => old_c.default_swap_fee_percent,
        },
        weighted_scale_swap_fee_percent: match u.weighted_scale_swap_fee_percent {
            Some(v) => v,
            None => old_c.weighted_scale_swap_fee_percent,
        },
        automation_fee_percent: match u.automation_fee_percent {
            Some(v) => v,
            None => old_c.automation_fee_percent,
        },
        default_page_limit: match u.default_page_limit {
            Some(v) => v,
            None => old_c.default_page_limit,
        },
        paused: match u.paused {
            Some(v) => v,
            None => old_c.paused,
        },
        risk_weighted_average_escrow_level: match u.risk_weighted_average_escrow_level {
            Some(v) => v,
            None => old_c.risk_weighted_average_escrow_level,
        },
        twap_period: match u.twap_period {
            Some(v) => v,
            None => old_c.twap_period,
        },
        default_slippage_tolerance: match u.default_slippage_tolerance {
            Some(v) => v,
            None => old_c.default_slippage_tolerance,
        },
    };
    proof {
        lemma_config_error_by_view(candidate, updated_config(state.config, u), *api);
    }
    check_config(&candidate, api)?;
    if let Some(v) = u.executors {
        state.config.executors = v;
    }
    if let Some(v) = u.fee_collectors {
        state.config.fee_collectors = v;
    }
    if let Some(v) = u.default_swap_fee_percent {
        state.config.default_swap_fee_percent = v;
    }
    if let Some(v) = u.weighted_scale_swap_fee_percent {
        state.config.weighted_scale_swap_fee_percent = v;
    }
    if let Some(v) = u.automation_fee_percent {
        state.config.automation_fee_percent = v;
    }
    if let Some(v) = u.default_page_limit {
        state.config.default_page_limit = v;
    }
    if let Some(v) = u.paused {
        state.config.paused = v;
    }
    if let Some(v) = u.risk_weighted_average_escrow_level {
        state.config.risk_weighted_average_escrow_level = v;
    }
    if let Some(v) = u.twap_period {
        state.config.twap_period = v;
    }
    if let Some(v) = u.default_slippage_tolerance {
        state.config.default_slippage_tolerance = v;
    }
    Ok(())
}

/// The response to a configuration update: the method and the new configuration's text.
fn config_updated_response(c: &Config) -> (resp: Response)
    ensures
        resp.messages@.len() == 0,
        resp.attributes@.len() == 2,
        resp.attributes@[0].key@ == "method"@ && resp.attributes@[0].value@ == "update_config"@,
        resp.attributes@[1].key@ == "config"@ && resp.attributes@[1].value@ == config_debug(*c),
{
    let mut resp = Response::new();
    resp.add_attribute("method", String::from_str("update_config"));
    resp.add_attribute("config", config_text(c));
    resp
}

/// Two configurations alike in every field, their lists by content, fail the same check.
pub proof fn lemma_config_error_by_view(a: Config, b: Config, api: AddressBook)
    requires
        a.admin == b.admin,
        a.executors@ == b.executors@,
        a.fee_collectors@ == b.fee_collectors@,
        a.default_swap_fee_percent == b.default_swap_fee_percent,
        a.weighted_scale_swap_fee_percent == b.weighted_scale_swap_fee_percent,
        a.automation_fee_percent == b.automation_fee_percent,
        a.default_page_limit == b.default_page_limit,
        a.paused == b.paused,
        a.risk_weighted_average_escrow_level == b.risk_weighted_average_escrow_level,
        a.twap_period == b.twap_period,
        a.default_slippage_tolerance == b.default_slippage_tolerance,
    ensures
        config_error(a, api) == config_error(b, api),
{
    assert(executor_addresses(a) == executor_addresses(b));
    assert(collector_addresses(a) == collector_addresses(b));
}

/// A copy of a list of addresses.
pub fn clone_strings(v: &Vec<String>) -> (r: Vec<String>)
    ensures
        r@ == v@,
{
    let mut r: Vec<String> = Vec::new();
    let mut i: usize = 0;
    while i < v.len()
        invariant
            i <= v.len(),
            r@ == v@.subrange(0, i as int),
        decreases v.len() - i,
    {
        r.push(v[i].clone());
        i = i + 1;
    }
    assert(r@ == v@);
    r
}

/// A copy of a list of fee collectors.
pub fn clone_collectors(v: &Vec<FeeCollector>) -> (r: Vec<FeeCollector>)
    ensures
        r@ == v@,
{
    let mut r: Vec<FeeCollector> = Vec::new();
    let mut i: usize = 0;
    while i < v.len()
        invariant
            i <= v.len(),
            r@ == v@.subrange(0, i as int),
        decreases v.len() - i,
    {
        r.push(FeeCollector { address: v[i].address.clone(), allocation: v[i].allocation });
        i = i + 1;
    }
    assert(r@ == v@);
    r
}

/// The lines of the pretty debug text of a list of numbers.
pub open spec fn route_lines(route: Seq<u64>) -> Seq<char>
    decreases route.len(),
{
    if route.len() == 0 {
        Seq::empty()
    } else {
        route_lines(route.drop_last()) + "    "@ + decimal_text(route.last() as nat) + ",\n"@
    }
}

/// The pretty debug text of a list of numbers, as `{:#?}` prints it.
pub open spec fn route_text_spec(route: Seq<u64>) -> Seq<char> {
    if route.len() == 0 {
        "[]"@
    } else {
        "[\n"@ + route_lines(route) + "]"@
    }
}

pub fn route_text(route: &Vec<u64>) -> (s: String)
    ensures
        s@ == route_text_spec(route@),
{
    if route.len() == 0 {
        return String::from_str("[]");
    }
    let mut body = String::new();
    let mut i: usize = 0;
    while i < route.len()
        invariant
            i <= route.len(),
            body@ == route_lines(route@.subrange(0, i as int)),
        decreases route.len() - i,
    {
        assert(route@.subrange(0, i + 1).drop_last() == route@.subrange(0, i as int));
        let n = u64_text(route[i]);
        body.append("    ");
        body.append(n.as_str());
        body.append(",\n");
        i = i + 1;
    }
    assert(route@.subrange(0, route@.len() as int) == route@);
    let mut s = String::from_str("[\n");
    s.append(body.as_str());
    s.append("]");
    s
}

/// The pairs after saving `p`: it replaces the pair of the same two denominations,
/// or is added at the end.
pub open spec fn pairs_after_save(pairs: Seq<Pair>, p: Pair) -> Seq<Pair> {
    let i = pair_index(pairs, p.base_denom@, p.quote_denom@);
    if i >= 0 {
        pairs.update(i, p)
    } else {
        pairs.push(p)
    }
}

/// Saves a pair, replacing the one of the same two denominations.
pub fn save_pair(state: &mut State, p: Pair)
    ensures
        final(state).pairs@ == pairs_after_save(old(state).pairs@, p),
        *final(state) == (State { pairs: final(state).pairs, ..*old(state) }),
        final(state).config == old(state).config,
        final(state).vaults == old(state).vaults,
        final(state).events == old(state).events,
        final(state).custom_fees == old(state).custom_fees,
        final(state).next_vault_id == old(state).next_vault_id,
        final(state).swap_adjustments == old(state).swap_adjustments,
        final(state).disburse_escrow_tasks == old(state).disburse_escrow_tasks,
        final(state).post_execution_actions == old(state).post_execution_actions,
        final(state).vault_cache == old(state).vault_cache,
        final(state).swap_cache == old(state).swap_cache,
        final(state).limit_order_cache == old(state).limit_order_cache,
{
    match state.find_pair(&p.base_denom, &p.quote_denom) {
        Some(i) => {
            state.pairs.set(i, p);
        },
        None => {
            state.pairs.push(p);
        },
    }
}

/// The admin adds a pair, or replaces the route of an existing one, after checking
/// that the route is not empty and that its pools, as the chain describes them, lead
/// from the base denomination to the quote denomination.
pub fn create_pair_handler(
    state: &mut State,
    pools: &Vec<PoolInfo>,
    sender: &String,
    base_denom: String,
    quote_denom: String,
    route: Vec<u64>,
) -> (r: Result<Response, ContractError>)
    ensures
        r is Err ==> *final(state) == *old(state),
        r is Ok <==> {
            &&& sender@ == old(state).config.admin@
            &&& route@.len() > 0
            &&& route_matches_denoms(pools@, Pair { base_denom, quote_denom, route })
        },
        r matches Err(e) ==> (sender@ != old(state).config.admin@ ==> e == ContractError::Unauthorized)
            && (sender@ == old(state).config.admin@ && route@.len() == 0 ==> e.text() == "Error: "@ + "Swap route must not be empty"@),
        r matches Ok(resp) ==> {
            &&& final(state).pairs@ == pairs_after_save(old(state).pairs@, Pair { base_denom, quote_denom, route })
            &&& *final(state) == (State { pairs: final(state).pairs, ..*old(state) })
            &&& resp.messages@.len() == 0
            &&& resp.attributes@.len() == 4
            &&& resp.attributes@[0].key@ == "method"@ && resp.attributes@[0].value@ == "create_pair"@
            &&& resp.attributes@[1].key@ == "base_denom"@ && resp.attributes@[1].value == base_denom
            &&& resp.attributes@[2].key@ == "quote_denom"@ && resp.attributes@[2].value == quote_denom
            &&& resp.attributes@[3].key@ == "route"@ && resp.attributes@[3].value@ == route_text_spec(route@)
        },
{
    assert_sender_is_admin(&state.config, sender)?;
    assert_route_not_empty(&route)?;
    let rt = route_text(&route);
    let b = base_denom.clone();
    let q = quote_denom.clone();
    let pair = Pair { base_denom, quote_denom, route };
    assert_route_matches_denoms(pools, &pair)?;
    save_pair(state, pair);
    let mut resp = Response::new();
    resp.add_attribute("method", String::from_str("create_pair"));
    resp.add_attribute("base_denom", b);
    resp.add_attribute("quote_denom", q);
    resp.add_attribute("route", rt);
    Ok(resp)
}

/// The pairs after saving each of `ps` in turn.
pub open spec fn pairs_after_saves(pairs: Seq<Pair>, ps: Seq<Pair>) -> Seq<Pair>
    decreases ps.len(),
{
    if ps.len() == 0 {
        pairs
    } else {
        pairs_after_save(pairs_after_saves(pairs, ps.drop_last()), ps.last())
    }
}

/// The admin saves several pairs at once; each route must be non-empty, hold no pool
/// twice, and lead from the base to the quote denomination.
pub fn create_pairs_handler(state: &mut State, pools: &Vec<PoolInfo>, sender: &String, pairs: Vec<Pair>) -> (r: Result<Response, ContractError>)
    ensures
        r is Err ==> *final(state) == *old(state),
        r is Ok <==> (pairs@.len() > 0 ==> sender@ == old(state).config.admin@) && forall|i: int| 0 <= i < pairs@.len() ==> {
            &&& (#[trigger] pairs@[i]).route@.len() > 0
            &&& pairs@[i].route@.no_duplicates()
            &&& route_matches_denoms(pools@, pairs@[i])
        },
        r matches Ok(resp) ==> {
            &&& final(state).pairs@ == pairs_after_saves(old(state).pairs@, pairs@)
            &&& final(state).config == old(state).config
            &&& final(state).vaults == old(state).vaults
            &&& final(state).events == old(state).events
            &&& final(state).custom_fees == old(state).custom_fees
            &&& resp.messages@.len() == 0
            &&& resp.attributes@.len() == 2
            &&& resp.attributes@[0].key@ == "create_pairs"@ && resp.attributes@[0].value@ == "true"@
            &&& resp.attributes@[1].key@ == "count"@ && resp.attributes@[1].value@ == decimal_text(pairs@.len())
        },
{
    let mut i: usize = 0;
    while i < pairs.len()
        invariant
            i <= pairs.len(),
            pairs@.len() > 0 && i > 0 ==> sender@ == state.config.admin@,
            forall|j: int| 0 <= j < i ==> {
                &&& (#[trigger] pairs@[j]).route@.len() > 0
                &&& pairs@[j].route@.no_duplicates()
                &&& route_matches_denoms(pools@, pairs@[j])
            },
        decreases pairs.len() - i,
    {
        assert_sender_is_admin(&state.config, sender)?;
        assert_route_not_empty(&pairs[i].route)?;
        assert_route_has_no_duplicate_entries(&pairs[i].route)?;
        assert_route_matches_denoms(pools, &pairs[i])?;
        i = i + 1;
    }
    let n = crate::text::amount_text(pairs.len() as u128);
    let ghost all = pairs@;
    let ghost start = state.pairs@;
    let mut rest = pairs;
    let mut saved: Vec<Pair> = Vec::new();
    assert(all.subrange(0, 0) == Seq::<Pair>::empty());
    while rest.len() > 0
        invariant
            rest@ == all.subrange(all.len() - rest@.len(), all.len() as int),
            rest@.len() <= all.len(),
            state.pairs@ == pairs_after_saves(start, all.subrange(0, all.len() - rest@.len())),
            state.config == old(state).config,
            state.vaults == old(state).vaults,
            state.events == old(state).events,
            state.custom_fees == old(state).custom_fees,
            state.next_vault_id == old(state).next_vault_id,
            state.swap_adjustments == old(state).swap_adjustments,
            state.disburse_escrow_tasks == old(state).disburse_escrow_tasks,
            state.post_execution_actions == old(state).post_execution_actions,
            state.vault_cache == old(state).vault_cache,
            state.swap_cache == old(state).swap_cache,
            state.limit_order_cache == old(state).limit_order_cache,
        decreases rest.len(),
    {
        let ghost k: int = all.len() - rest@.len();
        let p = rest.remove(0);
        assert(all.subrange(0, k + 1).drop_last() == all.subrange(0, k));
        assert(all.subrange(0, k + 1).last() == p);
        assert(rest@ == all.subrange(all.len() - rest@.len(), all.len() as int));
        save_pair(state, p);
    }
    assert(all.subrange(0, all.len() as int) == all);
    let mut resp = Response::new();
    resp.add_attribute("create_pairs", String::from_str("true"));
    resp.add_attribute("count", n);
    Ok(resp)
}

/// The admin removes the pair of two denominations, if there is one.
pub fn delete_pair(state: &mut State, sender: &String, base_denom: &String, quote_denom: &String) -> (r: Result<Response, ContractError>)
    ensures
        r is Err ==> *final(state) == *old(state),
        r is Ok <==> sender@ == old(state).config.admin@,
        r matches Err(e) ==> e == ContractError::Unauthorized,
        r is Ok ==> {
            let i = pair_index(old(state).pairs@, base_denom@, quote_denom@);
            &&& i >= 0 ==> final(state).pairs@ == old(state).pairs@.remove(i)
            &&& i < 0 ==> final(state).pairs@ == old(state).pairs@
            &&& final(state).config == old(state).config
            &&& final(state).vaults == old(state).vaults
        },
        r matches Ok(resp) ==> {
            &&& resp.messages@.len() == 0
            &&& resp.attributes@.len() == 1
            &&& resp.attributes@[0].key@ == "method"@ && resp.attributes@[0].value@ == "delete_pair"@
        },
{
    assert_sender_is_admin(&state.config, sender)?;
    match state.find_pair(base_denom, quote_denom) {
        Some(i) => {
            state.pairs.remove(i);
        },
        None => {},
    }
    let mut resp = Response::new();
    resp.add_attribute("method", String::from_str("delete_pair"));
    Ok(resp)
}

/// Whether some pair trades the denomination.
pub fn denom_is_supported(pairs: &Vec<Pair>, denom: &String) -> (b: bool)
    ensures
        b == exists|i: int| 0 <= i < pairs@.len() && (#[trigger] pairs@[i]).has_denom(denom@),
{
    let mut i: usize = 0;
    while i < pairs.len()
        invariant
            i <= pairs.len(),
            forall|j: int| 0 <= j < i ==> !(#[trigger] pairs@[j]).has_denom(denom@),
        decreases pairs.len() - i,
    {
        if pairs[i].base_denom == *denom || pairs[i].quote_denom == *denom {
            return true;
        }
        i = i + 1;
    }
    false
}

/// The custom fees after setting `fee` for `denom`: the entry of the denomination
/// replaced, or a new one added at the end.
pub open spec fn fees_after_set(fees: Seq<CustomFee>, denom: String, fee: Decimal) -> Seq<CustomFee> {
    if exists|i: int| 0 <= i < fees.len() && (#[trigger] fees[i]).denom@ == denom@ {
        fees.update(custom_fee_place(fees, denom@), CustomFee { denom, fee })
    } else {
        fees.push(CustomFee { denom, fee })
    }
}

pub open spec fn custom_fee_place(fees: Seq<CustomFee>, denom: Seq<char>) -> int {
    choose|i: int| 0 <= i < fees.len() && (#[trigger] fees[i]).denom@ == denom
}

fn find_custom_fee(fees: &Vec<CustomFee>, denom: &String) -> (r: Option<usize>)
    requires
        forall|i: int, j: int| 0 <= i < j < fees@.len() ==> (#[trigger] fees@[i]).denom@ != (#[trigger] fees@[j]).denom@,
    ensures
        r is Some <==> exists|i: int| 0 <= i < fees@.len() && (#[trigger] fees@[i]).denom@ == denom@,
        r matches Some(i) ==> i == custom_fee_place(fees@, denom@),
{
    let mut i: usize = 0;
    while i < fees.len()
        invariant
            i <= fees.len(),
            forall|j: int| 0 <= j < i ==> (#[trigger] fees@[j]).denom@ != denom@,
            forall|a: int, b: int| 0 <= a < b < fees@.len() ==> (#[trigger] fees@[a]).denom@ != (#[trigger] fees@[b]).denom@,
        decreases fees.len() - i,
    {
        if fees[i].denom == *denom {
            assert(fees@[i as int].denom@ == denom@);
            let ghost k = custom_fee_place(fees@, denom@);
            assert(fees@[k].denom@ == denom@);
            assert(k == i) by {
                if k < i {
                    assert(fees@[k].denom@ != fees@[i as int].denom@);
                } else if k > i {
                    assert(fees@[i as int].denom@ != fees@[k].denom@);
                }
            }
            return Some(i);
        }
        i = i + 1;
    }
    None
}

/// With distinct denominations, the lookup of a custom fee finds its one entry.
pub proof fn lemma_custom_fee_lookup(fees: Seq<CustomFee>, denom: Seq<char>)
    requires
        forall|i: int, j: int| 0 <= i < j < fees.len() ==> (#[trigger] fees[i]).denom@ != (#[trigger] fees[j]).denom@,
    ensures
        (exists|i: int| 0 <= i < fees.len() && (#[trigger] fees[i]).denom@ == denom) ==> custom_fee_of(fees, denom) == Some(fees[custom_fee_place(fees, denom)].fee),
        !(exists|i: int| 0 <= i < fees.len() && (#[trigger] fees[i]).denom@ == denom) ==> custom_fee_of(fees, denom) is None,
    decreases fees.len(),
{
    if fees.len() > 0 {
        let init = fees.drop_last();
        assert forall|i: int, j: int| 0 <= i < j < init.len() implies (#[trigger] init[i]).denom@ != (#[trigger] init[j]).denom@ by {
            assert(init[i] == fees[i] && init[j] == fees[j]);
        }
        lemma_custom_fee_lookup(init, denom);
        if fees.last().denom@ == denom {
            let k = custom_fee_place(fees, denom);
            assert(fees[fees.len() - 1].denom@ == denom);
            assert(k == fees.len() - 1);
        } else if exists|i: int| 0 <= i < fees.len() && (#[trigger] fees[i]).denom@ == denom {
            let k = custom_fee_place(fees, denom);
            assert(k < fees.len() - 1);
            assert(init[k] == fees[k]);
            let k2 = custom_fee_place(init, denom);
            assert(init[k2].denom@ == denom);
            assert(k2 == k) by {
                if k2 != k {
                    assert(fees[k2] == init[k2]);
                }
            }
        } else {
            assert forall|i: int| 0 <= i < init.len() implies (#[trigger] init[i]).denom@ != denom by {
                assert(init[i] == fees[i]);
            }
        }
    }
}

/// Stores `fee` as the custom swap fee of `denom`, in place of the one it had, if any.
fn set_custom_fee(state: &mut State, denom: String, fee: Decimal)
    requires
        contract_wf(*old(state)),
    ensures
        final(state).custom_fees@ == fees_after_set(old(state).custom_fees@, denom, fee),
        custom_fee_of(final(state).custom_fees@, denom@) == Some(fee),
        forall|d: Seq<char>| d != denom@ ==> custom_fee_of(final(state).custom_fees@, d) == custom_fee_of(old(state).custom_fees@, d),
        contract_wf(*final(state)),
        final(state).config == old(state).config,
        final(state).vaults == old(state).vaults,
        final(state).pairs == old(state).pairs,
        final(state).events == old(state).events,
{
    let ghost before = state.custom_fees@;
    let denom_attr = denom.clone();
    let ghost mut placed: int = 0;
    match find_custom_fee(&state.custom_fees, &denom) {
        Some(i) => {
            state.custom_fees.set(i, CustomFee { denom, fee });
            proof { placed = i as int; }
        },
        None => {
            state.custom_fees.push(CustomFee { denom, fee });
            proof { placed = before.len() as int; }
        },
    }
    assert(state.custom_fees@[placed].denom@ == denom_attr@);
    proof {
        let after = state.custom_fees@;
        assert forall|i: int, j: int| 0 <= i < j < after.len() implies (#[trigger] after[i]).denom@ != (#[trigger] after[j]).denom@ by {
            if exists|k: int| 0 <= k < before.len() && (#[trigger] before[k]).denom@ == denom_attr@ {
                let p = custom_fee_place(before, denom_attr@);
                if i == p {
                    assert(after[j] == before[j]);
                } else if j == p {
                    assert(after[i] == before[i]);
                } else {
                    assert(after[i] == before[i] && after[j] == before[j]);
                }
            } else {
                if j == before.len() {
                    assert(after[i] == before[i]);
                } else {
                    assert(after[i] == before[i] && after[j] == before[j]);
                }
            }
        }
        lemma_custom_fee_lookup(after, denom_attr@);
        let q = custom_fee_place(after, denom_attr@);
        assert(after[q].denom@ == denom_attr@);
        assert(q == placed) by {
            if q < placed {
                assert(after[q].denom@ != after[placed].denom@);
            } else if q > placed {
                assert(after[placed].denom@ != after[q].denom@);
            }
        }
        assert forall|d: Seq<char>| d != denom_attr@ implies custom_fee_of(after, d) == custom_fee_of(before, d) by {
            lemma_custom_fee_lookup(after, d);
            lemma_custom_fee_lookup(before, d);
            if exists|k: int| 0 <= k < before.len() && (#[trigger] before[k]).denom@ == d {
                let k = custom_fee_place(before, d);
                assert(after[k] == before[k]);
                assert(after[k].denom@ == d);
                let k2 = custom_fee_place(after, d);
                assert(after[k2].denom@ == d);
                assert(k2 == k);
            } else {
                assert forall|k: int| 0 <= k < after.len() implies (#[trigger] after[k]).denom@ != d by {
                    if k < before.len() && !(exists|m: int| 0 <= m < before.len() && (#[trigger] before[m]).denom@ == denom_attr@ && m == k) {
                        assert(after[k] == before[k]);
                    }
                }
            }
        }
    }
}

/// The admin sets a custom swap fee, at most 5%, for a denomination that some pair trades.
pub fn create_custom_swap_fee_handler(state: &mut State, sender: &String, denom: String, swap_fee_percent: Decimal) -> (r: Result<Response, ContractError>)
    requires
        contract_wf(*old(state)),
    ensures
        r is Err ==> *final(state) == *old(state),
        r is Ok <==> {
            &&& sender@ == old(state).config.admin@
            &&& exists|i: int| 0 <= i < old(state).pairs@.len() && (#[trigger] old(state).pairs@[i]).has_denom(denom@)
            &&& swap_fee_percent.atomics <= MAX_FEE_ATOMICS
        },
        r matches Err(e) ==> (sender@ != old(state).config.admin@ ==> e == ContractError::Unauthorized)
            && (sender@ == old(state).config.admin@ && !(exists|i: int| 0 <= i < old(state).pairs@.len() && (#[trigger] old(state).pairs@[i]).has_denom(denom@)) ==> e.text() == "Error: "@ + denom@ + " is not supported"@)
            && (sender@ == old(state).config.admin@ && (exists|i: int| 0 <= i < old(state).pairs@.len() && (#[trigger] old(state).pairs@[i]).has_denom(denom@))
                ==> e.text() == "Error: "@ + "fee level cannot be larger than 5%"@),
        r is Ok ==> {
            &&& final(state).custom_fees@ == fees_after_set(old(state).custom_fees@, denom, swap_fee_percent)
            &&& custom_fee_of(final(state).custom_fees@, denom@) == Some(swap_fee_percent)
            &&& forall|d: Seq<char>| d != denom@ ==> custom_fee_of(final(state).custom_fees@, d) == custom_fee_of(old(state).custom_fees@, d)
            &&& contract_wf(*final(state))
            &&& final(state).config == old(state).config
            &&& final(state).vaults == old(state).vaults
            &&& final(state).pairs == old(state).pairs
            &&& final(state).events == old(state).events
        },
        r matches Ok(resp) ==> {
            &&& resp.messages@.len() == 0
            &&& resp.attributes@.len() == 3
            &&& resp.attributes@[0].key@ == "create_custom_swap_fee"@ && resp.attributes@[0].value@ == "true"@
            &&& resp.attributes@[1].key@ == "denom"@ && resp.attributes@[1].value == denom
            &&& resp.attributes@[2].key@ == "swap_fee_percent"@ && resp.attributes@[2].value@ == decimal_fraction_text(swap_fee_percent)
        },
{
    assert_sender_is_admin(&state.config, sender)?;
    if !denom_is_supported(&state.pairs, &denom) {
        return Err(custom(join(denom.as_str(), " is not supported")));
    }
    assert_fee_level_is_valid(&swap_fee_percent)?;
    let fee_text = fraction_text(swap_fee_percent);
    let denom_attr = denom.clone();
    set_custom_fee(state, denom, swap_fee_percent);
    let mut resp = Response::new();
    resp.add_attribute("create_custom_swap_fee", String::from_str("true"));
    resp.add_attribute("denom", denom_attr);
    resp.add_attribute("swap_fee_percent", fee_text);
    Ok(resp)
}

/// The admin sets a custom swap fee for a denomination, whatever the denomination and
/// the fee.
pub fn create_custom_fee_handler(state: &mut State, sender: &String, denom: String, fee_percent: Decimal) -> (r: Result<Response, ContractError>)
    requires
        contract_wf(*old(state)),
    ensures
        r is Err ==> *final(state) == *old(state),
        r is Ok <==> sender@ == old(state).config.admin@,
        r matches Err(e) ==> e == ContractError::Unauthorized,
        r matches Ok(resp) ==> {
            &&& final(state).custom_fees@ == fees_after_set(old(state).custom_fees@, denom, fee_percent)
            &&& custom_fee_of(final(state).custom_fees@, denom@) == Some(fee_percent)
            &&& forall|d: Seq<char>| d != denom@ ==> custom_fee_of(final(state).custom_fees@, d) == custom_fee_of(old(state).custom_fees@, d)
            &&& contract_wf(*final(state))
            &&& final(state).config == old(state).config
            &&& final(state).vaults == old(state).vaults
            &&& final(state).pairs == old(state).pairs
            &&& final(state).events == old(state).events
            &&& resp.messages@.len() == 0
            &&& resp.attributes@.len() == 3
            &&& resp.attributes@[0].key@ == "method"@ && resp.attributes@[0].value@ == "create_custom_fee"@
            &&& resp.attributes@[1].key@ == "denom"@ && resp.attributes@[1].value == denom
            &&& resp.attributes@[2].key@ == "fee_percent"@ && resp.attributes@[2].value@ == decimal_fraction_text(fee_percent)
        },
{
    assert_sender_is_admin(&state.config, sender)?;
    let fee_text = fraction_text(fee_percent);
    let denom_attr = denom.clone();
    set_custom_fee(state, denom, fee_percent);
    let mut resp = Response::new();
    resp.add_attribute("method", String::from_str("create_custom_fee"));
    resp.add_attribute("denom", denom_attr);
    resp.add_attribute("fee_percent", fee_text);
    Ok(resp)
}

/// The admin removes the custom swap fee of a denomination, which must have one.
pub fn remove_custom_swap_fee_handler(state: &mut State, sender: &String, denom: String) -> (r: Result<Response, ContractError>)
    requires
        contract_wf(*old(state)),
    ensures
        r is Err ==> *final(state) == *old(state),
        r is Ok <==> sender@ == old(state).config.admin@ && custom_fee_of(old(state).custom_fees@, denom@) is Some,
        r matches Err(e) ==> (sender@ != old(state).config.admin@ ==> e == ContractError::Unauthorized)
            && (sender@ == old(state).config.admin@ ==> e.text() == "Error: "@ + "Custom fee for "@ + denom@ + " does not exist"@),
        r is Ok ==> {
            &&& custom_fee_of(final(state).custom_fees@, denom@) is None
            &&& forall|d: Seq<char>| d != denom@ ==> custom_fee_of(final(state).custom_fees@, d) == custom_fee_of(old(state).custom_fees@, d)
            &&& contract_wf(*final(state))
            &&& final(state).config == old(state).config
            &&& final(state).vaults == old(state).vaults
            &&& final(state).events == old(state).events
        },
        r matches Ok(resp) ==> {
            &&& resp.messages@.len() == 0
            &&& resp.attributes@.len() == 2
            &&& resp.attributes@[0].key@ == "remove_custom_swap_fee"@ && resp.attributes@[0].value@ == "true"@
            &&& resp.attributes@[1].key@ == "denom"@ && resp.attributes@[1].value == denom
        },
{
    assert_sender_is_admin(&state.config, sender)?;
    proof {
        lemma_custom_fee_lookup(state.custom_fees@, denom@);
    }
    let place = find_custom_fee(&state.custom_fees, &denom);
    match place {
        None => {
            let mut s = join("Custom fee for ", denom.as_str());
            s.append(" does not exist");
            return Err(custom(s));
        },
        Some(i) => {
            let ghost before = state.custom_fees@;
            state.custom_fees.remove(i);
            proof {
                let after = state.custom_fees@;
                assert forall|a: int, b: int| 0 <= a < b < after.len() implies (#[trigger] after[a]).denom@ != (#[trigger] after[b]).denom@ by {
                    let a0 = if a < i { a } else { a + 1 };
                    let b0 = if b < i { b } else { b + 1 };
                    assert(after[a] == before[a0] && after[b] == before[b0]);
                }
                lemma_custom_fee_lookup(after, denom@);
                assert forall|k: int| 0 <= k < after.len() implies (#[trigger] after[k]).denom@ != denom@ by {
                    let k0 = if k < i { k } else { k + 1 };
                    assert(after[k] == before[k0]);
                }
                assert forall|d: Seq<char>| d != denom@ implies custom_fee_of(after, d) == custom_fee_of(before, d) by {
                    lemma_custom_fee_lookup(after, d);
                    lemma_custom_fee_lookup(before, d);
                    if exists|k: int| 0 <= k < before.len() && (#[trigger] before[k]).denom@ == d {
                        let k = custom_fee_place(before, d);
                        assert(k != i);
                        let k1 = if k < i { k } else { k - 1 };
                        assert(after[k1] == before[k]);
                        let k2 = custom_fee_place(after, d);
                        assert(after[k2].denom@ == d);
                        assert(k2 == k1);
                    } else {
                        assert forall|k: int| 0 <= k < after.len() implies (#[trigger] after[k]).denom@ != d by {
                            let k0 = if k < i { k } else { k + 1 };
                            assert(after[k] == before[k0]);
                        }
                    }
                }
            }
        },
    }
    let mut resp = Response::new();
    resp.add_attribute("remove_custom_swap_fee", String::from_str("true"));
    resp.add_attribute("denom", denom);
    Ok(resp)
}

/// The custom swap fees, as stored.
pub fn get_custom_swap_fees(state: &State) -> (r: Vec<CustomFee>)
    ensures
        r@ == state.custom_fees@,
{
    let mut r: Vec<CustomFee> = Vec::new();
    let mut i: usize = 0;
    while i < state.custom_fees.len()
        invariant
            i <= state.custom_fees.len(),
            r@ == state.custom_fees@.subrange(0, i as int),
        decreases state.custom_fees.len() - i,
    {
        r.push(CustomFee { denom: state.custom_fees[i].denom.clone(), fee: state.custom_fees[i].fee });
        i = i + 1;
    }
    assert(r@ == state.custom_fees@);
    r
}

/// The stored pairs.
pub fn get_pairs_handler(state: &State) -> (r: Vec<Pair>)
    ensures
        r@.len() == state.pairs@.len(),
        forall|i: int| 0 <= i < r@.len() ==> {
            &&& (#[trigger] r@[i]).base_denom == state.pairs@[i].base_denom
            &&& r@[i].quote_denom == state.pairs@[i].quote_denom
            &&& r@[i].route@ == state.pairs@[i].route@
        },
{
    let mut r: Vec<Pair> = Vec::new();
    let mut i: usize = 0;
    while i < state.pairs.len()
        invariant
            i <= state.pairs.len(),
            r@.len() == i,
            forall|j: int| 0 <= j < i ==> {
                &&& (#[trigger] r@[j]).base_denom == state.pairs@[j].base_denom
                &&& r@[j].quote_denom == state.pairs@[j].quote_denom
                &&& r@[j].route@ == state.pairs@[j].route@
            },
        decreases state.pairs.len() - i,
    {
        r.push(state.pairs[i].copy());
        i = i + 1;
    }
    r
}

/// Stores the latest value of a swap adjustment model, with the time it was published.
pub fn update_swap_adjustment(state: &mut State, strategy: SwapAdjustmentStrategy, value: Decimal, now: u64)
    ensures
        adjustment_of(final(state).swap_adjustments@, strategy) == Some(SwapAdjustment { strategy, value, updated_at: now }),
        forall|s: SwapAdjustmentStrategy| s != strategy ==> adjustment_of(final(state).swap_adjustments@, s) == adjustment_of(old(state).swap_adjustments@, s),
        final(state).config == old(state).config,
        final(state).vaults == old(state).vaults,
        final(state).events == old(state).events,
        final(state).pairs == old(state).pairs,
        final(state).custom_fees == old(state).custom_fees,
        final(state).next_vault_id == old(state).next_vault_id,
{
    let ghost before = state.swap_adjustments@;
    state.swap_adjustments.push(SwapAdjustment { strategy, value, updated_at: now });
    assert(state.swap_adjustments@.drop_last() == before);
}

/// An executor publishes the latest value of a swap adjustment model.
pub fn update_swap_adjustment_handler(state: &mut State, env: &Env, sender: &String, strategy: SwapAdjustmentStrategy, value: Decimal) -> (r: Result<Response, ContractError>)
    ensures
        r is Err ==> *final(state) == *old(state),
        r is Ok <==> is_executor(old(state).config, env.contract_address@, sender@),
        r matches Err(e) ==> e == ContractError::Unauthorized,
        r matches Ok(resp) ==> resp.attributes@.len() == 0 && resp.messages@.len() == 0
            && adjustment_of(final(state).swap_adjustments@, strategy) == Some(SwapAdjustment { strategy, value, updated_at: env.time })
            && forall|s: SwapAdjustmentStrategy| s != strategy ==> adjustment_of(final(state).swap_adjustments@, s) == adjustment_of(old(state).swap_adjustments@, s),
{
    assert_sender_is_executor(&state.config, &env.contract_address, sender)?;
    update_swap_adjustment(state, strategy, value, env.time);
    Ok(Response::new())
}

/// The stored pools are in increasing order of id.
pub open spec fn pools_ordered(pools: Seq<PoolInfo>) -> bool {
    forall|i: int, j: int| 0 <= i < j < pools.len() ==> pools[i].id < pools[j].id
}

/// The pools with the pool at place `k` left out, where `k` is the first place of a pool
/// with the given id; the pools unchanged where none has it.
pub open spec fn without_pool(pools: Seq<PoolInfo>, id: u64, after: Seq<PoolInfo>) -> bool {
    &&& (forall|k: int| 0 <= k < pools.len() ==> #[trigger] pools[k].id != id) ==> after == pools
    &&& forall|k: int| 0 <= k < pools.len() && #[trigger] pools[k].id == id && (forall|j: int| 0 <= j < k ==> pools[j].id != id)
        ==> after == pools.remove(k)
}

/// The admin removes the stored pool with the given id, where there is one.
pub fn delete_pool(state: &mut State, sender: &String, pool_id: u64) -> (r: Result<Response, ContractError>)
    ensures
        r is Err ==> *final(state) == *old(state),
        r is Ok <==> sender@ == old(state).config.admin@,
        r matches Err(e) ==> e == ContractError::Unauthorized,
        r matches Ok(resp) ==> {
            &&& without_pool(old(state).pools@, pool_id, final(state).pools@)
            &&& pools_ordered(old(state).pools@) ==> pools_ordered(final(state).pools@)
            &&& final(state).config == old(state).config
            &&& final(state).pairs == old(state).pairs
            &&& final(state).vaults == old(state).vaults
            &&& final(state).next_vault_id == old(state).next_vault_id
            &&& final(state).events == old(state).events
            &&& final(state).custom_fees == old(state).custom_fees
            &&& resp.messages@.len() == 0
            &&& resp.attributes@.len() == 2
            &&& resp.attributes@[0].key@ == "method"@ && resp.attributes@[0].value@ == "delete_pool"@
            &&& resp.attributes@[1].key@ == "pool_id"@ && resp.attributes@[1].value@ == decimal_text(pool_id as nat)
        },
{
    assert_sender_is_admin(&state.config, sender)?;
    let mut i: usize = 0;
    while i < state.pools.len() && state.pools[i].id != pool_id
        invariant
            i <= state.pools.len(),
            forall|j: int| 0 <= j < i ==> state.pools@[j].id != pool_id,
        decreases state.pools.len() - i,
    {
        i = i + 1;
    }
    let ghost before = state.pools@;
    if i < state.pools.len() {
        state.pools.remove(i);
        proof {
            assert forall|k: int| 0 <= k < before.len() && #[trigger] before[k].id == pool_id && (forall|j: int| 0 <= j < k ==> before[j].id != pool_id)
                implies state.pools@ == before.remove(k) by {
                if k < i {
                } else if k > i {
                    assert(before[i as int].id == pool_id);
                }
            }
            if pools_ordered(before) {
                assert forall|a: int, b: int| 0 <= a < b < state.pools@.len() implies state.pools@[a].id < state.pools@[b].id by {
                    let a1 = if a < i { a } else { a + 1 };
                    let b1 = if b < i { b } else { b + 1 };
                    assert(state.pools@[a] == before[a1]);
                    assert(state.pools@[b] == before[b1]);
                }
            }
        }
    }
    let mut resp = Response::new();
    resp.add_attribute("method", String::from_str("delete_pool"));
    resp.add_attribute("pool_id", u64_text(pool_id));
    Ok(resp)
}

/// The stored pools, in the order of the store.
pub fn get_pools(state: &State) -> (r: Vec<PoolInfo>)
    ensures
        r@.len() == state.pools@.len(),
        forall|i: int| 0 <= i < r@.len() ==> (#[trigger] r@[i]).id == state.pools@[i].id && r@[i].denoms@ == state.pools@[i].denoms@,
{
    let mut r: Vec<PoolInfo> = Vec::new();
    let mut i: usize = 0;
    while i < state.pools.len()
        invariant
            i <= state.pools.len(),
            r@.len() == i,
            forall|j: int| 0 <= j < i ==> (#[trigger] r@[j]).id == state.pools@[j].id && r@[j].denoms@ == state.pools@[j].denoms@,
        decreases state.pools.len() - i,
    {
        r.push(state.pools[i].copy());
        i = i + 1;
    }
    r
}

/// The contract's configuration.
pub fn get_config_handler(state: &State) -> (r: Config)
    ensures
        r.admin == state.config.admin,
        r.executors@ == state.config.executors@,
        r.fee_collectors@ == state.config.fee_collectors@,
        r.default_swap_fee_percent == state.config.default_swap_fee_percent,
        r.weighted_scale_swap_fee_percent == state.config.weighted_scale_swap_fee_percent,
        r.automation_fee_percent == state.config.automation_fee_percent,
        r.default_page_limit == state.config.default_page_limit,
        r.paused == state.config.paused,
        r.risk_weighted_average_escrow_level == state.config.risk_weighted_average_escrow_level,
        r.twap_period == state.config.twap_period,
        r.default_slippage_tolerance == state.config.default_slippage_tolerance,
{
    state.config.copy()
}

/// The value a swap adjustment model has for vaults now: the latest one published, or
/// one where none was.
pub fn get_swap_adjustment_handler(state: &State, _env: &Env, strategy: SwapAdjustmentStrategy) -> (r: Result<Decimal, StdError>)
    ensures
        r == Ok::<Decimal, StdError>(match adjustment_of(state.swap_adjustments@, strategy) {
            Some(a) => a.value,
            None => Decimal { atomics: DECIMAL_FRACTIONAL },
        }),
{
    Ok(get_swap_adjustment(state, strategy))
}

/// The latest value of a swap adjustment model; one where none was published.
pub fn get_swap_adjustment(state: &State, strategy: SwapAdjustmentStrategy) -> (r: Decimal)
    ensures
        r == match adjustment_of(state.swap_adjustments@, strategy) {
            Some(a) => a.value,
            None => Decimal { atomics: DECIMAL_FRACTIONAL },
        },
{
    let mut i = state.swap_adjustments.len();
    assert(state.swap_adjustments@.subrange(0, i as int) == state.swap_adjustments@);
    while i > 0
        invariant
            i <= state.swap_adjustments.len(),
            adjustment_of(state.swap_adjustments@, strategy) == adjustment_of(state.swap_adjustments@.subrange(0, i as int), strategy),
        decreases i,
    {
        assert(state.swap_adjustments@.subrange(0, i as int).drop_last() == state.swap_adjustments@.subrange(0, i - 1));
        if state.swap_adjustments[i - 1].strategy == strategy {
            return state.swap_adjustments[i - 1].value;
        }
        i = i - 1;
    }
    Decimal::one()
}

} // verus!
