use dca::error::{ContractError, StdError};
use dca::handlers::admin::instantiate_handler;
use dca::math::Decimal;
use dca::state::State;
use dca::types::{
    Coin, Config, Destination, Env, FeeCollector, MessageInfo, Pair, TimeInterval,
    TriggerConfiguration, Vault, VaultStatus,
};
use dca::validation::{AddressBook, PoolInfo, RejectedAddress};
use std::str::FromStr;

const ADMIN: &str = "admin";
const USER: &str = "user";
const DENOM_STAKE: &str = "stake";
const DENOM_UOSMO: &str = "uosmo";
const DENOM_UATOM: &str = "uatom";
const ONE: u128 = 1_000_000;
const TEN: u128 = 10_000_000;
const SHORT_ADDRESS_REASON: &str =
    "Invalid input: human address too short for this mock implementation (must be >= 3).";

fn dec(s: &str) -> Decimal {
    Decimal { atomics: cosmwasm_std::Decimal::from_str(s).unwrap().atomics().u128() }
}

fn percent(n: u64) -> Decimal {
    Decimal::percent(n)
}

fn mul(amount: u128, d: Decimal) -> u128 {
    (cosmwasm_std::Uint128::new(amount)
        * cosmwasm_std::Decimal::raw(d.atomics))
    .u128()
}

fn coin(amount: u128, denom: &str) -> Coin {
    Coin { denom: denom.to_string(), amount }
}

fn mock_env() -> Env {
    Env { height: 12_345, time: 1_571_797_419_879_305_533, contract_address: "cosmos2contract".to_string() }
}

fn mock_info(sender: &str, funds: &[Coin]) -> MessageInfo {
    MessageInfo { sender: sender.to_string(), funds: funds.to_vec() }
}

fn mock_api() -> AddressBook {
    AddressBook {
        rejected: vec![RejectedAddress { address: String::new(), reason: SHORT_ADDRESS_REASON.to_string() }],
    }
}

fn mock_pools() -> Vec<PoolInfo> {
    vec![
        PoolInfo { id: 1, denoms: vec![DENOM_UATOM.to_string(), DENOM_STAKE.to_string()] },
        PoolInfo { id: 2, denoms: vec![DENOM_UATOM.to_string(), DENOM_STAKE.to_string()] },
        PoolInfo { id: 3, denoms: vec![DENOM_UOSMO.to_string(), DENOM_STAKE.to_string()] },
        PoolInfo { id: 4, denoms: vec![DENOM_UOSMO.to_string(), DENOM_UATOM.to_string()] },
    ]
}

fn default_config() -> Config {
    Config {
        admin: ADMIN.to_string(),
        executors: vec![ADMIN.to_string()],
        fee_collectors: vec![FeeCollector { address: ADMIN.to_string(), allocation: dec("1") }],
        default_swap_fee_percent: dec("0.015"),
        weighted_scale_swap_fee_percent: percent(1),
        automation_fee_percent: dec("0.0075"),
        default_page_limit: 30,
        paused: false,
        risk_weighted_average_escrow_level: dec("0.05"),
        twap_period: 30,
        default_slippage_tolerance: percent(2),
    }
}

fn instantiate_contract() -> State {
    instantiate_handler(&mock_api(), default_config()).unwrap().0
}

fn instantiate_contract_with_multiple_fee_collectors(fee_collectors: Vec<FeeCollector>) -> State {
    instantiate_handler(&mock_api(), Config { fee_collectors, ..default_config() }).unwrap().0
}

fn default_pair() -> Pair {
    Pair { base_denom: DENOM_UOSMO.to_string(), quote_denom: DENOM_STAKE.to_string(), route: vec![3] }
}

fn default_destination() -> Destination {
    Destination { address: USER.to_string(), allocation: dec("1"), msg: None }
}

fn default_vault() -> Vault {
    let env = mock_env();
    Vault {
        id: 0,
        created_at: env.time,
        started_at: None,
        owner: USER.to_string(),
        label: None,
        destinations: vec![default_destination()],
        status: VaultStatus::Active,
        balance: coin(TEN, DENOM_UOSMO),
        target_denom: DENOM_STAKE.to_string(),
        swap_amount: ONE,
        position_type: None,
        slippage_tolerance: Some(percent(10)),
        minimum_receive_amount: None,
        time_interval: TimeInterval::Daily,
        escrow_level: percent(0),
        deposited_amount: coin(TEN, DENOM_UOSMO),
        swapped_amount: coin(0, DENOM_UOSMO),
        received_amount: coin(0, DENOM_STAKE),
        escrowed_amount: coin(0, DENOM_STAKE),
        swap_adjustment_strategy: None,
        performance_assessment_strategy: None,
        trigger: Some(TriggerConfiguration::Time { target_time: env.time }),
        pair: default_pair(),
    }
}

/// Stores a vault as it is (and the default pair, if the store has none), and caches it
/// as the vault whose swap is pending.
fn setup_vault(state: &mut State, vault: Vault) -> Vault {
    if state.pairs.is_empty() {
        state.pairs.push(default_pair());
    }
    if state.next_vault_id <= vault.id {
        state.next_vault_id = vault.id + 1;
    }
    state.vaults.push(vault.clone());
    state.vault_cache = Some(vault.id);
    vault
}

fn stored_vault(state: &State, id: u128) -> Vault {
    dca::handlers::vaults::get_vault_handler(state, id).unwrap()
}

fn err_text(e: ContractError) -> String {
    e.message()
}

fn std_text(e: StdError) -> String {
    e.message()
}

use dca::handlers::admin::{
    create_custom_swap_fee_handler, create_pair_handler, get_custom_swap_fees,
    get_pairs_handler, get_swap_adjustment, remove_custom_swap_fee_handler,
    update_config_handler, update_swap_adjustment_handler, ConfigUpdate,
};
use dca::types::{BaseDenom, PositionType, SwapAdjustmentStrategy};

const VALID_ADDRESS_ONE: &str = "osmo16q6jpx7ns0ugwghqay73uxd5aq30du3uqgxf0d";

fn instantiate_message() -> Config {
    Config {
        admin: VALID_ADDRESS_ONE.to_string(),
        executors: vec!["executor".to_string()],
        fee_collectors: vec![FeeCollector { address: VALID_ADDRESS_ONE.to_string(), allocation: dec("1") }],
        default_swap_fee_percent: dec("0.015"),
        weighted_scale_swap_fee_percent: percent(1),
        automation_fee_percent: dec("0.0075"),
        default_page_limit: 30,
        paused: false,
        risk_weighted_average_escrow_level: dec("0.05"),
        twap_period: 30,
        default_slippage_tolerance: percent(2),
    }
}

#[test]
fn instantiate_with_valid_admin_address_should_succeed() {
    let (_, response) = instantiate_handler(&mock_api(), instantiate_message()).unwrap();
    let attributes: Vec<(String, String)> =
        response.attributes.iter().map(|a| (a.key.clone(), a.value.clone())).collect();
    assert_eq!(
        attributes,
        vec![
            ("method".to_string(), "instantiate".to_string()),
            ("admin".to_string(), "osmo16q6jpx7ns0ugwghqay73uxd5aq30du3uqgxf0d".to_string())
        ]
    );
}

#[test]
fn instantiate_with_invalid_admin_address_should_fail() {
    let msg = Config { admin: String::new(), ..instantiate_message() };
    let err = instantiate_handler(&mock_api(), msg).unwrap_err();
    assert_eq!(
        err_text(err),
        "Generic error: Invalid input: human address too short for this mock implementation (must be >= 3)."
    );
}

#[test]
fn instantiate_with_invalid_fee_collector_address_should_fail() {
    let msg = Config {
        fee_collectors: vec![FeeCollector { address: String::new(), allocation: dec("1") }],
        ..instantiate_message()
    };
    let err = instantiate_handler(&mock_api(), msg).unwrap_err();
    assert_eq!(err_text(err), "Error: fee collector address  is invalid");
}

#[test]
fn instantiate_with_fee_collector_amounts_not_equal_to_100_percent_should_fail() {
    let msg = Config { fee_collectors: vec![], ..instantiate_message() };
    let err = instantiate_handler(&mock_api(), msg).unwrap_err();
    assert_eq!(err_text(err), "Error: fee collector allocations must add up to 1");
}

fn update_config(state: &mut State, u: ConfigUpdate) -> Result<dca::types::Response, ContractError> {
    update_config_handler(state, &mock_api(), &ADMIN.to_string(), u)
}

#[test]
fn update_executors_with_no_value_should_not_change_value() {
    let mut state = instantiate_contract();
    let before = state.config.clone();
    update_config(&mut state, ConfigUpdate::default()).unwrap();
    assert_eq!(state.config.executors, before.executors);
}

#[test]
fn update_executors_with_valid_value_should_succeed() {
    let mut state = instantiate_contract();
    let executors = vec!["executor-1".to_string(), "executor-2".to_string()];
    update_config(&mut state, ConfigUpdate { executors: Some(executors.clone()), ..ConfigUpdate::default() }).unwrap();
    assert_eq!(state.config.executors, executors);
}

#[test]
fn update_swap_fee_percent_with_valid_value_should_succeed() {
    let mut state = instantiate_contract();
    update_config(&mut state, ConfigUpdate { default_swap_fee_percent: Some(percent(2)), ..ConfigUpdate::default() }).unwrap();
    assert_eq!(state.config.default_swap_fee_percent, percent(2));
}

#[test]
fn update_swap_fee_percent_more_than_5_percent_should_fail() {
    let mut state = instantiate_contract();
    let err = update_config(&mut state, ConfigUpdate { default_swap_fee_percent: Some(percent(15)), ..ConfigUpdate::default() }).unwrap_err();
    assert_eq!(err_text(err), "Error: fee level cannot be larger than 5%");
}

#[test]
fn update_automation_fee_percent_with_valid_value_should_succeed() {
    let mut state = instantiate_contract();
    update_config(&mut state, ConfigUpdate { automation_fee_percent: Some(percent(2)), ..ConfigUpdate::default() }).unwrap();
    assert_eq!(state.config.automation_fee_percent, percent(2));
}

#[test]
fn update_automation_fee_percent_more_than_5_percent_should_fail() {
    let mut state = instantiate_contract();
    let err = update_config(&mut state, ConfigUpdate { automation_fee_percent: Some(percent(15)), ..ConfigUpdate::default() }).unwrap_err();
    assert_eq!(err_text(err), "Error: fee level cannot be larger than 5%");
}

#[test]
fn update_fee_collectors_with_no_value_should_not_change_value() {
    let mut state = instantiate_contract();
    let before = state.config.clone();
    update_config(&mut state, ConfigUpdate::default()).unwrap();
    assert_eq!(state.config.fee_collectors, before.fee_collectors);
}

#[test]
fn update_fee_collectors_with_valid_value_should_succeed() {
    let mut state = instantiate_contract();
    let fee_collectors = vec![
        FeeCollector { address: ADMIN.to_string(), allocation: dec("0.9") },
        FeeCollector { address: ADMIN.to_string(), allocation: dec("0.1") },
    ];
    update_config(&mut state, ConfigUpdate { fee_collectors: Some(fee_collectors.clone()), ..ConfigUpdate::default() }).unwrap();
    assert_eq!(state.config.fee_collectors, fee_collectors);
}

#[test]
fn update_fee_collectors_with_total_allocations_more_than_100_percent_should_fail() {
    let mut state = instantiate_contract();
    let fee_collectors = vec![
        FeeCollector { address: ADMIN.to_string(), allocation: dec("1") },
        FeeCollector { address: ADMIN.to_string(), allocation: dec("1") },
    ];
    let err = update_config(&mut state, ConfigUpdate { fee_collectors: Some(fee_collectors), ..ConfigUpdate::default() }).unwrap_err();
    assert_eq!(err_text(err), "Error: fee collector allocations must add up to 1");
}

#[test]
fn update_risk_weighted_average_escrow_level_with_valid_value_should_succeed() {
    let mut state = instantiate_contract();
    update_config(&mut state, ConfigUpdate { risk_weighted_average_escrow_level: Some(percent(19)), ..ConfigUpdate::default() }).unwrap();
    assert_eq!(state.config.risk_weighted_average_escrow_level, percent(19));
}

#[test]
fn update_risk_weighted_average_escrow_level_more_than_100_percent_should_fail() {
    let mut state = instantiate_contract();
    let err = update_config(&mut state, ConfigUpdate { risk_weighted_average_escrow_level: Some(percent(150)), ..ConfigUpdate::default() }).unwrap_err();
    assert_eq!(err_text(err), "Error: risk_weighted_average_escrow_level cannot be greater than 100%");
}

#[test]
fn with_default_slippage_tolerance_more_than_100_percent_should_fail() {
    let mut state = instantiate_contract();
    let err = update_config(&mut state, ConfigUpdate { default_slippage_tolerance: Some(percent(150)), ..ConfigUpdate::default() }).unwrap_err();
    assert_eq!(err_text(err), "Error: default slippage tolerance must be less than or equal to 1");
}

#[test]
fn with_more_than_10_fee_collectors_should_fail() {
    let mut state = instantiate_contract();
    let fee_collectors = vec![FeeCollector { address: "fee-collector".to_string(), allocation: percent(5) }; 20];
    let err = update_config(&mut state, ConfigUpdate { fee_collectors: Some(fee_collectors), ..ConfigUpdate::default() }).unwrap_err();
    assert_eq!(err_text(err), "Error: no more than 10 fee collectors are allowed");
}

#[test]
fn with_page_limit_less_than_30_should_fail() {
    let mut state = instantiate_contract();
    let err = update_config(&mut state, ConfigUpdate { default_page_limit: Some(10), ..ConfigUpdate::default() }).unwrap_err();
    assert_eq!(err_text(err), "Error: limit cannot be less than 30.");
}

fn save_pair(state: &mut State, base: &str, quote: &str) {
    dca::handlers::admin::save_pair(state, Pair { base_denom: base.to_string(), quote_denom: quote.to_string(), route: vec![1] });
}

fn custom_fees(state: &State) -> Vec<(String, Decimal)> {
    get_custom_swap_fees(state).into_iter().map(|f| (f.denom, f.fee)).collect()
}

#[test]
fn create_custom_swap_fee_should_succeed() {
    let mut state = instantiate_contract();
    let denom = DENOM_UOSMO.to_string();
    save_pair(&mut state, DENOM_UOSMO, DENOM_STAKE);
    create_custom_swap_fee_handler(&mut state, &ADMIN.to_string(), denom.clone(), percent(1)).unwrap();
    let fees = custom_fees(&state);
    assert_eq!(fees.len(), 1);
    assert_eq!(fees[0], (denom, percent(1)));
}

#[test]
fn create_custom_swap_fee_should_overwrite_existing_fee() {
    let mut state = instantiate_contract();
    let denom = DENOM_UOSMO.to_string();
    save_pair(&mut state, DENOM_UOSMO, DENOM_STAKE);
    create_custom_swap_fee_handler(&mut state, &ADMIN.to_string(), denom.clone(), percent(1)).unwrap();
    let fees = custom_fees(&state);
    assert_eq!(fees.len(), 1);
    assert_eq!(fees[0], (denom.clone(), percent(1)));
    create_custom_swap_fee_handler(&mut state, &ADMIN.to_string(), denom.clone(), percent(3)).unwrap();
    let fees = custom_fees(&state);
    assert_eq!(fees.len(), 1);
    assert_eq!(fees[0], (denom, percent(3)));
}

#[test]
fn create_custom_swap_fee_larger_than_5_percent_fails() {
    let mut state = instantiate_contract();
    save_pair(&mut state, DENOM_UOSMO, DENOM_STAKE);
    let err = create_custom_swap_fee_handler(&mut state, &ADMIN.to_string(), DENOM_UOSMO.to_string(), percent(6)).unwrap_err();
    assert_eq!(err_text(err), "Error: fee level cannot be larger than 5%");
}

#[test]
fn crete_custom_swap_fee_for_unsupported_denom_fails() {
    let mut state = instantiate_contract();
    save_pair(&mut state, DENOM_UATOM, DENOM_STAKE);
    let err = create_custom_swap_fee_handler(&mut state, &ADMIN.to_string(), DENOM_UOSMO.to_string(), percent(2)).unwrap_err();
    assert_eq!(err_text(err), "Error: uosmo is not supported");
}

#[test]
fn without_custom_fee_fails() {
    let mut state = instantiate_contract();
    let err = remove_custom_swap_fee_handler(&mut state, &ADMIN.to_string(), DENOM_STAKE.to_string()).unwrap_err();
    assert_eq!(err_text(err), "Error: Custom fee for stake does not exist");
}

#[test]
fn with_custom_fee_succeeds() {
    let mut state = instantiate_contract();
    let denom = DENOM_STAKE.to_string();
    save_pair(&mut state, DENOM_STAKE, DENOM_STAKE);
    create_custom_swap_fee_handler(&mut state, &ADMIN.to_string(), denom.clone(), percent(1)).unwrap();
    let fees = custom_fees(&state);
    assert_eq!(fees.len(), 1);
    assert_eq!(fees[0], (denom.clone(), percent(1)));
    remove_custom_swap_fee_handler(&mut state, &ADMIN.to_string(), denom).unwrap();
    assert_eq!(custom_fees(&state).len(), 0);
}

fn create_pair(state: &mut State, sender: &str, base: &str, quote: &str, route: Vec<u64>) -> Result<dca::types::Response, ContractError> {
    create_pair_handler(state, &mock_pools(), &sender.to_string(), base.to_string(), quote.to_string(), route)
}

#[test]
fn create_pair_with_valid_id_should_succeed() {
    let mut state = instantiate_contract();
    create_pair(&mut state, ADMIN, DENOM_UOSMO, DENOM_STAKE, vec![3]).unwrap();
    let pair = &get_pairs_handler(&state)[0];
    assert_eq!(pair.base_denom, DENOM_UOSMO.to_string());
    assert_eq!(pair.quote_denom, DENOM_STAKE.to_string());
    assert_eq!(pair.route, vec![3]);
}

#[test]
fn create_pair_that_already_exists_should_update_it() {
    let mut state = instantiate_contract();
    create_pair(&mut state, ADMIN, DENOM_UOSMO, DENOM_STAKE, vec![4, 1]).unwrap();
    create_pair(&mut state, ADMIN, DENOM_UOSMO, DENOM_STAKE, vec![4, 1]).unwrap();
    let original = state.pairs[state.find_pair(&DENOM_UOSMO.to_string(), &DENOM_STAKE.to_string()).unwrap()].clone();
    create_pair(&mut state, ADMIN, DENOM_UOSMO, DENOM_STAKE, vec![3]).unwrap();
    let pair = state.pairs[state.find_pair(&DENOM_UOSMO.to_string(), &DENOM_STAKE.to_string()).unwrap()].clone();
    assert_eq!(original.route, vec![4, 1]);
    assert_eq!(pair.route, vec![3]);
}

#[test]
fn create_pair_with_unauthorised_sender_should_fail() {
    let mut state = instantiate_contract();
    let err = create_pair(&mut state, "not-admin", "base", "quote", vec![0]).unwrap_err();
    assert_eq!(err_text(err), "Unauthorized");
}

#[test]
fn create_pair_with_empty_route_should_fail() {
    let mut state = instantiate_contract();
    let err = create_pair(&mut state, ADMIN, DENOM_UOSMO, DENOM_STAKE, vec![]).unwrap_err();
    assert_eq!(err_text(err), "Error: Swap route must not be empty");
}

#[test]
fn create_pair_with_invalid_route_should_fail() {
    let mut state = instantiate_contract();
    let err = create_pair(&mut state, ADMIN, DENOM_UOSMO, DENOM_STAKE, vec![2]).unwrap_err();
    assert_eq!(err_text(err), "Generic error: denom uosmo not found in pool id 2");
}

#[test]
fn get_all_pairs_with_one_whitelisted_pair_should_succeed() {
    let mut state = instantiate_contract();
    let pair = default_pair();
    create_pair(&mut state, ADMIN, &pair.base_denom, &pair.quote_denom, pair.route.clone()).unwrap();
    let pairs = get_pairs_handler(&state);
    assert_eq!(pairs.len(), 1);
    assert_eq!(pairs[0], pair);
}

#[test]
fn get_all_pairs_with_no_whitelisted_pairs_should_succeed() {
    let state = instantiate_contract();
    assert_eq!(get_pairs_handler(&state).len(), 0);
}

fn rwa_strategy() -> SwapAdjustmentStrategy {
    SwapAdjustmentStrategy::RiskWeightedAverage { model_id: 30, base_denom: BaseDenom::Bitcoin, position_type: PositionType::Enter }
}

#[test]
fn with_non_executor_sender_fails() {
    let mut state = instantiate_contract();
    let err = update_swap_adjustment_handler(&mut state, &mock_env(), &"not-an-executor".to_string(), rwa_strategy(), percent(125)).unwrap_err();
    assert_eq!(err_text(err), "Unauthorized");
}

#[test]
fn updates_swap_adjustment() {
    let mut state = instantiate_contract();
    let env = mock_env();
    update_swap_adjustment_handler(&mut state, &env, &ADMIN.to_string(), rwa_strategy(), percent(125)).unwrap();
    update_swap_adjustment_handler(&mut state, &env, &ADMIN.to_string(), rwa_strategy(), percent(95)).unwrap();
    let stored = get_swap_adjustment(&state, rwa_strategy());
    assert_ne!(stored, percent(125));
    assert_eq!(stored, percent(95));
}

#[test]
fn updates_swap_adjustments() {
    let mut state = instantiate_contract();
    let env = mock_env();
    update_swap_adjustment_handler(&mut state, &env, &ADMIN.to_string(), rwa_strategy(), percent(125)).unwrap();
    update_swap_adjustment_handler(&mut state, &env, &ADMIN.to_string(), rwa_strategy(), percent(95)).unwrap();
    let stored = get_swap_adjustment(&state, rwa_strategy());
    assert_ne!(stored, percent(125));
    assert_eq!(stored, percent(95));
}

#[test]
fn update_config_reports_the_new_configuration() {
    let mut state = instantiate_contract();
    let response = update_config(&mut state, ConfigUpdate { paused: Some(true), executors: Some(vec!["exec\"one".to_string(), ADMIN.to_string()]), ..ConfigUpdate::default() }).unwrap();
    assert_eq!(response.attributes.len(), 2);
    assert_eq!(response.attributes[0].key, "method");
    assert_eq!(response.attributes[0].value, "update_config");
    assert_eq!(response.attributes[1].key, "config");
    assert_eq!(
        response.attributes[1].value,
        "Config { admin: Addr(\"admin\"), executors: [Addr(\"exec\\\"one\"), Addr(\"admin\")], \
         fee_collectors: [FeeCollector { address: \"admin\", allocation: Decimal(1) }], \
         default_swap_fee_percent: Decimal(0.015), weighted_scale_swap_fee_percent: Decimal(0.01), \
         automation_fee_percent: Decimal(0.0075), default_page_limit: 30, paused: true, \
         risk_weighted_average_escrow_level: Decimal(0.05), twap_period: 30, \
         default_slippage_tolerance: Decimal(0.02) }"
    );
}
