use dca::error::{ContractError, StdError};
use dca::handlers::admin::instantiate_handler;
use dca::math::Decimal;
use dca::state::State;
use dca::types::{
    Coin, Config, Destination, Env, FeeCollector, MessageInfo, Pair, TimeInterval,
    TriggerConfiguration, Vault, VaultStatus,
};
use dca::validation::{AddressBook, PoolInfo, RejectedAddress};
use std::str::FromStr;

const ADMIN: &str = "admin";
const USER: &str = "user";
const DENOM_STAKE: &str = "stake";
const DENOM_UOSMO: &str = "uosmo";
const DENOM_UATOM: &str = "uatom";
const ONE: u128 = 1_000_000;
const TEN: u128 = 10_000_000;
const SHORT_ADDRESS_REASON: &str =
    "Invalid input: human address too short for this mock implementation (must be >= 3).";

fn dec(s: &str) -> Decimal {
    Decimal { atomics: cosmwasm_std::Decimal::from_str(s).unwrap().atomics().u128() }
}

fn percent(n: u64) -> Decimal {
    Decimal::percent(n)
}

fn mul(amount: u128, d: Decimal) -> u128 {
    (cosmwasm_std::Uint128::new(amount)
        * cosmwasm_std::Decimal::raw(d.atomics))
    .u128()
}

fn coin(amount: u128, denom: &str) -> Coin {
    Coin { denom: denom.to_string(), amount }
}

fn mock_env() -> Env {
    Env { height: 12_345, time: 1_571_797_419_879_305_533, contract_address: "cosmos2contract".to_string() }
}

fn mock_info(sender: &str, funds: &[Coin]) -> MessageInfo {
    MessageInfo { sender: sender.to_string(), funds: funds.to_vec() }
}

fn mock_api() -> AddressBook {
    AddressBook {
        rejected: vec![RejectedAddress { address: String::new(), reason: SHORT_ADDRESS_REASON.to_string() }],
    }
}

fn mock_pools() -> Vec<PoolInfo> {
    vec![
        PoolInfo { id: 1, denoms: vec![DENOM_UATOM.to_string(), DENOM_STAKE.to_string()] },
        PoolInfo { id: 2, denoms: vec![DENOM_UATOM.to_string(), DENOM_STAKE.to_string()] },
        PoolInfo { id: 3, denoms: vec![DENOM_UOSMO.to_string(), DENOM_STAKE.to_string()] },
        PoolInfo { id: 4, denoms: vec![DENOM_UOSMO.to_string(), DENOM_UATOM.to_string()] },
    ]
}

fn default_config() -> Config {
    Config {
        admin: ADMIN.to_string(),
        executors: vec![ADMIN.to_string()],
        fee_collectors: vec![FeeCollector { address: ADMIN.to_string(), allocation: dec("1") }],
        default_swap_fee_percent: dec("0.015"),
        weighted_scale_swap_fee_percent: percent(1),
        automation_fee_percent: dec("0.0075"),
        default_page_limit: 30,
        paused: false,
        risk_weighted_average_escrow_level: dec("0.05"),
        twap_period: 30,
        default_slippage_tolerance: percent(2),
    }
}

fn instantiate_contract() -> State {
    instantiate_handler(&mock_api(), default_config()).unwrap().0
}

fn instantiate_contract_with_multiple_fee_collectors(fee_collectors: Vec<FeeCollector>) -> State {
    instantiate_handler(&mock_api(), Config { fee_collectors, ..default_config() }).unwrap().0
}

fn default_pair() -> Pair {
    Pair { base_denom: DENOM_UOSMO.to_string(), quote_denom: DENOM_STAKE.to_string(), route: vec![3] }
}

fn default_destination() -> Destination {
    Destination { address: USER.to_string(), allocation: dec("1"), msg: None }
}

fn default_vault() -> Vault {
    let env = mock_env();
    Vault {
        id: 0,
        created_at: env.time,
        started_at: None,
        owner: USER.to_string(),
        label: None,
        destinations: vec![default_destination()],
        status: VaultStatus::Active,
        balance: coin(TEN, DENOM_UOSMO),
        target_denom: DENOM_STAKE.to_string(),
        swap_amount: ONE,
        position_type: None,
        slippage_tolerance: Some(percent(10)),
        minimum_receive_amount: None,
        time_interval: TimeInterval::Daily,
        escrow_level: percent(0),
        deposited_amount: coin(TEN, DENOM_UOSMO),
        swapped_amount: coin(0, DENOM_UOSMO),
        received_amount: coin(0, DENOM_STAKE),
        escrowed_amount: coin(0, DENOM_STAKE),
        swap_adjustment_strategy: None,
        performance_assessment_strategy: None,
        trigger: Some(TriggerConfiguration::Time { target_time: env.time }),
        pair: default_pair(),
    }
}

/// Stores a vault as it is (and the default pair, if the store has none), and caches it
/// as the vault whose swap is pending.
fn setup_vault(state: &mut State, vault: Vault) -> Vault {
    if state.pairs.is_empty() {
        state.pairs.push(default_pair());
    }
    if state.next_vault_id <= vault.id {
        state.next_vault_id = vault.id + 1;
    }
    state.vaults.push(vault.clone());
    state.vault_cache = Some(vault.id);
    vault
}

fn stored_vault(state: &State, id: u128) -> Vault {
    dca::handlers::vaults::get_vault_handler(state, id).unwrap()
}

fn err_text(e: ContractError) -> String {
    e.message()
}

fn std_text(e: StdError) -> String {
    e.message()
}

use dca::handlers::admin::create_pair_handler;
use dca::handlers::events::get_events_by_resource_id;
use dca::handlers::vaults::{
    create_vault_handler, get_vault_handler, get_vaults_by_address_handler, get_vaults_handler,
    update_vault_handler, CreateVaultMsg, VaultUpdate,
};
use dca::types::{
    BaseDenom, CosmosMsg, EventData, PerformanceAssessmentStrategy, PositionType, SelfMsg, SwapAdjustmentStrategy,
    SwapAdjustmentStrategyParams,
};

const VALIDATOR: &str = "validator";

fn create_msg(owner: &str, destinations: Vec<Destination>, swap_amount: u128, time_interval: TimeInterval, start: Option<u64>, use_dca_plus: Option<bool>) -> CreateVaultMsg {
    CreateVaultMsg {
        owner: owner.to_string(),
        label: None,
        destinations,
        target_denom: DENOM_UOSMO.to_string(),
        position_type: None,
        slippage_tolerance: None,
        minimum_receive_amount: None,
        swap_amount,
        time_interval,
        target_start_time_utc_seconds: start,
        use_dca_plus,
    }
}

fn with_default_pair() -> State {
    let mut state = instantiate_contract();
    let pair = default_pair();
    create_pair_handler(&mut state, &mock_pools(), &ADMIN.to_string(), pair.base_denom, pair.quote_denom, pair.route).unwrap();
    state
}

fn in_ten_seconds() -> u64 {
    mock_env().time / 1_000_000_000 + 10
}

#[test]
fn with_no_assets_should_fail() {
    let mut state = instantiate_contract();
    let info = mock_info(USER, &[]);
    let err = create_vault_handler(&mut state, &mock_api(), &mock_env(), &info, create_msg(USER, vec![], 10000, TimeInterval::Daily, None, Some(false))).unwrap_err();
    assert_eq!(err_text(err), "Error: received 0 denoms but required exactly 1");
}

#[test]
fn with_multiple_assets_should_fail() {
    let mut state = instantiate_contract();
    let info = mock_info(USER, &[coin(10000, DENOM_UOSMO), coin(10000, DENOM_STAKE)]);
    let err = create_vault_handler(&mut state, &mock_api(), &mock_env(), &info, create_msg(USER, vec![], 10000, TimeInterval::Daily, None, Some(false))).unwrap_err();
    assert_eq!(err_text(err), "Error: received 2 denoms but required exactly 1");
}

#[test]
fn with_non_existent_pair_should_fail() {
    let mut state = instantiate_contract();
    let info = mock_info(USER, &[coin(10000, DENOM_STAKE)]);
    let err = create_vault_handler(&mut state, &mock_api(), &mock_env(), &info, create_msg(USER, vec![], 100000, TimeInterval::Daily, None, Some(false))).unwrap_err();
    assert_eq!(err_text(err), "Error: swapping stake to uosmo not supported");
}

#[test]
fn with_destination_allocations_less_than_100_percent_should_fail() {
    let mut state = with_default_pair();
    let info = mock_info(USER, &[coin(10000, DENOM_STAKE)]);
    let destinations = vec![Destination { allocation: percent(50), address: USER.to_string(), msg: None }];
    let err = create_vault_handler(&mut state, &mock_api(), &mock_env(), &info, create_msg(USER, destinations, 100000, TimeInterval::Daily, None, Some(false))).unwrap_err();
    assert_eq!(err_text(err), "Error: destination allocations must add up to 1");
}

#[test]
fn with_destination_allocation_equal_to_zero_should_fail() {
    let mut state = with_default_pair();
    let info = mock_info(USER, &[coin(10000, DENOM_STAKE)]);
    let destinations = vec![
        Destination { allocation: percent(100), address: USER.to_string(), msg: None },
        Destination { allocation: percent(0), address: "other".to_string(), msg: None },
    ];
    let err = create_vault_handler(&mut state, &mock_api(), &mock_env(), &info, create_msg(USER, destinations, 100000, TimeInterval::Daily, None, Some(false))).unwrap_err();
    assert_eq!(err_text(err), "Error: all destination allocations must be greater than 0");
}

#[test]
fn with_more_than_10_destination_allocations_should_fail() {
    let mut state = instantiate_contract();
    let info = mock_info(USER, &[coin(10000, DENOM_STAKE)]);
    let destinations = (0..20).map(|i| Destination { allocation: percent(5), address: format!("destination-{}", i), msg: None }).collect();
    let err = create_vault_handler(&mut state, &mock_api(), &mock_env(), &info, create_msg(USER, destinations, 100000, TimeInterval::Daily, None, Some(false))).unwrap_err();
    assert_eq!(err_text(err), "Error: no more than 10 destinations can be provided");
}

#[test]
fn with_swap_amount_less_than_50000_should_fail() {
    let mut state = instantiate_contract();
    let info = mock_info(USER, &[coin(10000, DENOM_STAKE)]);
    let err = create_vault_handler(&mut state, &mock_api(), &mock_env(), &info, create_msg(USER, vec![], 10000, TimeInterval::Daily, None, Some(false))).unwrap_err();
    assert_eq!(err_text(err), "Error: swap amount must be greater than 50000");
}

#[test]
fn when_contract_is_paused_should_fail() {
    let mut state = instantiate_contract();
    state.config.paused = true;
    let info = mock_info(USER, &[coin(10000, DENOM_STAKE)]);
    let err = create_vault_handler(&mut state, &mock_api(), &mock_env(), &info, create_msg(USER, vec![], 100000, TimeInterval::Daily, None, Some(false))).unwrap_err();
    assert_eq!(err_text(err), "Error: contract is paused");
}

#[test]
fn with_time_trigger_with_target_time_in_the_past_should_fail() {
    let mut state = with_default_pair();
    let info = mock_info(USER, &[coin(10000, DENOM_STAKE)]);
    let past = mock_env().time / 1_000_000_000 - 10;
    let err = create_vault_handler(&mut state, &mock_api(), &mock_env(), &info, create_msg(USER, vec![], 100000, TimeInterval::Daily, Some(past), Some(false))).unwrap_err();
    assert_eq!(err_text(err), "Error: target_start_time_utc_seconds must be some time in the future");
}

#[test]
fn with_invalid_custom_time_interval_should_fail() {
    let mut state = instantiate_contract();
    let info = mock_info(USER, &[coin(10000, DENOM_STAKE)]);
    let err = create_vault_handler(&mut state, &mock_api(), &mock_env(), &info, create_msg(USER, vec![], 100000, TimeInterval::Custom { seconds: 23 }, None, Some(false))).unwrap_err();
    assert_eq!(err_text(err), "Error: custom time interval must be at least 60 seconds");
}

#[test]
fn should_create_vault() {
    let mut state = with_default_pair();
    let env = mock_env();
    let info = mock_info(USER, &[coin(100000, DENOM_STAKE)]);
    let swap_amount = 100000;
    create_vault_handler(&mut state, &mock_api(), &env, &info, create_msg(USER, vec![], swap_amount, TimeInterval::Daily, Some(in_ten_seconds()), Some(false))).unwrap();
    let vault = get_vault_handler(&state, 1).unwrap();
    assert_eq!(
        vault,
        Vault {
            id: 1,
            created_at: env.time,
            started_at: None,
            owner: info.sender.clone(),
            label: None,
            destinations: vec![Destination { address: USER.to_string(), allocation: dec("1"), msg: None }],
            status: VaultStatus::Scheduled,
            balance: info.funds[0].clone(),
            target_denom: DENOM_UOSMO.to_string(),
            swap_amount,
            position_type: None,
            slippage_tolerance: None,
            minimum_receive_amount: None,
            time_interval: TimeInterval::Daily,
            escrow_level: percent(0),
            deposited_amount: info.funds[0].clone(),
            swapped_amount: coin(0, DENOM_STAKE),
            received_amount: coin(0, DENOM_UOSMO),
            escrowed_amount: coin(0, DENOM_UOSMO),
            swap_adjustment_strategy: None,
            performance_assessment_strategy: None,
            trigger: Some(TriggerConfiguration::Time { target_time: in_ten_seconds() * 1_000_000_000 }),
            pair: default_pair(),
        }
    );
}

#[test]
fn should_publish_deposit_event() {
    let mut state = with_default_pair();
    let env = mock_env();
    let info = mock_info(USER, &[coin(100000, DENOM_STAKE)]);
    create_vault_handler(&mut state, &mock_api(), &env, &info, create_msg(USER, vec![], 100000, TimeInterval::Daily, Some(in_ten_seconds()), Some(false))).unwrap();
    let events = get_events_by_resource_id(state.clone(), 1, None, None, None).unwrap();
    assert!(events.contains(&dca::types::Event {
        id: 1,
        resource_id: 1,
        timestamp: env.time,
        block_height: env.height,
        data: EventData::DcaVaultFundsDeposited { amount: info.funds[0].clone() },
    }));
}

#[test]
fn for_different_owner_should_succeed() {
    let mut state = with_default_pair();
    let info = mock_info(ADMIN, &[coin(100000, DENOM_STAKE)]);
    create_vault_handler(&mut state, &mock_api(), &mock_env(), &info, create_msg(USER, vec![], 100000, TimeInterval::Daily, Some(in_ten_seconds()), Some(false))).unwrap();
    assert_eq!(get_vault_handler(&state, 1).unwrap().owner, USER.to_string());
}

#[test]
fn with_multiple_destinations_should_succeed() {
    let mut state = with_default_pair();
    let env = mock_env();
    let info = mock_info(USER, &[coin(100000, DENOM_STAKE)]);
    let delegate = |delegator: &str| {
        format!("{{\"z_delegate\":{{\"delegator_address\":\"{}\",\"validator_address\":\"{}\"}}}}", delegator, VALIDATOR)
    };
    let destinations = vec![
        Destination { allocation: percent(50), address: env.contract_address.clone(), msg: Some(delegate("dest-1")) },
        Destination { allocation: percent(50), address: env.contract_address.clone(), msg: Some(delegate("dest-2")) },
    ];
    create_vault_handler(&mut state, &mock_api(), &env, &info, create_msg(USER, destinations.clone(), 100000, TimeInterval::Daily, Some(in_ten_seconds()), Some(false))).unwrap();
    assert_eq!(get_vault_handler(&state, 1).unwrap().destinations, destinations);
}

#[test]
fn with_insufficient_funds_should_create_inactive_vault() {
    let mut state = with_default_pair();
    let info = mock_info(USER, &[coin(1, DENOM_STAKE)]);
    create_vault_handler(&mut state, &mock_api(), &mock_env(), &info, create_msg(USER, vec![], 100000, TimeInterval::Daily, Some(in_ten_seconds()), Some(false))).unwrap();
    assert_eq!(get_vault_handler(&state, 1).unwrap().status, VaultStatus::Inactive);
}

#[test]
fn with_use_dca_plus_true_should_create_swap_adjustment_strategy() {
    let mut state = with_default_pair();
    let info = mock_info(USER, &[coin(100000, DENOM_STAKE)]);
    create_vault_handler(&mut state, &mock_api(), &mock_env(), &info, create_msg(USER, vec![], 100000, TimeInterval::Daily, Some(in_ten_seconds()), Some(true))).unwrap();
    let vault = get_vault_handler(&state, 1).unwrap();
    assert_eq!(
        vault.swap_adjustment_strategy,
        Some(SwapAdjustmentStrategy::RiskWeightedAverage { model_id: 30, base_denom: BaseDenom::Bitcoin, position_type: PositionType::Enter })
    );
    assert_eq!(vault.escrow_level, state.config.risk_weighted_average_escrow_level);
    assert_eq!(vault.escrowed_amount, coin(0, DENOM_UOSMO));
    assert_eq!(vault.deposited_amount, coin(100000, DENOM_STAKE));
    assert_eq!(
        vault.performance_assessment_strategy,
        Some(PerformanceAssessmentStrategy::CompareToStandardDca {
            swapped_amount: coin(0, DENOM_STAKE),
            received_amount: coin(0, DENOM_UOSMO),
        })
    );
}

#[test]
fn with_large_deposit_should_select_longer_duration_model() {
    let mut state = with_default_pair();
    let info = mock_info(USER, &[coin(1000000000, DENOM_STAKE)]);
    create_vault_handler(&mut state, &mock_api(), &mock_env(), &info, create_msg(USER, vec![], 100000, TimeInterval::Daily, Some(in_ten_seconds()), Some(true))).unwrap();
    let vault = get_vault_handler(&state, 1).unwrap();
    assert_eq!(
        vault.swap_adjustment_strategy.map(|s| match s {
            SwapAdjustmentStrategy::RiskWeightedAverage { model_id, .. } => model_id,
            SwapAdjustmentStrategy::WeightedScale { .. } => 0,
        }),
        Some(90)
    );
}

#[test]
fn with_no_target_time_should_execute_vault() {
    let mut state = with_default_pair();
    let info = mock_info(USER, &[coin(100000, DENOM_STAKE)]);
    let response = create_vault_handler(&mut state, &mock_api(), &mock_env(), &info, create_msg(USER, vec![], 100000, TimeInterval::Daily, None, Some(true))).unwrap();
    assert!(response.messages.iter().any(|m| m.reply_id.is_none()
        && m.msg == CosmosMsg::ExecuteSelf { msg: SelfMsg::ExecuteTrigger { trigger_id: 1 } }));
}

fn update(state: &mut State, sender: &str, vault_id: u128, u: VaultUpdate) -> Result<dca::types::Response, ContractError> {
    update_vault_handler(state, &mock_api(), &sender.to_string(), vault_id, u)
}

fn no_update() -> VaultUpdate {
    VaultUpdate { label: None, destinations: None, slippage_tolerance: None, minimum_receive_amount: None, time_interval: None, swap_adjustment_strategy: None }
}

fn setup_default_vault() -> (State, Vault) {
    let mut state = instantiate_contract();
    let vault = setup_vault(&mut state, default_vault());
    (state, vault)
}

#[test]
fn with_slippage_tolerance_larger_than_one_fails() {
    let (mut state, vault) = setup_default_vault();
    let err = update(&mut state, USER, vault.id, VaultUpdate { slippage_tolerance: Some(percent(101)), ..no_update() }).unwrap_err();
    assert_eq!(err_text(err), "Error: slippage tolerance must be less than or equal to 1");
}

#[test]
fn with_custom_time_interval_less_than_60_seconds_fails() {
    let (mut state, vault) = setup_default_vault();
    let err = update(&mut state, USER, vault.id, VaultUpdate { time_interval: Some(TimeInterval::Custom { seconds: 12 }), ..no_update() }).unwrap_err();
    assert_eq!(err_text(err), "Error: custom time interval must be at least 60 seconds");
}

#[test]
fn with_label_longer_than_100_characters_fails() {
    let (mut state, vault) = setup_default_vault();
    let err = update(&mut state, USER, vault.id, VaultUpdate { label: Some("12345678910".repeat(10)), ..no_update() }).unwrap_err();
    assert_eq!(err_text(err), "Error: Vault label cannot be longer than 100 characters");
}

#[test]
fn for_vault_with_different_owner_fails() {
    let mut state = instantiate_contract();
    let vault = setup_vault(&mut state, Vault { owner: "random".to_string(), ..default_vault() });
    let err = update(&mut state, USER, vault.id, VaultUpdate { label: Some("My new vault".to_string()), ..no_update() }).unwrap_err();
    assert_eq!(err_text(err), "Unauthorized");
}

#[test]
fn for_cancelled_vault_fails() {
    let mut state = instantiate_contract();
    let vault = setup_vault(&mut state, Vault { status: VaultStatus::Cancelled, ..default_vault() });
    let err = update(&mut state, USER, vault.id, VaultUpdate { label: Some("My new vault".to_string()), ..no_update() }).unwrap_err();
    assert_eq!(err_text(err), "Error: vault is already cancelled");
}

fn random_destinations(allocations: &[u64]) -> Vec<Destination> {
    allocations.iter().map(|a| Destination { address: "random".to_string(), allocation: percent(*a), msg: None }).collect()
}

#[test]
fn with_more_than_10_destinations_fails() {
    let (mut state, vault) = setup_default_vault();
    let err = update(&mut state, USER, vault.id, VaultUpdate { destinations: Some(random_destinations(&[10; 11])), ..no_update() }).unwrap_err();
    assert_eq!(err_text(err), "Error: no more than 10 destinations can be provided");
}

#[test]
fn with_destination_allocations_less_than_100_percent_fails() {
    let (mut state, vault) = setup_default_vault();
    let err = update(&mut state, USER, vault.id, VaultUpdate { destinations: Some(random_destinations(&[10, 10])), ..no_update() }).unwrap_err();
    assert_eq!(err_text(err), "Error: destination allocations must add up to 1");
}

#[test]
fn with_destination_allocations_more_than_100_percent_fails() {
    let (mut state, vault) = setup_default_vault();
    let err = update(&mut state, USER, vault.id, VaultUpdate { destinations: Some(random_destinations(&[50, 51])), ..no_update() }).unwrap_err();
    assert_eq!(err_text(err), "Error: destination allocations must add up to 1");
}

#[test]
fn with_destination_with_zero_allocation_fails() {
    let (mut state, vault) = setup_default_vault();
    let err = update(&mut state, USER, vault.id, VaultUpdate { destinations: Some(random_destinations(&[100, 0])), ..no_update() }).unwrap_err();
    assert_eq!(err_text(err), "Error: all destination allocations must be greater than 0");
}

fn rwa() -> Option<SwapAdjustmentStrategy> {
    Some(SwapAdjustmentStrategy::RiskWeightedAverage { model_id: 30, base_denom: BaseDenom::Bitcoin, position_type: PositionType::Enter })
}

#[test]
fn updating_risk_weighted_average_strategy_fails() {
    let mut state = instantiate_contract();
    let vault = setup_vault(&mut state, Vault { swap_adjustment_strategy: rwa(), ..default_vault() });
    let new_strategy = SwapAdjustmentStrategyParams::RiskWeightedAverage { base_denom: BaseDenom::Bitcoin };
    let err = update(&mut state, USER, vault.id, VaultUpdate { swap_adjustment_strategy: Some(new_strategy), ..no_update() }).unwrap_err();
    assert_eq!(
        err_text(err),
        "Error: cannot update swap adjustment strategy from Some(RiskWeightedAverage { model_id: 30, base_denom: Bitcoin, position_type: Enter }) to RiskWeightedAverage { base_denom: Bitcoin }"
    );
}

#[test]
fn changing_risk_weighted_average_strategy_fails() {
    let mut state = instantiate_contract();
    let vault = setup_vault(&mut state, Vault { swap_adjustment_strategy: rwa(), ..default_vault() });
    let new_strategy = Some(SwapAdjustmentStrategyParams::WeightedScale { base_receive_amount: 18277, multiplier: percent(213), increase_only: false });
    let err = update(&mut state, USER, vault.id, VaultUpdate { swap_adjustment_strategy: new_strategy, ..no_update() }).unwrap_err();
    assert_eq!(
        err_text(err),
        "Error: cannot update swap adjustment strategy from Some(RiskWeightedAverage { model_id: 30, base_denom: Bitcoin, position_type: Enter }) to Some(WeightedScale { base_receive_amount: Uint128(18277), multiplier: Decimal(2.13), increase_only: false })"
    );
}

#[test]
fn adding_weighted_scale_swap_adjustment_strategy_fails() {
    let (mut state, vault) = setup_default_vault();
    let strategy = Some(SwapAdjustmentStrategyParams::WeightedScale { base_receive_amount: 2732, multiplier: percent(150), increase_only: false });
    let err = update(&mut state, USER, vault.id, VaultUpdate { swap_adjustment_strategy: strategy, ..no_update() }).unwrap_err();
    assert_eq!(vault.swap_adjustment_strategy, None);
    assert_eq!(
        err_text(err),
        "Error: cannot update swap adjustment strategy from None to Some(WeightedScale { base_receive_amount: Uint128(2732), multiplier: Decimal(1.5), increase_only: false })"
    );
}

#[test]
fn updates_weighted_scale_swap_adjustment_strategy() {
    let mut state = instantiate_contract();
    let vault = setup_vault(&mut state, Vault {
        swap_adjustment_strategy: Some(SwapAdjustmentStrategy::WeightedScale { base_receive_amount: 2732, multiplier: percent(150), increase_only: false }),
        ..default_vault()
    });
    let strategy = Some(SwapAdjustmentStrategyParams::WeightedScale { base_receive_amount: 212831, multiplier: percent(300), increase_only: true });
    update(&mut state, USER, vault.id, VaultUpdate { swap_adjustment_strategy: strategy, ..no_update() }).unwrap();
    assert_eq!(
        stored_vault(&state, vault.id).swap_adjustment_strategy,
        Some(SwapAdjustmentStrategy::WeightedScale { base_receive_amount: 212831, multiplier: percent(300), increase_only: true })
    );
}

#[test]
fn updates_the_vault_label() {
    let (mut state, vault) = setup_default_vault();
    let label = Some("123456789".repeat(10));
    update(&mut state, USER, vault.id, VaultUpdate { label: label.clone(), ..no_update() }).unwrap();
    assert_eq!(stored_vault(&state, vault.id).label, label);
}

#[test]
fn updates_the_vault_destinations() {
    let (mut state, vault) = setup_default_vault();
    let destinations = random_destinations(&[50, 50]);
    update(&mut state, USER, vault.id, VaultUpdate { destinations: Some(destinations.clone()), ..no_update() }).unwrap();
    let updated = stored_vault(&state, vault.id);
    assert_ne!(updated.destinations, vault.destinations);
    assert_eq!(updated.destinations, destinations);
}

#[test]
fn sets_the_vault_destination_to_owner_when_update_list_is_empty() {
    let mut state = instantiate_contract();
    let vault = setup_vault(&mut state, Vault { destinations: random_destinations(&[100]), ..default_vault() });
    update(&mut state, USER, vault.id, VaultUpdate { destinations: Some(vec![]), ..no_update() }).unwrap();
    let updated = stored_vault(&state, vault.id);
    assert_ne!(updated.destinations, vault.destinations);
    assert_eq!(updated.destinations, vec![Destination { address: vault.owner, allocation: percent(100), msg: None }]);
}

#[test]
fn updates_slippage_tolerance() {
    let (mut state, vault) = setup_default_vault();
    update(&mut state, USER, vault.id, VaultUpdate { slippage_tolerance: Some(percent(1)), ..no_update() }).unwrap();
    assert_eq!(stored_vault(&state, vault.id).slippage_tolerance, Some(percent(1)));
}

#[test]
fn updates_minimum_receive_amount() {
    let (mut state, vault) = setup_default_vault();
    update(&mut state, USER, vault.id, VaultUpdate { minimum_receive_amount: Some(12387), ..no_update() }).unwrap();
    assert_eq!(stored_vault(&state, vault.id).minimum_receive_amount, Some(12387));
}

#[test]
fn updates_time_interval() {
    let (mut state, vault) = setup_default_vault();
    let time_interval = TimeInterval::Custom { seconds: 31271632321 };
    update(&mut state, USER, vault.id, VaultUpdate { time_interval: Some(time_interval), ..no_update() }).unwrap();
    assert_eq!(stored_vault(&state, vault.id).time_interval, time_interval);
}

fn with_vaults(ids: &[u128]) -> State {
    let mut state = instantiate_contract();
    for id in ids {
        setup_vault(&mut state, Vault { id: *id, ..default_vault() });
    }
    state
}

#[test]
fn get_vaults_with_limit_too_large_should_fail() {
    let state = instantiate_contract();
    let err = get_vaults_handler(&state, None, Some(1001)).unwrap_err();
    assert_eq!(std_text(err), "Generic error: limit cannot be greater than 1000.");
}

#[test]
fn get_vaults_with_no_vaults_should_return_all_vaults() {
    let state = instantiate_contract();
    assert_eq!(get_vaults_handler(&state, None, None).unwrap().len(), 0);
}

#[test]
fn get_vaults_with_multiple_vaults_should_return_all_vaults() {
    let state = with_vaults(&[1, 2]);
    assert_eq!(get_vaults_handler(&state, None, None).unwrap().len(), 2);
}

#[test]
fn with_one_vault_should_return_proper_vault_data() {
    let (state, vault) = setup_default_vault();
    let vaults = get_vaults_handler(&state, None, None).unwrap();
    assert_eq!(vaults.first().unwrap(), &vault);
}

#[test]
fn get_vaults_with_limit_should_return_limited_vaults() {
    let state = with_vaults(&[1, 2]);
    let vaults = get_vaults_handler(&state, None, Some(1)).unwrap();
    assert_eq!(vaults.len(), 1);
    assert_eq!(vaults[0].id, 1);
}

#[test]
fn get_vaults_with_start_after_should_return_vaults_after_start_after() {
    let state = with_vaults(&[1, 2]);
    let vaults = get_vaults_handler(&state, Some(1), None).unwrap();
    assert_eq!(vaults.len(), 1);
    assert_eq!(vaults[0].id, 2);
}

#[test]
fn get_vaults_with_limit_and_start_after_should_return_limited_vaults_after_start_after() {
    let state = with_vaults(&[1, 2, 3]);
    let vaults = get_vaults_handler(&state, Some(1), Some(1)).unwrap();
    assert_eq!(vaults.len(), 1);
    assert_eq!(vaults[0].id, 2);
}

fn by_owner(state: &State, status: Option<VaultStatus>, start_after: Option<u128>, limit: Option<u16>) -> Result<Vec<Vault>, StdError> {
    get_vaults_by_address_handler(state, &mock_api(), &default_vault().owner, status, start_after, limit)
}

#[test]
fn get_vaults_by_address_with_no_vaults_should_return_all_vaults() {
    let state = instantiate_contract();
    assert_eq!(by_owner(&state, None, None, None).unwrap().len(), 0);
}

#[test]
fn get_vaults_by_address_with_multiple_vaults_should_return_all_vaults() {
    let state = with_vaults(&[0, 1]);
    assert_eq!(by_owner(&state, None, None, None).unwrap().len(), 2);
}

#[test]
fn get_vaults_by_address_with_limit_should_return_limited_vaults() {
    let state = with_vaults(&[0, 1]);
    let vaults = by_owner(&state, None, None, Some(1)).unwrap();
    assert_eq!(vaults.len(), 1);
    assert_eq!(vaults[0].id, 0);
}

#[test]
fn get_vaults_by_address_with_start_after_should_return_vaults_after_start_after() {
    let state = with_vaults(&[0, 1]);
    let vaults = by_owner(&state, None, Some(0), None).unwrap();
    assert_eq!(vaults.len(), 1);
    assert_eq!(vaults[0].id, 1);
}

#[test]
fn get_vaults_by_address_with_limit_and_start_after_should_return_limited_vaults_after_start_after() {
    let state = with_vaults(&[0, 1, 2]);
    let vaults = by_owner(&state, None, Some(1), Some(1)).unwrap();
    assert_eq!(vaults.len(), 1);
    assert_eq!(vaults[0].id, 2);
}

#[test]
fn get_vaults_by_address_with_limit_too_large_should_fail() {
    let state = with_vaults(&[0]);
    let err = by_owner(&state, None, Some(1), Some(10000)).unwrap_err();
    assert_eq!(std_text(err), "Generic error: limit cannot be greater than 1000.");
}

#[test]
fn with_status_filter_should_return_all_vaults_with_status() {
    let mut state = instantiate_contract();
    setup_vault(&mut state, Vault { id: 0, status: VaultStatus::Active, ..default_vault() });
    setup_vault(&mut state, Vault { id: 1, status: VaultStatus::Active, ..default_vault() });
    setup_vault(&mut state, Vault { id: 2, status: VaultStatus::Scheduled, ..default_vault() });
    let vaults = by_owner(&state, Some(VaultStatus::Active), None, None).unwrap();
    assert_eq!(vaults.len(), 2);
    vaults.iter().for_each(|v| assert!(v.status == VaultStatus::Active));
}

#[test]
fn update_reports_the_first_failing_check() {
    let (mut state, vault) = setup_default_vault();
    let bad_destinations = vec![Destination { address: USER.to_string(), allocation: percent(50), msg: None }];
    let err = update(&mut state, USER, vault.id, VaultUpdate {
        label: Some("ok".to_string()),
        destinations: Some(bad_destinations.clone()),
        slippage_tolerance: Some(percent(101)),
        ..no_update()
    }).unwrap_err();
    assert_eq!(err_text(err), "Error: destination allocations must add up to 1");
    let err = update(&mut state, USER, vault.id, VaultUpdate {
        label: Some("12345678910".repeat(10)),
        destinations: Some(bad_destinations),
        ..no_update()
    }).unwrap_err();
    assert_eq!(err_text(err), "Error: Vault label cannot be longer than 100 characters");
    let err = update(&mut state, USER, 99, no_update()).unwrap_err();
    assert_eq!(err_text(err), "vault for id 99 not found");
}

#[test]
fn creation_reports_the_first_failing_check() {
    let mut state = instantiate_contract();
    let info = mock_info(USER, &[coin(100000, DENOM_STAKE)]);
    let bad_destinations = vec![Destination { address: USER.to_string(), allocation: percent(0), msg: None }];
    let err = create_vault_handler(&mut state, &mock_api(), &mock_env(), &info,
        create_msg(USER, bad_destinations.clone(), 10000, TimeInterval::Custom { seconds: 10 }, None, Some(false))).unwrap_err();
    assert_eq!(err_text(err), "Error: swap amount must be greater than 50000");
    let err = create_vault_handler(&mut state, &mock_api(), &mock_env(), &info,
        create_msg(USER, bad_destinations.clone(), 100000, TimeInterval::Custom { seconds: 10 }, None, Some(false))).unwrap_err();
    assert_eq!(err_text(err), "Error: custom time interval must be at least 60 seconds");
    let err = create_vault_handler(&mut state, &mock_api(), &mock_env(), &info,
        create_msg(USER, bad_destinations.clone(), 100000, TimeInterval::Daily, None, Some(false))).unwrap_err();
    assert_eq!(err_text(err), "Error: swapping stake to uosmo not supported");
    let mut state = with_default_pair();
    let err = create_vault_handler(&mut state, &mock_api(), &mock_env(), &info,
        create_msg(USER, bad_destinations, 100000, TimeInterval::Daily, None, Some(false))).unwrap_err();
    assert_eq!(err_text(err), "Error: all destination allocations must be greater than 0");
}

#[test]
fn update_reports_every_field_it_sets() {
    let (mut state, vault) = setup_default_vault();
    let destinations = vec![
        Destination { address: USER.to_string(), allocation: percent(40), msg: None },
        Destination { address: "contract".to_string(), allocation: percent(60), msg: Some("hi".to_string()) },
    ];
    let response = update(&mut state, USER, vault.id, VaultUpdate {
        label: Some("mine".to_string()),
        destinations: Some(destinations),
        slippage_tolerance: Some(percent(3)),
        minimum_receive_amount: Some(77),
        time_interval: Some(TimeInterval::Weekly),
        ..no_update()
    }).unwrap();
    let pairs: Vec<(String, String)> = response.attributes.into_iter().map(|a| (a.key, a.value)).collect();
    let expected: Vec<(String, String)> = vec![
        ("update_vault", "true"),
        ("vault_id", "0"),
        ("owner", USER),
        ("label", "mine"),
        ("destinations", "[Destination { allocation: Decimal(0.4), address: Addr(\"user\"), msg: None }, \
            Destination { allocation: Decimal(0.6), address: Addr(\"contract\"), msg: Some(Binary(6869)) }]"),
        ("slippage_tolerance", "0.03"),
        ("minimum_receive_amount", "77"),
        ("time_interval", "weekly"),
    ].into_iter().map(|(k, v)| (k.to_string(), v.to_string())).collect();
    assert_eq!(pairs, expected);
    let response = update(&mut state, USER, vault.id, VaultUpdate { destinations: Some(vec![]), ..no_update() }).unwrap();
    assert_eq!(response.attributes[3].value, "[Destination { allocation: Decimal(1), address: Addr(\"user\"), msg: None }]");
}

#[test]
fn creation_stores_the_given_position_type() {
    let mut state = with_default_pair();
    let info = mock_info(USER, &[coin(100000, DENOM_STAKE)]);
    let msg = CreateVaultMsg { position_type: Some(PositionType::Exit), ..create_msg(USER, vec![], 100000, TimeInterval::Daily, Some(in_ten_seconds()), Some(false)) };
    create_vault_handler(&mut state, &mock_api(), &mock_env(), &info, msg).unwrap();
    assert_eq!(get_vault_handler(&state, 1).unwrap().position_type, Some(PositionType::Exit));
}
