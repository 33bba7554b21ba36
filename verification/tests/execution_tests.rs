use dca::error::{ContractError, StdError};
use dca::handlers::admin::instantiate_handler;
use dca::math::Decimal;
use dca::state::State;
use dca::types::{
    Coin, Config, Destination, Env, FeeCollector, MessageInfo, Pair, TimeInterval,
    TriggerConfiguration, Vault, VaultStatus,
};
use dca::validation::{AddressBook, PoolInfo, RejectedAddress};
use std::str::FromStr;

const ADMIN: &str = "admin";
const USER: &str = "user";
const DENOM_STAKE: &str = "stake";
const DENOM_UOSMO: &str = "uosmo";
const DENOM_UATOM: &str = "uatom";
const ONE: u128 = 1_000_000;
const TEN: u128 = 10_000_000;
const SHORT_ADDRESS_REASON: &str =
    "Invalid input: human address too short for this mock implementation (must be >= 3).";

fn dec(s: &str) -> Decimal {
    Decimal { atomics: cosmwasm_std::Decimal::from_str(s).unwrap().atomics().u128() }
}

fn percent(n: u64) -> Decimal {
    Decimal::percent(n)
}

fn mul(amount: u128, d: Decimal) -> u128 {
    (cosmwasm_std::Uint128::new(amount)
        * cosmwasm_std::Decimal::raw(d.atomics))
    .u128()
}

fn coin(amount: u128, denom: &str) -> Coin {
    Coin { denom: denom.to_string(), amount }
}

fn mock_env() -> Env {
    Env { height: 12_345, time: 1_571_797_419_879_305_533, contract_address: "cosmos2contract".to_string() }
}

fn mock_info(sender: &str, funds: &[Coin]) -> MessageInfo {
    MessageInfo { sender: sender.to_string(), funds: funds.to_vec() }
}

fn mock_api() -> AddressBook {
    AddressBook {
        rejected: vec![RejectedAddress { address: String::new(), reason: SHORT_ADDRESS_REASON.to_string() }],
    }
}

fn mock_pools() -> Vec<PoolInfo> {
    vec![
        PoolInfo { id: 1, denoms: vec![DENOM_UATOM.to_string(), DENOM_STAKE.to_string()] },
        PoolInfo { id: 2, denoms: vec![DENOM_UATOM.to_string(), DENOM_STAKE.to_string()] },
        PoolInfo { id: 3, denoms: vec![DENOM_UOSMO.to_string(), DENOM_STAKE.to_string()] },
        PoolInfo { id: 4, denoms: vec![DENOM_UOSMO.to_string(), DENOM_UATOM.to_string()] },
    ]
}

fn default_config() -> Config {
    Config {
        admin: ADMIN.to_string(),
        executors: vec![ADMIN.to_string()],
        fee_collectors: vec![FeeCollector { address: ADMIN.to_string(), allocation: dec("1") }],
        default_swap_fee_percent: dec("0.015"),
        weighted_scale_swap_fee_percent: percent(1),
        automation_fee_percent: dec("0.0075"),
        default_page_limit: 30,
        paused: false,
        risk_weighted_average_escrow_level: dec("0.05"),
        twap_period: 30,
        default_slippage_tolerance: percent(2),
    }
}

fn instantiate_contract() -> State {
    instantiate_handler(&mock_api(), default_config()).unwrap().0
}

fn instantiate_contract_with_multiple_fee_collectors(fee_collectors: Vec<FeeCollector>) -> State {
    instantiate_handler(&mock_api(), Config { fee_collectors, ..default_config() }).unwrap().0
}

fn default_pair() -> Pair {
    Pair { base_denom: DENOM_UOSMO.to_string(), quote_denom: DENOM_STAKE.to_string(), route: vec![3] }
}

fn default_destination() -> Destination {
    Destination { address: USER.to_string(), allocation: dec("1"), msg: None }
}

fn default_vault() -> Vault {
    let env = mock_env();
    Vault {
        id: 0,
        created_at: env.time,
        started_at: None,
        owner: USER.to_string(),
        label: None,
        destinations: vec![default_destination()],
        status: VaultStatus::Active,
        balance: coin(TEN, DENOM_UOSMO),
        target_denom: DENOM_STAKE.to_string(),
        swap_amount: ONE,
        position_type: None,
        slippage_tolerance: Some(percent(10)),
        minimum_receive_amount: None,
        time_interval: TimeInterval::Daily,
        escrow_level: percent(0),
        deposited_amount: coin(TEN, DENOM_UOSMO),
        swapped_amount: coin(0, DENOM_UOSMO),
        received_amount: coin(0, DENOM_STAKE),
        escrowed_amount: coin(0, DENOM_STAKE),
        swap_adjustment_strategy: None,
        performance_assessment_strategy: None,
        trigger: Some(TriggerConfiguration::Time { target_time: env.time }),
        pair: default_pair(),
    }
}

/// Stores a vault as it is (and the default pair, if the store has none), and caches it
/// as the vault whose swap is pending.
fn setup_vault(state: &mut State, vault: Vault) -> Vault {
    if state.pairs.is_empty() {
        state.pairs.push(default_pair());
    }
    if state.next_vault_id <= vault.id {
        state.next_vault_id = vault.id + 1;
    }
    state.vaults.push(vault.clone());
    state.vault_cache = Some(vault.id);
    vault
}

fn stored_vault(state: &State, id: u128) -> Vault {
    dca::handlers::vaults::get_vault_handler(state, id).unwrap()
}

fn err_text(e: ContractError) -> String {
    e.message()
}

fn std_text(e: StdError) -> String {
    e.message()
}

use dca::disbursement::get_disbursement_messages;
use dca::handlers::escrow::{
    disburse_escrow_handler, get_dca_plus_performance_handler, get_disburse_escrow_tasks_handler,
    get_vault_performance_handler,
};
use dca::handlers::events::{get_events_by_resource_id, get_events_handler};
use dca::handlers::execution::{disburse_funds_handler, handle_failed_automation_handler, SwapBalances};
use dca::state::{CustomFee, DisburseEscrowTask, PostExecutionQueue, SwapCache};
use dca::types::{
    BaseDenom, CosmosMsg, Event, EventData, ExecutionSkippedReason, PerformanceAssessmentStrategy,
    PositionType, SelfMsg, SubMsg, SwapAdjustmentStrategy,
};

const TWO_MICRONS: u128 = 2;

fn default_swap_adjustment_strategy() -> Option<SwapAdjustmentStrategy> {
    Some(SwapAdjustmentStrategy::RiskWeightedAverage { model_id: 30, base_denom: BaseDenom::Bitcoin, position_type: PositionType::Enter })
}

fn default_performance_assessment_strategy() -> Option<PerformanceAssessmentStrategy> {
    Some(PerformanceAssessmentStrategy::CompareToStandardDca { swapped_amount: coin(0, DENOM_UOSMO), received_amount: coin(0, DENOM_STAKE) })
}

fn bank_send(to: &str, c: Coin) -> SubMsg {
    SubMsg { msg: CosmosMsg::BankSend { to_address: to.to_string(), amount: vec![c] }, reply_id: None }
}

/// Caches the vault's balances before its swap: all of its balance of the swap
/// denomination and none of the target denomination.
fn cache_swap(state: &mut State, vault: &Vault) {
    state.swap_cache = Some(SwapCache { swap_denom_balance: vault.balance.clone(), receive_denom_balance: coin(0, &vault.target_denom) });
}

fn succeeded(swap_denom: u128, receive_denom: u128) -> Option<SwapBalances> {
    Some(SwapBalances { swap_denom, receive_denom })
}

fn set_rwa_adjustments(state: &mut State) {
    for model_id in [30u8, 35, 40, 45, 50, 55, 60, 70, 80, 90] {
        for position_type in [PositionType::Enter, PositionType::Exit] {
            dca::handlers::admin::update_swap_adjustment(
                state,
                SwapAdjustmentStrategy::RiskWeightedAverage { model_id, base_denom: BaseDenom::Bitcoin, position_type },
                dec("1.0"),
                mock_env().time,
            );
        }
    }
}

fn events_of(state: &State, id: u128) -> Vec<Event> {
    get_events_by_resource_id(state.clone(), id, None, None, None).unwrap()
}

fn automation_fee(vault: &Vault, config: &Config, amount: u128) -> u128 {
    vault.destinations.iter().filter(|d| d.msg.is_some()).fold(0, |acc, d| {
        acc + mul(mul(amount, d.allocation), config.automation_fee_percent)
    })
}

#[test]
fn with_succcesful_swap_returns_funds_to_destination() {
    let mut state = instantiate_contract();
    let vault = setup_vault(&mut state, Vault { destinations: vec![default_destination()], ..default_vault() });
    let receive_amount = 10000;
    cache_swap(&mut state, &vault);
    let response = disburse_funds_handler(&mut state, &mock_env(), succeeded(0, receive_amount)).unwrap();
    let fee = mul(receive_amount, state.config.default_swap_fee_percent);
    let automation_fees = automation_fee(&vault, &state.config, receive_amount - fee);
    let disbursal_amount = receive_amount - fee - automation_fees;
    assert!(response.messages.contains(&bank_send(&vault.destinations[0].address, coin(disbursal_amount, &vault.target_denom))));
}

#[test]
fn with_succcesful_swap_returns_fee_to_fee_collector() {
    let mut state = instantiate_contract();
    let vault = setup_vault(&mut state, default_vault());
    let receive_amount = 234312312;
    cache_swap(&mut state, &vault);
    let response = disburse_funds_handler(&mut state, &mock_env(), succeeded(0, receive_amount)).unwrap();
    let config = state.config.clone();
    let swap_fee = mul(receive_amount, config.default_swap_fee_percent);
    let automation = automation_fee(&vault, &config, receive_amount - swap_fee);
    assert!(response.messages.contains(&bank_send(&config.fee_collectors[0].address, coin(swap_fee, &vault.target_denom))));
    assert!(response.messages.contains(&bank_send(&config.fee_collectors[0].address, coin(automation, &vault.target_denom))));
}

#[test]
fn with_succcesful_swap_returns_fee_to_multiple_fee_collectors() {
    let mut state = instantiate_contract_with_multiple_fee_collectors(vec![
        FeeCollector { address: "fee_collector_1".to_string(), allocation: percent(20) },
        FeeCollector { address: "fee_collector_2".to_string(), allocation: percent(80) },
    ]);
    let vault = setup_vault(&mut state, default_vault());
    let receive_amount = 234312312;
    cache_swap(&mut state, &vault);
    let response = disburse_funds_handler(&mut state, &mock_env(), succeeded(0, receive_amount)).unwrap();
    let config = state.config.clone();
    let swap_fee = mul(receive_amount, config.default_swap_fee_percent);
    let automation = automation_fee(&vault, &config, receive_amount - swap_fee);
    for fee_collector in config.fee_collectors.iter() {
        assert!(response.messages.contains(&bank_send(&fee_collector.address, coin(mul(swap_fee, fee_collector.allocation), &vault.target_denom))));
        assert!(response.messages.contains(&bank_send(&fee_collector.address, coin(mul(automation, fee_collector.allocation), &vault.target_denom))));
    }
}

#[test]
fn with_succcesful_swap_adjusts_vault_balance() {
    let mut state = instantiate_contract();
    let vault = setup_vault(&mut state, default_vault());
    cache_swap(&mut state, &vault);
    disburse_funds_handler(&mut state, &mock_env(), succeeded(vault.balance.amount - vault.swap_amount, 234312312)).unwrap();
    assert_eq!(stored_vault(&state, vault.id).balance.amount, vault.balance.amount - vault.swap_amount);
}

#[test]
fn with_succcesful_swap_adjusts_swapped_amount_stat() {
    let mut state = instantiate_contract();
    let vault = setup_vault(&mut state, default_vault());
    cache_swap(&mut state, &vault);
    disburse_funds_handler(&mut state, &mock_env(), succeeded(vault.balance.amount - vault.swap_amount, 234312312)).unwrap();
    let updated = stored_vault(&state, vault.id);
    assert_eq!(updated.swapped_amount.amount, vault.swapped_amount.amount + vault.swap_amount);
}

#[test]
fn with_succcesful_swap_adjusts_received_amount_stat() {
    let mut state = instantiate_contract();
    let vault = setup_vault(&mut state, default_vault());
    let receive_amount = 234312312;
    cache_swap(&mut state, &vault);
    disburse_funds_handler(&mut state, &mock_env(), succeeded(vault.balance.amount - vault.swap_amount, receive_amount)).unwrap();
    let updated = stored_vault(&state, vault.id);
    let mut fee = mul(receive_amount, state.config.default_swap_fee_percent);
    fee += automation_fee(&vault, &state.config, receive_amount - fee);
    assert_eq!(updated.received_amount.amount, receive_amount - fee);
}

#[test]
fn with_succcesful_swap_with_escrow_level_escrows_funds() {
    let mut state = instantiate_contract();
    let vault = setup_vault(&mut state, Vault {
        destinations: vec![default_destination()],
        performance_assessment_strategy: default_performance_assessment_strategy(),
        escrow_level: percent(5),
        ..default_vault()
    });
    let receive_amount = 10000;
    cache_swap(&mut state, &vault);
    set_rwa_adjustments(&mut state);
    let response = disburse_funds_handler(&mut state, &mock_env(), succeeded(0, receive_amount)).unwrap();
    let updated = stored_vault(&state, vault.id);
    let escrow_level = updated.escrow_level;
    let escrow_amount = mul(receive_amount, escrow_level);
    assert_eq!(escrow_amount, updated.escrowed_amount.amount);
    assert!(response.messages.contains(&bank_send(&updated.destinations[0].address, coin(receive_amount - escrow_amount, &updated.target_denom))));
    assert_ne!(escrow_level, percent(0));
    assert_ne!(escrow_amount, 0);
}

#[test]
fn with_succcesful_swap_publishes_dca_execution_completed_event() {
    let mut state = instantiate_contract();
    let env = mock_env();
    let vault = setup_vault(&mut state, default_vault());
    let receive_amount = 10000;
    cache_swap(&mut state, &vault);
    set_rwa_adjustments(&mut state);
    disburse_funds_handler(&mut state, &env, succeeded(0, receive_amount)).unwrap();
    let updated = stored_vault(&state, vault.id);
    let fee = receive_amount - updated.received_amount.amount;
    assert!(events_of(&state, vault.id).contains(&Event {
        id: 1,
        resource_id: vault.id,
        timestamp: env.time,
        block_height: env.height,
        data: EventData::DcaVaultExecutionCompleted {
            sent: updated.swapped_amount.clone(),
            received: coin(updated.received_amount.amount + fee, &updated.received_amount.denom),
            fee: coin(fee, &vault.target_denom),
        },
    }));
}

#[test]
fn with_succcesful_swap_for_non_standard_dca_publishes_execution_completed_event() {
    let mut state = instantiate_contract();
    let env = mock_env();
    let vault = setup_vault(&mut state, Vault {
        swap_adjustment_strategy: default_swap_adjustment_strategy(),
        performance_assessment_strategy: default_performance_assessment_strategy(),
        ..default_vault()
    });
    let receive_amount = 10000;
    cache_swap(&mut state, &vault);
    set_rwa_adjustments(&mut state);
    disburse_funds_handler(&mut state, &env, succeeded(0, receive_amount)).unwrap();
    let updated = stored_vault(&state, vault.id);
    assert!(events_of(&state, vault.id).contains(&Event {
        id: 1,
        resource_id: vault.id,
        timestamp: env.time,
        block_height: env.height,
        data: EventData::DcaVaultExecutionCompleted {
            sent: updated.swapped_amount.clone(),
            received: updated.received_amount.clone(),
            fee: coin(0, &vault.target_denom),
        },
    }));
}

#[test]
fn with_failed_swap_and_insufficient_funds_does_not_reduce_vault_balance() {
    let mut state = instantiate_contract();
    let balance = coin(TWO_MICRONS, DENOM_UOSMO);
    let vault = setup_vault(&mut state, Vault { balance: balance.clone(), ..default_vault() });
    disburse_funds_handler(&mut state, &mock_env(), None).unwrap();
    assert_eq!(vault.balance, balance);
    assert_eq!(stored_vault(&state, vault.id).balance, balance);
}

#[test]
fn with_failed_swap_publishes_skipped_event_with_slippage_failure() {
    let mut state = instantiate_contract();
    let env = mock_env();
    let vault = setup_vault(&mut state, default_vault());
    disburse_funds_handler(&mut state, &env, None).unwrap();
    assert!(events_of(&state, vault.id).contains(&Event {
        id: 1,
        resource_id: vault.id,
        timestamp: env.time,
        block_height: env.height,
        data: EventData::DcaVaultExecutionSkipped { reason: ExecutionSkippedReason::SlippageToleranceExceeded },
    }));
}

#[test]
fn with_failed_swap_leaves_vault_active() {
    let mut state = instantiate_contract();
    let vault = setup_vault(&mut state, default_vault());
    disburse_funds_handler(&mut state, &mock_env(), None).unwrap();
    assert_eq!(stored_vault(&state, vault.id).status, VaultStatus::Active);
}

#[test]
fn with_failed_swap_does_not_reduce_vault_balance() {
    let mut state = instantiate_contract();
    let vault = setup_vault(&mut state, default_vault());
    disburse_funds_handler(&mut state, &mock_env(), None).unwrap();
    assert_eq!(stored_vault(&state, vault.id).balance, coin(TEN, &vault.balance.denom));
}

fn custom_fee_case(fees: &[(&str, u64)], expected_rate: u64) {
    let mut state = instantiate_contract();
    let vault = setup_vault(&mut state, default_vault());
    for (denom, fee) in fees {
        state.custom_fees.push(CustomFee { denom: denom.to_string(), fee: percent(*fee) });
    }
    let receive_amount = 234312312;
    cache_swap(&mut state, &vault);
    let response = disburse_funds_handler(&mut state, &mock_env(), succeeded(0, receive_amount)).unwrap();
    let config = state.config.clone();
    let swap_fee = mul(receive_amount, percent(expected_rate));
    let automation = automation_fee(&vault, &config, receive_amount - swap_fee);
    assert!(response.messages.contains(&bank_send(&config.fee_collectors[0].address, coin(swap_fee, &vault.target_denom))));
    assert!(response.messages.contains(&bank_send(&config.fee_collectors[0].address, coin(automation, &vault.target_denom))));
}

#[test]
fn with_custom_fee_for_base_denom_takes_custom_fee() {
    custom_fee_case(&[(DENOM_UOSMO, 20)], 20);
}

#[test]
fn with_custom_fee_for_quote_denom_takes_custom_fee() {
    custom_fee_case(&[(DENOM_STAKE, 20)], 20);
}

#[test]
fn with_custom_fee_for_both_denoms_takes_lower_fee() {
    custom_fee_case(&[(DENOM_UOSMO, 20), (DENOM_STAKE, 40)], 20);
}

#[test]
fn with_insufficient_remaining_funds_sets_vault_to_inactive() {
    let mut state = instantiate_contract();
    let vault = setup_vault(&mut state, Vault { balance: coin(ONE, DENOM_UOSMO), swap_amount: ONE, ..default_vault() });
    cache_swap(&mut state, &vault);
    disburse_funds_handler(&mut state, &mock_env(), succeeded(0, 1000000)).unwrap();
    assert_eq!(stored_vault(&state, vault.id).status, VaultStatus::Inactive);
}

#[test]
fn for_non_standard_dca_vault_with_failed_swap_publishes_slippage_tolerance_exceeded_event() {
    let mut state = instantiate_contract();
    let env = mock_env();
    let vault = setup_vault(&mut state, Vault {
        balance: coin(ONE, DENOM_UOSMO),
        swap_amount: ONE,
        swap_adjustment_strategy: default_swap_adjustment_strategy(),
        performance_assessment_strategy: default_performance_assessment_strategy(),
        ..default_vault()
    });
    cache_swap(&mut state, &vault);
    disburse_funds_handler(&mut state, &env, None).unwrap();
    assert!(events_of(&state, vault.id).contains(&Event {
        id: 1,
        resource_id: vault.id,
        timestamp: env.time,
        block_height: env.height,
        data: EventData::DcaVaultExecutionSkipped { reason: ExecutionSkippedReason::SlippageToleranceExceeded },
    }));
}

#[test]
fn for_non_standard_dca_vault_with_insufficient_remaining_funds_sets_vault_to_inactive() {
    let mut state = instantiate_contract();
    let vault = setup_vault(&mut state, Vault {
        balance: coin(49999, DENOM_UOSMO),
        swap_amount: ONE,
        swap_adjustment_strategy: default_swap_adjustment_strategy(),
        performance_assessment_strategy: default_performance_assessment_strategy(),
        ..default_vault()
    });
    cache_swap(&mut state, &vault);
    disburse_funds_handler(&mut state, &mock_env(), succeeded(0, 1000000)).unwrap();
    assert_eq!(stored_vault(&state, vault.id).status, VaultStatus::Inactive);
}

fn finished_vault(standard_swapped: u128, escrowed: u128) -> Vault {
    Vault {
        balance: coin(0, DENOM_UOSMO),
        status: VaultStatus::Inactive,
        deposited_amount: coin(ONE, DENOM_UOSMO),
        escrowed_amount: coin(escrowed, DENOM_STAKE),
        performance_assessment_strategy: Some(PerformanceAssessmentStrategy::CompareToStandardDca {
            swapped_amount: coin(standard_swapped, DENOM_UOSMO),
            received_amount: coin(standard_swapped, DENOM_STAKE),
        }),
        swap_adjustment_strategy: default_swap_adjustment_strategy(),
        ..default_vault()
    }
}

#[test]
fn for_finished_standard_and_plus_disburses_escrow() {
    let mut state = instantiate_contract();
    let vault = setup_vault(&mut state, finished_vault(ONE, mul(ONE, percent(5))));
    cache_swap(&mut state, &vault);
    let response = disburse_funds_handler(&mut state, &mock_env(), succeeded(0, 1000000)).unwrap();
    assert!(response.messages.contains(&SubMsg { msg: CosmosMsg::ExecuteSelf { msg: SelfMsg::DisburseEscrow { vault_id: vault.id } }, reply_id: None }));
}

#[test]
fn for_finished_standard_and_plus_deletes_trigger() {
    let mut state = instantiate_contract();
    let vault = setup_vault(&mut state, finished_vault(ONE, mul(ONE, percent(5))));
    cache_swap(&mut state, &vault);
    disburse_funds_handler(&mut state, &mock_env(), succeeded(0, 1000000)).unwrap();
    assert!(stored_vault(&state, vault.id).trigger.is_none());
}

#[test]
fn for_unfinished_standard_and_finished_plus_keeps_trigger() {
    let mut state = instantiate_contract();
    let vault = setup_vault(&mut state, finished_vault(ONE / TWO_MICRONS, mul(ONE / TWO_MICRONS, percent(5))));
    cache_swap(&mut state, &vault);
    disburse_funds_handler(&mut state, &mock_env(), succeeded(0, 1000000)).unwrap();
    assert!(stored_vault(&state, vault.id).trigger.is_some());
}

fn escrow_vault(swapped: u128, received: u128, escrowed: u128, standard_swapped: u128, standard_received: u128) -> Vault {
    Vault {
        status: VaultStatus::Inactive,
        swapped_amount: coin(swapped, DENOM_UOSMO),
        received_amount: coin(received, DENOM_STAKE),
        deposited_amount: coin(TEN, DENOM_UOSMO),
        escrowed_amount: coin(escrowed, DENOM_STAKE),
        performance_assessment_strategy: Some(PerformanceAssessmentStrategy::CompareToStandardDca {
            swapped_amount: coin(standard_swapped, DENOM_UOSMO),
            received_amount: coin(standard_received, DENOM_STAKE),
        }),
        swap_adjustment_strategy: default_swap_adjustment_strategy(),
        ..default_vault()
    }
}

#[test]
fn when_escrowed_balance_is_empty_sends_no_messages() {
    let mut state = instantiate_contract();
    let vault = setup_vault(&mut state, Vault { escrowed_amount: coin(0, DENOM_STAKE), ..default_vault() });
    let response = disburse_escrow_handler(&mut state, &mock_env(), &ADMIN.to_string(), vault.id, dec("1")).unwrap();
    assert!(response.messages.is_empty());
}

#[test]
fn when_no_fee_is_owed_returns_entire_escrow_to_owner() {
    let mut state = instantiate_contract();
    let vault = setup_vault(&mut state, Vault {
        destinations: vec![default_destination()],
        ..escrow_vault(0, 0, mul(ONE, percent(5)), ONE, ONE)
    });
    let response = disburse_escrow_handler(&mut state, &mock_env(), &ADMIN.to_string(), vault.id, dec("1")).unwrap();
    assert!(response.messages.contains(&bank_send(&vault.destinations[0].address, vault.escrowed_amount.clone())));
}

#[test]
fn when_large_fee_is_owed_returns_entire_escrow_to_fee_collector() {
    let mut state = instantiate_contract();
    let vault = setup_vault(&mut state, escrow_vault(TEN, TEN, mul(ONE, percent(5)), ONE, ONE));
    let response = disburse_escrow_handler(&mut state, &mock_env(), &ADMIN.to_string(), vault.id, dec("10.0")).unwrap();
    assert!(response.messages.contains(&bank_send(&state.config.fee_collectors[0].address, vault.escrowed_amount.clone())));
}

#[test]
fn publishes_escrow_disbursed_event() {
    let mut state = instantiate_contract();
    let env = mock_env();
    let vault = setup_vault(&mut state, escrow_vault(TEN, TEN + ONE, mul(TEN + ONE, percent(5)), TEN, TEN));
    disburse_escrow_handler(&mut state, &env, &ADMIN.to_string(), vault.id, dec("1")).unwrap();
    let performance_fee = coin(mul(ONE, percent(20)), &vault.target_denom);
    assert!(events_of(&state, vault.id).contains(&Event {
        id: 1,
        resource_id: vault.id,
        timestamp: env.time,
        block_height: env.height,
        data: EventData::DcaVaultEscrowDisbursed {
            amount_disbursed: coin(vault.escrowed_amount.amount - performance_fee.amount, DENOM_STAKE),
            performance_fee,
        },
    }));
}

#[test]
fn sets_escrow_balance_to_zero() {
    let mut state = instantiate_contract();
    let vault = setup_vault(&mut state, escrow_vault(TEN, TEN + ONE, mul(TEN + ONE, percent(5)), TEN, TEN));
    disburse_escrow_handler(&mut state, &mock_env(), &ADMIN.to_string(), vault.id, dec("1")).unwrap();
    let updated = stored_vault(&state, vault.id);
    assert_eq!(updated.escrowed_amount, coin(0, &updated.target_denom));
}

#[test]
fn deletes_disburse_escrow_task() {
    let mut state = instantiate_contract();
    let env = mock_env();
    let vault = setup_vault(&mut state, escrow_vault(TEN, TEN + ONE, mul(TEN + ONE, percent(5)), TEN, TEN));
    state.disburse_escrow_tasks.push(DisburseEscrowTask { vault_id: vault.id, due_date: env.time - 10_000_000_000 });
    let before = get_disburse_escrow_tasks_handler(&state, &env, None);
    disburse_escrow_handler(&mut state, &env, &ADMIN.to_string(), vault.id, dec("1")).unwrap();
    let after = get_disburse_escrow_tasks_handler(&state, &env, None);
    assert_eq!(before.len(), 1);
    assert_eq!(after.len(), 0);
}

fn automation_destinations(first_msg: Option<String>) -> Vec<Destination> {
    vec![
        Destination { address: "owner".to_string(), allocation: percent(30), msg: first_msg },
        Destination { address: "contract".to_string(), allocation: percent(80), msg: Some("{\"execute\":\"test\"}".to_string()) },
    ]
}

/// A vault whose disbursement messages are queued for their outcome.
fn with_queued_disbursements(destinations: Vec<Destination>) -> (State, Vault) {
    let mut state = instantiate_contract();
    let vault = setup_vault(&mut state, Vault { destinations, ..default_vault() });
    let (_, entries) = get_disbursement_messages(&vault, vault.swap_amount).unwrap();
    state.post_execution_actions.push(PostExecutionQueue { vault_id: vault.id, entries });
    (state, vault)
}

fn execute_msg(d: &Destination, amount: u128, denom: &str) -> SubMsg {
    SubMsg {
        msg: CosmosMsg::ExecuteContract { contract_addr: d.address.clone(), msg: d.msg.clone().unwrap(), funds: vec![coin(amount, denom)] },
        reply_id: Some(dca::types::AFTER_FAILED_AUTOMATION_REPLY_ID),
    }
}

#[test]
fn removes_appropriate_post_execution_action_cache_entry_on_success() {
    let (mut state, vault) = with_queued_disbursements(automation_destinations(None));
    handle_failed_automation_handler(&mut state, &mock_env(), true).unwrap();
    let queue = &state.post_execution_actions.last().unwrap().entries;
    let d = &vault.destinations[1];
    let amount = mul(vault.swap_amount, d.allocation);
    assert_eq!(queue.len(), 1);
    assert_eq!(queue[0].msg, execute_msg(d, amount, &vault.target_denom));
    assert_eq!(queue[0].funds, vec![coin(amount, &vault.target_denom)]);
}

#[test]
fn sends_no_message_on_success() {
    let (mut state, _) = with_queued_disbursements(automation_destinations(None));
    let response = handle_failed_automation_handler(&mut state, &mock_env(), true).unwrap();
    assert!(response.messages.is_empty());
}

#[test]
fn removes_appropriate_post_execution_action_cache_entry_on_failure() {
    let (mut state, vault) = with_queued_disbursements(automation_destinations(None));
    handle_failed_automation_handler(&mut state, &mock_env(), false).unwrap();
    let queue = &state.post_execution_actions.last().unwrap().entries;
    let d = &vault.destinations[1];
    let amount = mul(vault.swap_amount, d.allocation);
    assert_eq!(queue.len(), 1);
    assert_eq!(queue[0].msg, execute_msg(d, amount, &vault.target_denom));
    assert_eq!(queue[0].funds, vec![coin(amount, &vault.target_denom)]);
}

#[test]
fn creates_post_execution_action_failed_event_on_failure() {
    let (mut state, vault) = with_queued_disbursements(automation_destinations(Some("{\"execute\":\"test\"}".to_string())));
    let env = mock_env();
    handle_failed_automation_handler(&mut state, &env, false).unwrap();
    let d = &vault.destinations[0];
    let amount = mul(vault.swap_amount, d.allocation);
    assert_eq!(
        events_of(&state, vault.id)[0],
        Event {
            id: 1,
            resource_id: vault.id,
            timestamp: env.time,
            block_height: env.height,
            data: EventData::DcaVaultPostExecutionActionFailed {
                msg: execute_msg(d, amount, &vault.target_denom),
                funds: vec![coin(amount, &vault.target_denom)],
            },
        }
    );
}

#[test]
fn sends_funds_to_vault_owner_on_failure() {
    let (mut state, vault) = with_queued_disbursements(automation_destinations(Some("{\"execute\":\"test\"}".to_string())));
    let response = handle_failed_automation_handler(&mut state, &mock_env(), false).unwrap();
    let amount = mul(vault.swap_amount, vault.destinations[0].allocation);
    assert_eq!(response.messages, vec![bank_send(&vault.owner, coin(amount, &vault.target_denom))]);
}

#[test]
fn if_vault_has_no_performance_assessment_strategy_fails() {
    let mut state = instantiate_contract();
    let vault = setup_vault(&mut state, default_vault());
    let err = get_vault_performance_handler(&state, vault.id, dec("1")).unwrap_err();
    assert_eq!(std_text(err), "Generic error: Vault 0 does not have a performance assessment strategy");
}

#[test]
fn get_vault_performance_performance_fee_and_factor_match() {
    let mut state = instantiate_contract();
    let standard_received_amount = TEN - ONE;
    let vault = setup_vault(&mut state, Vault {
        swapped_amount: coin(TEN, DENOM_STAKE),
        received_amount: coin(TEN, DENOM_STAKE),
        escrowed_amount: coin(TEN, DENOM_STAKE),
        swap_adjustment_strategy: default_swap_adjustment_strategy(),
        performance_assessment_strategy: Some(PerformanceAssessmentStrategy::CompareToStandardDca {
            swapped_amount: coin(TEN, DENOM_UOSMO),
            received_amount: coin(standard_received_amount, DENOM_STAKE),
        }),
        escrow_level: percent(5),
        ..default_vault()
    });
    let response = get_vault_performance_handler(&state, vault.id, dec("1")).unwrap();
    assert_eq!(
        response.fee,
        coin(mul(mul(standard_received_amount, response.factor) - standard_received_amount, percent(20)), DENOM_STAKE)
    );
}

#[test]
fn if_not_a_dca_plus_vault_fails() {
    let mut state = instantiate_contract();
    let vault = setup_vault(&mut state, default_vault());
    let err = get_dca_plus_performance_handler(&state, vault.id, dec("1")).unwrap_err();
    assert_eq!(std_text(err), "Generic error: Vault 0 is not a DCA Plus vault");
}

#[test]
fn get_dca_plus_performance_performance_fee_and_factor_match() {
    let mut state = instantiate_contract();
    let standard_received_amount = TEN - ONE;
    let vault = setup_vault(&mut state, Vault {
        swapped_amount: coin(TEN, DENOM_STAKE),
        received_amount: coin(TEN, DENOM_STAKE),
        escrowed_amount: coin(TEN, DENOM_STAKE),
        escrow_level: percent(5),
        swap_adjustment_strategy: default_swap_adjustment_strategy(),
        performance_assessment_strategy: Some(PerformanceAssessmentStrategy::CompareToStandardDca {
            swapped_amount: coin(TEN, DENOM_UOSMO),
            received_amount: coin(standard_received_amount, DENOM_STAKE),
        }),
        ..default_vault()
    });
    let response = get_dca_plus_performance_handler(&state, vault.id, dec("1")).unwrap();
    assert_eq!(
        response.fee,
        coin(mul(mul(standard_received_amount, response.factor) - standard_received_amount, percent(20)), DENOM_STAKE)
    );
}

fn with_events(n: usize) -> State {
    let mut state = instantiate_contract();
    let env = mock_env();
    for _ in 0..n {
        state.create_event(0, &env, EventData::DcaVaultCancelled);
    }
    state
}

#[test]
fn events_are_empty() {
    let state = instantiate_contract();
    assert_eq!(get_events_handler(state, None, None, None).unwrap().len(), 0);
}

#[test]
fn events_are_returned() {
    assert_eq!(get_events_handler(with_events(3), None, None, None).unwrap().len(), 3);
}

#[test]
fn events_are_not_reversed_when_reverse_is_none() {
    let events = get_events_handler(with_events(3), None, None, None).unwrap();
    assert_eq!(events.first().unwrap().id, 1);
    assert_eq!(events.last().unwrap().id, 3);
}

#[test]
fn events_are_not_reversed_when_reverse_is_false() {
    let events = get_events_handler(with_events(3), None, None, Some(false)).unwrap();
    assert_eq!(events.first().unwrap().id, 1);
    assert_eq!(events.last().unwrap().id, 3);
}

#[test]
fn events_are_limited() {
    assert_eq!(get_events_handler(with_events(40), None, Some(30), None).unwrap().len(), 30);
}

#[test]
fn events_are_skipped() {
    assert_eq!(get_events_handler(with_events(3), Some(2), None, None).unwrap().len(), 1);
}

#[test]
fn events_are_reversed() {
    let events = get_events_handler(with_events(3), None, None, Some(true)).unwrap();
    assert_eq!(events.first().unwrap().id, 3);
    assert_eq!(events.last().unwrap().id, 1);
}

#[test]
fn events_are_skipped_and_limited() {
    let events = get_events_handler(with_events(40), Some(1), Some(30), None).unwrap();
    assert_eq!(events.len(), 30);
    assert_eq!(events.first().unwrap().id, 2);
}

#[test]
fn events_are_skipped_and_reversed() {
    let events = get_events_handler(with_events(3), Some(3), None, Some(true)).unwrap();
    assert_eq!(events.first().unwrap().id, 2);
    assert_eq!(events.last().unwrap().id, 1);
}

#[test]
fn events_are_skipped_reversed_and_limited() {
    let events = get_events_handler(with_events(40), Some(36), Some(30), Some(true)).unwrap();
    assert_eq!(events.len(), 30);
    assert_eq!(events.first().unwrap().id, 35);
}

fn target_denom_sent(messages: &[dca::types::SubMsg], denom: &str) -> u128 {
    messages.iter().map(|m| match &m.msg {
        CosmosMsg::BankSend { amount, .. } => amount.iter().filter(|c| c.denom == denom).map(|c| c.amount).sum(),
        CosmosMsg::ExecuteContract { funds, .. } => funds.iter().filter(|c| c.denom == denom).map(|c| c.amount).sum(),
        _ => 0,
    }).sum()
}

#[test]
fn a_disbursement_never_sends_more_than_the_swap_received() {
    let mut state = instantiate_contract_with_multiple_fee_collectors(vec![
        FeeCollector { address: "fee_collector_1".to_string(), allocation: percent(33) },
        FeeCollector { address: "fee_collector_2".to_string(), allocation: percent(67) },
    ]);
    let vault = setup_vault(&mut state, Vault {
        destinations: vec![
            Destination { address: "a".to_string(), allocation: percent(33), msg: None },
            Destination { address: "b".to_string(), allocation: percent(67), msg: Some("{}".to_string()) },
        ],
        ..default_vault()
    });
    let receive_amount = 1_000_003;
    cache_swap(&mut state, &vault);
    let response = disburse_funds_handler(&mut state, &mock_env(), succeeded(0, receive_amount)).unwrap();
    let sent = target_denom_sent(&response.messages, &vault.target_denom);
    assert!(sent > 0);
    assert!(sent <= receive_amount);
}
