use dca::error::{ContractError, StdError};
use dca::handlers::admin::instantiate_handler;
use dca::math::Decimal;
use dca::state::State;
use dca::types::{
    Coin, Config, Destination, Env, FeeCollector, MessageInfo, Pair, TimeInterval,
    TriggerConfiguration, Vault, VaultStatus,
};
use dca::validation::{AddressBook, PoolInfo, RejectedAddress};
use std::str::FromStr;

const ADMIN: &str = "admin";
const USER: &str = "user";
const DENOM_STAKE: &str = "stake";
const DENOM_UOSMO: &str = "uosmo";
const DENOM_UATOM: &str = "uatom";
const ONE: u128 = 1_000_000;
const TEN: u128 = 10_000_000;
const SHORT_ADDRESS_REASON: &str =
    "Invalid input: human address too short for this mock implementation (must be >= 3).";

fn dec(s: &str) -> Decimal {
    Decimal { atomics: cosmwasm_std::Decimal::from_str(s).unwrap().atomics().u128() }
}

fn percent(n: u64) -> Decimal {
    Decimal::percent(n)
}

fn mul(amount: u128, d: Decimal) -> u128 {
    (cosmwasm_std::Uint128::new(amount)
        * cosmwasm_std::Decimal::raw(d.atomics))
    .u128()
}

fn coin(amount: u128, denom: &str) -> Coin {
    Coin { denom: denom.to_string(), amount }
}

fn mock_env() -> Env {
    Env { height: 12_345, time: 1_571_797_419_879_305_533, contract_address: "cosmos2contract".to_string() }
}

fn mock_info(sender: &str, funds: &[Coin]) -> MessageInfo {
    MessageInfo { sender: sender.to_string(), funds: funds.to_vec() }
}

fn mock_api() -> AddressBook {
    AddressBook {
        rejected: vec![RejectedAddress { address: String::new(), reason: SHORT_ADDRESS_REASON.to_string() }],
    }
}

fn mock_pools() -> Vec<PoolInfo> {
    vec![
        PoolInfo { id: 1, denoms: vec![DENOM_UATOM.to_string(), DENOM_STAKE.to_string()] },
        PoolInfo { id: 2, denoms: vec![DENOM_UATOM.to_string(), DENOM_STAKE.to_string()] },
        PoolInfo { id: 3, denoms: vec![DENOM_UOSMO.to_string(), DENOM_STAKE.to_string()] },
        PoolInfo { id: 4, denoms: vec![DENOM_UOSMO.to_string(), DENOM_UATOM.to_string()] },
    ]
}

fn default_config() -> Config {
    Config {
        admin: ADMIN.to_string(),
        executors: vec![ADMIN.to_string()],
        fee_collectors: vec![FeeCollector { address: ADMIN.to_string(), allocation: dec("1") }],
        default_swap_fee_percent: dec("0.015"),
        weighted_scale_swap_fee_percent: percent(1),
        automation_fee_percent: dec("0.0075"),
        default_page_limit: 30,
        paused: false,
        risk_weighted_average_escrow_level: dec("0.05"),
        twap_period: 30,
        default_slippage_tolerance: percent(2),
    }
}

fn instantiate_contract() -> State {
    instantiate_handler(&mock_api(), default_config()).unwrap().0
}

fn instantiate_contract_with_multiple_fee_collectors(fee_collectors: Vec<FeeCollector>) -> State {
    instantiate_handler(&mock_api(), Config { fee_collectors, ..default_config() }).unwrap().0
}

fn default_pair() -> Pair {
    Pair { base_denom: DENOM_UOSMO.to_string(), quote_denom: DENOM_STAKE.to_string(), route: vec![3] }
}

fn default_destination() -> Destination {
    Destination { address: USER.to_string(), allocation: dec("1"), msg: None }
}

fn default_vault() -> Vault {
    let env = mock_env();
    Vault {
        id: 0,
        created_at: env.time,
        started_at: None,
        owner: USER.to_string(),
        label: None,
        destinations: vec![default_destination()],
        status: VaultStatus::Active,
        balance: coin(TEN, DENOM_UOSMO),
        target_denom: DENOM_STAKE.to_string(),
        swap_amount: ONE,
        position_type: None,
        slippage_tolerance: Some(percent(10)),
        minimum_receive_amount: None,
        time_interval: TimeInterval::Daily,
        escrow_level: percent(0),
        deposited_amount: coin(TEN, DENOM_UOSMO),
        swapped_amount: coin(0, DENOM_UOSMO),
        received_amount: coin(0, DENOM_STAKE),
        escrowed_amount: coin(0, DENOM_STAKE),
        swap_adjustment_strategy: None,
        performance_assessment_strategy: None,
        trigger: Some(TriggerConfiguration::Time { target_time: env.time }),
        pair: default_pair(),
    }
}

/// Stores a vault as it is (and the default pair, if the store has none), and caches it
/// as the vault whose swap is pending.
fn setup_vault(state: &mut State, vault: Vault) -> Vault {
    if state.pairs.is_empty() {
        state.pairs.push(default_pair());
    }
    if state.next_vault_id <= vault.id {
        state.next_vault_id = vault.id + 1;
    }
    state.vaults.push(vault.clone());
    state.vault_cache = Some(vault.id);
    vault
}

fn stored_vault(state: &State, id: u128) -> Vault {
    dca::handlers::vaults::get_vault_handler(state, id).unwrap()
}

fn err_text(e: ContractError) -> String {
    e.message()
}

fn std_text(e: StdError) -> String {
    e.message()
}

use dca::disbursement::settle_swap;
use dca::pricing::{belief_price, route_hops, Hop};
use dca::handlers::admin::{create_custom_swap_fee_handler, remove_custom_swap_fee_handler, save_pair, update_config_handler, ConfigUpdate};
use dca::handlers::delegation::{after_z_delegation, coin_from_display_formatted_coin, get_attribute_in_event};
use dca::handlers::escrow::{get_performance_factor, get_performance_fee};
use dca::handlers::events::{get_data_fixes_by_resource_id, get_events_handler, get_time_trigger_ids_handler};
use dca::handlers::execution::{
    check_trigger_fires, execute_trigger_handler, get_vault_swap_amount, get_weighted_scale_factor, route_reply, ReplyKind,
    simulate_standard_dca_execution,
};
use dca::handlers::fin::{
    after_fin_limit_order_retracted, after_fin_limit_order_withdrawn_for_cancel_vault, after_fin_swap,
    claim_escrowed_funds_handler, parse_u128_text,
};
use dca::handlers::execution::SwapBalances;
use dca::handlers::vaults::{cancel_vault, deposit, LimitOrderDetails};
use dca::schedule::{get_minimum_receive, get_next_target_time, get_swap_amount};
use dca::state::{DataFix, LimitOrderCache, SwapCache};
use dca::text::{amount_text, fraction_text};
use dca::types::{
    Attribute, CosmosMsg, EventData, ExecutionSkippedReason, PerformanceAssessmentStrategy, ReplyEvent,
    SelfMsg, SubMsg, SwapAdjustmentStrategy, AFTER_SWAP_REPLY_ID,
};

const DAY: u64 = 86_400_000_000_000;

fn scheduled_vault() -> Vault {
    Vault { status: VaultStatus::Scheduled, ..default_vault() }
}

#[test]
fn execute_trigger_starts_a_scheduled_vault_and_swaps_its_amount() {
    let mut state = instantiate_contract();
    let env = mock_env();
    let vault = setup_vault(&mut state, scheduled_vault());
    state.vault_cache = None;
    let response = execute_trigger_handler(&mut state, &env, vault.id, dec("2"), TEN, 0).unwrap();
    let updated = stored_vault(&state, vault.id);
    assert_eq!(updated.status, VaultStatus::Active);
    assert_eq!(updated.started_at, Some(env.time));
    assert_eq!(updated.trigger, Some(TriggerConfiguration::Time { target_time: env.time + DAY }));
    assert_eq!(state.vault_cache, Some(vault.id));
    assert_eq!(state.swap_cache, Some(SwapCache { swap_denom_balance: coin(TEN, DENOM_UOSMO), receive_denom_balance: coin(0, DENOM_STAKE) }));
    assert_eq!(response.messages.len(), 1);
    assert_eq!(response.messages[0].reply_id, Some(AFTER_SWAP_REPLY_ID));
    match &response.messages[0].msg {
        CosmosMsg::Swap { pair, offer, minimum_receive } => {
            assert_eq!(pair, &default_pair());
            assert_eq!(offer, &coin(ONE, DENOM_UOSMO));
            // ONE at a price of two gives half of ONE, less the vault's 10% slippage.
            assert_eq!(*minimum_receive, Some(450_000));
        },
        other => panic!("unexpected message {:?}", other),
    }
    assert_eq!(state.events.len(), 1);
    assert_eq!(
        state.events[0].data,
        EventData::DcaVaultExecutionTriggered { base_denom: DENOM_UOSMO.to_string(), quote_denom: DENOM_STAKE.to_string(), asset_price: dec("2") }
    );
}

#[test]
fn execute_trigger_of_a_cancelled_vault_fails() {
    let mut state = instantiate_contract();
    let vault = setup_vault(&mut state, Vault { id: 42, status: VaultStatus::Cancelled, ..default_vault() });
    let before = state.clone();
    let err = execute_trigger_handler(&mut state, &mock_env(), vault.id, dec("1"), 0, 0).unwrap_err();
    assert_eq!(err_text(err), "Error: vault with id 42 is cancelled, and is not available for execution");
    assert_eq!(state, before);
}

#[test]
fn execute_trigger_without_trigger_fails() {
    let mut state = instantiate_contract();
    let vault = setup_vault(&mut state, Vault { trigger: None, ..default_vault() });
    let err = execute_trigger_handler(&mut state, &mock_env(), vault.id, dec("1"), 0, 0).unwrap_err();
    assert_eq!(err_text(err), "Error: vault with id 0 has no trigger attached, and is not available for execution");
}

#[test]
fn execute_trigger_before_its_time_fails() {
    let mut state = instantiate_contract();
    let env = mock_env();
    let vault = setup_vault(&mut state, Vault { trigger: Some(TriggerConfiguration::Time { target_time: env.time + 1 }), ..default_vault() });
    let err = execute_trigger_handler(&mut state, &env, vault.id, dec("1"), 0, 0).unwrap_err();
    assert_eq!(err_text(err), "Error: trigger execution time has not yet elapsed");
}

#[test]
fn execute_trigger_when_paused_fails() {
    let mut state = instantiate_contract();
    let vault = setup_vault(&mut state, default_vault());
    state.config.paused = true;
    let err = execute_trigger_handler(&mut state, &mock_env(), vault.id, dec("1"), 0, 0).unwrap_err();
    assert_eq!(err_text(err), "Error: contract is paused");
}

#[test]
fn execute_trigger_of_unknown_vault_fails() {
    let mut state = instantiate_contract();
    let err = execute_trigger_handler(&mut state, &mock_env(), 9, dec("1"), 0, 0).unwrap_err();
    assert_eq!(err_text(err), "vault for id 9 not found");
}

#[test]
fn execute_trigger_beyond_the_price_threshold_skips() {
    let mut state = instantiate_contract();
    let env = mock_env();
    let vault = setup_vault(&mut state, Vault { minimum_receive_amount: Some(ONE), ..default_vault() });
    let response = execute_trigger_handler(&mut state, &env, vault.id, dec("2"), TEN, 0).unwrap();
    assert!(response.messages.is_empty());
    assert_eq!(state.events.len(), 2);
    assert_eq!(
        state.events[1].data,
        EventData::DcaVaultExecutionSkipped { reason: ExecutionSkippedReason::PriceThresholdExceeded { price: dec("2") } }
    );
    assert!(stored_vault(&state, vault.id).trigger.is_some());
}

#[test]
fn execute_trigger_of_a_finished_vault_pays_out_its_escrow() {
    let mut state = instantiate_contract();
    let vault = setup_vault(&mut state, Vault {
        status: VaultStatus::Inactive,
        performance_assessment_strategy: Some(PerformanceAssessmentStrategy::CompareToStandardDca {
            swapped_amount: coin(TEN, DENOM_UOSMO),
            received_amount: coin(TEN, DENOM_STAKE),
        }),
        ..default_vault()
    });
    let response = execute_trigger_handler(&mut state, &mock_env(), vault.id, dec("1"), 0, 0).unwrap();
    assert_eq!(response.messages, vec![SubMsg { msg: CosmosMsg::ExecuteSelf { msg: SelfMsg::DisburseEscrow { vault_id: vault.id } }, reply_id: None }]);
    assert_eq!(stored_vault(&state, vault.id).trigger, None);
}

#[test]
fn execute_trigger_runs_the_standard_dca_alongside() {
    let mut state = instantiate_contract();
    let vault = setup_vault(&mut state, Vault {
        performance_assessment_strategy: Some(PerformanceAssessmentStrategy::CompareToStandardDca {
            swapped_amount: coin(0, DENOM_UOSMO),
            received_amount: coin(0, DENOM_STAKE),
        }),
        ..default_vault()
    });
    execute_trigger_handler(&mut state, &mock_env(), vault.id, dec("1"), TEN, 0).unwrap();
    // ONE swapped at a price of one, less the 1.5% swap fee (no destination is automated).
    assert_eq!(
        stored_vault(&state, vault.id).performance_assessment_strategy,
        Some(PerformanceAssessmentStrategy::CompareToStandardDca { swapped_amount: coin(ONE, DENOM_UOSMO), received_amount: coin(985_000, DENOM_STAKE) })
    );
}

#[test]
fn simulation_skips_a_vault_without_a_performance_strategy() {
    let state = instantiate_contract();
    let vault = default_vault();
    assert_eq!(simulate_standard_dca_execution(&state, vault.clone(), dec("1")).unwrap(), vault);
}

#[test]
fn next_target_time_follows_the_schedule() {
    let now = 10 * DAY + 5;
    assert_eq!(get_next_target_time(now, now - 1, &TimeInterval::Daily), now - 1 + DAY);
    assert_eq!(get_next_target_time(now, 3 * DAY, &TimeInterval::Daily), 11 * DAY);
    assert_eq!(get_next_target_time(now, 10 * DAY + 5, &TimeInterval::Hourly), 10 * DAY + 5 + 3_600_000_000_000);
    assert_eq!(get_next_target_time(u64::MAX - 1, u64::MAX - 1, &TimeInterval::Monthly), u64::MAX);
}

#[test]
fn swap_amount_is_scaled_and_capped_by_the_balance() {
    assert_eq!(get_swap_amount(ONE, dec("1.5"), TEN), 1_500_000);
    assert_eq!(get_swap_amount(ONE, dec("0.25"), TEN), 250_000);
    assert_eq!(get_swap_amount(ONE, dec("20"), TEN), TEN);
}

#[test]
fn minimum_receive_takes_off_the_slippage() {
    assert_eq!(get_minimum_receive(ONE, dec("0.5"), percent(2)), 1_960_000);
    assert_eq!(get_minimum_receive(ONE, dec("1"), percent(150)), 0);
}

#[test]
fn weighted_scale_factor_moves_against_the_price() {
    // base price: ONE per 500_000, i.e. 2.
    assert_eq!(get_weighted_scale_factor(ONE, 500_000, percent(100), false, dec("2")), Some(dec("1").atomics));
    assert_eq!(get_weighted_scale_factor(ONE, 500_000, percent(100), false, dec("3")), Some(dec("0.5").atomics));
    assert_eq!(get_weighted_scale_factor(ONE, 500_000, percent(100), true, dec("3")), Some(dec("1").atomics));
    assert_eq!(get_weighted_scale_factor(ONE, 500_000, percent(200), false, dec("1")), Some(dec("2").atomics));
    assert_eq!(get_weighted_scale_factor(ONE, 500_000, percent(300), false, dec("5")), Some(0));
}

#[test]
fn vault_swap_amount_uses_the_published_adjustment() {
    let mut state = instantiate_contract();
    let strategy = SwapAdjustmentStrategy::RiskWeightedAverage { model_id: 30, base_denom: dca::types::BaseDenom::Bitcoin, position_type: dca::types::PositionType::Enter };
    dca::handlers::admin::update_swap_adjustment(&mut state, strategy, dec("1.3"), 0);
    let vault = Vault { swap_adjustment_strategy: Some(strategy), ..default_vault() };
    assert_eq!(get_vault_swap_amount(&state, &vault, dec("1")).unwrap(), 1_300_000);
}

#[test]
fn settlement_parts_add_up_to_what_was_received() {
    let received = 234_312_312;
    let s = settle_swap(received, dec("0.015"), dec("0.0075"), percent(5)).unwrap();
    assert_eq!(s.swap_fee, 3_514_684);
    assert_eq!(s.automation_fee, 1_730_982);
    assert_eq!(s.swap_fee + s.automation_fee + s.escrowed + s.disbursed, received);
    assert!(settle_swap(received, dec("2"), percent(0), percent(0)).is_err());
}

#[test]
fn fee_collectors_together_get_no_more_than_the_fee() {
    let mut state = instantiate_contract_with_multiple_fee_collectors(vec![
        FeeCollector { address: "a".to_string(), allocation: dec("0.333333333333333333") },
        FeeCollector { address: "b".to_string(), allocation: dec("0.333333333333333333") },
        FeeCollector { address: "c".to_string(), allocation: dec("0.333333333333333334") },
    ]);
    let vault = setup_vault(&mut state, default_vault());
    state.swap_cache = Some(SwapCache { swap_denom_balance: vault.balance.clone(), receive_denom_balance: coin(0, DENOM_STAKE) });
    let response = dca::handlers::execution::disburse_funds_handler(&mut state, &mock_env(), Some(SwapBalances { swap_denom: 0, receive_denom: 1_000_001 })).unwrap();
    let paid: u128 = response.messages.iter().filter_map(|m| match &m.msg {
        CosmosMsg::BankSend { to_address, amount } if to_address.len() == 1 => Some(amount[0].amount),
        _ => None,
    }).sum();
    assert!(paid <= mul(1_000_001, dec("0.015")));
}

#[test]
fn performance_is_measured_against_the_standard_dca() {
    let vault = Vault {
        deposited_amount: coin(TEN, DENOM_UOSMO),
        swapped_amount: coin(5 * ONE, DENOM_UOSMO),
        received_amount: coin(4 * ONE, DENOM_STAKE),
        escrowed_amount: coin(ONE, DENOM_STAKE),
        performance_assessment_strategy: Some(PerformanceAssessmentStrategy::CompareToStandardDca {
            swapped_amount: coin(5 * ONE, DENOM_UOSMO),
            received_amount: coin(2 * ONE, DENOM_STAKE),
        }),
        ..default_vault()
    };
    // At a price of 2.5 the rest of the deposit is worth 2 ONE: 6 ONE against 4 ONE.
    assert_eq!(get_performance_factor(&vault, dec("2.5")).unwrap(), dec("1.5"));
    assert_eq!(get_performance_fee(&vault, dec("2.5")).unwrap(), coin(400_000, DENOM_STAKE));
    let empty_standard = Vault {
        deposited_amount: coin(0, DENOM_UOSMO),
        performance_assessment_strategy: Some(PerformanceAssessmentStrategy::CompareToStandardDca {
            swapped_amount: coin(0, DENOM_UOSMO),
            received_amount: coin(0, DENOM_STAKE),
        }),
        ..vault
    };
    assert_eq!(err_text(get_performance_factor(&empty_standard, dec("1")).unwrap_err()), "Generic error: Denominator must not be zero");
}

#[test]
fn creating_then_removing_a_custom_fee_restores_the_lookups() {
    let mut state = instantiate_contract();
    save_pair(&mut state, Pair { base_denom: DENOM_UOSMO.to_string(), quote_denom: DENOM_STAKE.to_string(), route: vec![3] });
    create_custom_swap_fee_handler(&mut state, &ADMIN.to_string(), DENOM_STAKE.to_string(), percent(2)).unwrap();
    let before = state.custom_fees.clone();
    create_custom_swap_fee_handler(&mut state, &ADMIN.to_string(), DENOM_UOSMO.to_string(), percent(1)).unwrap();
    remove_custom_swap_fee_handler(&mut state, &ADMIN.to_string(), DENOM_UOSMO.to_string()).unwrap();
    assert_eq!(state.get_custom_fee(&DENOM_STAKE.to_string()), Some(percent(2)));
    assert_eq!(state.get_custom_fee(&DENOM_UOSMO.to_string()), None);
    assert_eq!(state.custom_fees, before);
}

#[test]
fn an_update_without_fields_keeps_the_configuration() {
    let mut state = instantiate_contract();
    let before = state.config.clone();
    update_config_handler(&mut state, &mock_api(), &ADMIN.to_string(), ConfigUpdate::default()).unwrap();
    assert_eq!(state.config, before);
}

#[test]
fn a_refused_update_changes_nothing() {
    let mut state = instantiate_contract();
    let before = state.clone();
    assert!(update_config_handler(&mut state, &mock_api(), &USER.to_string(), ConfigUpdate::default()).is_err());
    assert_eq!(state, before);
}

#[test]
fn a_cancelled_vault_is_empty_and_cannot_be_cancelled_again() {
    let mut state = instantiate_contract();
    let env = mock_env();
    let vault = setup_vault(&mut state, default_vault());
    let response = cancel_vault(&mut state, &env, &USER.to_string(), vault.id, &"fin".to_string(), None).unwrap();
    assert_eq!(response.messages[0], SubMsg { msg: CosmosMsg::BankSend { to_address: USER.to_string(), amount: vec![coin(TEN, DENOM_UOSMO)] }, reply_id: None });
    let cancelled = stored_vault(&state, vault.id);
    assert_eq!(cancelled.status, VaultStatus::Cancelled);
    assert_eq!(cancelled.balance.amount, 0);
    assert_eq!(cancelled.trigger, None);
    let err = cancel_vault(&mut state, &env, &USER.to_string(), vault.id, &"fin".to_string(), None).unwrap_err();
    assert_eq!(err_text(err), "Error: vault is already cancelled");
}

#[test]
fn a_deposit_adds_its_amount() {
    let mut state = instantiate_contract();
    let vault = setup_vault(&mut state, default_vault());
    let info = mock_info(USER, &[coin(ONE, DENOM_UOSMO)]);
    deposit(&mut state, &mock_api(), &mock_env(), &info, &USER.to_string(), vault.id).unwrap();
    let updated = stored_vault(&state, vault.id);
    assert_eq!(updated.balance, coin(TEN + ONE, DENOM_UOSMO));
    assert_eq!(updated.deposited_amount, coin(TEN + ONE, DENOM_UOSMO));
}

#[test]
fn reply_ids_route_to_their_handlers() {
    assert_eq!(route_reply(1).unwrap(), ReplyKind::Swap);
    assert_eq!(route_reply(2).unwrap(), ReplyKind::Delegation);
    assert_eq!(route_reply(3).unwrap(), ReplyKind::ProvideLiquidity);
    assert_eq!(route_reply(4).unwrap(), ReplyKind::BondLpTokens);
    assert_eq!(err_text(route_reply(5).unwrap_err()), "Error: unhandled DCA contract reply id: 5");
    assert_eq!(err_text(route_reply(99).unwrap_err()), "Error: unhandled DCA contract reply id: 99");
}

#[test]
fn numbers_and_fractions_are_written_as_the_chain_writes_them() {
    assert_eq!(amount_text(1234500), "1234500");
    assert_eq!(fraction_text(dec("0.015")), "0.015");
    assert_eq!(fraction_text(dec("2")), "2");
}

#[test]
fn display_formatted_coins_are_read_back() {
    let c = coin_from_display_formatted_coin(&"1234uosmo".to_string());
    assert_eq!(c, coin(1234, DENOM_UOSMO));
    assert_eq!(parse_u128_text(&"340282366920938463463374607431768211455".to_string()), u128::MAX);
}

#[test]
fn delegation_outcome_is_recorded() {
    let mut state = instantiate_contract();
    let vault = setup_vault(&mut state, default_vault());
    let events = vec![ReplyEvent {
        ty: "delegate".to_string(),
        attributes: vec![
            Attribute { key: "validator".to_string(), value: "validator".to_string() },
            Attribute { key: "amount".to_string(), value: "100uosmo".to_string() },
        ],
    }];
    after_z_delegation(&mut state, &mock_env(), Ok(events)).unwrap();
    assert_eq!(
        state.events.last().unwrap().data,
        EventData::DcaVaultZDelegationSucceeded { validator_address: "validator".to_string(), delegation: coin(100, DENOM_UOSMO) }
    );
    assert_eq!(
        get_attribute_in_event(&vec![], "delegate", "amount").unwrap_err().message(),
        "Generic error: unable to find amount attribute in delegate event"
    );
    let _ = vault;
}

#[test]
fn due_time_triggers_are_listed() {
    let mut state = instantiate_contract();
    let env = mock_env();
    setup_vault(&mut state, Vault { id: 1, ..default_vault() });
    setup_vault(&mut state, Vault { id: 2, trigger: Some(TriggerConfiguration::Time { target_time: env.time + 1 }), ..default_vault() });
    assert_eq!(get_time_trigger_ids_handler(&state, &env, None).unwrap(), vec![1]);
}

#[test]
fn reversed_event_pages_read_newest_first() {
    let mut state = instantiate_contract();
    let env = mock_env();
    for _ in 0..5 {
        state.create_event(0, &env, EventData::DcaVaultCancelled);
    }
    let ids: Vec<u64> = get_events_handler(state, None, None, Some(true)).unwrap().iter().map(|e| e.id).collect();
    assert_eq!(ids, vec![5, 4, 3, 2, 1]);
}

fn fin_vault(state: &mut State) -> Vault {
    let vault = setup_vault(state, Vault {
        trigger: Some(TriggerConfiguration::FinLimitOrder { target_price: dec("1"), order_idx: Some(7) }),
        ..default_vault()
    });
    state.limit_order_cache = Some(LimitOrderCache {
        order_idx: 7,
        original_offer_amount: ONE,
        filled: 0,
        swap_denom_balance: coin(100, DENOM_UOSMO),
        receive_denom_balance: coin(50, DENOM_STAKE),
    });
    vault
}

#[test]
fn a_fully_retracted_limit_order_cancels_the_vault() {
    let mut state = instantiate_contract();
    let vault = fin_vault(&mut state);
    let response = after_fin_limit_order_retracted(&mut state, &"fin".to_string(), Ok(100 + ONE)).unwrap();
    assert_eq!(response.messages, vec![SubMsg { msg: CosmosMsg::BankSend { to_address: USER.to_string(), amount: vec![coin(TEN + ONE, DENOM_UOSMO)] }, reply_id: None }]);
    assert_eq!(stored_vault(&state, vault.id).status, VaultStatus::Cancelled);
}

#[test]
fn a_partly_filled_limit_order_is_withdrawn() {
    let mut state = instantiate_contract();
    let vault = fin_vault(&mut state);
    let response = after_fin_limit_order_retracted(&mut state, &"fin".to_string(), Ok(100 + ONE / 2)).unwrap();
    assert_eq!(response.messages.len(), 2);
    assert_eq!(response.messages[1].msg, CosmosMsg::FinWithdrawOrder { pair_address: "fin".to_string(), order_idx: 7 });
    assert_eq!(stored_vault(&state, vault.id).status, VaultStatus::Active);
    let response = after_fin_limit_order_withdrawn_for_cancel_vault(&mut state, Ok(50 + 400)).unwrap();
    assert_eq!(response.messages, vec![SubMsg { msg: CosmosMsg::BankSend { to_address: USER.to_string(), amount: vec![coin(400, DENOM_STAKE)] }, reply_id: None }]);
    assert_eq!(stored_vault(&state, vault.id).status, VaultStatus::Cancelled);
    let err = after_fin_limit_order_retracted(&mut state, &"fin".to_string(), Err("boom".to_string())).unwrap_err();
    assert_eq!(err_text(err), "Error: failed to retract fin limit order for vault id: 0 - boom");
}

#[test]
fn a_fin_swap_is_paid_out_or_skipped() {
    let mut state = instantiate_contract();
    let vault = setup_vault(&mut state, default_vault());
    state.swap_cache = Some(SwapCache { swap_denom_balance: coin(TEN, DENOM_UOSMO), receive_denom_balance: coin(0, DENOM_STAKE) });
    let response = after_fin_swap(&mut state, &mock_env(), Some(SwapBalances { swap_denom: TEN - ONE, receive_denom: 10000 }), dec("1")).unwrap();
    assert_eq!(response.attributes[2], Attribute { key: "status".to_string(), value: "success".to_string() });
    assert_eq!(stored_vault(&state, vault.id).balance.amount, TEN - ONE);
    let response = after_fin_swap(&mut state, &mock_env(), None, dec("1")).unwrap();
    assert_eq!(response.attributes[2], Attribute { key: "status".to_string(), value: "skipped".to_string() });
}

#[test]
fn claimed_escrow_goes_to_the_destinations() {
    let mut state = instantiate_contract();
    let vault = setup_vault(&mut state, Vault {
        escrowed_amount: coin(ONE, DENOM_STAKE),
        performance_assessment_strategy: Some(PerformanceAssessmentStrategy::CompareToStandardDca { swapped_amount: coin(0, DENOM_UOSMO), received_amount: coin(0, DENOM_STAKE) }),
        ..default_vault()
    });
    let response = claim_escrowed_funds_handler(&mut state, &USER.to_string(), vault.id, dec("1")).unwrap();
    assert!(response.messages.contains(&SubMsg { msg: CosmosMsg::BankSend { to_address: USER.to_string(), amount: vec![coin(ONE, DENOM_STAKE)] }, reply_id: None }));
    assert_eq!(stored_vault(&state, vault.id).escrowed_amount.amount, 0);
    let err = claim_escrowed_funds_handler(&mut state, &"stranger".to_string(), vault.id, dec("1")).unwrap_err();
    assert_eq!(err_text(err), "Unauthorized");
}

#[test]
fn forward_event_pages_follow_the_start() {
    let mut state = instantiate_contract();
    let env = mock_env();
    for _ in 0..6 {
        state.create_event(0, &env, EventData::DcaVaultCancelled);
    }
    let ids: Vec<u64> = get_events_handler(state.clone(), Some(2), Some(3), None).unwrap().iter().map(|e| e.id).collect();
    assert_eq!(ids, vec![3, 4, 5]);
    let ids: Vec<u64> = get_events_handler(state.clone(), Some(4), Some(10), None).unwrap().iter().map(|e| e.id).collect();
    assert_eq!(ids, vec![5, 6]);
    assert!(get_events_handler(state, Some(6), None, None).unwrap().is_empty());
}

#[test]
fn a_saved_pair_is_found_by_either_denomination_order_and_saving_twice_changes_nothing() {
    let mut state = instantiate_contract();
    let pair = Pair { base_denom: DENOM_UATOM.to_string(), quote_denom: DENOM_STAKE.to_string(), route: vec![1] };
    save_pair(&mut state, pair.clone());
    let i = state.find_pair(&DENOM_STAKE.to_string(), &DENOM_UATOM.to_string()).unwrap();
    assert_eq!(state.find_pair(&DENOM_UATOM.to_string(), &DENOM_STAKE.to_string()), Some(i));
    assert_eq!(state.pairs[i], pair);
    let before = state.pairs.clone();
    save_pair(&mut state, pair);
    assert_eq!(state.pairs, before);
    let replaced = Pair { base_denom: DENOM_UATOM.to_string(), quote_denom: DENOM_STAKE.to_string(), route: vec![2] };
    save_pair(&mut state, replaced.clone());
    assert_eq!(state.pairs.len(), 1);
    assert_eq!(state.pairs[0], replaced);
}

#[test]
fn a_swap_walks_the_route_in_its_direction() {
    let pair = Pair { base_denom: DENOM_UOSMO.to_string(), quote_denom: DENOM_STAKE.to_string(), route: vec![4, 1] };
    let hop = |id: u64, from: &str, to: &str| Hop { pool_id: id, offer_denom: from.to_string(), receive_denom: to.to_string() };
    assert_eq!(
        route_hops(&mock_pools(), &pair, &DENOM_UOSMO.to_string()).unwrap(),
        vec![hop(4, DENOM_UOSMO, DENOM_UATOM), hop(1, DENOM_UATOM, DENOM_STAKE)]
    );
    assert_eq!(
        route_hops(&mock_pools(), &pair, &DENOM_STAKE.to_string()).unwrap(),
        vec![hop(1, DENOM_STAKE, DENOM_UATOM), hop(4, DENOM_UATOM, DENOM_UOSMO)]
    );
    let unknown = Pair { route: vec![9], ..pair };
    assert_eq!(route_hops(&mock_pools(), &unknown, &DENOM_UOSMO.to_string()), None);
}

#[test]
fn the_belief_price_is_the_product_of_the_spot_prices() {
    assert_eq!(belief_price(&vec![]).unwrap(), dec("1"));
    assert_eq!(belief_price(&vec![dec("2"), dec("1.5")]).unwrap(), dec("3"));
    assert_eq!(belief_price(&vec![dec("0.333333333333333333"), dec("3")]).unwrap(), dec("0.999999999999999999"));
    let huge = Decimal { atomics: u128::MAX };
    let err = belief_price(&vec![huge, dec("2")]).unwrap_err();
    assert!(matches!(err, StdError::Overflow { .. }));
    assert!(std_text(err).starts_with("Overflow: Cannot Mul with "));
}

#[test]
fn a_trigger_is_checked_before_its_price_is_needed() {
    let mut state = instantiate_contract();
    let env = mock_env();
    let due = setup_vault(&mut state, Vault { id: 1, ..default_vault() });
    let early = setup_vault(&mut state, Vault { id: 2, trigger: Some(TriggerConfiguration::Time { target_time: env.time + 1 }), ..default_vault() });
    assert_eq!(check_trigger_fires(&state, &env, due.id), Ok(0));
    assert_eq!(err_text(check_trigger_fires(&state, &env, early.id).unwrap_err()), "Error: trigger execution time has not yet elapsed");
    let cancelled = setup_vault(&mut state, Vault { id: 3, status: VaultStatus::Cancelled, ..default_vault() });
    assert_eq!(
        err_text(check_trigger_fires(&state, &env, cancelled.id).unwrap_err()),
        "Error: vault with id 3 is cancelled, and is not available for execution"
    );
}

#[test]
fn forward_event_pages_without_a_start_begin_at_the_first_event() {
    let mut state = instantiate_contract();
    let env = mock_env();
    for _ in 0..4 {
        state.create_event(0, &env, EventData::DcaVaultCancelled);
    }
    let ids: Vec<u64> = get_events_handler(state.clone(), None, Some(3), None).unwrap().iter().map(|e| e.id).collect();
    assert_eq!(ids, vec![1, 2, 3]);
    let ids: Vec<u64> = get_events_handler(state, None, None, None).unwrap().iter().map(|e| e.id).collect();
    assert_eq!(ids, vec![1, 2, 3, 4]);
}

#[test]
fn data_fixes_are_paged_by_resource() {
    let mut state = instantiate_contract();
    for (id, resource_id) in [(1u64, 7u128), (2, 8), (3, 7), (4, 7)] {
        state.data_fixes.push(DataFix { id, resource_id, timestamp: 0, block_height: 0, data: String::new() });
    }
    let ids = |fixes: Vec<DataFix>| fixes.iter().map(|f| f.id).collect::<Vec<_>>();
    assert_eq!(ids(get_data_fixes_by_resource_id(&state, 7, None, None).unwrap()), vec![1, 3, 4]);
    assert_eq!(ids(get_data_fixes_by_resource_id(&state, 7, Some(1), None).unwrap()), vec![3, 4]);
    assert_eq!(ids(get_data_fixes_by_resource_id(&state, 7, None, Some(2)).unwrap()), vec![1, 3]);
    let err = get_data_fixes_by_resource_id(&state, 7, None, Some(1001)).unwrap_err();
    assert_eq!(std_text(err), "Generic error: limit cannot be greater than 1000.");
}

#[test]
fn cancelling_a_vault_with_a_resting_order_recalls_it() {
    let env = mock_env();
    let fin_order = Some(TriggerConfiguration::FinLimitOrder { target_price: dec("1"), order_idx: Some(7) });
    let retract = SubMsg { msg: CosmosMsg::FinRetractOrder { pair_address: "fin".to_string(), order_idx: 7 }, reply_id: None };
    let withdraw = SubMsg { msg: CosmosMsg::FinWithdrawOrder { pair_address: "fin".to_string(), order_idx: 7 }, reply_id: None };
    let refund = SubMsg { msg: CosmosMsg::BankSend { to_address: USER.to_string(), amount: vec![coin(TEN, DENOM_UOSMO)] }, reply_id: None };

    let mut state = instantiate_contract();
    let vault = setup_vault(&mut state, Vault { trigger: fin_order.clone(), ..default_vault() });
    let details = Some(LimitOrderDetails { offer_amount: 5, filled_amount: 3 });
    let response = cancel_vault(&mut state, &env, &USER.to_string(), vault.id, &"fin".to_string(), details).unwrap();
    assert_eq!(response.messages, vec![refund.clone(), retract.clone(), withdraw.clone()]);

    let mut state = instantiate_contract();
    let vault = setup_vault(&mut state, Vault { trigger: fin_order.clone(), balance: coin(0, DENOM_UOSMO), ..default_vault() });
    let details = Some(LimitOrderDetails { offer_amount: 0, filled_amount: 3 });
    let response = cancel_vault(&mut state, &env, &USER.to_string(), vault.id, &"fin".to_string(), details).unwrap();
    assert_eq!(response.messages, vec![withdraw]);

    let mut state = instantiate_contract();
    let vault = setup_vault(&mut state, Vault { trigger: fin_order, ..default_vault() });
    let details = Some(LimitOrderDetails { offer_amount: 4, filled_amount: 0 });
    let response = cancel_vault(&mut state, &env, &USER.to_string(), vault.id, &"fin".to_string(), details).unwrap();
    assert_eq!(response.messages, vec![refund, retract]);
}
