use dca::error::{ContractError, StdError};
use dca::handlers::admin::instantiate_handler;
use dca::math::Decimal;
use dca::state::State;
use dca::types::{
    Coin, Config, Destination, Env, FeeCollector, MessageInfo, Pair, TimeInterval,
    TriggerConfiguration, Vault, VaultStatus,
};
use dca::validation::{AddressBook, PoolInfo, RejectedAddress};
use std::str::FromStr;

const ADMIN: &str = "admin";
const USER: &str = "user";
const DENOM_STAKE: &str = "stake";
const DENOM_UOSMO: &str = "uosmo";
const DENOM_UATOM: &str = "uatom";
const ONE: u128 = 1_000_000;
const TEN: u128 = 10_000_000;
const SHORT_ADDRESS_REASON: &str =
    "Invalid input: human address too short for this mock implementation (must be >= 3).";

fn dec(s: &str) -> Decimal {
    Decimal { atomics: cosmwasm_std::Decimal::from_str(s).unwrap().atomics().u128() }
}

fn percent(n: u64) -> Decimal {
    Decimal::percent(n)
}

fn mul(amount: u128, d: Decimal) -> u128 {
    (cosmwasm_std::Uint128::new(amount)
        * cosmwasm_std::Decimal::raw(d.atomics))
    .u128()
}

fn coin(amount: u128, denom: &str) -> Coin {
    Coin { denom: denom.to_string(), amount }
}

fn mock_env() -> Env {
    Env { height: 12_345, time: 1_571_797_419_879_305_533, contract_address: "cosmos2contract".to_string() }
}

fn mock_info(sender: &str, funds: &[Coin]) -> MessageInfo {
    MessageInfo { sender: sender.to_string(), funds: funds.to_vec() }
}

fn mock_api() -> AddressBook {
    AddressBook {
        rejected: vec![RejectedAddress { address: String::new(), reason: SHORT_ADDRESS_REASON.to_string() }],
    }
}

fn mock_pools() -> Vec<PoolInfo> {
    vec![
        PoolInfo { id: 1, denoms: vec![DENOM_UATOM.to_string(), DENOM_STAKE.to_string()] },
        PoolInfo { id: 2, denoms: vec![DENOM_UATOM.to_string(), DENOM_STAKE.to_string()] },
        PoolInfo { id: 3, denoms: vec![DENOM_UOSMO.to_string(), DENOM_STAKE.to_string()] },
        PoolInfo { id: 4, denoms: vec![DENOM_UOSMO.to_string(), DENOM_UATOM.to_string()] },
    ]
}

fn default_config() -> Config {
    Config {
        admin: ADMIN.to_string(),
        executors: vec![ADMIN.to_string()],
        fee_collectors: vec![FeeCollector { address: ADMIN.to_string(), allocation: dec("1") }],
        default_swap_fee_percent: dec("0.015"),
        weighted_scale_swap_fee_percent: percent(1),
        automation_fee_percent: dec("0.0075"),
        default_page_limit: 30,
        paused: false,
        risk_weighted_average_escrow_level: dec("0.05"),
        twap_period: 30,
        default_slippage_tolerance: percent(2),
    }
}

fn instantiate_contract() -> State {
    instantiate_handler(&mock_api(), default_config()).unwrap().0
}

fn instantiate_contract_with_multiple_fee_collectors(fee_collectors: Vec<FeeCollector>) -> State {
    instantiate_handler(&mock_api(), Config { fee_collectors, ..default_config() }).unwrap().0
}

fn default_pair() -> Pair {
    Pair { base_denom: DENOM_UOSMO.to_string(), quote_denom: DENOM_STAKE.to_string(), route: vec![3] }
}

fn default_destination() -> Destination {
    Destination { address: USER.to_string(), allocation: dec("1"), msg: None }
}

fn default_vault() -> Vault {
    let env = mock_env();
    Vault {
        id: 0,
        created_at: env.time,
        started_at: None,
        owner: USER.to_string(),
        label: None,
        destinations: vec![default_destination()],
        status: VaultStatus::Active,
        balance: coin(TEN, DENOM_UOSMO),
        target_denom: DENOM_STAKE.to_string(),
        swap_amount: ONE,
        position_type: None,
        slippage_tolerance: Some(percent(10)),
        minimum_receive_amount: None,
        time_interval: TimeInterval::Daily,
        escrow_level: percent(0),
        deposited_amount: coin(TEN, DENOM_UOSMO),
        swapped_amount: coin(0, DENOM_UOSMO),
        received_amount: coin(0, DENOM_STAKE),
        escrowed_amount: coin(0, DENOM_STAKE),
        swap_adjustment_strategy: None,
        performance_assessment_strategy: None,
        trigger: Some(TriggerConfiguration::Time { target_time: env.time }),
        pair: default_pair(),
    }
}

/// Stores a vault as it is (and the default pair, if the store has none), and caches it
/// as the vault whose swap is pending.
fn setup_vault(state: &mut State, vault: Vault) -> Vault {
    if state.pairs.is_empty() {
        state.pairs.push(default_pair());
    }
    if state.next_vault_id <= vault.id {
        state.next_vault_id = vault.id + 1;
    }
    state.vaults.push(vault.clone());
    state.vault_cache = Some(vault.id);
    vault
}

fn stored_vault(state: &State, id: u128) -> Vault {
    dca::handlers::vaults::get_vault_handler(state, id).unwrap()
}

fn err_text(e: ContractError) -> String {
    e.message()
}

fn std_text(e: StdError) -> String {
    e.message()
}

use dca::handlers::delegation::{log_delegation_result, z_delegate_handler};
use dca::handlers::fin::{
    after_fin_limit_order_submitted_for_migrate_trigger, migrate_price_trigger, FinOrderDetails,
};
use dca::types::{Attribute, CosmosMsg, ReplyEvent, SubMsg, AFTER_DELEGATION_REPLY_ID};

const VALIDATOR: &str = "validator";

#[test]
fn with_no_asset_fails() {
    let info = mock_info(USER, &[]);
    let err = z_delegate_handler(&mock_api(), &info, &USER.to_string(), &VALIDATOR.to_string(), true).unwrap_err();
    assert_eq!(err_text(err), "Error: received 0 denoms but required exactly 1");
}

#[test]
fn with_more_than_one_asset_fails() {
    let info = mock_info(USER, &[coin(100, DENOM_STAKE), coin(100, DENOM_UOSMO)]);
    let err = z_delegate_handler(&mock_api(), &info, &USER.to_string(), &VALIDATOR.to_string(), true).unwrap_err();
    assert_eq!(err_text(err), "Error: received 2 denoms but required exactly 1");
}

#[test]
fn sends_bank_message() {
    let amount_to_delegate = coin(100, DENOM_UOSMO);
    let info = mock_info(USER, &[amount_to_delegate.clone()]);
    let response = z_delegate_handler(&mock_api(), &info, &info.sender, &VALIDATOR.to_string(), true).unwrap();
    assert!(response.messages.contains(&SubMsg {
        msg: CosmosMsg::BankSend { to_address: info.sender.clone(), amount: vec![amount_to_delegate] },
        reply_id: None,
    }));
}

#[test]
fn sends_delegate_message() {
    let amount_to_delegate = coin(100, DENOM_UOSMO);
    let info = mock_info(USER, &[amount_to_delegate.clone()]);
    let response = z_delegate_handler(&mock_api(), &info, &info.sender, &VALIDATOR.to_string(), true).unwrap();
    assert!(response.messages.contains(&SubMsg {
        msg: CosmosMsg::Delegate {
            delegator_address: info.sender.clone(),
            validator_address: VALIDATOR.to_string(),
            amount: amount_to_delegate,
        },
        reply_id: Some(AFTER_DELEGATION_REPLY_ID),
    }));
}

#[test]
fn logs_the_delegate_result_on_success() {
    let response = log_delegation_result(true);
    assert!(response.attributes.contains(&Attribute { key: "delegate_result".to_string(), value: "success".to_string() }));
}

#[test]
fn logs_the_delegate_result_on_failure() {
    let response = log_delegation_result(false);
    assert!(response.attributes.contains(&Attribute { key: "delegate_result".to_string(), value: "failure".to_string() }));
}

/// A vault of `vault_deposit` with an unfilled FIN limit order of `swap_amount`.
fn vault_with_unfilled_limit_order(state: &mut State, vault_deposit: u128, swap_amount: u128) -> Vault {
    setup_vault(state, Vault {
        id: 1,
        balance: coin(vault_deposit, DENOM_UOSMO),
        deposited_amount: coin(vault_deposit, DENOM_UOSMO),
        swap_amount,
        trigger: Some(TriggerConfiguration::FinLimitOrder { target_price: dec("1"), order_idx: Some(7) }),
        ..default_vault()
    })
}

fn unfilled() -> FinOrderDetails {
    FinOrderDetails { filled_amount: 0, quote_price: dec("1") }
}

#[test]
fn fails_when_called_by_non_admin_address() {
    let mut state = instantiate_contract();
    let vault = vault_with_unfilled_limit_order(&mut state, TEN, ONE);
    let err = migrate_price_trigger(&mut state, &"bad-actor".to_string(), vault.id, &"fin".to_string(), unfilled()).unwrap_err();
    assert_eq!(err_text(err), "Unauthorized");
}

#[test]
fn updates_the_account_balances() {
    let mut state = instantiate_contract();
    let vault = vault_with_unfilled_limit_order(&mut state, TEN, ONE);
    let response = migrate_price_trigger(&mut state, &ADMIN.to_string(), vault.id, &"fin".to_string(), unfilled()).unwrap();
    assert_eq!(response.messages.len(), 2);
    assert_eq!(
        response.messages[0].msg,
        CosmosMsg::FinRetractOrder { pair_address: "fin".to_string(), order_idx: 7 }
    );
    assert_eq!(
        response.messages[1].msg,
        CosmosMsg::FinSubmitOrder { pair_address: "fin".to_string(), price: dec("1"), offer: coin(2, DENOM_UOSMO) }
    );
}

#[test]
fn updates_the_vault_balance() {
    let mut state = instantiate_contract();
    let vault = vault_with_unfilled_limit_order(&mut state, TEN, ONE);
    let before = stored_vault(&state, vault.id);
    migrate_price_trigger(&mut state, &ADMIN.to_string(), vault.id, &"fin".to_string(), unfilled()).unwrap();
    let after = stored_vault(&state, vault.id);
    assert_eq!(before.balance.amount - 2, after.balance.amount);
}

#[test]
fn updates_the_price_trigger_order_idx() {
    let mut state = instantiate_contract();
    let vault = vault_with_unfilled_limit_order(&mut state, TEN, ONE);
    let before = stored_vault(&state, vault.id);
    migrate_price_trigger(&mut state, &ADMIN.to_string(), vault.id, &"fin".to_string(), unfilled()).unwrap();
    let events = vec![ReplyEvent {
        ty: "wasm".to_string(),
        attributes: vec![Attribute { key: "order_idx".to_string(), value: "8".to_string() }],
    }];
    after_fin_limit_order_submitted_for_migrate_trigger(&mut state, events).unwrap();
    let after = stored_vault(&state, vault.id);
    assert_ne!(before.trigger, after.trigger);
    assert_eq!(after.trigger, Some(TriggerConfiguration::FinLimitOrder { target_price: dec("1"), order_idx: Some(8) }));
}
