//! The contract's data: coins, pairs, destinations, configuration, vaults,
//! triggers, events and the response that a handler hands back.
use vstd::prelude::*;
use crate::math::Decimal;

verus! {

/// The smallest amount that a vault swaps or holds to keep running.
pub const MINIMUM_SWAP_AMOUNT: u128 = 50000;

/// Nanoseconds in one second; block times are nanoseconds since the epoch.
pub const NANOS_PER_SECOND: u64 = 1_000_000_000;

/// The reply id under which a swap's outcome comes back.
pub const AFTER_SWAP_REPLY_ID: u64 = 1;

/// The reply id under which a delegation's outcome comes back.
pub const AFTER_DELEGATION_REPLY_ID: u64 = 2;

/// The reply id under which a liquidity provision's outcome comes back.
pub const AFTER_PROVIDE_LIQUIDITY_REPLY_ID: u64 = 3;

/// The reply id under which the bonding of liquidity tokens comes back.
pub const AFTER_BOND_LP_TOKENS_REPLY_ID: u64 = 4;

/// The reply id under which a destination's post-execution action comes back.
pub const AFTER_FAILED_AUTOMATION_REPLY_ID: u64 = 5;

/// The reply id under which a swap on a FIN market comes back.
pub const AFTER_FIN_SWAP_REPLY_ID: u64 = 6;

/// The reply id under which the placing of a FIN limit order comes back.
pub const AFTER_FIN_LIMIT_ORDER_SUBMITTED_REPLY_ID: u64 = 7;

/// The reply id under which the withdrawal of a FIN limit order of a cancelled vault comes back.
pub const AFTER_FIN_LIMIT_ORDER_WITHDRAWN_FOR_CANCEL_VAULT_REPLY_ID: u64 = 8;

/// The reply id under which the retraction of a FIN limit order comes back.
pub const AFTER_FIN_LIMIT_ORDER_RETRACTED_REPLY_ID: u64 = 9;

/// The reply id under which the withdrawal of a filled FIN limit order of a running vault comes back.
pub const AFTER_FIN_LIMIT_ORDER_WITHDRAWN_FOR_EXECUTE_VAULT_REPLY_ID: u64 = 10;

/// The reply id under which the retraction of a FIN limit order being moved comes back.
pub const AFTER_FIN_LIMIT_ORDER_RETRACTED_FOR_MIGRATE_REPLY_ID: u64 = 11;

/// The reply id under which the placing of a FIN limit order being moved comes back.
pub const AFTER_FIN_LIMIT_ORDER_SUBMITTED_FOR_MIGRATE_REPLY_ID: u64 = 12;

/// What is moved into a FIN limit order when it is placed again (two micro units).
pub const TWO_MICRONS: u128 = 2;

/// An amount of one denomination.
#[derive(Debug, Clone, PartialEq, Eq, Default)]
pub struct Coin {
    pub denom: String,
    pub amount: u128,
}

impl Coin {
    pub fn new(amount: u128, denom: &str) -> (c: Coin)
        ensures
            c.amount == amount,
            c.denom@ == denom@,
    {
        Coin { denom: String::from_str(denom), amount }
    }

    pub fn copy(&self) -> (c: Coin)
        ensures
            c == *self,
    {
        Coin { denom: self.denom.clone(), amount: self.amount }
    }
}

/// A market that the contract swaps on, and the pools a swap goes through.
#[derive(Debug, Clone, PartialEq, Eq, Default)]
pub struct Pair {
    pub base_denom: String,
    pub quote_denom: String,
    pub route: Vec<u64>,
}

/// Whether a vault buys the base denomination (enters) or sells it (exits).
#[derive(Debug, Clone, Copy, PartialEq, Eq, Structural)]
pub enum PositionType {
    Enter,
    Exit,
}

impl Pair {
    /// Whether `denom` is one of the two denominations of the pair.
    pub open spec fn has_denom(self, denom: Seq<char>) -> bool {
        self.base_denom@ == denom || self.quote_denom@ == denom
    }

    /// Whether the pair trades exactly the two given denominations, in either order.
    pub open spec fn trades(self, a: Seq<char>, b: Seq<char>) -> bool {
        (self.base_denom@ == a && self.quote_denom@ == b) || (self.base_denom@ == b
            && self.quote_denom@ == a)
    }

    /// The denomination that a swap of `swap_denom` on this pair receives.
    pub open spec fn other_denom(self, swap_denom: Seq<char>) -> Seq<char> {
        if swap_denom == self.quote_denom@ {
            self.base_denom@
        } else {
            self.quote_denom@
        }
    }

    pub open spec fn position_type_spec(self, swap_denom: Seq<char>) -> PositionType {
        if swap_denom == self.quote_denom@ {
            PositionType::Enter
        } else {
            PositionType::Exit
        }
    }

    /// Swapping the quote denomination enters a position; swapping the base exits it.
    pub fn position_type(&self, swap_denom: &String) -> (p: PositionType)
        ensures
            p == self.position_type_spec(swap_denom@),
    {
        if *swap_denom == self.quote_denom {
            PositionType::Enter
        } else {
            PositionType::Exit
        }
    }

    pub fn copy(&self) -> (p: Pair)
        ensures
            p.base_denom == self.base_denom,
            p.quote_denom == self.quote_denom,
            p.route@ == self.route@,
    {
        let mut route: Vec<u64> = Vec::new();
        let mut i: usize = 0;
        while i < self.route.len()
            invariant
                i <= self.route.len(),
                route@ == self.route@.subrange(0, i as int),
            decreases self.route.len() - i,
        {
            route.push(self.route[i]);
            i = i + 1;
        }
        assert(route@ == self.route@);
        Pair {
            base_denom: self.base_denom.clone(),
            quote_denom: self.quote_denom.clone(),
            route,
        }
    }
}

/// Where a share of each swap's proceeds goes, and the message it is sent with, if any.
#[derive(Debug, Clone, PartialEq, Eq, Default)]
pub struct Destination {
    pub address: String,
    pub allocation: Decimal,
    pub msg: Option<String>,
}

impl Destination {
    pub fn copy(&self) -> (d: Destination)
        ensures
            d == *self,
    {
        Destination {
            address: self.address.clone(),
            allocation: self.allocation,
            msg: match &self.msg {
                Some(m) => Some(m.clone()),
                None => None,
            },
        }
    }
}

/// Copies a list of destinations.
pub fn copy_destinations(ds: &Vec<Destination>) -> (r: Vec<Destination>)
    ensures
        r@ == ds@,
{
    let mut r: Vec<Destination> = Vec::new();
    let mut i: usize = 0;
    while i < ds.len()
        invariant
            i <= ds.len(),
            r@ == ds@.subrange(0, i as int),
        decreases ds.len() - i,
    {
        r.push(ds[i].copy());
        i = i + 1;
    }
    assert(r@ == ds@);
    r
}

/// An address that collects a share of the fees.
#[derive(Debug, Clone, PartialEq, Eq, Default)]
pub struct FeeCollector {
    pub address: String,
    pub allocation: Decimal,
}

/// The contract's configuration.
#[derive(Debug, Clone, PartialEq, Eq, Default)]
pub struct Config {
    pub admin: String,
    pub executors: Vec<String>,
    pub fee_collectors: Vec<FeeCollector>,
    pub default_swap_fee_percent: Decimal,
    pub weighted_scale_swap_fee_percent: Decimal,
    pub automation_fee_percent: Decimal,
    pub default_page_limit: u16,
    pub paused: bool,
    pub risk_weighted_average_escrow_level: Decimal,
    pub twap_period: u64,
    pub default_slippage_tolerance: Decimal,
}

impl Config {
    /// The configuration's own copy.
    pub fn copy(&self) -> (c: Config)
        ensures
            c.admin == self.admin,
            c.executors@ == self.executors@,
            c.fee_collectors@ == self.fee_collectors@,
            c.default_swap_fee_percent == self.default_swap_fee_percent,
            c.weighted_scale_swap_fee_percent == self.weighted_scale_swap_fee_percent,
            c.automation_fee_percent == self.automation_fee_percent,
            c.default_page_limit == self.default_page_limit,
            c.paused == self.paused,
            c.risk_weighted_average_escrow_level == self.risk_weighted_average_escrow_level,
            c.twap_period == self.twap_period,
            c.default_slippage_tolerance == self.default_slippage_tolerance,
    {
        let mut executors: Vec<String> = Vec::new();
        let mut i: usize = 0;
        while i < self.executors.len()
            invariant
                i <= self.executors.len(),
                executors@ == self.executors@.subrange(0, i as int),
            decreases self.executors.len() - i,
        {
            executors.push(self.executors[i].clone());
            i = i + 1;
        }
        assert(executors@ == self.executors@);
        let mut fee_collectors: Vec<FeeCollector> = Vec::new();
        let mut j: usize = 0;
        while j < self.fee_collectors.len()
            invariant
                j <= self.fee_collectors.len(),
                fee_collectors@ == self.fee_collectors@.subrange(0, j as int),
            decreases self.fee_collectors.len() - j,
        {
            let c = &self.fee_collectors[j];
            fee_collectors.push(FeeCollector { address: c.address.clone(), allocation: c.allocation });
            j = j + 1;
        }
        assert(fee_collectors@ == self.fee_collectors@);
        Config {
            admin: self.admin.clone(),
            executors,
            fee_collectors,
            default_swap_fee_percent: self.default_swap_fee_percent,
            weighted_scale_swap_fee_percent: self.weighted_scale_swap_fee_percent,
            automation_fee_percent: self.automation_fee_percent,
            default_page_limit: self.default_page_limit,
            paused: self.paused,
            risk_weighted_average_escrow_level: self.risk_weighted_average_escrow_level,
            twap_period: self.twap_period,
            default_slippage_tolerance: self.default_slippage_tolerance,
        }
    }
}

/// The state of a vault in its life.
#[derive(Debug, Clone, Copy, PartialEq, Eq, Structural)]
pub enum VaultStatus {
    Scheduled,
    Active,
    Inactive,
    Cancelled,
}

/// How often a vault swaps.
#[derive(Debug, Clone, Copy, PartialEq, Eq, Structural)]
pub enum TimeInterval {
    EverySecond,
    EveryMinute,
    HalfHourly,
    Hourly,
    HalfDaily,
    Daily,
    Weekly,
    Fortnightly,
    Monthly,
    Custom { seconds: u64 },
}

impl TimeInterval {
    /// The length of one interval in seconds (a month counts as 30 days).
    pub open spec fn seconds_spec(self) -> nat {
        match self {
            TimeInterval::EverySecond => 1,
            TimeInterval::EveryMinute => 60,
            TimeInterval::HalfHourly => 1800,
            TimeInterval::Hourly => 3600,
            TimeInterval::HalfDaily => 43200,
            TimeInterval::Daily => 86400,
            TimeInterval::Weekly => 604800,
            TimeInterval::Fortnightly => 1209600,
            TimeInterval::Monthly => 2592000,
            TimeInterval::Custom { seconds } => seconds as nat,
        }
    }

    pub fn seconds(&self) -> (s: u64)
        ensures
            s == self.seconds_spec(),
    {
        match self {
            TimeInterval::EverySecond => 1,
            TimeInterval::EveryMinute => 60,
            TimeInterval::HalfHourly => 1800,
            TimeInterval::Hourly => 3600,
            TimeInterval::HalfDaily => 43200,
            TimeInterval::Daily => 86400,
            TimeInterval::Weekly => 604800,
            TimeInterval::Fortnightly => 1209600,
            TimeInterval::Monthly => 2592000,
            TimeInterval::Custom { seconds } => *seconds,
        }
    }
}

/// The asset that a risk-weighted average model tracks.
#[derive(Debug, Clone, Copy, PartialEq, Eq, Structural)]
pub enum BaseDenom {
    Bitcoin,
}

/// How a vault scales each swap.
#[derive(Debug, Clone, Copy, PartialEq, Eq, Structural)]
pub enum SwapAdjustmentStrategy {
    RiskWeightedAverage { model_id: u8, base_denom: BaseDenom, position_type: PositionType },
    WeightedScale { base_receive_amount: u128, multiplier: Decimal, increase_only: bool },
}

/// The parameters a user gives for a swap adjustment strategy.
#[derive(Debug, Clone, Copy, PartialEq, Eq, Structural)]
pub enum SwapAdjustmentStrategyParams {
    RiskWeightedAverage { base_denom: BaseDenom },
    WeightedScale { base_receive_amount: u128, multiplier: Decimal, increase_only: bool },
}

/// How a vault's performance is judged: against a standard DCA run alongside it.
#[derive(Debug, Clone, PartialEq, Eq)]
pub enum PerformanceAssessmentStrategy {
    CompareToStandardDca { swapped_amount: Coin, received_amount: Coin },
}

impl PerformanceAssessmentStrategy {
    pub fn copy(&self) -> (r: Self)
        ensures
            r == *self,
    {
        match self {
            PerformanceAssessmentStrategy::CompareToStandardDca {
                swapped_amount,
                received_amount,
            } => PerformanceAssessmentStrategy::CompareToStandardDca {
                swapped_amount: swapped_amount.copy(),
                received_amount: received_amount.copy(),
            },
        }
    }
}

/// What makes a vault run: a target time, or a resting limit order on a FIN market.
#[derive(Debug, Clone, Copy, PartialEq, Eq, Structural)]
pub enum TriggerConfiguration {
    Time { target_time: u64 },
    FinLimitOrder { target_price: Decimal, order_idx: Option<u128> },
}

/// A vault's trigger as the trigger store lists it: the vault it runs, and what runs it.
#[derive(Debug, Clone, Copy, PartialEq, Eq, Structural)]
pub struct Trigger {
    pub vault_id: u128,
    pub configuration: TriggerConfiguration,
}

/// A vault: funds that are swapped into a target denomination over time.
#[derive(Debug, Clone, PartialEq, Eq)]
pub struct Vault {
    pub id: u128,
    pub created_at: u64,
    pub started_at: Option<u64>,
    pub owner: String,
    pub label: Option<String>,
    pub destinations: Vec<Destination>,
    pub status: VaultStatus,
    pub balance: Coin,
    pub target_denom: String,
    pub swap_amount: u128,
    pub position_type: Option<PositionType>,
    pub slippage_tolerance: Option<Decimal>,
    pub minimum_receive_amount: Option<u128>,
    pub time_interval: TimeInterval,
    pub escrow_level: Decimal,
    pub deposited_amount: Coin,
    pub swapped_amount: Coin,
    pub received_amount: Coin,
    pub escrowed_amount: Coin,
    pub swap_adjustment_strategy: Option<SwapAdjustmentStrategy>,
    pub performance_assessment_strategy: Option<PerformanceAssessmentStrategy>,
    pub trigger: Option<TriggerConfiguration>,
    pub pair: Pair,
}

/// The slippage tolerance a vault swaps with: its own, or the configured default.
pub open spec fn effective_slippage(c: Config, v: Vault) -> Decimal {
    match v.slippage_tolerance {
        Some(x) => x,
        None => c.default_slippage_tolerance,
    }
}

/// The slippage tolerance a vault swaps with: its own, or the configured default.
pub fn vault_slippage(c: &Config, v: &Vault) -> (d: Decimal)
    ensures
        d == effective_slippage(*c, *v),
{
    match v.slippage_tolerance {
        Some(x) => x,
        None => c.default_slippage_tolerance,
    }
}

/// Two vaults hold the same values (their destination lists by content).
pub open spec fn same_vault(a: Vault, b: Vault) -> bool {
    &&& a.id == b.id
    &&& a.created_at == b.created_at
    &&& a.started_at == b.started_at
    &&& a.owner == b.owner
    &&& a.label == b.label
    &&& a.destinations@ == b.destinations@
    &&& a.status == b.status
    &&& a.balance == b.balance
    &&& a.target_denom == b.target_denom
    &&& a.swap_amount == b.swap_amount
    &&& a.position_type == b.position_type
    &&& a.slippage_tolerance == b.slippage_tolerance
    &&& a.minimum_receive_amount == b.minimum_receive_amount
    &&& a.time_interval == b.time_interval
    &&& a.escrow_level == b.escrow_level
    &&& a.deposited_amount == b.deposited_amount
    &&& a.swapped_amount == b.swapped_amount
    &&& a.received_amount == b.received_amount
    &&& a.escrowed_amount == b.escrowed_amount
    &&& a.swap_adjustment_strategy == b.swap_adjustment_strategy
    &&& a.performance_assessment_strategy == b.performance_assessment_strategy
    &&& a.trigger == b.trigger
    &&& a.pair.base_denom == b.pair.base_denom
    &&& a.pair.quote_denom == b.pair.quote_denom
    &&& a.pair.route@ == b.pair.route@
}

impl Vault {
    pub open spec fn is_active_spec(self) -> bool {
        self.status == VaultStatus::Active
    }

    pub open spec fn is_inactive_spec(self) -> bool {
        self.status == VaultStatus::Inactive
    }

    pub open spec fn is_cancelled_spec(self) -> bool {
        self.status == VaultStatus::Cancelled
    }

    pub open spec fn is_scheduled_spec(self) -> bool {
        self.status == VaultStatus::Scheduled
    }

    pub fn is_active(&self) -> (b: bool)
        ensures
            b == self.is_active_spec(),
    {
        self.status == VaultStatus::Active
    }

    pub fn is_inactive(&self) -> (b: bool)
        ensures
            b == self.is_inactive_spec(),
    {
        self.status == VaultStatus::Inactive
    }

    pub fn is_cancelled(&self) -> (b: bool)
        ensures
            b == self.is_cancelled_spec(),
    {
        self.status == VaultStatus::Cancelled
    }

    pub fn is_scheduled(&self) -> (b: bool)
        ensures
            b == self.is_scheduled_spec(),
    {
        self.status == VaultStatus::Scheduled
    }

    /// The vault swaps what it holds.
    pub fn get_swap_denom(&self) -> (d: String)
        ensures
            d == self.balance.denom,
    {
        self.balance.denom.clone()
    }

    /// The vault holds enough to swap again.
    pub open spec fn has_sufficient_funds_spec(self) -> bool {
        self.balance.amount > MINIMUM_SWAP_AMOUNT
    }

    pub fn has_sufficient_funds(&self) -> (b: bool)
        ensures
            b == self.has_sufficient_funds_spec(),
    {
        self.balance.amount > MINIMUM_SWAP_AMOUNT
    }

    /// The standard DCA that a vault is compared to still has funds to swap.
    pub open spec fn standard_dca_running_spec(self) -> bool {
        match self.performance_assessment_strategy {
            Some(PerformanceAssessmentStrategy::CompareToStandardDca { swapped_amount, .. }) => {
                self.deposited_amount.amount > swapped_amount.amount
                    && self.deposited_amount.amount - swapped_amount.amount > MINIMUM_SWAP_AMOUNT
            },
            None => false,
        }
    }

    pub fn standard_dca_running(&self) -> (b: bool)
        ensures
            b == self.standard_dca_running_spec(),
    {
        match &self.performance_assessment_strategy {
            Some(PerformanceAssessmentStrategy::CompareToStandardDca { swapped_amount, .. }) => {
                self.deposited_amount.amount > swapped_amount.amount
                    && self.deposited_amount.amount - swapped_amount.amount > MINIMUM_SWAP_AMOUNT
            },
            None => false,
        }
    }

    /// A vault stops for good once it is inactive and the standard DCA it is compared
    /// to, if any, has finished too.
    pub open spec fn should_not_continue_spec(self) -> bool {
        self.is_inactive_spec() && !self.standard_dca_running_spec()
    }

    pub fn should_not_continue(&self) -> (b: bool)
        ensures
            b == self.should_not_continue_spec(),
    {
        if self.status != VaultStatus::Inactive {
            return false;
        }
        match &self.performance_assessment_strategy {
            Some(PerformanceAssessmentStrategy::CompareToStandardDca { swapped_amount, .. }) => {
                !(self.deposited_amount.amount > swapped_amount.amount
                    && self.deposited_amount.amount - swapped_amount.amount > MINIMUM_SWAP_AMOUNT)
            },
            None => true,
        }
    }

    /// The vault's own copy.
    pub fn copy(&self) -> (v: Vault)
        ensures
            same_vault(v, *self),
    {
        Vault {
            id: self.id,
            created_at: self.created_at,
            started_at: self.started_at,
            owner: self.owner.clone(),
            label: match &self.label {
                Some(l) => Some(l.clone()),
                None => None,
            },
            destinations: copy_destinations(&self.destinations),
            status: self.status,
            balance: self.balance.copy(),
            target_denom: self.target_denom.clone(),
            swap_amount: self.swap_amount,
            position_type: self.position_type,
            slippage_tolerance: self.slippage_tolerance,
            minimum_receive_amount: self.minimum_receive_amount,
            time_interval: self.time_interval,
            escrow_level: self.escrow_level,
            deposited_amount: self.deposited_amount.copy(),
            swapped_amount: self.swapped_amount.copy(),
            received_amount: self.received_amount.copy(),
            escrowed_amount: self.escrowed_amount.copy(),
            swap_adjustment_strategy: self.swap_adjustment_strategy,
            performance_assessment_strategy: match &self.performance_assessment_strategy {
                Some(p) => Some(p.copy()),
                None => None,
            },
            trigger: self.trigger,
            pair: self.pair.copy(),
        }
    }
}

/// Why an execution of a vault did not swap.
#[derive(Debug, Clone, Copy, PartialEq, Eq, Structural)]
pub enum ExecutionSkippedReason {
    SlippageToleranceExceeded,
    PriceThresholdExceeded { price: Decimal },
    InsufficientFunds,
    UnknownFailure,
}

/// What a message sent to this contract asks for, where the contract sends one to itself.
#[derive(Debug, Clone, Copy, PartialEq, Eq, Structural)]
pub enum SelfMsg {
    ExecuteTrigger { trigger_id: u128 },
    DisburseEscrow { vault_id: u128 },
}

/// A message that a handler asks the chain to send.
#[derive(Debug, Clone, PartialEq, Eq)]
pub enum CosmosMsg {
    /// Send coins to an address.
    BankSend { to_address: String, amount: Vec<Coin> },
    /// Call this contract again.
    ExecuteSelf { msg: SelfMsg },
    /// Call a contract with a user's message (given as its encoded text) and coins.
    ExecuteContract { contract_addr: String, msg: String, funds: Vec<Coin> },
    /// Swap `offer` along the route of a pair, accepting at least `minimum_receive` back.
    Swap { pair: Pair, offer: Coin, minimum_receive: Option<u128> },
    /// Delegate `amount` to a validator on behalf of a delegator, through authz.
    Delegate { delegator_address: String, validator_address: String, amount: Coin },
    /// Take back a resting FIN limit order.
    FinRetractOrder { pair_address: String, order_idx: u128 },
    /// Withdraw the filled part of a FIN limit order.
    FinWithdrawOrder { pair_address: String, order_idx: u128 },
    /// Place a FIN limit order of `offer` at `price`.
    FinSubmitOrder { pair_address: String, price: Decimal, offer: Coin },
}

/// A message and whether its outcome comes back to the contract.
#[derive(Debug, Clone, PartialEq, Eq)]
pub struct SubMsg {
    pub msg: CosmosMsg,
    pub reply_id: Option<u64>,
}

/// A key and value that a handler reports.
#[derive(Debug, Clone, PartialEq, Eq)]
pub struct Attribute {
    pub key: String,
    pub value: String,
}

/// An event that a message's outcome reports, with its attributes.
#[derive(Debug, Clone, PartialEq, Eq)]
pub struct ReplyEvent {
    pub ty: String,
    pub attributes: Vec<Attribute>,
}

/// What a handler hands back to the chain: attributes and messages.
#[derive(Debug, Clone, PartialEq, Eq, Default)]
pub struct Response {
    pub attributes: Vec<Attribute>,
    pub messages: Vec<SubMsg>,
}

impl Response {
    pub fn new() -> (r: Response)
        ensures
            r.attributes@.len() == 0,
            r.messages@.len() == 0,
    {
        Response { attributes: Vec::new(), messages: Vec::new() }
    }

    /// Adds an attribute at the end.
    pub fn add_attribute(&mut self, key: &str, value: String)
        ensures
            final(self).messages@ == old(self).messages@,
            final(self).attributes@.len() == old(self).attributes@.len() + 1,
            final(self).attributes@.drop_last() == old(self).attributes@,
            final(self).attributes@.last().key@ == key@,
            final(self).attributes@.last().value == value,
    {
        self.attributes.push(Attribute { key: String::from_str(key), value });
    }

    /// Adds messages at the end, in order.
    pub fn add_messages(&mut self, msgs: Vec<SubMsg>)
        ensures
            final(self).attributes@ == old(self).attributes@,
            final(self).messages@ == old(self).messages@ + msgs@,
    {
        let mut msgs = msgs;
        self.messages.append(&mut msgs);
    }

    /// Adds a message at the end.
    pub fn add_message(&mut self, msg: SubMsg)
        ensures
            final(self).attributes@ == old(self).attributes@,
            final(self).messages@ == old(self).messages@.push(msg),
    {
        self.messages.push(msg);
    }
}

/// A message whose outcome does not come back.
pub open spec fn plain(msg: CosmosMsg) -> SubMsg {
    SubMsg { msg, reply_id: None }
}

/// What happened to a vault.
#[derive(Debug, Clone, PartialEq, Eq)]
pub enum EventData {
    DcaVaultFundsDeposited { amount: Coin },
    DcaVaultExecutionTriggered { base_denom: String, quote_denom: String, asset_price: Decimal },
    DcaVaultExecutionCompleted { sent: Coin, received: Coin, fee: Coin },
    DcaVaultExecutionSkipped { reason: ExecutionSkippedReason },
    DcaVaultCancelled,
    DcaVaultEscrowDisbursed { amount_disbursed: Coin, performance_fee: Coin },
    DcaVaultZDelegationSucceeded { validator_address: String, delegation: Coin },
    DcaVaultDelegationSucceeded,
    DcaVaultDelegationFailed,
    DcaVaultPostExecutionActionFailed { msg: SubMsg, funds: Vec<Coin> },
}

/// An event in the contract's log.
#[derive(Debug, Clone, PartialEq, Eq)]
pub struct Event {
    pub id: u64,
    pub resource_id: u128,
    pub timestamp: u64,
    pub block_height: u64,
    pub data: EventData,
}

/// The block that a message is handled in, and this contract's address.
#[derive(Debug, Clone, PartialEq, Eq)]
pub struct Env {
    pub height: u64,
    pub time: u64,
    pub contract_address: String,
}

/// Who sent a message, and the coins that came with it.
#[derive(Debug, Clone, PartialEq, Eq)]
pub struct MessageInfo {
    pub sender: String,
    pub funds: Vec<Coin>,
}

} // verus!
