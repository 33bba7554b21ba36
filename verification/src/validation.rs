//! The checks that handlers make before they change anything.
use vstd::prelude::*;
use crate::error::{custom, custom_str, ContractError, StdError};
use crate::math::{Decimal, DECIMAL_FRACTIONAL};
use crate::text::{amount_text, decimal_text, join, join3, u64_text};
use crate::types::{Coin, Config, Destination, FeeCollector, Pair, TimeInterval, Vault, VaultStatus, MINIMUM_SWAP_AMOUNT};

verus! {

/// The most destinations a vault may have.
pub const MAX_DESTINATIONS: usize = 10;

/// The most fee collectors the configuration may have.
pub const MAX_FEE_COLLECTORS: usize = 10;

/// The largest swap fee: 5% (in atomics).
pub const MAX_FEE_ATOMICS: u128 = 50_000_000_000_000_000;

/// The largest label, in characters.
pub const MAX_LABEL_LENGTH: usize = 100;

/// The page limits a query may ask for.
pub const MIN_PAGE_LIMIT: u16 = 30;

pub const MAX_PAGE_LIMIT: u16 = 1000;

/// The shortest custom interval, in seconds.
pub const MIN_CUSTOM_INTERVAL_SECONDS: u64 = 60;

/// The shortest and longest TWAP periods, in seconds.
pub const MIN_TWAP_PERIOD: u64 = 30;

pub const MAX_TWAP_PERIOD: u64 = 3600;

/// The largest weighted-scale multiplier: 10 (in atomics).
pub const MAX_WEIGHTED_SCALE_MULTIPLIER_ATOMICS: u128 = 10_000_000_000_000_000_000;

/// An address that the chain refused, and the reason it gave.
#[derive(Debug, Clone, PartialEq, Eq)]
pub struct RejectedAddress {
    pub address: String,
    pub reason: String,
}

/// What the chain said of the addresses in a message: the ones it refused, with
/// the reason; every other address is valid.
#[derive(Debug, Clone, PartialEq, Eq, Default)]
pub struct AddressBook {
    pub rejected: Vec<RejectedAddress>,
}

/// The reason the chain gave for refusing `address`, at its first mention.
pub open spec fn rejection(rejected: Seq<RejectedAddress>, address: Seq<char>) -> Option<Seq<char>>
    decreases rejected.len(),
{
    if rejected.len() == 0 {
        None
    } else if rejected[0].address@ == address {
        Some(rejected[0].reason@)
    } else {
        rejection(rejected.drop_first(), address)
    }
}

impl AddressBook {
    pub open spec fn valid(self, address: Seq<char>) -> bool {
        rejection(self.rejected@, address) is None
    }

    /// The chain's verdict on an address: `Ok` or the generic error with its reason.
    pub fn addr_validate(&self, address: &String) -> (r: Result<(), ContractError>)
        ensures
            r is Ok <==> self.valid(address@),
            r matches Err(e) ==> e matches ContractError::Std(StdError::GenericErr { msg })
                && msg@ == rejection(self.rejected@, address@)->0,
    {
        let mut i: usize = 0;
        assert(self.rejected@.subrange(0, self.rejected@.len() as int) == self.rejected@);
        while i < self.rejected.len()
            invariant
                i <= self.rejected.len(),
                rejection(self.rejected@, address@) == rejection(
                    self.rejected@.subrange(i as int, self.rejected@.len() as int),
                    address@,
                ),
            decreases self.rejected.len() - i,
        {
            let ghost rest = self.rejected@.subrange(i as int, self.rejected@.len() as int);
            assert(rest.drop_first() == self.rejected@.subrange(
                i + 1,
                self.rejected@.len() as int,
            ));
            if self.rejected[i].address == *address {
                return Err(
                    ContractError::Std(
                        StdError::GenericErr { msg: self.rejected[i].reason.clone() },
                    ),
                );
            }
            i = i + 1;
        }
        Ok(())
    }
}

/// The sum of the allocations of a list of destinations, in atomics.
pub open spec fn destination_allocation_sum(ds: Seq<Destination>) -> int
    decreases ds.len(),
{
    if ds.len() == 0 {
        0
    } else {
        destination_allocation_sum(ds.drop_last()) + ds.last().allocation.atomics
    }
}

/// The sum of the allocations of the fee collectors, in atomics.
pub open spec fn collector_allocation_sum(cs: Seq<FeeCollector>) -> int
    decreases cs.len(),
{
    if cs.len() == 0 {
        0
    } else {
        collector_allocation_sum(cs.drop_last()) + cs.last().allocation.atomics
    }
}

pub proof fn lemma_destination_sum_nonneg(ds: Seq<Destination>)
    ensures
        destination_allocation_sum(ds) >= 0,
    decreases ds.len(),
{
    if ds.len() > 0 {
        lemma_destination_sum_nonneg(ds.drop_last());
    }
}

pub proof fn lemma_collector_sum_nonneg(cs: Seq<FeeCollector>)
    ensures
        collector_allocation_sum(cs) >= 0,
    decreases cs.len(),
{
    if cs.len() > 0 {
        lemma_collector_sum_nonneg(cs.drop_last());
    }
}

/// The destinations a vault may hold: at most ten, none with a zero share, and the
/// shares adding up to exactly one.
pub open spec fn valid_destinations(ds: Seq<Destination>) -> bool {
    &&& ds.len() <= MAX_DESTINATIONS
    &&& forall|i: int| 0 <= i < ds.len() ==> #[trigger] ds[i].allocation.atomics > 0
    &&& destination_allocation_sum(ds) == DECIMAL_FRACTIONAL
}

/// The fee collectors the configuration may hold: at most ten, every address valid,
/// and the shares adding up to exactly one.
pub open spec fn valid_fee_collectors(cs: Seq<FeeCollector>) -> bool {
    &&& cs.len() <= MAX_FEE_COLLECTORS
    &&& collector_allocation_sum(cs) == DECIMAL_FRACTIONAL
}

/// A configuration that every check of the instantiation and of an update lets through.
pub open spec fn valid_config(c: Config) -> bool {
    &&& c.default_swap_fee_percent.atomics <= MAX_FEE_ATOMICS
    &&& c.weighted_scale_swap_fee_percent.atomics <= MAX_FEE_ATOMICS
    &&& c.automation_fee_percent.atomics <= MAX_FEE_ATOMICS
    &&& MIN_PAGE_LIMIT <= c.default_page_limit <= MAX_PAGE_LIMIT
    &&& c.default_slippage_tolerance.atomics <= DECIMAL_FRACTIONAL
    &&& MIN_TWAP_PERIOD <= c.twap_period <= MAX_TWAP_PERIOD
    &&& valid_fee_collectors(c.fee_collectors@)
    &&& c.risk_weighted_average_escrow_level.atomics <= DECIMAL_FRACTIONAL
}

/// The sender is the admin.
pub fn assert_sender_is_admin(config: &Config, sender: &String) -> (r: Result<(), ContractError>)
    ensures
        r is Ok <==> sender@ == config.admin@,
        r matches Err(e) ==> e == ContractError::Unauthorized,
{
    if *sender != config.admin {
        return Err(ContractError::Unauthorized);
    }
    Ok(())
}

/// Whether `who` is in `list`.
pub fn contains_address(list: &Vec<String>, who: &String) -> (b: bool)
    ensures
        b == exists|i: int| 0 <= i < list@.len() && #[trigger] list@[i]@ == who@,
{
    let mut i: usize = 0;
    while i < list.len()
        invariant
            i <= list.len(),
            forall|j: int| 0 <= j < i ==> #[trigger] list@[j]@ != who@,
        decreases list.len() - i,
    {
        if list[i] == *who {
            return true;
        }
        i = i + 1;
    }
    false
}

pub open spec fn is_executor(config: Config, contract_address: Seq<char>, sender: Seq<char>) -> bool {
    sender == contract_address || exists|i: int|
        0 <= i < config.executors@.len() && #[trigger] config.executors@[i]@ == sender
}

/// The sender is one of the executors, or the contract itself.
pub fn assert_sender_is_executor(config: &Config, contract_address: &String, sender: &String) -> (r:
    Result<(), ContractError>)
    ensures
        r is Ok <==> is_executor(*config, contract_address@, sender@),
        r matches Err(e) ==> e == ContractError::Unauthorized,
{
    if *sender == *contract_address || contains_address(&config.executors, sender) {
        Ok(())
    } else {
        Err(ContractError::Unauthorized)
    }
}

/// The sender is the admin or the owner of the vault.
pub fn assert_sender_is_admin_or_vault_owner(config: &Config, owner: &String, sender: &String) -> (r:
    Result<(), ContractError>)
    ensures
        r is Ok <==> (sender@ == config.admin@ || sender@ == owner@),
        r matches Err(e) ==> e == ContractError::Unauthorized,
{
    if *sender != config.admin && *sender != *owner {
        return Err(ContractError::Unauthorized);
    }
    Ok(())
}

/// The sender owns the vault.
pub fn assert_sender_is_vault_owner(owner: &String, sender: &String) -> (r: Result<(), ContractError>)
    ensures
        r is Ok <==> sender@ == owner@,
        r matches Err(e) ==> e == ContractError::Unauthorized,
{
    if *sender != *owner {
        return Err(ContractError::Unauthorized);
    }
    Ok(())
}

/// The contract is not paused.
pub fn assert_contract_is_not_paused(config: &Config) -> (r: Result<(), ContractError>)
    ensures
        r is Ok <==> !config.paused,
        r matches Err(e) ==> e.text() == "Error: "@ + "contract is paused"@,
{
    if config.paused {
        return Err(custom_str("contract is paused"));
    }
    Ok(())
}

pub open spec fn exactly_one_asset_text(n: nat) -> Seq<char> {
    "received "@ + decimal_text(n) + " denoms but required exactly 1"@
}

/// Exactly one coin came with the message.
pub fn assert_exactly_one_asset(funds: &Vec<Coin>) -> (r: Result<(), ContractError>)
    ensures
        r is Ok <==> funds@.len() == 1,
        r matches Err(e) ==> e.text() == "Error: "@ + exactly_one_asset_text(funds@.len()),
{
    if funds.len() != 1 {
        let n = amount_text(funds.len() as u128);
        return Err(custom(join3("received ", n.as_str(), " denoms but required exactly 1")));
    }
    Ok(())
}

/// The swap amount is above the minimum.
pub fn assert_swap_amount_is_greater_than_50000(swap_amount: u128) -> (r: Result<(), ContractError>)
    ensures
        r is Ok <==> swap_amount > MINIMUM_SWAP_AMOUNT,
        r matches Err(e) ==> e.text() == "Error: "@ + "swap amount must be greater than 50000"@,
{
    if swap_amount <= MINIMUM_SWAP_AMOUNT {
        return Err(custom_str("swap amount must be greater than 50000"));
    }
    Ok(())
}

/// At most ten destinations.
pub fn assert_destinations_limit_is_not_breached(ds: &Vec<Destination>) -> (r: Result<(), ContractError>)
    ensures
        r is Ok <==> ds@.len() <= MAX_DESTINATIONS,
        r matches Err(e) ==> e.text() == "Error: "@ + "no more than 10 destinations can be provided"@,
{
    if ds.len() > MAX_DESTINATIONS {
        return Err(custom_str("no more than 10 destinations can be provided"));
    }
    Ok(())
}

pub open spec fn valid_time_interval(t: TimeInterval) -> bool {
    t matches TimeInterval::Custom { seconds } ==> seconds >= MIN_CUSTOM_INTERVAL_SECONDS
}

/// A custom interval is at least a minute.
pub fn assert_time_interval_is_valid(t: &TimeInterval) -> (r: Result<(), ContractError>)
    ensures
        r is Ok <==> valid_time_interval(*t),
        r matches Err(e) ==> e.text() == "Error: "@
            + "custom time interval must be at least 60 seconds"@,
{
    match t {
        TimeInterval::Custom { seconds } => {
            if *seconds < MIN_CUSTOM_INTERVAL_SECONDS {
                return Err(custom_str("custom time interval must be at least 60 seconds"));
            }
        },
        _ => {},
    }
    Ok(())
}

/// A requested start time lies after the current block.
pub fn assert_target_start_time_is_in_future(now: u64, target: u64) -> (r: Result<(), ContractError>)
    ensures
        r is Ok <==> target > now,
        r matches Err(e) ==> e.text() == "Error: "@
            + "target_start_time_utc_seconds must be some time in the future"@,
{
    if target <= now {
        return Err(custom_str("target_start_time_utc_seconds must be some time in the future"));
    }
    Ok(())
}

/// A target time has been reached.
pub fn assert_target_time_is_in_past(now: u64, target: u64) -> (r: Result<(), ContractError>)
    ensures
        r is Ok <==> target <= now,
        r matches Err(e) ==> e.text() == "Error: "@ + "trigger execution time has not yet elapsed"@,
{
    if target > now {
        return Err(custom_str("trigger execution time has not yet elapsed"));
    }
    Ok(())
}

pub open spec fn invalid_address_text(prefix: Seq<char>, address: Seq<char>) -> Seq<char> {
    prefix + address + " is invalid"@
}

/// The address of the first destination that carries a message and that the chain refuses.
pub open spec fn first_bad_callback(api: AddressBook, ds: Seq<Destination>) -> Option<Seq<char>>
    decreases ds.len(),
{
    if ds.len() == 0 {
        None
    } else if ds[0].msg is Some && !api.valid(ds[0].address@) {
        Some(ds[0].address@)
    } else {
        first_bad_callback(api, ds.drop_first())
    }
}

/// The addresses of the destinations that carry a message are valid; the refusal
/// names the first one that is not.
pub fn assert_destination_callback_addresses_are_valid(api: &AddressBook, ds: &Vec<Destination>) -> (r:
    Result<(), ContractError>)
    ensures
        r is Ok <==> forall|i: int|
            0 <= i < ds@.len() && ds@[i].msg is Some ==> api.valid(#[trigger] ds@[i].address@),
        r is Ok <==> first_bad_callback(*api, ds@) is None,
        r matches Err(e) ==> first_bad_callback(*api, ds@) matches Some(a)
            && e.text() == "Error: "@ + invalid_address_text("destination address "@, a),
        r matches Err(e) ==> exists|i: int|
            0 <= i < ds@.len() && ds@[i].msg is Some && !api.valid(ds@[i].address@) && e.text()
                == "Error: "@ + invalid_address_text("destination address "@, #[trigger] ds@[i].address@),
{
    let mut i: usize = 0;
    assert(ds@.subrange(0, ds@.len() as int) == ds@);
    while i < ds.len()
        invariant
            i <= ds.len(),
            forall|j: int|
                0 <= j < i && ds@[j].msg is Some ==> api.valid(#[trigger] ds@[j].address@),
            first_bad_callback(*api, ds@) == first_bad_callback(*api, ds@.subrange(i as int, ds@.len() as int)),
        decreases ds.len() - i,
    {
        let ghost rest = ds@.subrange(i as int, ds@.len() as int);
        assert(rest.drop_first() == ds@.subrange(i + 1, ds@.len() as int));
        assert(rest[0] == ds@[i as int]);
        if ds[i].msg.is_some() {
            if api.addr_validate(&ds[i].address).is_err() {
                assert(ds@[i as int].msg is Some && !api.valid(ds@[i as int].address@));
                return Err(
                    custom(join3("destination address ", ds[i].address.as_str(), " is invalid")),
                );
            }
        }
        i = i + 1;
    }
    assert(ds@.subrange(ds@.len() as int, ds@.len() as int).len() == 0);
    Ok(())
}

/// Every address in a list is valid.
pub fn assert_addresses_are_valid(api: &AddressBook, list: &Vec<String>, label: &str) -> (r: Result<
    (),
    ContractError,
>)
    ensures
        r is Ok <==> forall|i: int| 0 <= i < list@.len() ==> api.valid(#[trigger] list@[i]@),
        r matches Err(e) ==> exists|i: int|
            0 <= i < list@.len() && !api.valid(list@[i]@) && e.text() == "Error: "@
                + invalid_address_text(label@ + " address "@, #[trigger] list@[i]@),
{
    let mut i: usize = 0;
    while i < list.len()
        invariant
            i <= list.len(),
            forall|j: int| 0 <= j < i ==> api.valid(#[trigger] list@[j]@),
        decreases list.len() - i,
    {
        if api.addr_validate(&list[i]).is_err() {
            assert(!api.valid(list@[i as int]@));
            let mut s = join3(label, " address ", list[i].as_str());
            s.append(" is invalid");
            return Err(custom(s));
        }
        i = i + 1;
    }
    Ok(())
}

/// Every destination has a share above zero.
pub fn assert_no_destination_allocations_are_zero(ds: &Vec<Destination>) -> (r: Result<
    (),
    ContractError,
>)
    ensures
        r is Ok <==> forall|i: int| 0 <= i < ds@.len() ==> #[trigger] ds@[i].allocation.atomics > 0,
        r matches Err(e) ==> e.text() == "Error: "@
            + "all destination allocations must be greater than 0"@,
{
    let mut i: usize = 0;
    while i < ds.len()
        invariant
            i <= ds.len(),
            forall|j: int| 0 <= j < i ==> #[trigger] ds@[j].allocation.atomics > 0,
        decreases ds.len() - i,
    {
        if ds[i].allocation.atomics == 0 {
            return Err(custom_str("all destination allocations must be greater than 0"));
        }
        i = i + 1;
    }
    Ok(())
}

/// The shares of the destinations add up to exactly one.
pub fn assert_destination_allocations_add_up_to_one(ds: &Vec<Destination>) -> (r: Result<
    (),
    ContractError,
>)
    ensures
        r is Ok <==> destination_allocation_sum(ds@) == DECIMAL_FRACTIONAL,
        r matches Err(e) ==> e.text() == "Error: "@ + "destination allocations must add up to 1"@,
{
    let mut total: u128 = 0;
    let mut i: usize = 0;
    while i < ds.len()
        invariant
            i <= ds.len(),
            total == destination_allocation_sum(ds@.subrange(0, i as int)),
        decreases ds.len() - i,
    {
        assert(ds@.subrange(0, i + 1).drop_last() == ds@.subrange(0, i as int));
        match total.checked_add(ds[i].allocation.atomics) {
            Some(t) => {
                total = t;
            },
            None => {
                proof {
                    lemma_sum_exceeds(ds@, i as int);
                }
                return Err(custom_str("destination allocations must add up to 1"));
            },
        }
        i = i + 1;
    }
    assert(ds@.subrange(0, ds@.len() as int) == ds@);
    if total != DECIMAL_FRACTIONAL {
        return Err(custom_str("destination allocations must add up to 1"));
    }
    Ok(())
}

/// Once a prefix of the shares goes past 2^128, the whole sum is not one.
proof fn lemma_sum_exceeds(ds: Seq<Destination>, i: int)
    requires
        0 <= i < ds.len(),
        destination_allocation_sum(ds.subrange(0, i)) + ds[i].allocation.atomics > u128::MAX,
    ensures
        destination_allocation_sum(ds) > u128::MAX,
    decreases ds.len(),
{
    if i == ds.len() - 1 {
        assert(ds.drop_last() == ds.subrange(0, i));
    } else {
        assert(ds.drop_last().subrange(0, i) == ds.subrange(0, i));
        assert(ds.drop_last()[i] == ds[i]);
        lemma_sum_exceeds(ds.drop_last(), i);
    }
}

proof fn lemma_collector_sum_exceeds(cs: Seq<FeeCollector>, i: int)
    requires
        0 <= i < cs.len(),
        collector_allocation_sum(cs.subrange(0, i)) + cs[i].allocation.atomics > u128::MAX,
    ensures
        collector_allocation_sum(cs) > u128::MAX,
    decreases cs.len(),
{
    if i == cs.len() - 1 {
        assert(cs.drop_last() == cs.subrange(0, i));
    } else {
        assert(cs.drop_last().subrange(0, i) == cs.subrange(0, i));
        assert(cs.drop_last()[i] == cs[i]);
        lemma_collector_sum_exceeds(cs.drop_last(), i);
    }
}

/// At most ten fee collectors.
pub fn assert_no_more_than_10_fee_collectors(cs: &Vec<FeeCollector>) -> (r: Result<(), ContractError>)
    ensures
        r is Ok <==> cs@.len() <= MAX_FEE_COLLECTORS,
        r matches Err(e) ==> e.text() == "Error: "@ + "no more than 10 fee collectors are allowed"@,
{
    if cs.len() > MAX_FEE_COLLECTORS {
        return Err(custom_str("no more than 10 fee collectors are allowed"));
    }
    Ok(())
}

/// The addresses of the fee collectors are valid.
pub fn assert_fee_collector_addresses_are_valid(api: &AddressBook, cs: &Vec<FeeCollector>) -> (r:
    Result<(), ContractError>)
    ensures
        r is Ok <==> forall|i: int| 0 <= i < cs@.len() ==> api.valid(#[trigger] cs@[i].address@),
        r matches Err(e) ==> exists|i: int|
            0 <= i < cs@.len() && !api.valid(cs@[i].address@) && e.text() == "Error: "@
                + invalid_address_text("fee collector address "@, #[trigger] cs@[i].address@),
{
    let mut i: usize = 0;
    while i < cs.len()
        invariant
            i <= cs.len(),
            forall|j: int| 0 <= j < i ==> api.valid(#[trigger] cs@[j].address@),
        decreases cs.len() - i,
    {
        if api.addr_validate(&cs[i].address).is_err() {
            assert(!api.valid(cs@[i as int].address@));
            return Err(custom(join3("fee collector address ", cs[i].address.as_str(), " is invalid")));
        }
        i = i + 1;
    }
    Ok(())
}

/// The shares of the fee collectors add up to exactly one.
pub fn assert_fee_collector_allocations_add_up_to_one(cs: &Vec<FeeCollector>) -> (r: Result<
    (),
    ContractError,
>)
    ensures
        r is Ok <==> collector_allocation_sum(cs@) == DECIMAL_FRACTIONAL,
        r matches Err(e) ==> e.text() == "Error: "@ + "fee collector allocations must add up to 1"@,
{
    let mut total: u128 = 0;
    let mut i: usize = 0;
    while i < cs.len()
        invariant
            i <= cs.len(),
            total == collector_allocation_sum(cs@.subrange(0, i as int)),
        decreases cs.len() - i,
    {
        assert(cs@.subrange(0, i + 1).drop_last() == cs@.subrange(0, i as int));
        match total.checked_add(cs[i].allocation.atomics) {
            Some(t) => {
                total = t;
            },
            None => {
                proof {
                    lemma_collector_sum_exceeds(cs@, i as int);
                }
                return Err(custom_str("fee collector allocations must add up to 1"));
            },
        }
        i = i + 1;
    }
    assert(cs@.subrange(0, cs@.len() as int) == cs@);
    if total != DECIMAL_FRACTIONAL {
        return Err(custom_str("fee collector allocations must add up to 1"));
    }
    Ok(())
}

/// A fee is at most 5%.
pub fn assert_fee_level_is_valid(fee: &Decimal) -> (r: Result<(), ContractError>)
    ensures
        r is Ok <==> fee.atomics <= MAX_FEE_ATOMICS,
        r matches Err(e) ==> e.text() == "Error: "@ + "fee level cannot be larger than 5%"@,
{
    if fee.atomics > MAX_FEE_ATOMICS {
        return Err(custom_str("fee level cannot be larger than 5%"));
    }
    Ok(())
}

/// A page limit, when given, lies between 30 and 1000.
pub fn assert_page_limit_is_valid(limit: Option<u16>) -> (r: Result<(), ContractError>)
    ensures
        r is Ok <==> (limit matches Some(l) ==> MIN_PAGE_LIMIT <= l <= MAX_PAGE_LIMIT),
        r matches Err(e) ==> e is CustomError && limit is Some,
        r matches Err(e) ==> (limit->0 > MAX_PAGE_LIMIT ==> e->val@ == "limit cannot be greater than 1000."@),
        r matches Err(e) ==> (limit->0 < MIN_PAGE_LIMIT ==> e->val@ == "limit cannot be less than 30."@),
{
    if let Some(l) = limit {
        if l > MAX_PAGE_LIMIT {
            return Err(custom_str("limit cannot be greater than 1000."));
        }
        if l < MIN_PAGE_LIMIT {
            return Err(custom_str("limit cannot be less than 30."));
        }
    }
    Ok(())
}

/// The page limit of a query, when given, is at most 1000.
pub fn assert_page_limit_is_within_max(limit: Option<u16>) -> (r: Result<(), StdError>)
    ensures
        r is Ok <==> (limit matches Some(l) ==> l <= MAX_PAGE_LIMIT),
        r matches Err(e) ==> e.text() == "Generic error: "@ + "limit cannot be greater than 1000."@,
{
    if let Some(l) = limit {
        if l > MAX_PAGE_LIMIT {
            return Err(StdError::GenericErr { msg: String::from_str("limit cannot be greater than 1000.") });
        }
    }
    Ok(())
}

/// A slippage tolerance is at most one.
pub fn assert_slippage_tolerance_is_less_than_or_equal_to_one(s: Decimal) -> (r: Result<
    (),
    ContractError,
>)
    ensures
        r is Ok <==> s.atomics <= DECIMAL_FRACTIONAL,
        r matches Err(e) ==> e.text() == "Error: "@
            + "slippage tolerance must be less than or equal to 1"@,
{
    if s.atomics > DECIMAL_FRACTIONAL {
        return Err(custom_str("slippage tolerance must be less than or equal to 1"));
    }
    Ok(())
}

/// The default slippage tolerance is at most one.
pub fn assert_default_slippage_tolerance_is_less_than_or_equal_to_one(s: Decimal) -> (r: Result<
    (),
    ContractError,
>)
    ensures
        r is Ok <==> s.atomics <= DECIMAL_FRACTIONAL,
        r matches Err(e) ==> e.text() == "Error: "@
            + "default slippage tolerance must be less than or equal to 1"@,
{
    if s.atomics > DECIMAL_FRACTIONAL {
        return Err(custom_str("default slippage tolerance must be less than or equal to 1"));
    }
    Ok(())
}

/// The TWAP period lies between 30 seconds and an hour.
pub fn assert_twap_period_is_valid(p: u64) -> (r: Result<(), ContractError>)
    ensures
        r is Ok <==> MIN_TWAP_PERIOD <= p <= MAX_TWAP_PERIOD,
        r matches Err(e) ==> e.text() == "Error: "@ + "twap_period must be between 30 and 3600"@,
{
    if p < MIN_TWAP_PERIOD || p > MAX_TWAP_PERIOD {
        return Err(custom_str("twap_period must be between 30 and 3600"));
    }
    Ok(())
}

/// The escrow level of risk-weighted vaults is at most 100%.
pub fn assert_risk_weighted_average_escrow_level_is_no_greater_than_100_percent(level: Decimal) -> (r:
    Result<(), ContractError>)
    ensures
        r is Ok <==> level.atomics <= DECIMAL_FRACTIONAL,
        r matches Err(e) ==> e.text() == "Error: "@
            + "risk_weighted_average_escrow_level cannot be greater than 100%"@,
{
    if level.atomics > DECIMAL_FRACTIONAL {
        return Err(custom_str("risk_weighted_average_escrow_level cannot be greater than 100%"));
    }
    Ok(())
}

/// A weighted-scale multiplier is at most 10.
pub fn assert_weighted_scale_multiplier_is_no_more_than_10(m: Decimal) -> (r: Result<
    (),
    ContractError,
>)
    ensures
        r is Ok <==> m.atomics <= MAX_WEIGHTED_SCALE_MULTIPLIER_ATOMICS,
        r matches Err(e) ==> e.text() == "Error: "@
            + "Cannot set weighted scale multiplier to more than 10"@,
{
    if m.atomics > MAX_WEIGHTED_SCALE_MULTIPLIER_ATOMICS {
        return Err(custom_str("Cannot set weighted scale multiplier to more than 10"));
    }
    Ok(())
}

/// The vault has not been cancelled.
pub fn assert_vault_is_not_cancelled(vault: &Vault) -> (r: Result<(), ContractError>)
    ensures
        r is Ok <==> !vault.is_cancelled_spec(),
        r matches Err(e) ==> e.text() == "Error: "@ + "vault is already cancelled"@,
{
    if vault.status == VaultStatus::Cancelled {
        return Err(custom_str("vault is already cancelled"));
    }
    Ok(())
}

/// A label is at most 100 characters long.
pub fn assert_label_is_no_longer_than_100_characters(label: &String) -> (r: Result<
    (),
    ContractError,
>)
    ensures
        r is Ok <==> label@.len() <= MAX_LABEL_LENGTH,
        r matches Err(e) ==> e.text() == "Error: "@
            + "Vault label cannot be longer than 100 characters"@,
{
    if label.as_str().unicode_len() > MAX_LABEL_LENGTH {
        return Err(custom_str("Vault label cannot be longer than 100 characters"));
    }
    Ok(())
}

/// A deposit is made in the denomination the vault swaps.
pub fn assert_deposited_denom_matches_send_denom(deposited: &String, send: &String) -> (r: Result<
    (),
    ContractError,
>)
    ensures
        r is Ok <==> deposited@ == send@,
        r matches Err(e) ==> e.text() == "Error: "@ + "received asset with denom "@ + deposited@
            + ", but needed "@ + send@,
{
    if *deposited != *send {
        let mut s = join3("received asset with denom ", deposited.as_str(), ", but needed ");
        s.append(send.as_str());
        return Err(custom(s));
    }
    Ok(())
}

/// A swap route names at least one pool.
pub fn assert_route_not_empty(route: &Vec<u64>) -> (r: Result<(), ContractError>)
    ensures
        r is Ok <==> route@.len() > 0,
        r matches Err(e) ==> e.text() == "Error: "@ + "Swap route must not be empty"@,
{
    if route.len() == 0 {
        return Err(custom_str("Swap route must not be empty"));
    }
    Ok(())
}

/// A swap route names no pool twice.
pub fn assert_route_has_no_duplicate_entries(route: &Vec<u64>) -> (r: Result<(), ContractError>)
    ensures
        r is Ok <==> route@.no_duplicates(),
        r matches Err(e) ==> e.text() == "Error: "@ + "Swap route must not contain duplicate entries"@,
{
    let mut i: usize = 0;
    while i < route.len()
        invariant
            i <= route.len(),
            forall|a: int, b: int| 0 <= a < b < route@.len() && a < i ==> route@[a] != route@[b],
        decreases route.len() - i,
    {
        let mut j: usize = i + 1;
        while j < route.len()
            invariant
                i < route.len(),
                i + 1 <= j <= route.len(),
                forall|a: int, b: int|
                    0 <= a < b < route@.len() && a < i ==> route@[a] != route@[b],
                forall|b: int| i < b < j ==> route@[i as int] != route@[b],
            decreases route.len() - j,
        {
            if route[i] == route[j] {
                return Err(custom_str("Swap route must not contain duplicate entries"));
            }
            j = j + 1;
        }
        i = i + 1;
    }
    Ok(())
}

/// The denominations that a pool of the chain trades.
#[derive(Debug, Clone, PartialEq, Eq)]
pub struct PoolInfo {
    pub id: u64,
    pub denoms: Vec<String>,
}

impl PoolInfo {
    /// The pool's own copy.
    pub fn copy(&self) -> (p: PoolInfo)
        ensures
            p.id == self.id,
            p.denoms@ == self.denoms@,
    {
        let mut denoms: Vec<String> = Vec::new();
        let mut i: usize = 0;
        while i < self.denoms.len()
            invariant
                i <= self.denoms.len(),
                denoms@ == self.denoms@.subrange(0, i as int),
            decreases self.denoms.len() - i,
        {
            denoms.push(self.denoms[i].clone());
            i = i + 1;
        }
        assert(denoms@ == self.denoms@);
        PoolInfo { id: self.id, denoms }
    }
}

/// The pool with the given id, among the pools the chain described.
pub open spec fn pool_with_id(pools: Seq<PoolInfo>, id: u64) -> Option<PoolInfo>
    decreases pools.len(),
{
    if pools.len() == 0 {
        None
    } else if pools[0].id == id {
        Some(pools[0])
    } else {
        pool_with_id(pools.drop_first(), id)
    }
}

pub open spec fn pool_has_denom(p: PoolInfo, denom: Seq<char>) -> bool {
    exists|i: int| 0 <= i < p.denoms@.len() && #[trigger] p.denoms@[i]@ == denom
}

/// The denomination that a two-asset pool gives for `denom`.
pub open spec fn pool_other_denom(p: PoolInfo, denom: Seq<char>) -> Seq<char> {
    if p.denoms@.len() >= 2 && p.denoms@[0]@ == denom {
        p.denoms@[1]@
    } else if p.denoms@.len() >= 1 {
        p.denoms@[0]@
    } else {
        Seq::empty()
    }
}

/// The denomination held after walking `route` from `denom`, when every pool on the
/// way holds what comes into it; `None` otherwise.
pub open spec fn walk_route(pools: Seq<PoolInfo>, route: Seq<u64>, denom: Seq<char>) -> Option<
    Seq<char>,
>
    decreases route.len(),
{
    if route.len() == 0 {
        Some(denom)
    } else {
        match pool_with_id(pools, route[0]) {
            Some(p) => if pool_has_denom(p, denom) {
                walk_route(pools, route.drop_first(), pool_other_denom(p, denom))
            } else {
                None
            },
            None => None,
        }
    }
}

/// A route that takes the base denomination of the pair to its quote denomination.
pub open spec fn route_matches_denoms(pools: Seq<PoolInfo>, pair: Pair) -> bool {
    walk_route(pools, pair.route@, pair.base_denom@) == Some(pair.quote_denom@)
}

pub(crate) fn find_pool(pools: &Vec<PoolInfo>, id: u64) -> (r: Option<&PoolInfo>)
    ensures
        r is Some <==> pool_with_id(pools@, id) is Some,
        r matches Some(p) ==> *p == pool_with_id(pools@, id)->0,
{
    let mut i: usize = 0;
    assert(pools@.subrange(0, pools@.len() as int) == pools@);
    while i < pools.len()
        invariant
            i <= pools.len(),
            pool_with_id(pools@, id) == pool_with_id(
                pools@.subrange(i as int, pools@.len() as int),
                id,
            ),
        decreases pools.len() - i,
    {
        assert(pools@.subrange(i as int, pools@.len() as int).drop_first() == pools@.subrange(
            i + 1,
            pools@.len() as int,
        ));
        if pools[i].id == id {
            return Some(&pools[i]);
        }
        i = i + 1;
    }
    None
}

fn pool_contains(p: &PoolInfo, denom: &String) -> (b: bool)
    ensures
        b == pool_has_denom(*p, denom@),
{
    let mut i: usize = 0;
    while i < p.denoms.len()
        invariant
            i <= p.denoms.len(),
            forall|j: int| 0 <= j < i ==> #[trigger] p.denoms@[j]@ != denom@,
        decreases p.denoms.len() - i,
    {
        if p.denoms[i] == *denom {
            return true;
        }
        i = i + 1;
    }
    false
}

pub(crate) fn pool_other(p: &PoolInfo, denom: &String) -> (d: String)
    ensures
        d@ == pool_other_denom(*p, denom@),
{
    if p.denoms.len() >= 2 && p.denoms[0] == *denom {
        p.denoms[1].clone()
    } else if p.denoms.len() >= 1 {
        p.denoms[0].clone()
    } else {
        String::new()
    }
}

pub open spec fn denom_not_in_pool_text(denom: Seq<char>, id: u64) -> Seq<char> {
    "denom "@ + denom + " not found in pool id "@ + decimal_text(id as nat)
}

/// The pools of the route, as the chain describes them, take the base denomination
/// of the pair to its quote denomination.
pub fn assert_route_matches_denoms(pools: &Vec<PoolInfo>, pair: &Pair) -> (r: Result<
    (),
    ContractError,
>)
    requires
        pair.route@.len() > 0,
    ensures
        r is Ok <==> route_matches_denoms(pools@, *pair),
        r matches Err(e) ==> e is Std,
{
    let mut denom = pair.base_denom.clone();
    let mut i: usize = 0;
    assert(pair.route@.subrange(0, pair.route@.len() as int) == pair.route@);
    while i < pair.route.len()
        invariant
            i <= pair.route.len(),
            pair.route@.len() > 0,
            walk_route(pools@, pair.route@, pair.base_denom@) == walk_route(
                pools@,
                pair.route@.subrange(i as int, pair.route@.len() as int),
                denom@,
            ),
        decreases pair.route.len() - i,
    {
        let ghost rest = pair.route@.subrange(i as int, pair.route@.len() as int);
        assert(rest.drop_first() == pair.route@.subrange(i + 1, pair.route@.len() as int));
        let id = pair.route[i];
        match find_pool(pools, id) {
            Some(p) => {
                if !pool_contains(p, &denom) {
                    let mut s = join3("denom ", denom.as_str(), " not found in pool id ");
                    let n = u64_text(id);
                    s.append(n.as_str());
                    return Err(ContractError::Std(StdError::GenericErr { msg: s }));
                }
                denom = pool_other(p, &denom);
            },
            None => {
                let n = u64_text(id);
                return Err(ContractError::Std(StdError::GenericErr { msg: join("pool not found: ", n.as_str()) }));
            },
        }
        i = i + 1;
    }
    assert(pair.route@.subrange(pair.route@.len() as int, pair.route@.len() as int).len() == 0);
    if denom != pair.quote_denom {
        let last = pair.route[pair.route.len() - 1];
        let mut s = join3("denom ", pair.quote_denom.as_str(), " not found in pool id ");
        let n = u64_text(last);
        s.append(n.as_str());
        return Err(ContractError::Std(StdError::GenericErr { msg: s }));
    }
    Ok(())
}

} // verus!
