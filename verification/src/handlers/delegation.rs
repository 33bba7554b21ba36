//! Delegating a user's funds to a validator, and what comes back of it.
use vstd::prelude::*;
use crate::error::{custom, ContractError, StdError};
use crate::handlers::execution::{coin_text, coin_to_string};
use crate::handlers::vaults::lemma_push_event_keeps_wf;
use crate::state::{has_room, lemma_vault_index, next_event, vault_index, wf, State};
use crate::text::{amount_text, decimal_text, join, join3};
use crate::types::{
    Attribute, Coin, CosmosMsg, Env, EventData, MessageInfo, ReplyEvent, Response, SubMsg,
    AFTER_DELEGATION_REPLY_ID,
};
use crate::validation::{assert_exactly_one_asset, exactly_one_asset_text, invalid_address_text, AddressBook};

verus! {

/// The chain's bond denomination.
pub open spec fn bond_denom() -> Seq<char> {
    "uosmo"@
}

pub open spec fn not_bond_denom_text(denom: Seq<char>) -> Seq<char> {
    denom + " is not the bond denomination"@
}

/// The coin is of the bond denomination.
pub fn assert_denom_is_bond_denom(denom: &String) -> (r: Result<(), ContractError>)
    ensures
        r is Ok <==> denom@ == bond_denom(),
        r matches Err(e) ==> e.text() == "Error: "@ + not_bond_denom_text(denom@),
{
    let bond = String::from_str("uosmo");
    if *denom != bond {
        return Err(custom(join(denom.as_str(), " is not the bond denomination")));
    }
    Ok(())
}

pub open spec fn invalid_validator_text(validator: Seq<char>) -> Seq<char> {
    validator + " is not a valid validator"@
}

/// The message that delegates `coin` from the delegator to the validator, through the
/// contract's authorisation, whose outcome comes back under the delegation reply id.
pub open spec fn delegate_msg_of(m: SubMsg, delegator: String, validator: String, coin: Coin) -> bool {
    &&& m.reply_id == Some(AFTER_DELEGATION_REPLY_ID)
    &&& m.msg == CosmosMsg::Delegate { delegator_address: delegator, validator_address: validator, amount: coin }
}

/// Sends the one coin that came with the message to the delegator and delegates it on
/// the delegator's behalf to the validator. The validator's standing is the chain's
/// answer, handed in as `validator_is_valid`.
pub fn z_delegate_handler(api: &AddressBook, info: &MessageInfo, delegator_address: &String, validator_address: &String, validator_is_valid: bool) -> (r: Result<Response, ContractError>)
    ensures
        r is Ok <==> info.funds@.len() == 1 && api.valid(delegator_address@) && validator_is_valid && info.funds@[0].denom@ == bond_denom(),
        r matches Err(e) ==> {
            if info.funds@.len() != 1 {
                e.text() == "Error: "@ + exactly_one_asset_text(info.funds@.len())
            } else if !api.valid(delegator_address@) {
                e.text() == "Error: "@ + invalid_address_text("delegator address "@, delegator_address@)
            } else if !validator_is_valid {
                e.text() == "Error: "@ + invalid_validator_text(validator_address@)
            } else {
                e.text() == "Error: "@ + not_bond_denom_text(info.funds@[0].denom@)
            }
        },
        r matches Ok(resp) ==> {
            let coin = info.funds@[0];
            &&& resp.messages@.len() == 2
            &&& crate::fees::bank_send_of(resp.messages@[0], *delegator_address, coin)
            &&& delegate_msg_of(resp.messages@[1], *delegator_address, *validator_address, coin)
            &&& resp.attributes@.len() == 3
            &&& resp.attributes@[0].key@ == "delegation"@ && resp.attributes@[0].value@ == coin_text(coin)
            &&& resp.attributes@[1].key@ == "delegator"@ && resp.attributes@[1].value == *delegator_address
            &&& resp.attributes@[2].key@ == "validator"@ && resp.attributes@[2].value == *validator_address
        },
{
    assert_exactly_one_asset(&info.funds)?;
    if api.addr_validate(delegator_address).is_err() {
        return Err(custom(join3("delegator address ", delegator_address.as_str(), " is invalid")));
    }
    if !validator_is_valid {
        return Err(custom(join(validator_address.as_str(), " is not a valid validator")));
    }
    let coin = info.funds[0].copy();
    assert_denom_is_bond_denom(&coin.denom)?;
    let mut resp = Response::new();
    resp.add_attribute("delegation", coin_to_string(&coin));
    resp.add_attribute("delegator", delegator_address.clone());
    resp.add_attribute("validator", validator_address.clone());
    let mut coins: Vec<Coin> = Vec::new();
    coins.push(coin.copy());
    resp.add_message(SubMsg { msg: CosmosMsg::BankSend { to_address: delegator_address.clone(), amount: coins }, reply_id: None });
    resp.add_message(SubMsg {
        msg: CosmosMsg::Delegate { delegator_address: delegator_address.clone(), validator_address: validator_address.clone(), amount: coin },
        reply_id: Some(AFTER_DELEGATION_REPLY_ID),
    });
    Ok(resp)
}

/// Records whether a delegation went through.
pub fn log_delegation_result(succeeded: bool) -> (r: Response)
    ensures
        r.messages@.len() == 0,
        r.attributes@.len() == 1,
        r.attributes@[0].key@ == "delegate_result"@,
        r.attributes@[0].value@ == if succeeded { "success"@ } else { "failure"@ },
{
    let mut resp = Response::new();
    if succeeded {
        resp.add_attribute("delegate_result", String::from_str("success"));
    } else {
        resp.add_attribute("delegate_result", String::from_str("failure"));
    }
    resp
}

/// The value of the first attribute with the key in the first event of the type that
/// has it, if any.
pub open spec fn attribute_in_events(events: Seq<ReplyEvent>, ty: Seq<char>, key: Seq<char>) -> Option<Seq<char>>
    decreases events.len(),
{
    if events.len() == 0 {
        None
    } else {
        match attribute_in_events(events.drop_last(), ty, key) {
            Some(v) => Some(v),
            None => if events.last().ty@ == ty {
                attribute_value(events.last().attributes@, key)
            } else {
                None
            },
        }
    }
}

/// The value of the first attribute with the key, if any.
pub open spec fn attribute_value(attrs: Seq<Attribute>, key: Seq<char>) -> Option<Seq<char>>
    decreases attrs.len(),
{
    if attrs.len() == 0 {
        None
    } else {
        match attribute_value(attrs.drop_last(), key) {
            Some(v) => Some(v),
            None => if attrs.last().key@ == key {
                Some(attrs.last().value@)
            } else {
                None
            },
        }
    }
}

pub open spec fn missing_attribute_text(ty: Seq<char>, key: Seq<char>) -> Seq<char> {
    "Generic error: "@ + "unable to find "@ + key + " attribute in "@ + ty + " event"@
}

fn find_attribute(attrs: &Vec<Attribute>, key: &str) -> (r: Option<String>)
    ensures
        r is Some <==> attribute_value(attrs@, key@) is Some,
        r matches Some(v) ==> v@ == attribute_value(attrs@, key@)->0,
{
    let mut i: usize = 0;
    let k = String::from_str(key);
    while i < attrs.len()
        invariant
            i <= attrs.len(),
            k@ == key@,
            attribute_value(attrs@.subrange(0, i as int), key@) is None,
        decreases attrs.len() - i,
    {
        proof {
            lemma_attribute_value_prefix(attrs@, i as int + 1, key@);
        }
        assert(attrs@.subrange(0, i + 1).drop_last() == attrs@.subrange(0, i as int));
        if attrs[i].key == k {
            return Some(attrs[i].value.clone());
        }
        i = i + 1;
    }
    assert(attrs@.subrange(0, attrs@.len() as int) == attrs@);
    None
}

proof fn lemma_attribute_value_prefix(attrs: Seq<Attribute>, n: int, key: Seq<char>)
    requires
        0 <= n <= attrs.len(),
    ensures
        attribute_value(attrs.subrange(0, n), key) is Some ==> attribute_value(attrs, key) == attribute_value(attrs.subrange(0, n), key),
    decreases attrs.len(),
{
    if n < attrs.len() {
        assert(attrs.drop_last().subrange(0, n) == attrs.subrange(0, n));
        lemma_attribute_value_prefix(attrs.drop_last(), n, key);
    } else {
        assert(attrs.subrange(0, n) == attrs);
    }
}

proof fn lemma_attribute_in_events_prefix(events: Seq<ReplyEvent>, n: int, ty: Seq<char>, key: Seq<char>)
    requires
        0 <= n <= events.len(),
    ensures
        attribute_in_events(events.subrange(0, n), ty, key) is Some ==> attribute_in_events(events, ty, key) == attribute_in_events(events.subrange(0, n), ty, key),
    decreases events.len(),
{
    if n < events.len() {
        assert(events.drop_last().subrange(0, n) == events.subrange(0, n));
        lemma_attribute_in_events_prefix(events.drop_last(), n, ty, key);
    } else {
        assert(events.subrange(0, n) == events);
    }
}

/// The value of an attribute of an event of a message's outcome, or the error that it
/// is missing.
pub fn get_attribute_in_event(events: &Vec<ReplyEvent>, ty: &str, key: &str) -> (r: Result<String, StdError>)
    ensures
        r is Ok <==> attribute_in_events(events@, ty@, key@) is Some,
        r matches Ok(v) ==> v@ == attribute_in_events(events@, ty@, key@)->0,
        r matches Err(e) ==> e.text() == missing_attribute_text(ty@, key@),
{
    let t = String::from_str(ty);
    let mut i: usize = 0;
    while i < events.len()
        invariant
            i <= events.len(),
            t@ == ty@,
            attribute_in_events(events@.subrange(0, i as int), ty@, key@) is None,
        decreases events.len() - i,
    {
        proof {
            lemma_attribute_in_events_prefix(events@, i as int + 1, ty@, key@);
        }
        assert(events@.subrange(0, i + 1).drop_last() == events@.subrange(0, i as int));
        if events[i].ty == t {
            if let Some(v) = find_attribute(&events[i].attributes, key) {
                return Ok(v);
            }
        }
        i = i + 1;
    }
    assert(events@.subrange(0, events@.len() as int) == events@);
    let mut msg = join3("unable to find ", key, " attribute in ");
    msg.append(ty);
    msg.append(" event");
    Err(StdError::GenericErr { msg })
}

pub open spec fn is_digit(c: char) -> bool {
    '0' <= c <= '9'
}

pub open spec fn is_letter(c: char) -> bool {
    ('a' <= c <= 'z') || ('A' <= c <= 'Z')
}

/// The place of the first letter of the text, or its length where it has none.
pub open spec fn first_letter(s: Seq<char>) -> int
    decreases s.len(),
{
    if s.len() == 0 {
        0
    } else if first_letter(s.drop_last()) < s.len() - 1 {
        first_letter(s.drop_last())
    } else if is_letter(s.last()) {
        s.len() - 1
    } else {
        s.len() as int
    }
}

/// The number that a text of decimal digits writes.
pub open spec fn digits_value(s: Seq<char>) -> int
    decreases s.len(),
{
    if s.len() == 0 {
        0
    } else {
        digits_value(s.drop_last()) * 10 + (s.last() as int - '0' as int)
    }
}

/// A coin written as its amount followed by its denomination (`100uosmo`) can be read:
/// a letter starts the denomination, and before it stand only digits, at least one,
/// of an amount that fits in 128 bits.
pub open spec fn display_coin_parses(s: Seq<char>) -> bool {
    let k = first_letter(s);
    &&& 0 < k < s.len()
    &&& forall|i: int| 0 <= i < k ==> is_digit(#[trigger] s[i])
    &&& digits_value(s.take(k)) <= u128::MAX
}

proof fn lemma_first_letter(s: Seq<char>)
    ensures
        0 <= first_letter(s) <= s.len(),
        forall|i: int| 0 <= i < first_letter(s) ==> !is_letter(#[trigger] s[i]),
        first_letter(s) < s.len() ==> is_letter(s[first_letter(s)]),
    decreases s.len(),
{
    if s.len() > 0 {
        lemma_first_letter(s.drop_last());
        assert forall|i: int| 0 <= i < first_letter(s) implies !is_letter(#[trigger] s[i]) by {
            if i < s.len() - 1 {
                assert(s[i] == s.drop_last()[i]);
            }
        }
        if first_letter(s.drop_last()) < s.len() - 1 {
            assert(s[first_letter(s)] == s.drop_last()[first_letter(s)]);
        }
    }
}

proof fn lemma_digits_value_grows(s: Seq<char>, i: int)
    requires
        0 <= i <= s.len(),
        forall|j: int| 0 <= j < s.len() ==> is_digit(#[trigger] s[j]),
    ensures
        0 <= digits_value(s.take(i)) <= digits_value(s),
    decreases s.len(),
{
    if s.len() > 0 {
        if i == s.len() {
            assert(s.take(i) == s);
            lemma_digits_value_grows(s.drop_last(), 0);
            assert(s.drop_last().take(0) == s.take(0));
        } else {
            assert(s.drop_last().take(i) == s.take(i));
            assert forall|j: int| 0 <= j < s.drop_last().len() implies is_digit(#[trigger] s.drop_last()[j]) by {
                assert(s.drop_last()[j] == s[j]);
            }
            lemma_digits_value_grows(s.drop_last(), i);
            assert(is_digit(s[s.len() - 1]));
        }
    } else {
        assert(s.take(i) == s);
    }
}

/// Reads a coin written as its amount followed by its denomination.
pub fn coin_from_display_formatted_coin(text: &String) -> (r: Coin)
    requires
        display_coin_parses(text@),
    ensures
        r.amount == digits_value(text@.take(first_letter(text@))),
        r.denom@ == text@.skip(first_letter(text@)),
{
    let ghost s = text@;
    proof {
        lemma_first_letter(s);
    }
    let n = text.as_str().unicode_len();
    let mut k: usize = 0;
    let mut amount: u128 = 0;
    while k < n
        invariant
            n == s.len(),
            text@ == s,
            display_coin_parses(s),
            0 <= first_letter(s) <= s.len(),
            forall|i: int| 0 <= i < first_letter(s) ==> !is_letter(#[trigger] s[i]),
            first_letter(s) < s.len() ==> is_letter(s[first_letter(s)]),
            k <= first_letter(s),
            amount == digits_value(s.take(k as int)),
        ensures
            k == first_letter(s),
            amount == digits_value(s.take(k as int)),
        decreases n - k,
    {
        let c = text.as_str().get_char(k);
        if ('a' <= c && c <= 'z') || ('A' <= c && c <= 'Z') {
            break;
        }
        proof {
            assert(k < first_letter(s));
            assert(is_digit(s[k as int]));
            let p = s.take(first_letter(s));
            assert forall|j: int| 0 <= j < p.len() implies is_digit(#[trigger] p[j]) by {
                assert(p[j] == s[j]);
            }
            lemma_digits_value_grows(p, k + 1);
            assert(p.take(k + 1) == s.take(k + 1));
            assert(s.take(k + 1).drop_last() == s.take(k as int));
            assert(s.take(k + 1).last() == c);
        }
        amount = amount * 10 + ((c as u32) - ('0' as u32)) as u128;
        k = k + 1;
    }
    assert(k == first_letter(s));
    let denom = String::from_str(text.as_str().substring_char(k, n));
    assert(s.subrange(k as int, n as int) == s.skip(k as int));
    Coin { denom, amount }
}

/// The outcome of a delegation made for a vault comes back: where it went through, the
/// validator and the amount it reports are recorded; where it failed, the failure.
pub fn after_z_delegation(state: &mut State, env: &Env, reply: Result<Vec<ReplyEvent>, String>) -> (r: Result<Response, ContractError>)
    requires
        wf(*old(state)),
        has_room(*old(state)),
        reply matches Ok(events) ==> (attribute_in_events(events@, "delegate"@, "amount"@) matches Some(a) ==> display_coin_parses(a)),
    ensures
        r is Err ==> *final(state) == *old(state),
        r is Ok <==> ({
            let s = *old(state);
            &&& s.vault_cache is Some
            &&& vault_index(s.vaults@, s.vault_cache->0) >= 0
            &&& reply matches Ok(events) ==> attribute_in_events(events@, "delegate"@, "validator"@) is Some
                && attribute_in_events(events@, "delegate"@, "amount"@) is Some
        }),
        r matches Err(e) ==> {
            let s = *old(state);
            if s.vault_cache is None {
                e.text() == crate::handlers::execution::cache_missing_text("dca::state::cache::VaultCache"@)
            } else if vault_index(s.vaults@, s.vault_cache->0) < 0 {
                e.text() == crate::state::not_found_text(s.vault_cache->0)
            } else if reply matches Ok(events) && attribute_in_events(events@, "delegate"@, "validator"@) is None {
                e.text() == missing_attribute_text("delegate"@, "validator"@)
            } else {
                e.text() == missing_attribute_text("delegate"@, "amount"@)
            }
        },
        r matches Ok(resp) ==> {
            let s = *old(state);
            let id = s.vault_cache->0;
            &&& final(state).vaults == s.vaults
            &&& final(state).config == s.config
            &&& final(state).pairs == s.pairs
            &&& final(state).next_vault_id == s.next_vault_id
            &&& final(state).post_execution_actions == s.post_execution_actions
            &&& final(state).disburse_escrow_tasks == s.disburse_escrow_tasks
            &&& final(state).vault_cache == s.vault_cache
            &&& final(state).swap_cache == s.swap_cache
            &&& final(state).custom_fees == s.custom_fees
            &&& final(state).swap_adjustments == s.swap_adjustments
            &&& final(state).limit_order_cache == s.limit_order_cache
            &&& wf(*final(state))
            &&& final(state).events@.len() == s.events@.len() + 1
            &&& final(state).events@.drop_last() == s.events@
            &&& final(state).events@.last().id == s.events@.len() + 1
            &&& final(state).events@.last().resource_id == id
            &&& final(state).events@.last().timestamp == env.time
            &&& final(state).events@.last().block_height == env.height
            &&& match reply {
                Ok(events) => {
                    let a = attribute_in_events(events@, "delegate"@, "amount"@)->0;
                    final(state).events@.last().data matches EventData::DcaVaultZDelegationSucceeded { validator_address, delegation }
                        && validator_address@ == attribute_in_events(events@, "delegate"@, "validator"@)->0
                        && delegation.amount == digits_value(a.take(first_letter(a)))
                        && delegation.denom@ == a.skip(first_letter(a))
                },
                Err(_) => final(state).events@.last().data == EventData::DcaVaultDelegationFailed,
            }
            &&& resp.messages@.len() == 0
            &&& resp.attributes@.len() == 2
            &&& resp.attributes@[0].key@ == "method"@ && resp.attributes@[0].value@ == "after_z_delegation"@
            &&& resp.attributes@[1].key@ == "vault_id"@ && resp.attributes@[1].value@ == decimal_text(id as nat)
        },
{
    let id = match state.vault_cache {
        Some(id) => id,
        None => return Err(ContractError::Std(StdError::NotFound { kind: String::from_str("dca::state::cache::VaultCache") })),
    };
    let i = state.vault_position(id)?;
    proof {
        lemma_vault_index(state.vaults@, id);
    }
    let data = match reply {
        Ok(events) => {
            let validator_address = match get_attribute_in_event(&events, "delegate", "validator") {
                Ok(v) => v,
                Err(e) => return Err(ContractError::Std(e)),
            };
            let amount = match get_attribute_in_event(&events, "delegate", "amount") {
                Ok(v) => v,
                Err(e) => return Err(ContractError::Std(e)),
            };
            let delegation = coin_from_display_formatted_coin(&amount);
            EventData::DcaVaultZDelegationSucceeded { validator_address, delegation }
        },
        Err(_) => EventData::DcaVaultDelegationFailed,
    };
    let ghost s0 = *state;
    state.create_event(id, env, data);
    proof {
        lemma_push_event_keeps_wf(s0, *state, state.events@.last());
    }
    let mut resp = Response::new();
    resp.add_attribute("method", String::from_str("after_z_delegation"));
    resp.add_attribute("vault_id", amount_text(id));
    Ok(resp)
}

/// The outcome of a vault's delegation comes back: it is recorded, and the cached vault
/// is forgotten.
pub fn delegation_succeeded(state: &mut State, env: &Env, succeeded: bool) -> (r: Result<Response, ContractError>)
    requires
        wf(*old(state)),
        has_room(*old(state)),
    ensures
        r is Err ==> *final(state) == *old(state),
        r is Ok <==> old(state).vault_cache is Some && vault_index(old(state).vaults@, old(state).vault_cache->0) >= 0,
        r matches Err(e) ==> if old(state).vault_cache is None {
            e.text() == crate::handlers::execution::cache_missing_text("dca::state::cache::VaultCache"@)
        } else {
            e.text() == crate::state::not_found_text(old(state).vault_cache->0)
        },
        r matches Ok(resp) ==> {
            let s = *old(state);
            let id = s.vault_cache->0;
            &&& final(state).events@ == s.events@.push(next_event(s.events@.len(), id, *env,
                if succeeded { EventData::DcaVaultDelegationSucceeded } else { EventData::DcaVaultDelegationFailed }))
            &&& final(state).vault_cache is None
            &&& final(state).vaults == s.vaults
            &&& final(state).config == s.config
            &&& final(state).pairs == s.pairs
            &&& final(state).next_vault_id == s.next_vault_id
            &&& final(state).post_execution_actions == s.post_execution_actions
            &&& final(state).disburse_escrow_tasks == s.disburse_escrow_tasks
            &&& final(state).swap_cache == s.swap_cache
            &&& final(state).custom_fees == s.custom_fees
            &&& final(state).swap_adjustments == s.swap_adjustments
            &&& final(state).limit_order_cache == s.limit_order_cache
            &&& wf(*final(state))
            &&& resp.messages@.len() == 0
            &&& resp.attributes@.len() == 2
            &&& resp.attributes@[0].key@ == "method"@ && resp.attributes@[0].value@ == "delegation_succeeded"@
            &&& resp.attributes@[1].key@ == "vault_id"@ && resp.attributes@[1].value@ == decimal_text(id as nat)
        },
{
    let id = match state.vault_cache {
        Some(id) => id,
        None => return Err(ContractError::Std(StdError::NotFound { kind: String::from_str("dca::state::cache::VaultCache") })),
    };
    let i = state.vault_position(id)?;
    let ghost s0 = *state;
    if succeeded {
        state.create_event(id, env, EventData::DcaVaultDelegationSucceeded);
    } else {
        state.create_event(id, env, EventData::DcaVaultDelegationFailed);
    }
    proof {
        lemma_push_event_keeps_wf(s0, *state, state.events@.last());
    }
    state.vault_cache = None;
    let mut resp = Response::new();
    resp.add_attribute("method", String::from_str("delegation_succeeded"));
    resp.add_attribute("vault_id", amount_text(id));
    Ok(resp)
}

/// The outcome of a liquidity provision comes back; it is only reported.
pub fn after_z_liquidity_provision() -> (r: Response)
    ensures
        r.messages@.len() == 0,
        r.attributes@.len() == 1,
        r.attributes@[0].key@ == "method"@,
        r.attributes@[0].value@ == "after_z_liquidity_provision"@,
{
    let mut resp = Response::new();
    resp.add_attribute("method", String::from_str("after_z_liquidity_provision"));
    resp
}

} // verus!
