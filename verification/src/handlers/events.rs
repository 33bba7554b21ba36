//! Queries of the event log and of the vaults whose time trigger is due.
use vstd::prelude::*;
use crate::error::StdError;
use crate::handlers::escrow::first_n;
use crate::state::{DataFix, State};
use crate::types::{Env, Event, Trigger, TriggerConfiguration, Vault};
use crate::validation::{assert_page_limit_is_within_max, MAX_PAGE_LIMIT};

verus! {

/// Whether an event belongs to a page: of the resource where one is given, and past
/// `start_after` in the direction of reading (after it without a direction, before it
/// with one).
pub open spec fn event_selected(e: Event, resource: Option<u128>, start_after: Option<u64>, reverse: Option<bool>) -> bool {
    &&& (resource matches Some(r) ==> e.resource_id == r)
    &&& match (start_after, reverse) {
        (None, _) => true,
        (Some(a), None) => e.id > a,
        (Some(a), Some(_)) => e.id < a,
    }
}

/// The events of the log that belong to a page, in the order of the log.
pub open spec fn selected_events(es: Seq<Event>, resource: Option<u128>, start_after: Option<u64>, reverse: Option<bool>) -> Seq<Event>
    decreases es.len(),
{
    if es.len() == 0 {
        Seq::empty()
    } else if event_selected(es.last(), resource, start_after, reverse) {
        selected_events(es.drop_last(), resource, start_after, reverse).push(es.last())
    } else {
        selected_events(es.drop_last(), resource, start_after, reverse)
    }
}

/// A page of events: the selected ones, newest first when reading in reverse, at
/// most `n` of them.
pub open spec fn events_page(es: Seq<Event>, resource: Option<u128>, start_after: Option<u64>, reverse: Option<bool>, n: nat) -> Seq<Event> {
    let sel = selected_events(es, resource, start_after, reverse);
    first_n(if reverse == Some(true) { sel.reverse() } else { sel }, n)
}

fn page_events(events: Vec<Event>, resource: Option<u128>, start_after: Option<u64>, reverse: Option<bool>, n: usize) -> (r: Vec<Event>)
    ensures
        r@ == events_page(events@, resource, start_after, reverse, n as nat),
{
    let ghost all = events@;
    let mut es = events;
    let mut sel: Vec<Event> = Vec::new();
    while es.len() > 0
        invariant
            all.len() >= es@.len(),
            es@ == all.subrange(0, es@.len() as int),
            selected_events(all, resource, start_after, reverse) == selected_events(es@, resource, start_after, reverse) + sel@,
        decreases es.len(),
    {
        let ghost before = es@;
        let e = es.pop().unwrap();
        assert(before.drop_last() == es@);
        assert(before.last() == e);
        let keep = (match resource {
            Some(r) => e.resource_id == r,
            None => true,
        }) && (match (start_after, reverse) {
            (None, _) => true,
            (Some(a), None) => e.id > a,
            (Some(a), Some(_)) => e.id < a,
        });
        if keep {
            let ghost old_sel = sel@;
            sel.insert(0, e);
            assert(selected_events(before, resource, start_after, reverse) == selected_events(es@, resource, start_after, reverse).push(before.last()));
            assert(selected_events(es@, resource, start_after, reverse).push(before.last()) + old_sel == selected_events(es@, resource, start_after, reverse) + sel@);
        }
    }
    assert(selected_events(es@, resource, start_after, reverse) == Seq::<Event>::empty());
    assert(sel@ == selected_events(all, resource, start_after, reverse));
    let mut r: Vec<Event> = Vec::new();
    if reverse == Some(true) {
        let ghost asc = sel@;
        while sel.len() > 0
            invariant
                r@.len() + sel@.len() == asc.len(),
                sel@ == asc.subrange(0, sel@.len() as int),
                forall|j: int| 0 <= j < r@.len() ==> r@[j] == asc[asc.len() - 1 - j],
            decreases sel.len(),
        {
            let e = sel.pop().unwrap();
            r.push(e);
        }
        assert(r@ == asc.reverse());
    } else {
        r = sel;
    }
    if r.len() > n {
        r.truncate(n);
    }
    r
}

/// A page of the event log: events after `start_after` in id order, or, with a
/// direction, before it (newest first when reversed); at most `limit` (the configured
/// page size without one).
pub fn get_events_handler(state: State, start_after: Option<u64>, limit: Option<u16>, reverse: Option<bool>) -> (r: Result<Vec<Event>, StdError>)
    ensures
        r is Ok <==> (limit matches Some(l) ==> l <= MAX_PAGE_LIMIT),
        r matches Err(e) ==> (limit matches Some(l) && l > MAX_PAGE_LIMIT ==> e.text() == "Generic error: "@ + "limit cannot be greater than 1000."@),
        r matches Ok(es) ==> es@ == events_page(state.events@, None, start_after, reverse, match limit {
            Some(l) => l as nat,
            None => state.config.default_page_limit as nat,
        }),
{
    assert_page_limit_is_within_max(limit)?;
    let n: usize = match limit {
        Some(l) => l as usize,
        None => state.config.default_page_limit as usize,
    };
    Ok(page_events(state.events, None, start_after, reverse, n))
}

/// A page of the events of one resource, as the log page but at most `limit` (30
/// without one).
pub fn get_events_by_resource_id(state: State, resource_id: u128, start_after: Option<u64>, limit: Option<u16>, reverse: Option<bool>) -> (r: Result<Vec<Event>, StdError>)
    ensures
        r is Ok <==> (limit matches Some(l) ==> l <= MAX_PAGE_LIMIT),
        r matches Err(e) ==> (limit matches Some(l) && l > MAX_PAGE_LIMIT ==> e.text() == "Generic error: "@ + "limit cannot be greater than 1000."@),
        r matches Ok(es) ==> es@ == events_page(state.events@, Some(resource_id), start_after, reverse, match limit {
            Some(l) => l as nat,
            None => 30,
        }),
{
    assert_page_limit_is_within_max(limit)?;
    let n: usize = match limit {
        Some(l) => l as usize,
        None => 30,
    };
    Ok(page_events(state.events, Some(resource_id), start_after, reverse, n))
}

/// The data fixes of a resource whose id follows `start_after`, in the order of the store.
pub open spec fn selected_fixes(fs: Seq<DataFix>, resource: u128, start_after: Option<u64>) -> Seq<DataFix>
    decreases fs.len(),
{
    if fs.len() == 0 {
        Seq::empty()
    } else if fs.last().resource_id == resource && (start_after matches Some(a) ==> fs.last().id > a) {
        selected_fixes(fs.drop_last(), resource, start_after).push(fs.last())
    } else {
        selected_fixes(fs.drop_last(), resource, start_after)
    }
}

/// A page of the data fixes of one resource: those after `start_after`, at most
/// `limit` (30 without one) of them.
pub fn get_data_fixes_by_resource_id(state: &State, resource_id: u128, start_after: Option<u64>, limit: Option<u16>) -> (r: Result<Vec<DataFix>, StdError>)
    ensures
        r is Ok <==> (limit matches Some(l) ==> l <= MAX_PAGE_LIMIT),
        r matches Err(e) ==> e.text() == "Generic error: "@ + "limit cannot be greater than 1000."@,
        r matches Ok(fs) ==> fs@ == first_n(selected_fixes(state.data_fixes@, resource_id, start_after), match limit {
            Some(l) => l as nat,
            None => 30,
        }),
{
    assert_page_limit_is_within_max(limit)?;
    let n: usize = match limit {
        Some(l) => l as usize,
        None => 30,
    };
    let fs = &state.data_fixes;
    let mut r: Vec<DataFix> = Vec::new();
    let mut i: usize = 0;
    while i < fs.len()
        invariant
            i <= fs.len(),
            r@ == selected_fixes(fs@.subrange(0, i as int), resource_id, start_after),
        decreases fs.len() - i,
    {
        assert(fs@.subrange(0, i + 1).drop_last() == fs@.subrange(0, i as int));
        let f = &fs[i];
        let after = match start_after {
            Some(a) => f.id > a,
            None => true,
        };
        if f.resource_id == resource_id && after {
            r.push(f.copy());
        }
        i = i + 1;
    }
    assert(fs@.subrange(0, fs@.len() as int) == fs@);
    if r.len() > n {
        r.truncate(n);
    }
    Ok(r)
}

/// The vaults whose time trigger is due by `now`, in the order of the store.
pub open spec fn due_time_triggers(vs: Seq<Vault>, now: u64) -> Seq<u128>
    decreases vs.len(),
{
    if vs.len() == 0 {
        Seq::empty()
    } else if vs.last().trigger matches Some(TriggerConfiguration::Time { target_time }) && target_time <= now {
        due_time_triggers(vs.drop_last(), now).push(vs.last().id)
    } else {
        due_time_triggers(vs.drop_last(), now)
    }
}

/// The ids of the vaults whose time trigger is due by the current block, at most
/// `limit` (30 without one) of them.
pub fn get_time_trigger_ids_handler(state: &State, env: &Env, limit: Option<u16>) -> (r: Result<Vec<u128>, StdError>)
    ensures
        r is Ok <==> (limit matches Some(l) ==> l <= MAX_PAGE_LIMIT),
        r matches Err(e) ==> (limit matches Some(l) && l > MAX_PAGE_LIMIT ==> e.text() == "Generic error: "@ + "limit cannot be greater than 1000."@),
        r matches Ok(ids) ==> ids@ == first_n(due_time_triggers(state.vaults@, env.time), match limit {
            Some(l) => l as nat,
            None => 30,
        }),
{
    assert_page_limit_is_within_max(limit)?;
    let n: usize = match limit {
        Some(l) => l as usize,
        None => 30,
    };
    let vs = &state.vaults;
    let mut r: Vec<u128> = Vec::new();
    let mut i: usize = 0;
    while i < vs.len()
        invariant
            i <= vs.len(),
            r@ == due_time_triggers(vs@.subrange(0, i as int), env.time),
        decreases vs.len() - i,
    {
        assert(vs@.subrange(0, i + 1).drop_last() == vs@.subrange(0, i as int));
        if let Some(TriggerConfiguration::Time { target_time }) = vs[i].trigger {
            if target_time <= env.time {
                r.push(vs[i].id);
            }
        }
        i = i + 1;
    }
    assert(vs@.subrange(0, vs@.len() as int) == vs@);
    if r.len() > n {
        r.truncate(n);
    }
    Ok(r)
}

/// The time triggers of the vaults, in the order of the store.
pub open spec fn time_triggers(vs: Seq<Vault>) -> Seq<Trigger>
    decreases vs.len(),
{
    if vs.len() == 0 {
        Seq::empty()
    } else if vs.last().trigger matches Some(TriggerConfiguration::Time { .. }) {
        time_triggers(vs.drop_last()).push(Trigger { vault_id: vs.last().id, configuration: vs.last().trigger->0 })
    } else {
        time_triggers(vs.drop_last())
    }
}

/// All time triggers, in the order of the store.
pub fn get_time_triggers(state: &State) -> (r: Vec<Trigger>)
    ensures
        r@ == time_triggers(state.vaults@),
{
    let vs = &state.vaults;
    let mut r: Vec<Trigger> = Vec::new();
    let mut i: usize = 0;
    while i < vs.len()
        invariant
            i <= vs.len(),
            r@ == time_triggers(vs@.subrange(0, i as int)),
        decreases vs.len() - i,
    {
        assert(vs@.subrange(0, i + 1).drop_last() == vs@.subrange(0, i as int));
        if let Some(TriggerConfiguration::Time { target_time }) = vs[i].trigger {
            r.push(Trigger { vault_id: vs[i].id, configuration: TriggerConfiguration::Time { target_time } });
        }
        i = i + 1;
    }
    assert(vs@.subrange(0, vs@.len() as int) == vs@);
    r
}

} // verus!
