//! The way a swap takes along a pair's route, and the price it is expected at: the
//! product of the spot prices of the pools on the way.
use vstd::prelude::*;
use crate::error::StdError;
use crate::math::{checked_mul, mul_floor_spec, Decimal, DECIMAL_FRACTIONAL};
use crate::text::fraction_text;
use crate::types::Pair;
use crate::validation::{find_pool, pool_other, pool_other_denom, pool_with_id, PoolInfo};

verus! {

/// One pool on a swap's way: the denomination that goes in and the one that comes out.
#[derive(Debug, Clone, PartialEq, Eq)]
pub struct Hop {
    pub pool_id: u64,
    pub offer_denom: String,
    pub receive_denom: String,
}

pub open spec fn hop_view(h: Hop) -> (u64, Seq<char>, Seq<char>) {
    (h.pool_id, h.offer_denom@, h.receive_denom@)
}

/// The pools a swap of `swap_denom` passes, in order: the route as stored from the base
/// denomination, backwards from the quote denomination.
pub open spec fn route_towards(pair: Pair, swap_denom: Seq<char>) -> Seq<u64> {
    if swap_denom == pair.base_denom@ {
        pair.route@
    } else {
        pair.route@.reverse()
    }
}

/// The hops of a walk along `route` from `denom`; `None` where a pool is not among
/// those the chain described.
pub open spec fn route_hops_from(pools: Seq<PoolInfo>, route: Seq<u64>, denom: Seq<char>) -> Option<
    Seq<(u64, Seq<char>, Seq<char>)>,
>
    decreases route.len(),
{
    if route.len() == 0 {
        Some(Seq::empty())
    } else {
        match pool_with_id(pools, route[0]) {
            Some(p) => match route_hops_from(pools, route.drop_first(), pool_other_denom(p, denom)) {
                Some(rest) => Some(seq![(route[0], denom, pool_other_denom(p, denom))] + rest),
                None => None,
            },
            None => None,
        }
    }
}

pub open spec fn prefixed(
    done: Seq<(u64, Seq<char>, Seq<char>)>,
    rest: Option<Seq<(u64, Seq<char>, Seq<char>)>>,
) -> Option<Seq<(u64, Seq<char>, Seq<char>)>> {
    match rest {
        Some(r) => Some(done + r),
        None => None,
    }
}

fn route_in_direction(pair: &Pair, swap_denom: &String) -> (r: Vec<u64>)
    ensures
        r@ == route_towards(*pair, swap_denom@),
{
    let mut r: Vec<u64> = Vec::new();
    if *swap_denom == pair.base_denom {
        let mut i: usize = 0;
        while i < pair.route.len()
            invariant
                i <= pair.route.len(),
                r@ == pair.route@.subrange(0, i as int),
            decreases pair.route.len() - i,
        {
            r.push(pair.route[i]);
            i = i + 1;
        }
        assert(pair.route@.subrange(0, pair.route@.len() as int) == pair.route@);
    } else {
        let mut i: usize = pair.route.len();
        while i > 0
            invariant
                i <= pair.route.len(),
                r@.len() == pair.route@.len() - i,
                forall|j: int| 0 <= j < r@.len() ==> r@[j] == pair.route@[pair.route@.len() - 1 - j],
            decreases i,
        {
            i = i - 1;
            r.push(pair.route[i]);
        }
        assert(r@ == pair.route@.reverse());
    }
    r
}

/// The pools a swap of `swap_denom` passes along the pair's route, with what goes into
/// and comes out of each; `None` where the chain described no pool of the route.
pub fn route_hops(pools: &Vec<PoolInfo>, pair: &Pair, swap_denom: &String) -> (r: Option<Vec<Hop>>)
    ensures
        r is Some <==> route_hops_from(pools@, route_towards(*pair, swap_denom@), swap_denom@) is Some,
        r matches Some(hs) ==> {
            let want = route_hops_from(pools@, route_towards(*pair, swap_denom@), swap_denom@)->0;
            &&& hs@.len() == want.len()
            &&& forall|j: int| 0 <= j < hs@.len() ==> hop_view(#[trigger] hs@[j]) == want[j]
        },
{
    let route = route_in_direction(pair, swap_denom);
    let mut hops: Vec<Hop> = Vec::new();
    let ghost done: Seq<(u64, Seq<char>, Seq<char>)> = Seq::empty();
    let mut denom = swap_denom.clone();
    let mut i: usize = 0;
    assert(route@.subrange(0, route@.len() as int) == route@);
    proof {
        if let Some(w) = route_hops_from(pools@, route@, swap_denom@) {
            assert(done + w == w);
        }
    }
    while i < route.len()
        invariant
            i <= route.len(),
            route@ == route_towards(*pair, swap_denom@),
            route_hops_from(pools@, route@, swap_denom@)
                == prefixed(done, route_hops_from(pools@, route@.subrange(i as int, route@.len() as int), denom@)),
            hops@.len() == done.len(),
            forall|j: int| 0 <= j < hops@.len() ==> hop_view(#[trigger] hops@[j]) == done[j],
        decreases route.len() - i,
    {
        let ghost rest = route@.subrange(i as int, route@.len() as int);
        assert(rest.drop_first() == route@.subrange(i + 1, route@.len() as int));
        assert(rest[0] == route@[i as int]);
        let id = route[i];
        match find_pool(pools, id) {
            Some(p) => {
                let next = pool_other(p, &denom);
                let ghost h = (id, denom@, next@);
                proof {
                    let tail = route_hops_from(pools@, rest.drop_first(), next@);
                    match tail {
                        Some(t) => {
                            assert(done + (seq![h] + t) == done.push(h) + t);
                        },
                        None => {},
                    }
                    done = done.push(h);
                }
                hops.push(Hop { pool_id: id, offer_denom: denom, receive_denom: next.clone() });
                denom = next;
            },
            None => {
                assert(route_hops_from(pools@, rest, denom@) is None);
                return None;
            },
        }
        i = i + 1;
    }
    assert(route@.subrange(route@.len() as int, route@.len() as int).len() == 0);
    assert(done + Seq::<(u64, Seq<char>, Seq<char>)>::empty() == done);
    Some(hops)
}

/// The product of prices, in atomics, each step rounded down as a decimal product is;
/// `None` where a step leaves 128 bits.
pub open spec fn price_product(prices: Seq<Decimal>) -> Option<u128>
    decreases prices.len(),
{
    if prices.len() == 0 {
        Some(DECIMAL_FRACTIONAL)
    } else {
        match price_product(prices.drop_last()) {
            Some(a) => if mul_floor_spec(a, prices.last()) <= u128::MAX {
                Some(mul_floor_spec(a, prices.last()) as u128)
            } else {
                None
            },
            None => None,
        }
    }
}

/// The price a swap is expected at: the product of the spot prices of the pools it
/// passes, in the order it passes them; an overflow error where the product leaves
/// 128 bits.
pub fn belief_price(prices: &Vec<Decimal>) -> (r: Result<Decimal, StdError>)
    ensures
        r is Ok <==> price_product(prices@) is Some,
        r matches Ok(d) ==> d.atomics == price_product(prices@)->0,
        r matches Err(e) ==> e matches StdError::Overflow { operation, .. } && operation@ == "Mul"@,
{
    let mut acc: u128 = DECIMAL_FRACTIONAL;
    let mut i: usize = 0;
    while i < prices.len()
        invariant
            i <= prices.len(),
            price_product(prices@.subrange(0, i as int)) == Some(acc),
        decreases prices.len() - i,
    {
        assert(prices@.subrange(0, i + 1).drop_last() == prices@.subrange(0, i as int));
        assert(prices@.subrange(0, i + 1).last() == prices@[i as int]);
        match checked_mul(acc, prices[i]) {
            Ok(v) => {
                acc = v;
            },
            Err(_) => {
                proof {
                    lemma_overflow_stays(prices@, i as int);
                }
                return Err(StdError::Overflow {
                    operation: String::from_str("Mul"),
                    operand1: fraction_text(Decimal { atomics: acc }),
                    operand2: fraction_text(prices[i]),
                });
            },
        }
        i = i + 1;
    }
    assert(prices@.subrange(0, prices@.len() as int) == prices@);
    Ok(Decimal { atomics: acc })
}

/// Once a step of the product overflows, so does the product of every longer run.
proof fn lemma_overflow_stays(prices: Seq<Decimal>, i: int)
    requires
        0 <= i < prices.len(),
        price_product(prices.subrange(0, i + 1)) is None,
    ensures
        price_product(prices) is None,
    decreases prices.len() - i,
{
    if i + 1 < prices.len() {
        assert(prices.subrange(0, i + 2).drop_last() == prices.subrange(0, i + 1));
        lemma_overflow_stays(prices, i + 1);
    } else {
        assert(prices.subrange(0, i + 1) == prices);
    }
}

} // verus!
