//! The `{:?}` texts that responses carry: of addresses, fractions, destinations and the
//! configuration, as the contract's stored types print them.
use vstd::prelude::*;
use vstd::utf8::encode_utf8;
use crate::math::Decimal;
use crate::text::{decimal_fraction_text, decimal_text, fraction_text, u64_text};
use crate::types::{Config, Destination, FeeCollector};

verus! {

/// What `{:?}` writes for a string: the string in double quotes, with the characters
/// that need it escaped.
pub uninterp spec fn str_debug(s: Seq<char>) -> Seq<char>;

/// The lowercase hexadecimal digit of a value below sixteen.
pub open spec fn hex_digit(n: int) -> char {
    if n < 10 { ('0' as int + n) as char } else { ('a' as int + n - 10) as char }
}

/// Each byte as two lowercase hexadecimal digits.
pub open spec fn hex_bytes(bs: Seq<u8>) -> Seq<char>
    decreases bs.len(),
{
    if bs.len() == 0 {
        Seq::empty()
    } else {
        hex_bytes(bs.drop_last()) + seq![hex_digit(bs.last() as int / 16), hex_digit(bs.last() as int % 16)]
    }
}

/// What cosmwasm-std's `Debug` writes for the `Binary` of the UTF-8 bytes of `s`:
/// `Binary(`, each byte as two lowercase hexadecimal digits, `)`.
pub open spec fn binary_debug(s: Seq<char>) -> Seq<char> {
    "Binary("@ + hex_bytes(encode_utf8(s)) + ")"@
}

/// `<str as Debug>::fmt` of std, through `format!("{:?}")`. The text depends on the
/// string alone; the contract names it and says nothing of the escaping.
#[verifier::external_body]
fn quoted(s: &str) -> (r: String)
    ensures
        r@ == str_debug(s@),
{
    format!("{:?}", s)
}

/// `<Binary as Debug>::fmt` of cosmwasm-std on the UTF-8 bytes of `s`, whose source
/// writes `Binary(`, each byte with `{:02x}`, and `)`; the contract states that text.
#[verifier::external_body]
fn binary_text(s: &str) -> (r: String)
    ensures
        r@ == binary_debug(s@),
{
    format!("{:?}", cosmwasm_std::Binary::from(s.as_bytes()))
}

/// The items of a list, separated by a comma and a space.
pub open spec fn comma_list(items: Seq<Seq<char>>) -> Seq<char>
    decreases items.len(),
{
    if items.len() == 0 {
        Seq::empty()
    } else if items.len() == 1 {
        items[0]
    } else {
        comma_list(items.drop_last()) + ", "@ + items.last()
    }
}

pub open spec fn addr_debug(a: Seq<char>) -> Seq<char> {
    "Addr("@ + str_debug(a) + ")"@
}

pub open spec fn decimal_debug(d: Decimal) -> Seq<char> {
    "Decimal("@ + decimal_fraction_text(d) + ")"@
}

pub open spec fn bool_text(b: bool) -> Seq<char> {
    if b { "true"@ } else { "false"@ }
}

pub open spec fn destination_debug(d: Destination) -> Seq<char> {
    "Destination { allocation: "@ + decimal_debug(d.allocation) + ", address: "@ + addr_debug(d.address@)
        + ", msg: "@ + match d.msg {
        Some(m) => "Some("@ + binary_debug(m@) + ")"@,
        None => "None"@,
    } + " }"@
}

pub open spec fn fee_collector_debug(c: FeeCollector) -> Seq<char> {
    "FeeCollector { address: "@ + str_debug(c.address@) + ", allocation: "@ + decimal_debug(c.allocation) + " }"@
}

/// The `{:?}` text of a list of destinations.
pub open spec fn destinations_debug(ds: Seq<Destination>) -> Seq<char> {
    "["@ + comma_list(ds.map_values(|d: Destination| destination_debug(d))) + "]"@
}

/// The `{:?}` text of the configuration: its fields in order, the admin and the
/// executors as addresses.
#[verifier::opaque]
pub open spec fn config_debug(c: Config) -> Seq<char> {
    "Config { admin: "@ + addr_debug(c.admin@)
        + ", executors: ["@ + comma_list(c.executors@.map_values(|a: String| addr_debug(a@)))
        + "], fee_collectors: ["@ + comma_list(c.fee_collectors@.map_values(|f: FeeCollector| fee_collector_debug(f)))
        + "], default_swap_fee_percent: "@ + decimal_debug(c.default_swap_fee_percent)
        + ", weighted_scale_swap_fee_percent: "@ + decimal_debug(c.weighted_scale_swap_fee_percent)
        + ", automation_fee_percent: "@ + decimal_debug(c.automation_fee_percent)
        + ", default_page_limit: "@ + decimal_text(c.default_page_limit as nat)
        + ", paused: "@ + bool_text(c.paused)
        + ", risk_weighted_average_escrow_level: "@ + decimal_debug(c.risk_weighted_average_escrow_level)
        + ", twap_period: "@ + decimal_text(c.twap_period as nat)
        + ", default_slippage_tolerance: "@ + decimal_debug(c.default_slippage_tolerance) + " }"@
}

proof fn lemma_comma_list_push(items: Seq<Seq<char>>, x: Seq<char>)
    ensures
        comma_list(items.push(x)) == if items.len() == 0 { x } else { comma_list(items) + ", "@ + x },
{
    assert(items.push(x).drop_last() =~= items);
    if items.len() == 0 {
        assert(items.push(x)[0] == x);
    }
}

/// Appends `item` to a list text that holds `count` items so far.
fn push_item(acc: &mut String, count: usize, item: &str)
    ensures
        final(acc)@ == if count == 0 { item@ } else { old(acc)@ + ", "@ + item@ },
{
    if count > 0 {
        acc.append(", ");
    } else {
        *acc = String::new();
    }
    acc.append(item);
}

fn addr_text(a: &str) -> (r: String)
    ensures
        r@ == addr_debug(a@),
{
    let mut r = String::from_str("Addr(");
    let q = quoted(a);
    r.append(q.as_str());
    r.append(")");
    r
}

fn decimal_text_debug(d: Decimal) -> (r: String)
    ensures
        r@ == decimal_debug(d),
{
    let mut r = String::from_str("Decimal(");
    let f = fraction_text(d);
    r.append(f.as_str());
    r.append(")");
    r
}

fn destination_text(d: &Destination) -> (r: String)
    ensures
        r@ == destination_debug(*d),
{
    let mut r = String::from_str("Destination { allocation: ");
    r.append(decimal_text_debug(d.allocation).as_str());
    r.append(", address: ");
    r.append(addr_text(d.address.as_str()).as_str());
    r.append(", msg: ");
    match &d.msg {
        Some(m) => {
            r.append("Some(");
            r.append(binary_text(m.as_str()).as_str());
            r.append(")");
        },
        None => {
            r.append("None");
        },
    }
    r.append(" }");
    r
}

/// The `{:?}` text of a list of destinations.
pub fn destinations_text(ds: &Vec<Destination>) -> (r: String)
    ensures
        r@ == destinations_debug(ds@),
{
    let mut items = String::new();
    let mut i: usize = 0;
    while i < ds.len()
        invariant
            i <= ds.len(),
            items@ == comma_list(ds@.subrange(0, i as int).map_values(|d: Destination| destination_debug(d))),
        decreases ds.len() - i,
    {
        let t = destination_text(&ds[i]);
        proof {
            let f = |d: Destination| destination_debug(d);
            assert(ds@.subrange(0, i + 1).map_values(f) =~= ds@.subrange(0, i as int).map_values(f).push(f(ds@[i as int])));
            lemma_comma_list_push(ds@.subrange(0, i as int).map_values(f), f(ds@[i as int]));
        }
        push_item(&mut items, i, t.as_str());
        i = i + 1;
    }
    assert(ds@.subrange(0, ds@.len() as int) =~= ds@);
    let mut r = String::from_str("[");
    r.append(items.as_str());
    r.append("]");
    r
}

fn executors_text(xs: &Vec<String>) -> (r: String)
    ensures
        r@ == comma_list(xs@.map_values(|a: String| addr_debug(a@))),
{
    let mut items = String::new();
    let mut i: usize = 0;
    while i < xs.len()
        invariant
            i <= xs.len(),
            items@ == comma_list(xs@.subrange(0, i as int).map_values(|a: String| addr_debug(a@))),
        decreases xs.len() - i,
    {
        let t = addr_text(xs[i].as_str());
        proof {
            let f = |a: String| addr_debug(a@);
            assert(xs@.subrange(0, i + 1).map_values(f) =~= xs@.subrange(0, i as int).map_values(f).push(f(xs@[i as int])));
            lemma_comma_list_push(xs@.subrange(0, i as int).map_values(f), f(xs@[i as int]));
        }
        push_item(&mut items, i, t.as_str());
        i = i + 1;
    }
    assert(xs@.subrange(0, xs@.len() as int) =~= xs@);
    items
}

fn fee_collectors_text(cs: &Vec<FeeCollector>) -> (r: String)
    ensures
        r@ == comma_list(cs@.map_values(|f: FeeCollector| fee_collector_debug(f))),
{
    let mut items = String::new();
    let mut i: usize = 0;
    while i < cs.len()
        invariant
            i <= cs.len(),
            items@ == comma_list(cs@.subrange(0, i as int).map_values(|f: FeeCollector| fee_collector_debug(f))),
        decreases cs.len() - i,
    {
        let mut t = String::from_str("FeeCollector { address: ");
        t.append(quoted(cs[i].address.as_str()).as_str());
        t.append(", allocation: ");
        t.append(decimal_text_debug(cs[i].allocation).as_str());
        t.append(" }");
        proof {
            let f = |c: FeeCollector| fee_collector_debug(c);
            assert(t@ == f(cs@[i as int]));
            assert(cs@.subrange(0, i + 1).map_values(f) =~= cs@.subrange(0, i as int).map_values(f).push(f(cs@[i as int])));
            lemma_comma_list_push(cs@.subrange(0, i as int).map_values(f), f(cs@[i as int]));
        }
        push_item(&mut items, i, t.as_str());
        i = i + 1;
    }
    assert(cs@.subrange(0, cs@.len() as int) =~= cs@);
    items
}

/// The `{:?}` text of the configuration.
pub fn config_text(c: &Config) -> (r: String)
    ensures
        r@ == config_debug(*c),
{
    reveal(config_debug);
    let mut r = String::from_str("Config { admin: ");
    r.append(addr_text(c.admin.as_str()).as_str());
    r.append(", executors: [");
    r.append(executors_text(&c.executors).as_str());
    r.append("], fee_collectors: [");
    r.append(fee_collectors_text(&c.fee_collectors).as_str());
    r.append("], default_swap_fee_percent: ");
    r.append(decimal_text_debug(c.default_swap_fee_percent).as_str());
    r.append(", weighted_scale_swap_fee_percent: ");
    r.append(decimal_text_debug(c.weighted_scale_swap_fee_percent).as_str());
    r.append(", automation_fee_percent: ");
    r.append(decimal_text_debug(c.automation_fee_percent).as_str());
    r.append(", default_page_limit: ");
    r.append(u64_text(c.default_page_limit as u64).as_str());
    r.append(", paused: ");
    r.append(if c.paused { "true" } else { "false" });
    r.append(", risk_weighted_average_escrow_level: ");
    r.append(decimal_text_debug(c.risk_weighted_average_escrow_level).as_str());
    r.append(", twap_period: ");
    r.append(u64_text(c.twap_period).as_str());
    r.append(", default_slippage_tolerance: ");
    r.append(decimal_text_debug(c.default_slippage_tolerance).as_str());
    r.append(" }");
    r
}

} // verus!
