//! Matching a device against the declared filter rules.
//!
//! A device is given by its chain: the device itself first, then its
//! parent, and so on up to the root of the bus. A property is looked up on
//! the nearest device of the chain that carries its key.

use vstd::prelude::*;

use crate::config::{DeviceConfig, FilterEntry};
use crate::pattern::Pattern;

verus! {

/// One property of a device: a key and the raw bytes of its value.
#[derive(Debug, Clone, PartialEq, Eq)]
pub struct Property {
    pub key: String,
    pub value: Vec<u8>,
}

/// The properties that one device of the chain carries itself.
#[derive(Debug, Clone, PartialEq, Eq)]
pub struct Device {
    pub properties: Vec<Property>,
}

/// The value of the first property among `props[start..]` whose key is `key`.
pub open spec fn own_value_from(props: Seq<Property>, key: Seq<char>, start: int) -> Option<
    Seq<u8>,
>
    decreases props.len() - start,
{
    if start < 0 || start >= props.len() {
        None
    } else if props[start].key@ == key {
        Some(props[start].value@)
    } else {
        own_value_from(props, key, start + 1)
    }
}

/// The value that a device itself carries under `key`.
pub open spec fn own_value(device: Device, key: Seq<char>) -> Option<Seq<u8>> {
    own_value_from(device.properties@, key, 0)
}

/// The value under `key` on the nearest device among `chain[start..]` that
/// carries the key.
pub open spec fn chain_value_from(chain: Seq<Device>, key: Seq<char>, start: int) -> Option<
    Seq<u8>,
>
    decreases chain.len() - start,
{
    if start < 0 || start >= chain.len() {
        None
    } else if own_value(chain[start], key) is Some {
        own_value(chain[start], key)
    } else {
        chain_value_from(chain, key, start + 1)
    }
}

/// The value under `key` that the device has, from itself or inherited.
pub open spec fn chain_value(chain: Seq<Device>, key: Seq<char>) -> Option<Seq<u8>> {
    chain_value_from(chain, key, 0)
}

/// A value found under the key satisfies the pair only through a pattern
/// that it matches as a whole.
pub open spec fn value_satisfies(found: Option<Seq<u8>>, pattern: Option<Pattern>) -> bool {
    match (found, pattern) {
        (Some(value), Some(p)) => p.matches(value),
        _ => false,
    }
}

/// Whether the device satisfies one pair of a rule.
pub open spec fn entry_matches(chain: Seq<Device>, entry: FilterEntry) -> bool {
    value_satisfies(chain_value(chain, entry.key@), entry.pattern)
}

/// Whether the device satisfies every pair of a rule.
pub open spec fn rule_matches(chain: Seq<Device>, filter: Seq<FilterEntry>) -> bool {
    forall|i: int| 0 <= i < filter.len() ==> entry_matches(chain, #[trigger] filter[i])
}

/// The index of the first declaration among `config[start..]` whose rule
/// the device satisfies.
pub open spec fn first_match_from(chain: Seq<Device>, config: Seq<DeviceConfig>, start: int)
    -> Option<int>
    decreases config.len() - start,
{
    if start < 0 || start >= config.len() {
        None
    } else if rule_matches(chain, config[start].filter@) {
        Some(start)
    } else {
        first_match_from(chain, config, start + 1)
    }
}

/// The index of the first declaration whose rule the device satisfies.
pub open spec fn first_match(chain: Seq<Device>, config: Seq<DeviceConfig>) -> Option<int> {
    first_match_from(chain, config, 0)
}

/// The name the device gets: that of the first declaration it satisfies.
pub open spec fn matched_name(chain: Seq<Device>, config: Seq<DeviceConfig>) -> Option<
    Seq<char>,
> {
    match first_match(chain, config) {
        Some(i) => Some(config[i].name@),
        None => None,
    }
}

/// Looks `key` up among the properties the device carries itself.
pub fn lookup_own<'a>(device: &'a Device, key: &String) -> (r: Option<&'a Vec<u8>>)
    ensures
        r is Some <==> own_value(*device, key@) is Some,
        r matches Some(v) ==> own_value(*device, key@) == Some(v@),
{
    let mut i: usize = 0;
    while i < device.properties.len()
        invariant
            i <= device.properties.len(),
            own_value(*device, key@) == own_value_from(device.properties@, key@, i as int),
        decreases device.properties.len() - i,
    {
        if device.properties[i].key == *key {
            return Some(&device.properties[i].value);
        }
        i += 1;
    }
    None
}

/// Looks `key` up on the device and, where it is absent, on its ancestors,
/// nearest first. The first device that carries the key decides.
pub fn lookup<'a>(chain: &'a Vec<Device>, key: &String) -> (r: Option<&'a Vec<u8>>)
    ensures
        r is Some <==> chain_value(chain@, key@) is Some,
        r matches Some(v) ==> chain_value(chain@, key@) == Some(v@),
{
    let mut i: usize = 0;
    while i < chain.len()
        invariant
            i <= chain.len(),
            chain_value(chain@, key@) == chain_value_from(chain@, key@, i as int),
        decreases chain.len() - i,
    {
        let found = lookup_own(&chain[i], key);
        if found.is_some() {
            return found;
        }
        i += 1;
    }
    None
}

/// Decides one pair once the property has been looked up: a value has to
/// be there, a pattern has to be there, and the whole value has to match.
pub fn satisfies(found: Option<&Vec<u8>>, pattern: &Option<Pattern>) -> (b: bool)
    ensures
        b == value_satisfies(
            match found {
                Some(v) => Some(v@),
                None => None,
            },
            *pattern,
        ),
{
    match found {
        Some(value) => match pattern {
            Some(p) => p.is_full_match(value.as_slice()),
            None => false,
        },
        None => false,
    }
}

/// Whether the device satisfies one pair of a rule.
pub fn match_key(chain: &Vec<Device>, entry: &FilterEntry) -> (b: bool)
    ensures
        b == entry_matches(chain@, *entry),
{
    satisfies(lookup(chain, &entry.key), &entry.pattern)
}

/// Whether the device satisfies every pair of a rule.
pub fn match_rule(chain: &Vec<Device>, filter: &Vec<FilterEntry>) -> (b: bool)
    ensures
        b == rule_matches(chain@, filter@),
{
    let mut i: usize = 0;
    while i < filter.len()
        invariant
            i <= filter.len(),
            forall|j: int| 0 <= j < i ==> entry_matches(chain@, #[trigger] filter@[j]),
        decreases filter.len() - i,
    {
        if !match_key(chain, &filter[i]) {
            return false;
        }
        i += 1;
    }
    true
}

/// The position of the first declaration whose rule the device satisfies.
pub fn match_index(chain: &Vec<Device>, config: &Vec<DeviceConfig>) -> (r: Option<usize>)
    ensures
        r is Some <==> first_match(chain@, config@) is Some,
        r matches Some(i) ==> first_match(chain@, config@) == Some(i as int),
{
    let mut i: usize = 0;
    while i < config.len()
        invariant
            i <= config.len(),
            first_match(chain@, config@) == first_match_from(chain@, config@, i as int),
        decreases config.len() - i,
    {
        if match_rule(chain, &config[i].filter) {
            return Some(i);
        }
        i += 1;
    }
    None
}

/// The logical name of the device: that of the first declaration, in
/// declared order, whose rule it satisfies in full; `None` where it
/// satisfies none.
pub fn match_device(chain: &Vec<Device>, config: &Vec<DeviceConfig>) -> (r: Option<String>)
    ensures
        r is Some <==> matched_name(chain@, config@) is Some,
        r matches Some(name) ==> matched_name(chain@, config@) == Some(name@),
{
    match match_index(chain, config) {
        Some(i) => {
            proof {
                lemma_first_match_in_range(chain@, config@, 0);
            }
            Some(config[i].name.clone())
        },
        None => None,
    }
}

/// A first match from `start` on lies at or after `start`, inside the
/// table, satisfies its rule, and nothing between `start` and it does.
pub proof fn lemma_first_match_in_range(chain: Seq<Device>, config: Seq<DeviceConfig>, start: int)
    requires
        0 <= start,
    ensures
        first_match_from(chain, config, start) matches Some(i) ==> {
            &&& start <= i < config.len()
            &&& rule_matches(chain, config[i].filter@)
            &&& forall|j: int| start <= j < i ==> !rule_matches(chain, #[trigger] config[j].filter@)
        },
        first_match_from(chain, config, start) is None ==> forall|j: int|
            start <= j < config.len() ==> !rule_matches(chain, #[trigger] config[j].filter@),
    decreases config.len() - start,
{
    if start < config.len() && !rule_matches(chain, config[start].filter@) {
        lemma_first_match_in_range(chain, config, start + 1);
    }
}

/// Device `i` of the chain is the nearest one that carries `key`.
pub open spec fn nearest_carrier(chain: Seq<Device>, key: Seq<char>, i: int) -> bool {
    &&& 0 <= i < chain.len()
    &&& own_value(chain[i], key) is Some
    &&& forall|j: int| 0 <= j < i ==> own_value(#[trigger] chain[j], key) is None
}

/// A property found from `start` on is the first one there with the key;
/// none is found exactly where no property from `start` on has the key.
pub proof fn law_own_value_is_first(props: Seq<Property>, key: Seq<char>, start: int)
    requires
        0 <= start,
    ensures
        own_value_from(props, key, start) matches Some(v) ==> exists|i: int|
            {
                &&& start <= i < props.len()
                &&& (#[trigger] props[i]).key@ == key
                &&& props[i].value@ == v
                &&& forall|j: int| start <= j < i ==> (#[trigger] props[j]).key@ != key
            },
        own_value_from(props, key, start) is None ==> forall|j: int|
            start <= j < props.len() ==> (#[trigger] props[j]).key@ != key,
    decreases props.len() - start,
{
    if start < props.len() {
        if props[start].key@ == key {
            assert(props[start].value@ == own_value_from(props, key, start).unwrap());
        } else {
            law_own_value_is_first(props, key, start + 1);
            if own_value_from(props, key, start) is Some {
                let i = choose|i: int|
                    {
                        &&& start + 1 <= i < props.len()
                        &&& (#[trigger] props[i]).key@ == key
                        &&& props[i].value@ == own_value_from(props, key, start + 1).unwrap()
                        &&& forall|j: int| start + 1 <= j < i ==> (#[trigger] props[j]).key@ != key
                    };
                assert(forall|j: int| start <= j < i ==> (#[trigger] props[j]).key@ != key);
            }
        }
    }
}

/// A value found from `start` on comes from the first device there that
/// carries the key; none is found exactly where no device from `start` on
/// carries it.
pub proof fn law_chain_value_is_nearest(chain: Seq<Device>, key: Seq<char>, start: int)
    requires
        0 <= start,
    ensures
        chain_value_from(chain, key, start) matches Some(v) ==> exists|i: int|
            {
                &&& start <= i < chain.len()
                &&& own_value(#[trigger] chain[i], key) == Some(v)
                &&& forall|j: int| start <= j < i ==> own_value(#[trigger] chain[j], key) is None
            },
        chain_value_from(chain, key, start) is None ==> forall|j: int|
            start <= j < chain.len() ==> own_value(#[trigger] chain[j], key) is None,
    decreases chain.len() - start,
{
    if start < chain.len() {
        if own_value(chain[start], key) is Some {
            assert(own_value(chain[start], key) == chain_value_from(chain, key, start));
        } else {
            law_chain_value_is_nearest(chain, key, start + 1);
            if chain_value_from(chain, key, start) is Some {
                let v = chain_value_from(chain, key, start + 1).unwrap();
                let i = choose|i: int|
                    {
                        &&& start + 1 <= i < chain.len()
                        &&& own_value(#[trigger] chain[i], key) == Some(v)
                        &&& forall|j: int|
                            start + 1 <= j < i ==> own_value(#[trigger] chain[j], key) is None
                    };
                assert(forall|j: int|
                    start <= j < i ==> own_value(#[trigger] chain[j], key) is None);
            }
        }
    }
}

/// The nearest carrier of a key, where there is one, holds the value that
/// the chain has under the key.
pub proof fn law_nearest_carrier_decides(chain: Seq<Device>, key: Seq<char>, i: int)
    requires
        nearest_carrier(chain, key, i),
    ensures
        chain_value(chain, key) == own_value(chain[i], key),
{
    law_chain_value_is_nearest(chain, key, 0);
    if chain_value(chain, key) is Some {
        let v = chain_value(chain, key).unwrap();
        let n = choose|n: int|
            {
                &&& 0 <= n < chain.len()
                &&& own_value(#[trigger] chain[n], key) == Some(v)
                &&& forall|j: int| 0 <= j < n ==> own_value(#[trigger] chain[j], key) is None
            };
        assert(n == i);
    }
}

/// What one pair of a rule asks of a device: the pair has a pattern, some
/// device of the chain carries the key, and the value on the nearest such
/// device matches the pattern as a whole.
pub open spec fn entry_demand(chain: Seq<Device>, entry: FilterEntry) -> bool {
    &&& entry.pattern is Some
    &&& exists|i: int|
        {
            &&& #[trigger] nearest_carrier(chain, entry.key@, i)
            &&& entry.pattern.unwrap().matches(own_value(chain[i], entry.key@).unwrap())
        }
}

/// A pair is satisfied exactly where its demand is met. So a pair without
/// a pattern is never satisfied, nor one whose key no device of the chain
/// carries.
pub proof fn law_entry_matches(chain: Seq<Device>, entry: FilterEntry)
    ensures
        entry_matches(chain, entry) <==> entry_demand(chain, entry),
        entry.pattern is None ==> !entry_matches(chain, entry),
        (forall|i: int| 0 <= i < chain.len() ==> own_value(#[trigger] chain[i], entry.key@) is None)
            ==> !entry_matches(chain, entry),
{
    let key = entry.key@;
    law_chain_value_is_nearest(chain, key, 0);
    if entry_matches(chain, entry) {
        let v = chain_value(chain, key).unwrap();
        let n = choose|n: int|
            {
                &&& 0 <= n < chain.len()
                &&& own_value(#[trigger] chain[n], key) == Some(v)
                &&& forall|j: int| 0 <= j < n ==> own_value(#[trigger] chain[j], key) is None
            };
        assert(nearest_carrier(chain, key, n));
    }
    if entry_demand(chain, entry) {
        let i = choose|i: int|
            {
                &&& #[trigger] nearest_carrier(chain, key, i)
                &&& entry.pattern.unwrap().matches(own_value(chain[i], key).unwrap())
            };
        law_nearest_carrier_decides(chain, key, i);
    }
}

/// A rule is satisfied exactly where the demand of each of its pairs is met.
pub proof fn law_rule_matches(chain: Seq<Device>, filter: Seq<FilterEntry>)
    ensures
        rule_matches(chain, filter) <==> forall|k: int|
            0 <= k < filter.len() ==> entry_demand(chain, #[trigger] filter[k]),
{
    assert forall|k: int| 0 <= k < filter.len() implies (entry_matches(chain, #[trigger] filter[k])
        <==> entry_demand(chain, filter[k])) by {
        law_entry_matches(chain, filter[k]);
    }
}

/// Some device of the chain, the device itself or an ancestor, carries the
/// pair's key with a value that matches the pair's pattern as a whole.
pub open spec fn some_carrier_matches(chain: Seq<Device>, entry: FilterEntry) -> bool {
    &&& entry.pattern is Some
    &&& exists|i: int|
        0 <= i < chain.len() && value_satisfies(
            own_value(#[trigger] chain[i], entry.key@),
            entry.pattern,
        )
}

/// No matching value of the pair's key is hidden behind a nearer device
/// that carries the key with a value which does not match.
pub open spec fn unshadowed(chain: Seq<Device>, entry: FilterEntry) -> bool {
    some_carrier_matches(chain, entry) ==> entry_matches(chain, entry)
}

/// A satisfied rule has, for each pair, a pattern and a device of the
/// chain that carries the key with a matching value.
pub proof fn law_matched_rule_has_carriers(chain: Seq<Device>, filter: Seq<FilterEntry>)
    ensures
        rule_matches(chain, filter) ==> forall|k: int|
            0 <= k < filter.len() ==> some_carrier_matches(chain, #[trigger] filter[k]),
{
    assert forall|k: int| 0 <= k < filter.len() && entry_matches(chain, #[trigger] filter[k])
    implies some_carrier_matches(chain, filter[k]) by {
        let key = filter[k].key@;
        law_chain_value_is_nearest(chain, key, 0);
        let v = chain_value(chain, key).unwrap();
        let n = choose|n: int|
            {
                &&& 0 <= n < chain.len()
                &&& own_value(#[trigger] chain[n], key) == Some(v)
                &&& forall|j: int| 0 <= j < n ==> own_value(#[trigger] chain[j], key) is None
            };
        assert(value_satisfies(own_value(chain[n], key), filter[k].pattern));
    }
}

/// Where no matching value is hidden, a rule is satisfied exactly where
/// each pair has a pattern and some device of the chain, the device itself
/// or an ancestor, carries the key with a matching value.
pub proof fn law_rule_matches_some_carrier(chain: Seq<Device>, filter: Seq<FilterEntry>)
    requires
        forall|k: int| 0 <= k < filter.len() ==> unshadowed(chain, #[trigger] filter[k]),
    ensures
        rule_matches(chain, filter) <==> forall|k: int|
            0 <= k < filter.len() ==> some_carrier_matches(chain, #[trigger] filter[k]),
{
    law_matched_rule_has_carriers(chain, filter);
}

/// No declaration before position `i` is satisfied.
pub open spec fn none_before(chain: Seq<Device>, config: Seq<DeviceConfig>, i: int) -> bool {
    forall|j: int| 0 <= j < i ==> !rule_matches(chain, #[trigger] config[j].filter@)
}

/// The name a device gets is that of the first declaration it satisfies,
/// in declared order; without any satisfied declaration there is no name.
pub proof fn law_first_match_wins(chain: Seq<Device>, config: Seq<DeviceConfig>)
    ensures
        matched_name(chain, config) is Some <==> exists|i: int|
            0 <= i < config.len() && rule_matches(chain, #[trigger] config[i].filter@),
        forall|i: int|
            0 <= i < config.len() && rule_matches(chain, #[trigger] config[i].filter@)
                && none_before(chain, config, i) ==> matched_name(chain, config) == Some(
                config[i].name@,
            ),
{
    lemma_first_match_in_range(chain, config, 0);
}

} // verus!
