//! Load balancing over endpoints.

use crate::cluster::endpoint::Endpoint;
use crate::collections::StringMap;
use crate::config::types::{EndpointConfig, LoadBalancer as LbType};
use crate::text::{decimal, number};
use vstd::prelude::*;
use vstd::utf8::encode_utf8;

verus! {

/// Connections in use, endpoint by endpoint.
pub open spec fn loads(endpoints: Seq<&Endpoint>) -> Seq<nat> {
    endpoints.map_values(|e: &Endpoint| e@.active)
}

/// A strategy that picks one of the endpoints that take connections.
pub trait LoadBalancer: Sized {
    /// Name of the strategy.
    fn name(&self) -> &'static str;

    /// Picks an endpoint by its position.
    fn select(&mut self, endpoints: &Vec<&Endpoint>) -> (picked: Option<usize>)
        ensures
            picked matches Some(i) ==> i < endpoints@.len(),
    ;

    /// Called when a request to an endpoint succeeded.
    fn on_success(&mut self, endpoint: &Endpoint)
        default_ensures
            *final(self) == *old(self),
    {
    }

    /// Called when a request to an endpoint failed.
    fn on_failure(&mut self, endpoint: &Endpoint)
        default_ensures
            *final(self) == *old(self),
    {
    }

    /// Called from time to time.
    fn tick(&mut self)
        default_ensures
            *final(self) == *old(self),
    {
    }
}

/// One more, with zero after the greatest number.
pub open spec fn next_count(n: usize) -> usize {
    if n == usize::MAX {
        0
    } else {
        (n + 1) as usize
    }
}

/// Takes the endpoints in turn.
#[derive(Debug)]
pub struct RoundRobin {
    counter: usize,
}

impl RoundRobin {
    /// How many endpoints have been picked.
    pub closed spec fn count(&self) -> usize {
        self.counter
    }

    /// Starts with the first endpoint.
    pub fn new() -> (lb: Self)
        ensures
            lb.count() == 0,
    {
        RoundRobin { counter: 0 }
    }
}

impl Default for RoundRobin {
    fn default() -> (lb: Self)
        ensures
            lb.count() == 0,
    {
        RoundRobin::new()
    }
}

/// The position that comes at a count, of some positions.
pub open spec fn in_turn(count: usize, n: nat) -> int {
    (count as int) % (n as int)
}

impl LoadBalancer for RoundRobin {
    fn name(&self) -> (s: &'static str)
        ensures
            s@ == "round_robin"@,
    {
        "round_robin"
    }

    fn select(&mut self, endpoints: &Vec<&Endpoint>) -> (picked: Option<usize>)
        ensures
            endpoints@.len() == 0 ==> picked is None && *final(self) == *old(self),
            endpoints@.len() > 0 ==> {
                &&& picked is Some
                &&& picked->0 == in_turn(old(self).count(), endpoints@.len())
                &&& final(self).count() == next_count(old(self).count())
            },
    {
        if endpoints.len() == 0 {
            return None;
        }
        let idx: usize = self.counter % endpoints.len();
        self.counter = self.counter.wrapping_add(1);
        Some(idx)
    }
}

/// Over as many picks in a row as there are endpoints, round robin picks none
/// of them twice.
pub proof fn round_robin_is_fair(count: usize, n: nat, i: nat, j: nat)
    requires
        n > 0,
        i < j < n,
        count + j <= usize::MAX,
    ensures
        in_turn((count + i) as usize, n) != in_turn((count + j) as usize, n),
        0 <= in_turn((count + i) as usize, n) < n,
{
    let d = n as int;
    let a = count + i;
    let b = count + j;
    vstd::arithmetic::div_mod::lemma_fundamental_div_mod(a, d);
    vstd::arithmetic::div_mod::lemma_fundamental_div_mod(b, d);
    vstd::arithmetic::div_mod::lemma_mod_bound(a, d);
    if a % d == b % d {
        assert(b - a == d * (b / d - a / d)) by (nonlinear_arith)
            requires
                a == d * (a / d) + a % d,
                b == d * (b / d) + b % d,
                a % d == b % d,
        ;
        let q = b / d - a / d;
        assert(q > 0) by (nonlinear_arith)
            requires
                d * q > 0,
                d > 0,
        ;
        assert(d * q >= d) by (nonlinear_arith)
            requires
                q > 0,
                d > 0,
        ;
    }
}

/// Over as many picks in a row as there are endpoints, round robin picks each
/// of them.
pub proof fn round_robin_leaves_none_out(count: usize, n: nat, position: int)
    requires
        0 <= position < n,
        count + n <= usize::MAX + 1,
    ensures
        exists|i: nat| i < n && #[trigger] in_turn((count + i) as usize, n) == position,
{
    let d = n as int;
    let start = count as int;
    vstd::arithmetic::div_mod::lemma_mod_bound(start, d);
    let r = start % d;
    let i = if r <= position {
        (position - r) as nat
    } else {
        (position - r + d) as nat
    };
    vstd::arithmetic::div_mod::lemma_fundamental_div_mod(start, d);
    if r <= position {
        assert(start + i == (start / d) * d + position) by (nonlinear_arith)
            requires
                start == d * (start / d) + r,
                i == position - r,
        ;
        vstd::arithmetic::div_mod::lemma_fundamental_div_mod_converse(
            start + i,
            d,
            start / d,
            position,
        );
    } else {
        assert(start + i == (start / d + 1) * d + position) by (nonlinear_arith)
            requires
                start == d * (start / d) + r,
                i == position - r + d,
        ;
        vstd::arithmetic::div_mod::lemma_fundamental_div_mod_converse(
            start + i,
            d,
            start / d + 1,
            position,
        );
    }
    assert(in_turn((count + i) as usize, n) == position);
}

/// Weight of a position; a position without one has weight one.
pub open spec fn weight_at(weights: Seq<u32>, i: int) -> nat {
    if 0 <= i < weights.len() {
        weights[i] as nat
    } else {
        1
    }
}

/// Sum of the weights of the first positions.
pub open spec fn weight_before(weights: Seq<u32>, n: nat) -> nat
    decreases n,
{
    if n == 0 {
        0
    } else {
        weight_before(weights, (n - 1) as nat) + weight_at(weights, n - 1)
    }
}

/// The position whose share of the weights holds a target; the first one if
/// the target lies behind all of them.
pub open spec fn holds_target(weights: Seq<u32>, n: nat, target: int, picked: int) -> bool {
    &&& 0 <= picked < n
    &&& {
        ||| weight_before(weights, picked as nat) <= target < weight_before(
            weights,
            (picked + 1) as nat,
        )
        ||| picked == 0 && weight_before(weights, n) <= target
    }
}

/// Weights of endpoints.
pub open spec fn weights_of(endpoints: Seq<EndpointConfig>) -> Seq<u32> {
    endpoints.map_values(|e: EndpointConfig| e.weight)
}

/// Sum of weights.
pub open spec fn weight_sum(weights: Seq<u32>) -> nat {
    weight_before(weights, weights.len())
}

/// Weights of some positions, in order.
pub open spec fn own_weights(weights: Seq<u32>, positions: Seq<usize>) -> Seq<u32> {
    positions.map_values(|p: usize| weight_at(weights, p as int) as u32)
}

fn weights_at(weights: &Vec<u32>, positions: &Vec<usize>) -> (own: Vec<u32>)
    ensures
        own@ == own_weights(weights@, positions@),
{
    let mut own: Vec<u32> = Vec::new();
    let mut i: usize = 0;
    while i < positions.len()
        invariant
            i <= positions.len(),
            own@ == own_weights(weights@, positions@.take(i as int)),
        decreases positions.len() - i,
    {
        let p: usize = positions[i];
        own.push(
            if p < weights.len() {
                weights[p]
            } else {
                1
            },
        );
        assert(own@ =~= own_weights(weights@, positions@.take(i + 1)));
        i += 1;
    }
    assert(positions@.take(i as int) == positions@);
    own
}

fn add_weights(weights: &Vec<u32>) -> (sum: u128)
    ensures
        sum == weight_sum(weights@),
{
    let mut sum: u128 = 0;
    let mut i: usize = 0;
    while i < weights.len()
        invariant
            i <= weights.len(),
            sum == weight_before(weights@, i as nat),
            sum <= i * 0x1_0000_0000,
        decreases weights.len() - i,
    {
        sum = sum + weights[i] as u128;
        i += 1;
    }
    sum
}

fn position_of_target(weights: &Vec<u32>, n: usize, target: u64) -> (picked: usize)
    requires
        n > 0,
    ensures
        holds_target(weights@, n as nat, target as int, picked as int),
{
    let mut accumulated: u128 = 0;
    let mut i: usize = 0;
    while i < n
        invariant
            i <= n,
            accumulated == weight_before(weights@, i as nat),
            accumulated <= target,
        decreases n - i,
    {
        let weight: u32 = if i < weights.len() {
            weights[i]
        } else {
            1
        };
        accumulated = accumulated + weight as u128;
        if (target as u128) < accumulated {
            return i;
        }
        i += 1;
    }
    0
}

/// Sums of weights grow with the number of positions.
proof fn weight_before_grows(weights: Seq<u32>, m: nat, n: nat)
    requires
        m <= n,
    ensures
        weight_before(weights, m) <= weight_before(weights, n),
    decreases n,
{
    if m < n {
        weight_before_grows(weights, m, (n - 1) as nat);
    }
}

/// Takes the endpoints in turn, each as often as its weight says.
#[derive(Debug)]
pub struct Weighted {
    weights: Vec<u32>,
    total_weight: u32,
    counter: usize,
}

impl Weighted {
    /// The weights.
    pub closed spec fn weights(&self) -> Seq<u32> {
        self.weights@
    }

    /// How many endpoints have been picked.
    pub closed spec fn count(&self) -> usize {
        self.counter
    }

    #[verifier::type_invariant]
    spec fn total_is_sum(self) -> bool {
        self.total_weight == weight_sum(self.weights@)
    }

    /// A balancer by the weights of endpoints.
    pub fn new(endpoints: &Vec<EndpointConfig>) -> (lb: Self)
        requires
            weight_sum(weights_of(endpoints@)) <= u32::MAX,
        ensures
            lb.weights() == weights_of(endpoints@),
            lb.count() == 0,
    {
        let mut weights: Vec<u32> = Vec::new();
        let mut total: u32 = 0;
        let mut i: usize = 0;
        let ghost all = weights_of(endpoints@);
        while i < endpoints.len()
            invariant
                i <= endpoints.len(),
                all == weights_of(endpoints@),
                weight_sum(all) <= u32::MAX,
                weights@ == all.take(i as int),
                total == weight_before(all, i as nat),
            decreases endpoints.len() - i,
        {
            proof {
                weight_before_grows(all, (i + 1) as nat, all.len());
            }
            weights.push(endpoints[i].weight);
            total = total + endpoints[i].weight;
            i += 1;
        }
        assert(weights@ == all);
        Weighted { weights, total_weight: total, counter: 0 }
    }
}

impl LoadBalancer for Weighted {
    fn name(&self) -> (s: &'static str)
        ensures
            s@ == "weighted"@,
    {
        "weighted"
    }

    fn select(&mut self, endpoints: &Vec<&Endpoint>) -> (picked: Option<usize>)
        ensures
            final(self).weights() == old(self).weights(),
            endpoints@.len() == 0 || weight_sum(old(self).weights()) == 0 ==> picked is None
                && final(self).count() == old(self).count(),
            endpoints@.len() > 0 && weight_sum(old(self).weights()) > 0 ==> {
                &&& picked is Some
                &&& holds_target(
                    old(self).weights(),
                    endpoints@.len(),
                    weighted_target(old(self).count(), old(self).weights()),
                    picked->0 as int,
                )
                &&& final(self).count() == next_count(old(self).count())
            },
    {
        proof {
            use_type_invariant(&*self);
        }
        if endpoints.len() == 0 || self.total_weight == 0 {
            return None;
        }
        let count: u64 = self.counter as u64 % 0x1_0000_0000u64;
        let target: u64 = count % (self.total_weight as u64);
        self.counter = self.counter.wrapping_add(1);
        Some(position_of_target(&self.weights, endpoints.len(), target))
    }
}

impl Weighted {
    /// Picks one of some of the endpoints, given by their positions among all;
    /// each counts with its own weight.
    pub fn select_among(&mut self, positions: &Vec<usize>) -> (picked: Option<usize>)
        ensures
            final(self).weights() == old(self).weights(),
            positions@.len() == 0 || weight_sum(old(self).weights()) == 0 ==> picked is None
                && final(self).count() == old(self).count(),
            positions@.len() > 0 && weight_sum(old(self).weights()) > 0 ==> {
                let own = own_weights(old(self).weights(), positions@);
                &&& picked is Some
                &&& holds_target(
                    own,
                    positions@.len(),
                    own_target(old(self).count(), own),
                    picked->0 as int,
                )
                &&& final(self).count() == next_count(old(self).count())
            },
    {
        proof {
            use_type_invariant(&*self);
        }
        if positions.len() == 0 || self.total_weight == 0 {
            return None;
        }
        let own = weights_at(&self.weights, positions);
        let sum: u128 = add_weights(&own);
        let count: u128 = (self.counter as u64 % 0x1_0000_0000u64) as u128;
        let target: u64 = if sum == 0 {
            0
        } else {
            let rest: u128 = count % sum;
            assert(rest <= count) by (nonlinear_arith)
                requires
                    rest == count % sum,
                    sum > 0,
            ;
            rest as u64
        };
        self.counter = self.counter.wrapping_add(1);
        Some(position_of_target(&own, positions.len(), target))
    }
}

/// Where a count lies within the sum of the weights that count; at the start
/// where they are all zero.
pub open spec fn own_target(count: usize, own: Seq<u32>) -> int {
    if weight_sum(own) == 0 {
        0
    } else {
        weighted_target(count, own)
    }
}

/// Where a count lies within the sum of the weights.
pub open spec fn weighted_target(count: usize, weights: Seq<u32>) -> int {
    (count as int % 0x1_0000_0000int) % (weight_sum(weights) as int)
}

/// With one weight for each endpoint, an endpoint is picked for exactly as
/// many targets in a row as its weight says.
pub proof fn weights_are_shares(weights: Seq<u32>, target: int, i: int)
    requires
        0 <= target < weight_sum(weights),
        0 <= i < weights.len(),
    ensures
        holds_target(weights, weights.len(), target, i) <==> weight_before(weights, i as nat)
            <= target < weight_before(weights, i as nat) + weights[i],
{
    assert(weight_before(weights, (i + 1) as nat) == weight_before(weights, i as nat)
        + weight_at(weights, i));
}

/// Some position is the first one with the least of all values.
pub open spec fn is_first_least(values: Seq<nat>, i: int) -> bool {
    &&& 0 <= i < values.len()
    &&& forall|j: int| 0 <= j < values.len() ==> values[i] <= #[trigger] values[j]
    &&& forall|j: int| 0 <= j < i ==> values[i] < #[trigger] values[j]
}

/// Picks an endpoint with the fewest connections in use.
#[derive(Debug)]
pub struct LeastConnections;

impl LeastConnections {
    /// The balancer.
    pub fn new() -> (lb: Self)
        ensures
            lb == LeastConnections,
    {
        LeastConnections
    }
}

impl Default for LeastConnections {
    fn default() -> (lb: Self)
        ensures
            lb == LeastConnections,
    {
        LeastConnections::new()
    }
}

impl LoadBalancer for LeastConnections {
    fn name(&self) -> (s: &'static str)
        ensures
            s@ == "least_conn"@,
    {
        "least_conn"
    }

    fn select(&mut self, endpoints: &Vec<&Endpoint>) -> (picked: Option<usize>)
        ensures
            endpoints@.len() == 0 ==> picked is None,
            endpoints@.len() > 0 ==> picked is Some && is_first_least(
                loads(endpoints@),
                picked->0 as int,
            ),
    {
        if endpoints.len() == 0 {
            return None;
        }
        let ghost values = loads(endpoints@);
        let mut best: usize = 0;
        let mut i: usize = 1;
        while i < endpoints.len()
            invariant
                1 <= i <= endpoints.len(),
                best < i,
                values == loads(endpoints@),
                forall|j: int| 0 <= j < i ==> values[best as int] <= #[trigger] values[j],
                forall|j: int| 0 <= j < best ==> values[best as int] < #[trigger] values[j],
            decreases endpoints.len() - i,
        {
            assert(values[i as int] == endpoints@[i as int]@.active);
            assert(values[best as int] == endpoints@[best as int]@.active);
            if endpoints[i].active_connections() < endpoints[best].active_connections() {
                best = i;
            }
            i += 1;
        }
        Some(best)
    }
}

/// The number that follows another in a pseudo-random sequence.
pub open spec fn xorshift(seed: usize) -> usize {
    let s = if seed == 0 {
        1usize
    } else {
        seed
    };
    let a = s ^ (s << 13usize);
    let b = a ^ (a >> 7usize);
    b ^ (b << 17usize)
}

/// The number that follows another in a pseudo-random sequence.
fn next_random(seed: usize) -> (r: usize)
    ensures
        r == xorshift(seed),
{
    let s: usize = if seed == 0 {
        1
    } else {
        seed
    };
    let a: usize = s ^ (s << 13usize);
    let b: usize = a ^ (a >> 7usize);
    b ^ (b << 17usize)
}

/// The pseudo-random sequence never runs into zero.
pub proof fn random_never_stops(seed: usize)
    ensures
        xorshift(seed) != 0,
{
    let s = if seed == 0 {
        1usize
    } else {
        seed
    };
    let a = s ^ (s << 13usize);
    let b = a ^ (a >> 7usize);
    assert(s != 0 ==> s ^ (s << 13usize) != 0) by (bit_vector);
    assert(a != 0 ==> a ^ (a >> 7usize) != 0) by (bit_vector);
    assert(b != 0 ==> b ^ (b << 17usize) != 0) by (bit_vector);
}

/// Picks an endpoint at random.
#[derive(Debug)]
pub struct Random {
    counter: usize,
}

impl Random {
    /// The last random number.
    pub closed spec fn seed(&self) -> usize {
        self.counter
    }

    /// A balancer at the start of its sequence.
    pub fn new() -> (lb: Self)
        ensures
            lb.seed() == 0,
    {
        Random { counter: 0 }
    }
}

impl Default for Random {
    fn default() -> (lb: Self)
        ensures
            lb.seed() == 0,
    {
        Random::new()
    }
}

impl LoadBalancer for Random {
    fn name(&self) -> (s: &'static str)
        ensures
            s@ == "random"@,
    {
        "random"
    }

    fn select(&mut self, endpoints: &Vec<&Endpoint>) -> (picked: Option<usize>)
        ensures
            endpoints@.len() == 0 ==> picked is None && *final(self) == *old(self),
            endpoints@.len() > 0 ==> {
                &&& final(self).seed() == xorshift(old(self).seed())
                &&& picked is Some
                &&& picked->0 == in_turn(final(self).seed(), endpoints@.len())
            },
    {
        if endpoints.len() == 0 {
            return None;
        }
        self.counter = next_random(self.counter);
        Some(self.counter % endpoints.len())
    }
}

/// The two positions that two random numbers choose, of at least two.
pub open spec fn two_choices(first: usize, second: usize, n: nat) -> (int, int) {
    let i = first as int % n as int;
    (i, (second as int % (n - 1) + i + 1) % n as int)
}

/// The two choices are never the same.
pub proof fn choices_differ(first: usize, second: usize, n: nat)
    requires
        n >= 2,
    ensures
        ({
            let (i, j) = two_choices(first, second, n);
            0 <= i < n && 0 <= j < n && i != j
        }),
{
    let d = n as int;
    let i = first as int % d;
    let k = second as int % (d - 1);
    vstd::arithmetic::div_mod::lemma_mod_bound(first as int, d);
    vstd::arithmetic::div_mod::lemma_mod_bound(second as int, d - 1);
    let t = k + i + 1;
    vstd::arithmetic::div_mod::lemma_mod_bound(t, d);
    if t < d {
        vstd::arithmetic::div_mod::lemma_small_mod(t as nat, n);
    } else {
        vstd::arithmetic::div_mod::lemma_small_mod((t - d) as nat, n);
        vstd::arithmetic::div_mod::lemma_mod_add_multiples_vanish(t - d, d);
    }
}

/// Picks the one of two random endpoints that has fewer connections in use.
#[derive(Debug)]
pub struct PowerOfTwoChoices {
    counter: usize,
}

impl PowerOfTwoChoices {
    /// The last random number.
    pub closed spec fn seed(&self) -> usize {
        self.counter
    }

    /// A balancer at the start of its sequence.
    pub fn new() -> (lb: Self)
        ensures
            lb.seed() == 0,
    {
        PowerOfTwoChoices { counter: 0 }
    }

    fn random(&mut self) -> (r: usize)
        ensures
            r == xorshift(old(self).seed()),
            final(self).seed() == r,
    {
        self.counter = next_random(self.counter);
        self.counter
    }
}

impl Default for PowerOfTwoChoices {
    fn default() -> (lb: Self)
        ensures
            lb.seed() == 0,
    {
        PowerOfTwoChoices::new()
    }
}

impl LoadBalancer for PowerOfTwoChoices {
    fn name(&self) -> (s: &'static str)
        ensures
            s@ == "p2c"@,
    {
        "p2c"
    }

    fn select(&mut self, endpoints: &Vec<&Endpoint>) -> (picked: Option<usize>)
        ensures
            endpoints@.len() == 0 ==> picked is None && *final(self) == *old(self),
            endpoints@.len() == 1 ==> picked == Some(0usize) && *final(self) == *old(self),
            endpoints@.len() >= 2 ==> {
                let r1 = xorshift(old(self).seed());
                let r2 = xorshift(r1);
                let (i, j) = two_choices(r1, r2, endpoints@.len());
                &&& final(self).seed() == r2
                &&& picked is Some
                &&& picked->0 == if loads(endpoints@)[i] <= loads(endpoints@)[j] {
                    i
                } else {
                    j
                }
            },
    {
        let n: usize = endpoints.len();
        if n == 0 {
            return None;
        }
        if n == 1 {
            return Some(0);
        }
        let r1: usize = self.random();
        let r2: usize = self.random();
        proof {
            choices_differ(r1, r2, n as nat);
        }
        let i: usize = r1 % n;
        let wide: u128 = (r2 % (n - 1)) as u128 + i as u128 + 1;
        let j: usize = (wide % n as u128) as usize;
        assert(loads(endpoints@)[i as int] == endpoints@[i as int]@.active);
        assert(loads(endpoints@)[j as int] == endpoints@[j as int]@.active);
        if endpoints[i].active_connections() <= endpoints[j].active_connections() {
            Some(i)
        } else {
            Some(j)
        }
    }
}

/// The FNV-1a hash of some bytes.
pub open spec fn fnv(bytes: Seq<u8>) -> u64
    decreases bytes.len(),
{
    if bytes.len() == 0 {
        14695981039346656037
    } else {
        vstd::wrapping::u64_specs::wrapping_mul(
            fnv(bytes.drop_last()) ^ (bytes.last() as u64),
            1099511628211,
        )
    }
}

/// The hash of a text.
pub open spec fn text_hash(text: Seq<char>) -> u64 {
    fnv(encode_utf8(text))
}

/// The hash of a text.
pub fn hash_text(text: &str) -> (h: u64)
    ensures
        h == text_hash(text@),
{
    let bytes = text.as_bytes();
    let mut hash: u64 = 14695981039346656037;
    let mut i: usize = 0;
    while i < bytes.len()
        invariant
            i <= bytes.len(),
            bytes@ == encode_utf8(text@),
            hash == fnv(bytes@.take(i as int)),
        decreases bytes.len() - i,
    {
        assert(bytes@.take(i + 1).drop_last() == bytes@.take(i as int));
        hash = (hash ^ bytes[i] as u64).wrapping_mul(1099511628211);
        i += 1;
    }
    assert(bytes@.take(i as int) == bytes@);
    hash
}

/// The key of one of the nodes of an address.
pub open spec fn node_key(address: Seq<char>, i: nat) -> Seq<char> {
    address + seq![':'] + decimal(i)
}

/// Nodes are in the order of their hashes.
pub open spec fn in_hash_order(ring: Seq<(u64, usize)>) -> bool {
    forall|i: int, j: int| 0 <= i < j < ring.len() ==> ring[i].0 <= ring[j].0
}

/// Number of nodes in front of a new node with a hash.
pub open spec fn place(ring: Seq<(u64, usize)>, hash: u64) -> nat
    decreases ring.len(),
{
    if ring.len() == 0 {
        0
    } else if ring.last().0 > hash {
        place(ring.drop_last(), hash)
    } else {
        ring.len()
    }
}

/// A ring with one more node, behind those with the same hash.
pub open spec fn inserted(ring: Seq<(u64, usize)>, node: (u64, usize)) -> Seq<(u64, usize)> {
    ring.insert(place(ring, node.0) as int, node)
}

/// A ring with the first nodes of one more endpoint.
pub open spec fn with_nodes(
    ring: Seq<(u64, usize)>,
    address: Seq<char>,
    endpoint: usize,
    count: nat,
) -> Seq<(u64, usize)>
    decreases count,
{
    if count == 0 {
        ring
    } else {
        let i = (count - 1) as nat;
        inserted(with_nodes(ring, address, endpoint, i), (text_hash(node_key(address, i)), endpoint))
    }
}

/// The ring of some endpoints, with some nodes for each.
pub open spec fn ring_of(addresses: Seq<Seq<char>>, replicas: nat) -> Seq<(u64, usize)>
    decreases addresses.len(),
{
    if addresses.len() == 0 {
        seq![]
    } else {
        with_nodes(
            ring_of(addresses.drop_last(), replicas),
            addresses.last(),
            (addresses.len() - 1) as usize,
            replicas,
        )
    }
}

/// Number of nodes whose hash is less than another, in a ring in hash order.
pub open spec fn nodes_below(ring: Seq<(u64, usize)>, hash: u64) -> nat
    decreases ring.len(),
{
    if ring.len() == 0 {
        0
    } else if ring.last().0 >= hash {
        nodes_below(ring.drop_last(), hash)
    } else {
        ring.len()
    }
}

/// The endpoint of the first node whose hash is at least another; behind the
/// last node the ring starts over.
pub open spec fn owner(ring: Seq<(u64, usize)>, hash: u64) -> usize {
    let i = nodes_below(ring, hash);
    if i < ring.len() {
        ring[i as int].1
    } else {
        ring[0].1
    }
}

proof fn place_splits(ring: Seq<(u64, usize)>, hash: u64)
    requires
        in_hash_order(ring),
    ensures
        place(ring, hash) <= ring.len(),
        forall|i: int| 0 <= i < place(ring, hash) ==> (#[trigger] ring[i]).0 <= hash,
        forall|i: int| place(ring, hash) <= i < ring.len() ==> (#[trigger] ring[i]).0 > hash,
    decreases ring.len(),
{
    if ring.len() > 0 && ring.last().0 > hash {
        let front = ring.drop_last();
        place_splits(front, hash);
        assert forall|i: int| 0 <= i < place(ring, hash) implies (#[trigger] ring[i]).0 <= hash by {
            assert(front[i] == ring[i]);
        }
        assert forall|i: int| place(ring, hash) <= i < ring.len() implies (#[trigger] ring[i]).0
            > hash by {
            if i < front.len() {
                assert(front[i] == ring[i]);
            }
        }
    }
}

proof fn below_splits(ring: Seq<(u64, usize)>, hash: u64)
    requires
        in_hash_order(ring),
    ensures
        nodes_below(ring, hash) <= ring.len(),
        forall|i: int| 0 <= i < nodes_below(ring, hash) ==> (#[trigger] ring[i]).0 < hash,
        forall|i: int| nodes_below(ring, hash) <= i < ring.len() ==> (#[trigger] ring[i]).0 >= hash,
    decreases ring.len(),
{
    if ring.len() > 0 && ring.last().0 >= hash {
        let front = ring.drop_last();
        below_splits(front, hash);
        assert forall|i: int| 0 <= i < nodes_below(ring, hash) implies (#[trigger] ring[i]).0
            < hash by {
            assert(front[i] == ring[i]);
        }
        assert forall|i: int| nodes_below(ring, hash) <= i < ring.len() implies (
        #[trigger] ring[i]).0 >= hash by {
            if i < front.len() {
                assert(front[i] == ring[i]);
            }
        }
    }
}

proof fn below_is(ring: Seq<(u64, usize)>, hash: u64, n: nat)
    requires
        in_hash_order(ring),
        n <= ring.len(),
        forall|i: int| 0 <= i < n ==> (#[trigger] ring[i]).0 < hash,
        forall|i: int| n <= i < ring.len() ==> (#[trigger] ring[i]).0 >= hash,
    ensures
        nodes_below(ring, hash) == n,
{
    below_splits(ring, hash);
    let m = nodes_below(ring, hash);
    if m < n {
        assert(ring[m as int].0 < hash);
    }
    if n < m {
        assert(ring[n as int].0 < hash);
    }
}

proof fn inserted_in_order(ring: Seq<(u64, usize)>, node: (u64, usize))
    requires
        in_hash_order(ring),
    ensures
        in_hash_order(inserted(ring, node)),
        inserted(ring, node).len() == ring.len() + 1,
        place(ring, node.0) <= ring.len(),
{
    place_splits(ring, node.0);
}

proof fn with_nodes_in_order(
    ring: Seq<(u64, usize)>,
    address: Seq<char>,
    endpoint: usize,
    count: nat,
)
    requires
        in_hash_order(ring),
    ensures
        in_hash_order(with_nodes(ring, address, endpoint, count)),
        with_nodes(ring, address, endpoint, count).len() == ring.len() + count,
    decreases count,
{
    if count > 0 {
        let i = (count - 1) as nat;
        with_nodes_in_order(ring, address, endpoint, i);
        inserted_in_order(
            with_nodes(ring, address, endpoint, i),
            (text_hash(node_key(address, i)), endpoint),
        );
    }
}

/// A ring is in hash order, and has as many nodes as there are endpoints times
/// the nodes of each.
pub proof fn rings_are_in_order(addresses: Seq<Seq<char>>, replicas: nat)
    ensures
        in_hash_order(ring_of(addresses, replicas)),
        ring_of(addresses, replicas).len() == addresses.len() * replicas,
    decreases addresses.len(),
{
    if addresses.len() > 0 {
        let front = addresses.drop_last();
        rings_are_in_order(front, replicas);
        with_nodes_in_order(
            ring_of(front, replicas),
            addresses.last(),
            (addresses.len() - 1) as usize,
            replicas,
        );
        assert(front.len() * replicas + replicas == addresses.len() * replicas)
            by (nonlinear_arith)
            requires
                front.len() + 1 == addresses.len(),
        ;
    } else {
        assert(0 * replicas == 0) by (nonlinear_arith);
    }
}

/// One more node changes the owner of a hash to that node's endpoint, or not
/// at all.
pub proof fn node_takes_only_for_itself(ring: Seq<(u64, usize)>, node: (u64, usize), hash: u64)
    requires
        in_hash_order(ring),
        ring.len() > 0,
    ensures
        ({
            let after = owner(inserted(ring, node), hash);
            after == owner(ring, hash) || after == node.1
        }),
{
    let p = place(ring, node.0);
    let l = nodes_below(ring, hash);
    let after = inserted(ring, node);
    place_splits(ring, node.0);
    below_splits(ring, hash);
    inserted_in_order(ring, node);
    if node.0 < hash {
        if p > l {
            assert(ring[l as int].0 <= node.0);
        }
        below_is(after, hash, l + 1);
    } else {
        if p < l {
            assert(ring[p as int].0 > node.0);
        }
        below_is(after, hash, l);
    }
}

proof fn nodes_take_only_for_themselves(
    ring: Seq<(u64, usize)>,
    address: Seq<char>,
    endpoint: usize,
    count: nat,
    hash: u64,
)
    requires
        in_hash_order(ring),
        ring.len() > 0,
    ensures
        ({
            let after = owner(with_nodes(ring, address, endpoint, count), hash);
            after == owner(ring, hash) || after == endpoint
        }),
    decreases count,
{
    if count > 0 {
        let i = (count - 1) as nat;
        nodes_take_only_for_themselves(ring, address, endpoint, i, hash);
        with_nodes_in_order(ring, address, endpoint, i);
        node_takes_only_for_itself(
            with_nodes(ring, address, endpoint, i),
            (text_hash(node_key(address, i)), endpoint),
            hash,
        );
    }
}

/// One more endpoint at the end of the list takes over some keys, and every
/// other key stays with its endpoint.
pub proof fn new_endpoint_takes_only_for_itself(
    addresses: Seq<Seq<char>>,
    address: Seq<char>,
    replicas: nat,
    key: Seq<char>,
)
    requires
        addresses.len() > 0,
        replicas > 0,
    ensures
        ({
            let before = owner(ring_of(addresses, replicas), text_hash(key));
            let after = owner(ring_of(addresses.push(address), replicas), text_hash(key));
            after == before || after == addresses.len() as usize
        }),
{
    let more = addresses.push(address);
    assert(more.drop_last() == addresses);
    rings_are_in_order(addresses, replicas);
    assert(addresses.len() * replicas > 0) by (nonlinear_arith)
        requires
            addresses.len() > 0,
            replicas > 0,
    ;
    nodes_take_only_for_themselves(
        ring_of(addresses, replicas),
        address,
        addresses.len() as usize,
        replicas,
        text_hash(key),
    );
}

proof fn with_nodes_of_endpoints(
    ring: Seq<(u64, usize)>,
    address: Seq<char>,
    endpoint: usize,
    count: nat,
    n: nat,
)
    requires
        in_hash_order(ring),
        forall|i: int| 0 <= i < ring.len() ==> (#[trigger] ring[i]).1 < n,
        endpoint < n,
    ensures
        ({
            let after = with_nodes(ring, address, endpoint, count);
            forall|i: int| 0 <= i < after.len() ==> (#[trigger] after[i]).1 < n
        }),
    decreases count,
{
    if count > 0 {
        let k = (count - 1) as nat;
        let before = with_nodes(ring, address, endpoint, k);
        let node = (text_hash(node_key(address, k)), endpoint);
        with_nodes_of_endpoints(ring, address, endpoint, k, n);
        with_nodes_in_order(ring, address, endpoint, k);
        inserted_in_order(before, node);
        let after = inserted(before, node);
        let p = place(before, node.0) as int;
        assert forall|i: int| 0 <= i < after.len() implies (#[trigger] after[i]).1 < n by {
            if i < p {
                assert(after[i] == before[i]);
            } else if i > p {
                assert(after[i] == before[i - 1]);
            }
        }
    }
}

/// Every node of a ring belongs to one of the endpoints.
pub proof fn nodes_belong_to_endpoints(addresses: Seq<Seq<char>>, replicas: nat, i: int)
    requires
        addresses.len() <= usize::MAX,
        0 <= i < ring_of(addresses, replicas).len(),
    ensures
        ring_of(addresses, replicas)[i].1 < addresses.len(),
{
    all_nodes_belong(addresses, replicas);
}

proof fn all_nodes_belong(addresses: Seq<Seq<char>>, replicas: nat)
    requires
        addresses.len() <= usize::MAX,
    ensures
        ({
            let ring = ring_of(addresses, replicas);
            forall|i: int| 0 <= i < ring.len() ==> (#[trigger] ring[i]).1 < addresses.len()
        }),
    decreases addresses.len(),
{
    if addresses.len() > 0 {
        let front = addresses.drop_last();
        all_nodes_belong(front, replicas);
        rings_are_in_order(front, replicas);
        with_nodes_of_endpoints(
            ring_of(front, replicas),
            addresses.last(),
            (addresses.len() - 1) as usize,
            replicas,
            addresses.len(),
        );
    }
}

/// Addresses of endpoints.
pub open spec fn addresses_of(endpoints: Seq<EndpointConfig>) -> Seq<Seq<char>> {
    endpoints.map_values(|e: EndpointConfig| e.address@)
}

/// Keeps messages with the same key at the same endpoint.
#[derive(Debug)]
pub struct ConsistentHash {
    ring: Vec<(u64, usize)>,
    replicas: usize,
    counter: usize,
}

/// Number of nodes for each endpoint; none given means a hundred.
pub open spec fn replica_count(replicas: usize) -> usize {
    if replicas == 0 {
        100
    } else {
        replicas
    }
}

impl ConsistentHash {
    /// The ring: hashes, each with the position of its endpoint.
    pub closed spec fn ring(&self) -> Seq<(u64, usize)> {
        self.ring@
    }

    /// Number of nodes for each endpoint.
    pub closed spec fn replicas(&self) -> usize {
        self.replicas
    }

    /// How many endpoints have been picked without a key.
    pub closed spec fn count(&self) -> usize {
        self.counter
    }

    #[verifier::type_invariant]
    spec fn ring_in_order(self) -> bool {
        in_hash_order(self.ring@)
    }

    fn insert_node(ring: &mut Vec<(u64, usize)>, hash: u64, endpoint: usize)
        requires
            in_hash_order(old(ring)@),
        ensures
            final(ring)@ == inserted(old(ring)@, (hash, endpoint)),
            in_hash_order(final(ring)@),
    {
        let ghost before = ring@;
        let mut at: usize = ring.len();
        assert(before.take(at as int) == before);
        while at > 0 && ring[at - 1].0 > hash
            invariant
                at <= ring.len(),
                ring@ == before,
                place(before, hash) == place(before.take(at as int), hash),
            decreases at,
        {
            assert(before.take(at as int).drop_last() == before.take(at - 1));
            assert(before.take(at as int).last() == before[at - 1]);
            at -= 1;
        }
        proof {
            if at > 0 {
                assert(before.take(at as int).last() == before[at - 1]);
            }
            assert(place(before, hash) == at);
            inserted_in_order(before, (hash, endpoint));
        }
        ring.insert(at, (hash, endpoint));
    }

    /// A balancer with some nodes for each endpoint.
    pub fn new(endpoints: &Vec<EndpointConfig>, replicas: usize) -> (lb: Self)
        ensures
            lb.replicas() == replica_count(replicas),
            lb.ring() == ring_of(addresses_of(endpoints@), replica_count(replicas) as nat),
            lb.count() == 0,
    {
        let replicas: usize = if replicas == 0 {
            100
        } else {
            replicas
        };
        let ghost all = addresses_of(endpoints@);
        let mut ring: Vec<(u64, usize)> = Vec::new();
        let mut idx: usize = 0;
        while idx < endpoints.len()
            invariant
                idx <= endpoints.len(),
                all == addresses_of(endpoints@),
                in_hash_order(ring@),
                ring@ == ring_of(all.take(idx as int), replicas as nat),
            decreases endpoints.len() - idx,
        {
            let ghost before = ring@;
            let ghost address = all[idx as int];
            let mut i: usize = 0;
            while i < replicas
                invariant
                    i <= replicas,
                    idx < endpoints.len(),
                    address == endpoints@[idx as int].address@,
                    in_hash_order(ring@),
                    ring@ == with_nodes(before, address, idx, i as nat),
                decreases replicas - i,
            {
                let mut key = endpoints[idx].address.clone();
                key.push(':');
                let digits = number(i as u64);
                key.append(digits.as_str());
                assert(key@ =~= node_key(address, i as nat));
                let hash = hash_text(key.as_str());
                ConsistentHash::insert_node(&mut ring, hash, idx);
                i += 1;
            }
            assert(all.take(idx + 1).drop_last() == all.take(idx as int));
            assert(all.take(idx + 1).last() == address);
            idx += 1;
        }
        assert(all.take(idx as int) == all);
        ConsistentHash { ring, replicas, counter: 0 }
    }

    /// The position of the endpoint that a key belongs to.
    pub fn select_by_key(&self, key: &str) -> (picked: Option<usize>)
        ensures
            picked == if self.ring().len() == 0 {
                None::<usize>
            } else {
                Some(owner(self.ring(), text_hash(key@)))
            },
    {
        proof {
            use_type_invariant(self);
        }
        if self.ring.len() == 0 {
            return None;
        }
        let hash = hash_text(key);
        let mut low: usize = 0;
        let mut high: usize = self.ring.len();
        while low < high
            invariant
                low <= high <= self.ring.len(),
                in_hash_order(self.ring@),
                forall|i: int| 0 <= i < low ==> (#[trigger] self.ring@[i]).0 < hash,
                forall|i: int| high <= i < self.ring@.len() ==> (#[trigger] self.ring@[i]).0
                    >= hash,
            decreases high - low,
        {
            let middle: usize = low + (high - low) / 2;
            if self.ring[middle].0 < hash {
                low = middle + 1;
            } else {
                high = middle;
            }
        }
        proof {
            below_is(self.ring@, hash, low as nat);
        }
        if low >= self.ring.len() {
            Some(self.ring[0].1)
        } else {
            Some(self.ring[low].1)
        }
    }
}

impl Default for ConsistentHash {
    fn default() -> (lb: Self)
        ensures
            lb.ring() == Seq::<(u64, usize)>::empty(),
            lb.replicas() == 100,
            lb.count() == 0,
    {
        ConsistentHash::new(&Vec::new(), 100)
    }
}

impl LoadBalancer for ConsistentHash {
    fn name(&self) -> (s: &'static str)
        ensures
            s@ == "consistent_hash"@,
    {
        "consistent_hash"
    }

    fn select(&mut self, endpoints: &Vec<&Endpoint>) -> (picked: Option<usize>)
        ensures
            final(self).ring() == old(self).ring(),
            final(self).replicas() == old(self).replicas(),
            endpoints@.len() == 0 ==> picked is None && final(self).count() == old(self).count(),
            endpoints@.len() > 0 ==> {
                &&& picked is Some
                &&& picked->0 == in_turn(old(self).count(), endpoints@.len())
                &&& final(self).count() == next_count(old(self).count())
            },
    {
        proof {
            use_type_invariant(&*self);
        }
        if endpoints.len() == 0 {
            return None;
        }
        let idx: usize = self.counter % endpoints.len();
        self.counter = self.counter.wrapping_add(1);
        Some(idx)
    }
}

/// Some position is the first one with the least connections for its weight.
/// Connections of one are held against the weight of the other and the other
/// way round.
pub open spec fn is_first_least_for_weight(values: Seq<nat>, weights: Seq<u32>, i: int) -> bool {
    &&& 0 <= i < values.len()
    &&& forall|j: int|
        0 <= j < values.len() ==> values[i] * weight_at(weights, j) <= (#[trigger] values[j])
            * weight_at(weights, i)
    &&& forall|j: int|
        0 <= j < i ==> values[i] * weight_at(weights, j) < (#[trigger] values[j]) * weight_at(
            weights,
            i,
        )
}

proof fn ratio_below(a: nat, wa: nat, b: nat, wb: nat, c: nat, wc: nat)
    requires
        a * wb < b * wa,
        b * wc <= c * wb,
        wb > 0,
        wc > 0,
        wa > 0,
    ensures
        a * wc < c * wa,
{
    assert(a * wb * wc < b * wa * wc) by (nonlinear_arith)
        requires
            a * wb < b * wa,
            wc > 0,
    ;
    assert(b * wc * wa <= c * wb * wa) by (nonlinear_arith)
        requires
            b * wc <= c * wb,
    ;
    assert(a * wc * wb < c * wa * wb) by (nonlinear_arith)
        requires
            a * wb * wc < b * wa * wc,
            b * wc * wa <= c * wb * wa,
    ;
    assert(a * wc < c * wa) by (nonlinear_arith)
        requires
            a * wc * wb < c * wa * wb,
            wb > 0,
    ;
}

/// Picks an endpoint with the fewest connections in use for its weight.
#[derive(Debug)]
pub struct WeightedLeastConn {
    weights: Vec<u32>,
}

/// Weights of endpoints, at least one each.
pub open spec fn positive_weights(endpoints: Seq<EndpointConfig>) -> Seq<u32> {
    endpoints.map_values(
        |e: EndpointConfig|
            if e.weight == 0 {
                1u32
            } else {
                e.weight
            },
    )
}

impl WeightedLeastConn {
    /// The weights.
    pub closed spec fn weights(&self) -> Seq<u32> {
        self.weights@
    }

    #[verifier::type_invariant]
    spec fn all_positive(self) -> bool {
        forall|i: int| 0 <= i < self.weights@.len() ==> (#[trigger] self.weights@[i]) > 0
    }

    /// A balancer by the weights of endpoints.
    pub fn new(endpoints: &Vec<EndpointConfig>) -> (lb: Self)
        ensures
            lb.weights() == positive_weights(endpoints@),
    {
        let mut weights: Vec<u32> = Vec::new();
        let mut i: usize = 0;
        let ghost all = positive_weights(endpoints@);
        while i < endpoints.len()
            invariant
                i <= endpoints.len(),
                all == positive_weights(endpoints@),
                weights@ == all.take(i as int),
            decreases endpoints.len() - i,
        {
            let weight: u32 = endpoints[i].weight;
            weights.push(
                if weight == 0 {
                    1
                } else {
                    weight
                },
            );
            i += 1;
        }
        assert(weights@ == all);
        WeightedLeastConn { weights }
    }
}

impl Default for WeightedLeastConn {
    fn default() -> (lb: Self)
        ensures
            lb.weights() == Seq::<u32>::empty(),
    {
        WeightedLeastConn::new(&Vec::new())
    }
}

/// One count is less than another, each held against the weight of the other.
fn fewer_for_weight(a: usize, wa: u32, b: usize, wb: u32) -> (r: bool)
    ensures
        r == ((a as nat * wb as nat) < (b as nat * wa as nat)),
{
    assert(a as u128 * wb as u128 <= u128::MAX) by (nonlinear_arith)
        requires
            a <= 0xffff_ffff_ffff_ffff,
            wb <= 0xffff_ffff,
    ;
    assert(b as u128 * wa as u128 <= u128::MAX) by (nonlinear_arith)
        requires
            b <= 0xffff_ffff_ffff_ffff,
            wa <= 0xffff_ffff,
    ;
    a as u128 * (wb as u128) < b as u128 * (wa as u128)
}

impl LoadBalancer for WeightedLeastConn {
    fn name(&self) -> (s: &'static str)
        ensures
            s@ == "weighted_least_conn"@,
    {
        "weighted_least_conn"
    }

    fn select(&mut self, endpoints: &Vec<&Endpoint>) -> (picked: Option<usize>)
        ensures
            final(self).weights() == old(self).weights(),
            endpoints@.len() == 0 ==> picked is None,
            endpoints@.len() > 0 ==> picked is Some && is_first_least_for_weight(
                loads(endpoints@),
                old(self).weights(),
                picked->0 as int,
            ),
    {
        if endpoints.len() == 0 {
            return None;
        }
        proof {
            use_type_invariant(&*self);
        }
        Some(least_for_weight(endpoints, &self.weights))
    }
}

impl WeightedLeastConn {
    /// Picks one of some of the endpoints, with their positions among all;
    /// each counts with its own weight.
    pub fn select_among(&self, endpoints: &Vec<&Endpoint>, positions: &Vec<usize>) -> (picked:
        Option<usize>)
        requires
            positions@.len() == endpoints@.len(),
        ensures
            endpoints@.len() == 0 ==> picked is None,
            endpoints@.len() > 0 ==> picked is Some && is_first_least_for_weight(
                loads(endpoints@),
                own_weights(self.weights(), positions@),
                picked->0 as int,
            ),
    {
        if endpoints.len() == 0 {
            return None;
        }
        proof {
            use_type_invariant(self);
        }
        let own = weights_at(&self.weights, positions);
        Some(least_for_weight(endpoints, &own))
    }
}

fn weight_or_one(weights: &Vec<u32>, i: usize) -> (w: u32)
    ensures
        w == weight_at(weights@, i as int),
{
    if i < weights.len() {
        weights[i]
    } else {
        1
    }
}

fn least_for_weight(endpoints: &Vec<&Endpoint>, weights: &Vec<u32>) -> (best: usize)
    requires
        endpoints@.len() > 0,
        forall|j: int| 0 <= j < weights@.len() ==> (#[trigger] weights@[j]) > 0,
    ensures
        is_first_least_for_weight(loads(endpoints@), weights@, best as int),
{
    let ghost values = loads(endpoints@);
    let mut best: usize = 0;
    let mut i: usize = 1;
    while i < endpoints.len()
        invariant
            1 <= i <= endpoints.len(),
            best < i,
            values == loads(endpoints@),
            forall|j: int| 0 <= j < weights@.len() ==> (#[trigger] weights@[j]) > 0,
            forall|j: int|
                0 <= j < i ==> values[best as int] * weight_at(weights@, j) <= (#[trigger] values[j])
                    * weight_at(weights@, best as int),
            forall|j: int|
                0 <= j < best ==> values[best as int] * weight_at(weights@, j) < (
                #[trigger] values[j]) * weight_at(weights@, best as int),
        decreases endpoints.len() - i,
    {
        assert(values[i as int] == endpoints@[i as int]@.active);
        assert(values[best as int] == endpoints@[best as int]@.active);
        let fewer = fewer_for_weight(
            endpoints[i].active_connections(),
            weight_or_one(weights, i),
            endpoints[best].active_connections(),
            weight_or_one(weights, best),
        );
        if fewer {
            proof {
                assert forall|j: int| 0 <= j < i implies values[i as int] * weight_at(weights@, j)
                    < (#[trigger] values[j]) * weight_at(weights@, i as int) by {
                    ratio_below(
                        values[i as int],
                        weight_at(weights@, i as int),
                        values[best as int],
                        weight_at(weights@, best as int),
                        values[j],
                        weight_at(weights@, j),
                    );
                }
            }
            best = i;
        }
        i += 1;
    }
    best
}

/// One of the built-in strategies.
#[derive(Debug)]
pub enum Balancer {
    RoundRobin(RoundRobin),
    LeastConn(LeastConnections),
    Weighted(Weighted),
    Random(Random),
    P2c(PowerOfTwoChoices),
    ConsistentHash(ConsistentHash),
    WeightedLeastConn(WeightedLeastConn),
}

/// A balancer of a kind is at its start.
pub open spec fn is_new_balancer(
    b: Balancer,
    kind: LbType,
    endpoints: Seq<EndpointConfig>,
) -> bool {
    match kind {
        LbType::RoundRobin => b matches Balancer::RoundRobin(lb) && lb.count() == 0,
        LbType::LeastConn => b is LeastConn,
        LbType::Weighted => b matches Balancer::Weighted(lb) && lb.count() == 0 && lb.weights()
            == weights_of(endpoints),
        LbType::Random => b matches Balancer::Random(lb) && lb.seed() == 0,
        LbType::P2c => b matches Balancer::P2c(lb) && lb.seed() == 0,
        LbType::ConsistentHash => b matches Balancer::ConsistentHash(lb) && lb.count() == 0
            && lb.replicas() == 100 && lb.ring() == ring_of(addresses_of(endpoints), 100),
        LbType::WeightedLeastConn => b matches Balancer::WeightedLeastConn(lb) && lb.weights()
            == positive_weights(endpoints),
    }
}

/// Name of a kind of balancer.
pub open spec fn kind_name(kind: LbType) -> Seq<char> {
    match kind {
        LbType::RoundRobin => "round_robin"@,
        LbType::LeastConn => "least_conn"@,
        LbType::Weighted => "weighted"@,
        LbType::Random => "random"@,
        LbType::P2c => "p2c"@,
        LbType::ConsistentHash => "consistent_hash"@,
        LbType::WeightedLeastConn => "weighted_least_conn"@,
    }
}

/// Kind of a balancer.
pub open spec fn kind_of(b: Balancer) -> LbType {
    match b {
        Balancer::RoundRobin(_) => LbType::RoundRobin,
        Balancer::LeastConn(_) => LbType::LeastConn,
        Balancer::Weighted(_) => LbType::Weighted,
        Balancer::Random(_) => LbType::Random,
        Balancer::P2c(_) => LbType::P2c,
        Balancer::ConsistentHash(_) => LbType::ConsistentHash,
        Balancer::WeightedLeastConn(_) => LbType::WeightedLeastConn,
    }
}

/// A balancer's pick, of endpoints with some connections in use each, and what
/// becomes of the balancer.
pub open spec fn balanced(
    before: Balancer,
    after: Balancer,
    values: Seq<nat>,
    picked: Option<usize>,
) -> bool {
    let n = values.len();
    &&& kind_of(after) == kind_of(before)
    &&& picked is None <==> n == 0 || (before matches Balancer::Weighted(lb) && weight_sum(
        lb.weights(),
    ) == 0)
    &&& match before {
        Balancer::RoundRobin(lb) => if n == 0 {
            after == before
        } else {
            &&& picked->0 == in_turn(lb.count(), n)
            &&& after->RoundRobin_0.count() == next_count(lb.count())
        },
        Balancer::LeastConn(lb) => n > 0 ==> is_first_least(values, picked->0 as int),
        Balancer::Weighted(lb) => {
            &&& after->Weighted_0.weights() == lb.weights()
            &&& if picked is None {
                after->Weighted_0.count() == lb.count()
            } else {
                &&& holds_target(
                    lb.weights(),
                    n,
                    weighted_target(lb.count(), lb.weights()),
                    picked->0 as int,
                )
                &&& after->Weighted_0.count() == next_count(lb.count())
            }
        },
        Balancer::Random(lb) => if n == 0 {
            after == before
        } else {
            &&& after->Random_0.seed() == xorshift(lb.seed())
            &&& picked->0 == in_turn(xorshift(lb.seed()), n)
        },
        Balancer::P2c(lb) => if n < 2 {
            after == before && (n == 1 ==> picked->0 == 0)
        } else {
            let r1 = xorshift(lb.seed());
            let r2 = xorshift(r1);
            let (i, j) = two_choices(r1, r2, n);
            &&& after->P2c_0.seed() == r2
            &&& picked->0 == if values[i] <= values[j] {
                i
            } else {
                j
            }
        },
        Balancer::ConsistentHash(lb) => {
            &&& after->ConsistentHash_0.ring() == lb.ring()
            &&& after->ConsistentHash_0.replicas() == lb.replicas()
            &&& if n == 0 {
                after->ConsistentHash_0.count() == lb.count()
            } else {
                &&& picked->0 == in_turn(lb.count(), n)
                &&& after->ConsistentHash_0.count() == next_count(lb.count())
            }
        },
        Balancer::WeightedLeastConn(lb) => {
            &&& after->WeightedLeastConn_0.weights() == lb.weights()
            &&& n > 0 ==> is_first_least_for_weight(values, lb.weights(), picked->0 as int)
        },
    }
}

/// A balancer's pick, of some of the endpoints of a cluster, given by their
/// positions among all. Where weights count, each endpoint has its own.
pub open spec fn balanced_among(
    before: Balancer,
    after: Balancer,
    values: Seq<nat>,
    positions: Seq<usize>,
    picked: Option<usize>,
) -> bool {
    match before {
        Balancer::Weighted(lb) => {
            let own = own_weights(lb.weights(), positions);
            &&& after is Weighted
            &&& after->Weighted_0.weights() == lb.weights()
            &&& if positions.len() == 0 || weight_sum(lb.weights()) == 0 {
                picked is None && after->Weighted_0.count() == lb.count()
            } else {
                &&& picked is Some
                &&& holds_target(
                    own,
                    positions.len(),
                    own_target(lb.count(), own),
                    picked->0 as int,
                )
                &&& after->Weighted_0.count() == next_count(lb.count())
            }
        },
        Balancer::WeightedLeastConn(lb) => {
            &&& after is WeightedLeastConn
            &&& after->WeightedLeastConn_0.weights() == lb.weights()
            &&& if positions.len() == 0 {
                picked is None
            } else {
                picked is Some && is_first_least_for_weight(
                    values,
                    own_weights(lb.weights(), positions),
                    picked->0 as int,
                )
            }
        },
        _ => balanced(before, after, values, picked),
    }
}

/// When all endpoints of a cluster can be picked, each counts with the weight
/// of its position.
pub proof fn own_weights_of_all(weights: Seq<u32>, positions: Seq<usize>)
    requires
        positions.len() == weights.len(),
        forall|i: int| 0 <= i < positions.len() ==> (#[trigger] positions[i]) == i,
    ensures
        own_weights(weights, positions) == weights,
{
    assert(own_weights(weights, positions) =~= weights);
}

impl Balancer {
    /// A balancer of a kind for some endpoints.
    pub fn new(kind: LbType, endpoints: &Vec<EndpointConfig>) -> (b: Self)
        requires
            kind == LbType::Weighted ==> weight_sum(weights_of(endpoints@)) <= u32::MAX,
        ensures
            is_new_balancer(b, kind, endpoints@),
            kind_of(b) == kind,
    {
        match kind {
            LbType::RoundRobin => Balancer::RoundRobin(RoundRobin::new()),
            LbType::LeastConn => Balancer::LeastConn(LeastConnections::new()),
            LbType::Weighted => Balancer::Weighted(Weighted::new(endpoints)),
            LbType::Random => Balancer::Random(Random::new()),
            LbType::P2c => Balancer::P2c(PowerOfTwoChoices::new()),
            LbType::ConsistentHash => Balancer::ConsistentHash(ConsistentHash::new(endpoints, 100)),
            LbType::WeightedLeastConn => Balancer::WeightedLeastConn(
                WeightedLeastConn::new(endpoints),
            ),
        }
    }
}

impl Balancer {
    /// Picks one of some of the endpoints of a cluster, with their positions
    /// among all.
    pub fn select_among(&mut self, endpoints: &Vec<&Endpoint>, positions: &Vec<usize>) -> (picked:
        Option<usize>)
        requires
            positions@.len() == endpoints@.len(),
        ensures
            balanced_among(
                *old(self),
                *final(self),
                loads(endpoints@),
                positions@,
                picked,
            ),
            picked matches Some(i) ==> i < endpoints@.len(),
    {
        match self {
            Balancer::Weighted(lb) => lb.select_among(positions),
            Balancer::WeightedLeastConn(lb) => lb.select_among(endpoints, positions),
            _ => self.select(endpoints),
        }
    }
}

impl LoadBalancer for Balancer {
    fn name(&self) -> (s: &'static str)
        ensures
            s@ == kind_name(kind_of(*self)),
    {
        match self {
            Balancer::RoundRobin(lb) => lb.name(),
            Balancer::LeastConn(lb) => lb.name(),
            Balancer::Weighted(lb) => lb.name(),
            Balancer::Random(lb) => lb.name(),
            Balancer::P2c(lb) => lb.name(),
            Balancer::ConsistentHash(lb) => lb.name(),
            Balancer::WeightedLeastConn(lb) => lb.name(),
        }
    }

    fn select(&mut self, endpoints: &Vec<&Endpoint>) -> (picked: Option<usize>)
        ensures
            balanced(*old(self), *final(self), loads(endpoints@), picked),
    {
        match self {
            Balancer::RoundRobin(lb) => lb.select(endpoints),
            Balancer::LeastConn(lb) => lb.select(endpoints),
            Balancer::Weighted(lb) => lb.select(endpoints),
            Balancer::Random(lb) => lb.select(endpoints),
            Balancer::P2c(lb) => lb.select(endpoints),
            Balancer::ConsistentHash(lb) => lb.select(endpoints),
            Balancer::WeightedLeastConn(lb) => lb.select(endpoints),
        }
    }
}

/// Makes balancers of some other kind.
pub trait LoadBalancerFactory {
    /// What it makes.
    type Made: LoadBalancer;

    /// Makes a balancer for some endpoints.
    fn make(&self, endpoints: &Vec<EndpointConfig>) -> Self::Made;
}

/// The factory of a registry that knows the built-in strategies only.
#[derive(Debug)]
pub struct RoundRobinFactory;

impl LoadBalancerFactory for RoundRobinFactory {
    type Made = RoundRobin;

    fn make(&self, endpoints: &Vec<EndpointConfig>) -> (lb: RoundRobin)
        ensures
            lb.count() == 0,
    {
        RoundRobin::new()
    }
}

/// How balancers of some name are made.
#[derive(Debug)]
pub enum Factory<F> {
    /// As a built-in kind.
    BuiltIn(LbType),
    /// In some other way.
    Custom(F),
}

/// A balancer that a registry made.
#[derive(Debug)]
pub enum Created<M> {
    /// One of the built-in strategies.
    BuiltIn(Balancer),
    /// Some other one.
    Custom(M),
}

impl<M: LoadBalancer> Created<M> {
    /// Name of the strategy.
    pub fn name(&self) -> (s: &'static str)
        ensures
            self matches Created::BuiltIn(b) ==> s@ == kind_name(kind_of(*b)),
            self matches Created::Custom(m) ==> call_ensures(M::name, (m,), s),
    {
        match self {
            Created::BuiltIn(b) => b.name(),
            Created::Custom(m) => m.name(),
        }
    }
}

/// Load balancers by name.
#[derive(Debug)]
pub struct LoadBalancerRegistry<F> {
    factories: StringMap<Factory<F>>,
}

/// The built-in strategies by name.
pub open spec fn built_in<F>() -> Map<Seq<char>, Factory<F>> {
    Map::empty().insert("round_robin"@, Factory::BuiltIn(LbType::RoundRobin)).insert(
        "least_conn"@,
        Factory::BuiltIn(LbType::LeastConn),
    ).insert("random"@, Factory::BuiltIn(LbType::Random)).insert(
        "p2c"@,
        Factory::BuiltIn(LbType::P2c),
    ).insert("weighted"@, Factory::BuiltIn(LbType::Weighted)).insert(
        "consistent_hash"@,
        Factory::BuiltIn(LbType::ConsistentHash),
    ).insert("weighted_least_conn"@, Factory::BuiltIn(LbType::WeightedLeastConn))
}

impl LoadBalancerRegistry<RoundRobinFactory> {
    /// A registry of the built-in strategies.
    pub fn new() -> (r: Self)
        ensures
            r@ == built_in::<RoundRobinFactory>(),
    {
        LoadBalancerRegistry::with_built_in()
    }
}

impl Default for LoadBalancerRegistry<RoundRobinFactory> {
    fn default() -> (r: Self)
        ensures
            r@ == built_in::<RoundRobinFactory>(),
    {
        LoadBalancerRegistry::new()
    }
}

impl<F> View for LoadBalancerRegistry<F> {
    type V = Map<Seq<char>, Factory<F>>;

    closed spec fn view(&self) -> Map<Seq<char>, Factory<F>> {
        self.factories@
    }
}

impl<F: LoadBalancerFactory> LoadBalancerRegistry<F> {
    /// A registry of the built-in strategies, to which others of a type can be
    /// added.
    pub fn with_built_in() -> (r: Self)
        ensures
            r@ == built_in::<F>(),
    {
        let mut factories: StringMap<Factory<F>> = StringMap::new();
        factories.insert("round_robin".to_string(), Factory::BuiltIn(LbType::RoundRobin));
        factories.insert("least_conn".to_string(), Factory::BuiltIn(LbType::LeastConn));
        factories.insert("random".to_string(), Factory::BuiltIn(LbType::Random));
        factories.insert("p2c".to_string(), Factory::BuiltIn(LbType::P2c));
        factories.insert("weighted".to_string(), Factory::BuiltIn(LbType::Weighted));
        factories.insert("consistent_hash".to_string(), Factory::BuiltIn(LbType::ConsistentHash));
        factories.insert(
            "weighted_least_conn".to_string(),
            Factory::BuiltIn(LbType::WeightedLeastConn),
        );
        LoadBalancerRegistry { factories }
    }

    /// Adds a strategy under a name.
    pub fn register(&mut self, name: &str, factory: F)
        ensures
            final(self)@ == old(self)@.insert(name@, Factory::Custom(factory)),
    {
        self.factories.insert(name.to_string(), Factory::Custom(factory));
    }

    /// Makes a balancer by name.
    pub fn create(&self, name: &str, endpoints: &Vec<EndpointConfig>) -> (lb: Option<
        Created<F::Made>,
    >)
        requires
            self@.dom().contains(name@) && self@[name@] == Factory::<F>::BuiltIn(LbType::Weighted)
                ==> weight_sum(weights_of(endpoints@)) <= u32::MAX,
        ensures
            lb is Some <==> self@.dom().contains(name@),
            lb is Some ==> match self@[name@] {
                Factory::BuiltIn(kind) => {
                    &&& lb->0 is BuiltIn
                    &&& is_new_balancer(lb->0->BuiltIn_0, kind, endpoints@)
                    &&& kind_of(lb->0->BuiltIn_0) == kind
                },
                Factory::Custom(f) => {
                    &&& lb->0 is Custom
                    &&& call_ensures(F::make, (&f, endpoints), lb->0->Custom_0)
                },
            },
    {
        match self.factories.get(name) {
            Some(Factory::BuiltIn(kind)) => Some(Created::BuiltIn(Balancer::new(*kind, endpoints))),
            Some(Factory::Custom(f)) => Some(Created::Custom(f.make(endpoints))),
            None => None,
        }
    }

    /// The known names.
    pub fn available(&self) -> (names: Vec<&str>)
        ensures
            names@.map_values(|n: &str| n@).to_set() == self@.dom(),
            names@.map_values(|n: &str| n@).no_duplicates(),
    {
        self.factories.names()
    }
}

/// What is registered under a name is found under it, and every other name
/// means what it meant before.
pub proof fn registered_strategies_are_found<F>(
    registry: Map<Seq<char>, Factory<F>>,
    name: Seq<char>,
    factory: F,
    other: Seq<char>,
)
    ensures
        registry.insert(name, Factory::Custom(factory))[name] == Factory::Custom(factory),
        other != name ==> (registry.insert(name, Factory::Custom(factory)).dom().contains(other)
            == registry.dom().contains(other)),
        other != name && registry.dom().contains(other) ==> registry.insert(
            name,
            Factory::Custom(factory),
        )[other] == registry[other],
{
}

} // verus!
