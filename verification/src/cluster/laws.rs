//! What a load balancer does, told by the endpoints and by what it picks.

use super::lb::{
    balanced, balanced_among, built_in, in_hash_order, inserted, is_new_balancer, kind_name,
    kind_of, loads, node_key, own_weights, owner, place, replica_count, ring_of, text_hash,
    two_choices, weight_before, weight_sum, with_nodes, xorshift, Balancer, Factory,
    RoundRobinFactory,
};
use super::{endpoint_picked, is_new_cluster, open_positions, Cluster};
use crate::cluster::endpoint::{takes_connections, Endpoint, EndpointView};
use crate::config::types::{ClusterConfig, EndpointConfig, LoadBalancer as LbType};
use crate::text::decimal;
use crate::time::Instant;
use vstd::arithmetic::div_mod::{lemma_mod_add_multiples_vanish, lemma_small_mod};
use vstd::prelude::*;

verus! {

/// The first choice of two is the remainder of the first random number, so
/// every position is the first choice for some number.
pub proof fn every_endpoint_is_a_first_choice(first: usize, second: usize, n: nat, p: usize)
    requires
        n >= 2,
        p < n,
    ensures
        two_choices(first, second, n).0 == first as int % n as int,
        two_choices(p, second, n).0 == p,
{
    lemma_small_mod(p as nat, n);
}

/// Every two different endpoints are chosen for some random numbers.
pub proof fn every_pair_is_chosen(n: nat, p: usize, q: usize)
    requires
        2 <= n <= usize::MAX,
        p < n,
        q < n,
        p != q,
    ensures
        exists|second: usize| #[trigger] two_choices(p, second, n) == (p as int, q as int),
{
    let d: int = if q > p {
        q - p
    } else {
        q - p + n
    };
    let second: usize = (d - 1) as usize;
    lemma_small_mod(p as nat, n);
    lemma_small_mod(second as nat, (n - 1) as nat);
    if q > p {
        lemma_small_mod(q as nat, n);
    } else {
        lemma_mod_add_multiples_vanish(q as int, n as int);
        lemma_small_mod(q as nat, n);
    }
    assert(two_choices(p, second, n) == (p as int, q as int));
}

/// Of two endpoints the one with fewer connections is picked, and the first
/// choice where they have as many. The first choice is the remainder of the
/// next random number, and the other one differs from it. So an endpoint that
/// has more connections than every other one is never picked.
pub proof fn the_less_busy_of_two_is_picked(
    before: Balancer,
    after: Balancer,
    values: Seq<nat>,
    picked: Option<usize>,
)
    requires
        before is P2c,
        balanced(before, after, values, picked),
        values.len() >= 2,
    ensures
        after is P2c,
        after->P2c_0.seed() == xorshift(xorshift(before->P2c_0.seed())),
        ({
            let i = xorshift(before->P2c_0.seed()) as int % values.len() as int;
            let p = picked->0 as int;
            &&& picked is Some
            &&& 0 <= p < values.len()
            &&& values[p] <= values[i]
            &&& p != i ==> values[p] < values[i]
            &&& exists|j: int|
                0 <= j < values.len() && j != i && values[p] <= #[trigger] values[j] && (p == i || p
                    == j)
        }),
{
    let r1 = xorshift(before->P2c_0.seed());
    let r2 = xorshift(r1);
    super::lb::choices_differ(r1, r2, values.len());
    let (i, j) = two_choices(r1, r2, values.len());
    assert(values[picked->0 as int] <= values[j]);
}

/// A balancer that goes in turn picks the next endpoint with every call, and
/// after the last one the first.
pub proof fn turns_follow_each_other(
    first: Balancer,
    second: Balancer,
    third: Balancer,
    values: Seq<nat>,
    picked: Option<usize>,
    next: Option<usize>,
)
    requires
        first is RoundRobin,
        first->RoundRobin_0.count() < usize::MAX,
        values.len() > 0,
        balanced(first, second, values, picked),
        balanced(second, third, values, next),
    ensures
        picked is Some,
        picked->0 < values.len(),
        first->RoundRobin_0.count() == 0 ==> picked->0 == 0,
        next is Some,
        picked->0 + 1 < values.len() ==> next->0 == picked->0 + 1,
        picked->0 + 1 == values.len() ==> next->0 == 0,
{
    let n = values.len() as int;
    let c = first->RoundRobin_0.count() as int;
    vstd::arithmetic::div_mod::lemma_fundamental_div_mod(c, n);
    let r = c % n;
    assert(0 <= r < n);
    if c == 0 {
        lemma_small_mod(0, n as nat);
    }
    assert((c + 1) % n == (if r + 1 < n {
        r + 1
    } else {
        0
    })) by {
        if r + 1 < n {
            vstd::arithmetic::div_mod::lemma_fundamental_div_mod_converse(c + 1, n, c / n, r + 1);
        } else {
            assert(c + 1 == (c / n + 1) * n) by (nonlinear_arith)
                requires
                    c == n * (c / n) + r,
                    r + 1 == n,
            ;
            vstd::arithmetic::div_mod::lemma_fundamental_div_mod_converse(c + 1, n, c / n + 1, 0);
        }
    }
}

/// An endpoint with the fewest connections is picked, and of several such ones
/// the first.
pub proof fn the_least_busy_is_picked(
    before: Balancer,
    after: Balancer,
    values: Seq<nat>,
    picked: Option<usize>,
    j: int,
)
    requires
        before is LeastConn,
        balanced(before, after, values, picked),
        0 <= j < values.len(),
    ensures
        picked is Some,
        picked->0 < values.len(),
        values[picked->0 as int] <= values[j],
        j < picked->0 ==> values[picked->0 as int] < values[j],
{
}

/// A random balancer picks by the remainder of the next random number, and
/// goes on from that number.
pub proof fn random_picks_by_the_next_number(
    before: Balancer,
    after: Balancer,
    values: Seq<nat>,
    picked: Option<usize>,
)
    requires
        before is Random,
        balanced(before, after, values, picked),
        values.len() > 0,
    ensures
        picked is Some,
        picked->0 == xorshift(before->Random_0.seed()) as int % values.len() as int,
        after is Random,
        after->Random_0.seed() == xorshift(before->Random_0.seed()),
{
}

/// With no endpoint nothing is picked, whatever the strategy is.
pub proof fn nothing_is_picked_of_nothing(
    before: Balancer,
    after: Balancer,
    picked: Option<usize>,
)
    requires
        balanced(before, after, Seq::empty(), picked),
    ensures
        picked is None,
{
}

/// A weighted balancer deals out its turns by weight: the turn falls to the
/// endpoint in whose share of the sum of the weights it lies.
pub proof fn turns_are_dealt_by_weight(
    before: Balancer,
    after: Balancer,
    values: Seq<nat>,
    picked: Option<usize>,
)
    requires
        before is Weighted,
        values.len() == before->Weighted_0.weights().len(),
        weight_sum(before->Weighted_0.weights()) > 0,
        weight_sum(before->Weighted_0.weights()) <= u32::MAX,
        before->Weighted_0.count() <= u32::MAX,
        balanced(before, after, values, picked),
    ensures
        picked is Some,
        picked->0 < values.len(),
        ({
            let weights = before->Weighted_0.weights();
            let turn = before->Weighted_0.count() as int % weight_sum(weights) as int;
            let p = picked->0 as nat;
            &&& weight_before(weights, p) <= turn < weight_before(weights, p) + weights[p as int]
            &&& weights[p as int] > 0
        }),
        before->Weighted_0.count() < usize::MAX ==> after->Weighted_0.count()
            == before->Weighted_0.count() + 1,
        after->Weighted_0.weights() == before->Weighted_0.weights(),
{
    let weights = before->Weighted_0.weights();
    lemma_small_mod(before->Weighted_0.count() as nat, 0x1_0000_0000);
    let turn = before->Weighted_0.count() as int % weight_sum(weights) as int;
    assert(0 <= turn < weight_sum(weights));
    super::lb::weights_are_shares(weights, turn, picked->0 as int);
}

/// The shares of the endpoints follow each other, each as long as its weight.
pub proof fn shares_are_weights(weights: Seq<u32>, i: nat)
    requires
        i < weights.len(),
    ensures
        weight_before(weights, 0) == 0,
        weight_before(weights, i + 1) - weight_before(weights, i) == weights[i as int],
        weight_sum(weights) == weight_before(weights, weights.len()),
{
}

/// With weights, an endpoint is picked that has the fewest connections for its
/// weight, and of several such ones the first: no other one has fewer
/// connections, held against the weights.
pub proof fn the_least_busy_for_its_weight_is_picked(
    before: Balancer,
    after: Balancer,
    values: Seq<nat>,
    picked: Option<usize>,
    j: int,
)
    requires
        before is WeightedLeastConn,
        values.len() == before->WeightedLeastConn_0.weights().len(),
        balanced(before, after, values, picked),
        0 <= j < values.len(),
    ensures
        picked is Some,
        picked->0 < values.len(),
        ({
            let weights = before->WeightedLeastConn_0.weights();
            let p = picked->0 as int;
            &&& values[p] * weights[j] <= values[j] * weights[p]
            &&& j < p ==> values[p] * weights[j] < values[j] * weights[p]
        }),
{
}

/// Among some of the endpoints each one counts with the weight of its own
/// position, and the same holds of the strategies with weights.
pub proof fn weights_stay_with_their_endpoint(
    before: Balancer,
    after: Balancer,
    values: Seq<nat>,
    positions: Seq<usize>,
    picked: Option<usize>,
    j: int,
)
    requires
        before is WeightedLeastConn,
        values.len() == positions.len(),
        forall|i: int|
            0 <= i < positions.len() ==> (#[trigger] positions[i])
                < before->WeightedLeastConn_0.weights().len(),
        balanced_among(before, after, values, positions, picked),
        0 <= j < values.len(),
    ensures
        picked is Some,
        picked->0 < values.len(),
        ({
            let weights = before->WeightedLeastConn_0.weights();
            let p = picked->0 as int;
            values[p] * weights[positions[j] as int] <= values[j] * weights[positions[p] as int]
        }),
        own_weights(before->WeightedLeastConn_0.weights(), positions)[j]
            == before->WeightedLeastConn_0.weights()[positions[j] as int],
{
    let weights = before->WeightedLeastConn_0.weights();
    let own = own_weights(weights, positions);
    let p = picked->0 as int;
    assert(own[p] == weights[positions[p] as int]);
    assert(own[j] == weights[positions[j] as int]);
}

/// Among some of the endpoints, a weighted balancer deals out its turns by
/// their own weights.
pub proof fn turns_among_some_are_dealt_by_weight(
    before: Balancer,
    after: Balancer,
    values: Seq<nat>,
    positions: Seq<usize>,
    picked: Option<usize>,
)
    requires
        before is Weighted,
        positions.len() > 0,
        weight_sum(before->Weighted_0.weights()) > 0,
        weight_sum(own_weights(before->Weighted_0.weights(), positions)) > 0,
        weight_sum(own_weights(before->Weighted_0.weights(), positions)) <= u32::MAX,
        before->Weighted_0.count() <= u32::MAX,
        balanced_among(before, after, values, positions, picked),
    ensures
        picked is Some,
        picked->0 < positions.len(),
        ({
            let own = own_weights(before->Weighted_0.weights(), positions);
            let turn = before->Weighted_0.count() as int % weight_sum(own) as int;
            let p = picked->0 as nat;
            weight_before(own, p) <= turn < weight_before(own, p) + own[p as int]
        }),
{
    let own = own_weights(before->Weighted_0.weights(), positions);
    lemma_small_mod(before->Weighted_0.count() as nat, 0x1_0000_0000);
    let turn = before->Weighted_0.count() as int % weight_sum(own) as int;
    assert(0 <= turn < weight_sum(own));
    super::lb::weights_are_shares(own, turn, picked->0 as int);
}

/// A new balancer is of the kind that was asked for, starts from the beginning,
/// and knows the weights of the endpoints.
pub proof fn new_balancers_are_of_their_kind(
    b: Balancer,
    kind: LbType,
    endpoints: Seq<EndpointConfig>,
    i: int,
)
    requires
        is_new_balancer(b, kind, endpoints),
        0 <= i < endpoints.len(),
    ensures
        kind is RoundRobin ==> b is RoundRobin && b->RoundRobin_0.count() == 0,
        kind is LeastConn ==> b is LeastConn,
        kind is Random ==> b is Random && b->Random_0.seed() == 0,
        kind is P2c ==> b is P2c && b->P2c_0.seed() == 0,
        kind is Weighted ==> b is Weighted && b->Weighted_0.count() == 0
            && b->Weighted_0.weights().len() == endpoints.len() && b->Weighted_0.weights()[i]
            == endpoints[i].weight,
        kind is WeightedLeastConn ==> b is WeightedLeastConn
            && b->WeightedLeastConn_0.weights().len() == endpoints.len() && (endpoints[i].weight > 0
            ==> b->WeightedLeastConn_0.weights()[i] == endpoints[i].weight) && (endpoints[i].weight
            == 0 ==> b->WeightedLeastConn_0.weights()[i] == 1),
        kind is ConsistentHash ==> b is ConsistentHash && b->ConsistentHash_0.replicas() == 100,
        kind_of(b) == kind,
{
}

/// A key belongs to the node with the lowest hash that is not below the hash of
/// the key, and to the node with the lowest hash of all where every node is
/// below it.
pub proof fn keys_belong_to_the_next_node(ring: Seq<(u64, usize)>, hash: u64)
    requires
        in_hash_order(ring),
        ring.len() > 0,
    ensures
        exists|i: int|
            {
                &&& 0 <= i < ring.len()
                &&& owner(ring, hash) == (#[trigger] ring[i]).1
                &&& ring[i].0 >= hash ==> forall|j: int|
                    0 <= j < ring.len() && (#[trigger] ring[j]).0 >= hash ==> ring[i].0 <= ring[j].0
                &&& ring[i].0 < hash ==> forall|j: int|
                    0 <= j < ring.len() ==> (#[trigger] ring[j]).0 < hash && ring[i].0 <= ring[j].0
            },
{
    below_splits(ring, hash);
    let k = super::lb::nodes_below(ring, hash) as int;
    let i = if k < ring.len() {
        k
    } else {
        0
    };
    assert(owner(ring, hash) == ring[i].1);
}

proof fn below_splits(ring: Seq<(u64, usize)>, hash: u64)
    requires
        in_hash_order(ring),
    ensures
        super::lb::nodes_below(ring, hash) <= ring.len(),
        forall|i: int|
            0 <= i < super::lb::nodes_below(ring, hash) ==> (#[trigger] ring[i]).0 < hash,
        forall|i: int|
            super::lb::nodes_below(ring, hash) <= i < ring.len() ==> (#[trigger] ring[i]).0 >= hash,
    decreases ring.len(),
{
    if ring.len() > 0 && ring.last().0 >= hash {
        let front = ring.drop_last();
        below_splits(front, hash);
        let k = super::lb::nodes_below(ring, hash);
        assert forall|i: int| 0 <= i < k implies (#[trigger] ring[i]).0 < hash by {
            assert(front[i] == ring[i]);
        }
        assert forall|i: int| k <= i < ring.len() implies (#[trigger] ring[i]).0 >= hash by {
            if i < front.len() {
                assert(front[i] == ring[i]);
            }
        }
    }
}

/// Every endpoint has its nodes on the ring: one for each number below the
/// number of nodes, under the hash of its address, a colon and the number.
pub proof fn endpoints_have_their_nodes(
    addresses: Seq<Seq<char>>,
    replicas: nat,
    k: int,
    i: nat,
)
    requires
        0 <= k < addresses.len() <= usize::MAX,
        i < replicas,
    ensures
        ring_of(addresses, replicas).contains(
            (text_hash(addresses[k] + seq![':'] + decimal(i)), k as usize),
        ),
    decreases addresses.len(),
{
    let front = addresses.drop_last();
    let before = ring_of(front, replicas);
    if k < front.len() {
        endpoints_have_their_nodes(front, replicas, k, i);
        assert(front[k] == addresses[k]);
        let node = (text_hash(addresses[k] + seq![':'] + decimal(i)), k as usize);
        nodes_stay(before, addresses.last(), (addresses.len() - 1) as usize, replicas, node);
    } else {
        own_nodes(before, addresses.last(), (addresses.len() - 1) as usize, replicas, i);
    }
}

proof fn place_fits(ring: Seq<(u64, usize)>, hash: u64)
    ensures
        place(ring, hash) <= ring.len(),
    decreases ring.len(),
{
    if ring.len() > 0 && ring.last().0 > hash {
        place_fits(ring.drop_last(), hash);
    }
}

proof fn inserted_contains(ring: Seq<(u64, usize)>, node: (u64, usize), other: (u64, usize))
    ensures
        inserted(ring, node).contains(node),
        ring.contains(other) ==> inserted(ring, node).contains(other),
{
    place_fits(ring, node.0);
    let at = place(ring, node.0) as int;
    assert(inserted(ring, node)[at] == node);
    if ring.contains(other) {
        let i = choose|i: int| 0 <= i < ring.len() && ring[i] == other;
        if i < at {
            assert(inserted(ring, node)[i] == other);
        } else {
            assert(inserted(ring, node)[i + 1] == other);
        }
    }
}

proof fn nodes_stay(
    ring: Seq<(u64, usize)>,
    address: Seq<char>,
    endpoint: usize,
    count: nat,
    node: (u64, usize),
)
    requires
        ring.contains(node),
    ensures
        with_nodes(ring, address, endpoint, count).contains(node),
    decreases count,
{
    if count > 0 {
        let i = (count - 1) as nat;
        nodes_stay(ring, address, endpoint, i, node);
        inserted_contains(
            with_nodes(ring, address, endpoint, i),
            (text_hash(node_key(address, i)), endpoint),
            node,
        );
    }
}

proof fn own_nodes(
    ring: Seq<(u64, usize)>,
    address: Seq<char>,
    endpoint: usize,
    count: nat,
    i: nat,
)
    requires
        i < count,
    ensures
        with_nodes(ring, address, endpoint, count).contains(
            (text_hash(address + seq![':'] + decimal(i)), endpoint),
        ),
    decreases count,
{
    let node = (text_hash(address + seq![':'] + decimal(i)), endpoint);
    let last = (count - 1) as nat;
    if i < last {
        own_nodes(ring, address, endpoint, last, i);
    }
    inserted_contains(
        with_nodes(ring, address, endpoint, last),
        (text_hash(node_key(address, last)), endpoint),
        node,
    );
}

/// A cluster picks only endpoints that take connections, and picks one whenever
/// there is one, unless it goes by weights that are all zero.
pub proof fn clusters_pick_what_takes_connections(
    endpoints: Seq<EndpointView>,
    at: Seq<Instant>,
    before: Balancer,
    after: Balancer,
    rank: Option<usize>,
    picked: Option<usize>,
    i: int,
)
    requires
        endpoints.len() <= usize::MAX,
        at.len() == endpoints.len(),
        endpoint_picked(endpoints, at, before, after, rank, picked),
        0 <= i < endpoints.len(),
    ensures
        picked matches Some(p) ==> p < endpoints.len() && takes_connections(
            endpoints[p as int],
            at[p as int],
        ),
        takes_connections(endpoints[i], at[i]) && !(before is Weighted) ==> picked is Some,
        before is LeastConn && takes_connections(endpoints[i], at[i]) ==> endpoints[picked->0 as int].active
            <= endpoints[i].active,
{
    let positions = open_positions(endpoints, at);
    super::open_positions_are_complete(endpoints, at, i);
    open_positions_fit(endpoints, at);
    if picked is Some {
        let p = picked->0;
        assert(positions[rank->0 as int] == p);
        assert(positions.contains(p));
        super::open_positions_are_complete(endpoints, at, p as int);
    }
    if takes_connections(endpoints[i], at[i]) {
        let k = choose|k: int| 0 <= k < positions.len() && positions[k] == i as usize;
        assert(positions.len() > 0);
        let values = super::active_at(endpoints, positions);
        assert(values[k] == endpoints[i].active);
        if before is LeastConn {
            assert(values[rank->0 as int] == endpoints[picked->0 as int].active);
        }
    }
}

proof fn open_positions_fit(endpoints: Seq<EndpointView>, at: Seq<Instant>)
    requires
        endpoints.len() <= usize::MAX,
    ensures
        forall|k: int|
            0 <= k < open_positions(endpoints, at).len() ==> (#[trigger] open_positions(
                endpoints,
                at,
            )[k]) < endpoints.len(),
    decreases endpoints.len(),
{
    if endpoints.len() > 0 {
        let rest = endpoints.drop_last();
        open_positions_fit(rest, at);
        assert forall|k: int| 0 <= k < open_positions(endpoints, at).len() implies (
        #[trigger] open_positions(endpoints, at)[k]) < endpoints.len() by {
            if k < open_positions(rest, at).len() {
                assert(open_positions(rest, at)[k] == open_positions(endpoints, at)[k]);
            }
        }
    }
}

/// How busy an endpoint is, is how many of its connections are in use.
pub proof fn loads_are_connections_in_use(endpoints: Seq<&Endpoint>, i: int)
    requires
        0 <= i < endpoints.len(),
    ensures
        loads(endpoints).len() == endpoints.len(),
        loads(endpoints)[i] == endpoints[i]@.active,
{
}

/// Each kind of balancer has a name of its own, and by that name it is found
/// among those that are built in.
pub proof fn kinds_are_found_by_name(kind: LbType)
    ensures
        kind_name(LbType::RoundRobin) == "round_robin"@,
        kind_name(LbType::LeastConn) == "least_conn"@,
        kind_name(LbType::Weighted) == "weighted"@,
        kind_name(LbType::Random) == "random"@,
        kind_name(LbType::P2c) == "p2c"@,
        kind_name(LbType::ConsistentHash) == "consistent_hash"@,
        kind_name(LbType::WeightedLeastConn) == "weighted_least_conn"@,
        built_in::<RoundRobinFactory>().contains_key(kind_name(kind)),
        built_in::<RoundRobinFactory>()[kind_name(kind)] == Factory::<RoundRobinFactory>::BuiltIn(
            kind,
        ),
        forall|name: Seq<char>| #[trigger]
            built_in::<RoundRobinFactory>().contains_key(name) ==> exists|k: LbType|
                name == #[trigger] kind_name(k),
{
    reveal_strlit("round_robin");
    reveal_strlit("least_conn");
    reveal_strlit("weighted");
    reveal_strlit("random");
    reveal_strlit("p2c");
    reveal_strlit("consistent_hash");
    reveal_strlit("weighted_least_conn");
    assert("round_robin"@.len() == 11 && "least_conn"@.len() == 10 && "weighted"@.len() == 8
        && "random"@.len() == 6 && "p2c"@.len() == 3 && "consistent_hash"@.len() == 15
        && "weighted_least_conn"@.len() == 19);
    assert forall|name: Seq<char>| #[trigger]
        built_in::<RoundRobinFactory>().contains_key(name) implies exists|k: LbType|
        name == #[trigger] kind_name(k) by {
        assert(name == kind_name(LbType::RoundRobin) || name == kind_name(LbType::LeastConn) || name
            == kind_name(LbType::Weighted) || name == kind_name(LbType::Random) || name
            == kind_name(LbType::P2c) || name == kind_name(LbType::ConsistentHash) || name
            == kind_name(LbType::WeightedLeastConn));
    }
}

/// Each endpoint has as many nodes on the ring as are asked for, or a hundred.
pub proof fn nodes_are_as_many_as_asked_for(n: usize)
    ensures
        replica_count(0) == 100,
        n > 0 ==> replica_count(n) == n,
{
}

/// A new cluster has the endpoints that are configured, in their order, and
/// balances between them as is configured.
pub proof fn new_clusters_are_as_configured(c: Cluster, config: ClusterConfig, i: int)
    requires
        is_new_cluster(c, config),
        0 <= i < config.endpoints@.len(),
    ensures
        c@.name == config.name@,
        c@.is_mock <==> config.mock is Some,
        c@.endpoints.len() == config.endpoints@.len(),
        c@.endpoints[i].address == config.endpoints@[i].address@,
        c@.endpoints[i].index == i,
        c@.endpoints[i].cluster == config.name@,
        c@.endpoints[i].active == 0,
        c@.endpoints[i].healthy,
        kind_of(c.balancer()) == config.load_balancer,
{
}

/// A balancer without a seed begins with one; the bits of a small seed come up
/// again, in the next number, at the places to which it is shifted.
pub proof fn small_seeds_are_spread(s: usize)
    requires
        0 < s < 4,
    ensures
        xorshift(s) == s * (1 + 0x40 + 0x2000 + 0x2_0000 + 0x80_0000 + 0x4000_0000),
        xorshift(0) == xorshift(1),
{
    let a = s ^ (s << 13usize);
    let b = a ^ (a >> 7usize);
    assert(s < 4 && a == s ^ (s << 13usize) && b == a ^ (a >> 7usize) ==> b ^ (b << 17usize) == s
        * 0x4082_2041usize) by (bit_vector);
}

} // verus!
