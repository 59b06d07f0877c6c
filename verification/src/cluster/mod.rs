//! Upstream clusters: endpoints, load balancing, health and circuit breakers.

pub mod circuit_breaker;
pub mod endpoint;
pub mod endpoint_laws;
pub mod health;
pub mod laws;
pub mod lb;
pub mod mock;
pub mod pool;

use crate::cluster::endpoint::{
    endpoint_step, health_checked, in_health, is_new_endpoint, takes_connections, Endpoint,
    EndpointEvent, EndpointView,
};
use crate::cluster::health::HealthState;
use crate::cluster::lb::{
    balanced_among, is_new_balancer, loads, weight_sum, weights_of, Balancer,
};
use crate::cluster::pool::{released, warm_step, PoolAction, WarmEvent};
use crate::collections::StringMap;
use crate::config::types::{ClusterConfig, LoadBalancer as LbType};
use crate::time::Instant;
use vstd::prelude::*;

verus! {

/// What holds of the endpoints of a cluster.
pub open spec fn endpoint_views(endpoints: Seq<Endpoint>) -> Seq<EndpointView> {
    endpoints.map_values(|e: Endpoint| e@)
}

/// Positions of the endpoints in full health, in order.
pub open spec fn healthy_positions(endpoints: Seq<EndpointView>) -> Seq<usize>
    decreases endpoints.len(),
{
    if endpoints.len() == 0 {
        seq![]
    } else {
        let front = healthy_positions(endpoints.drop_last());
        if in_health(endpoints.last()) {
            front.push((endpoints.len() - 1) as usize)
        } else {
            front
        }
    }
}

/// Positions of the endpoints that take connections, in order, with a moment
/// for each endpoint.
pub open spec fn open_positions(endpoints: Seq<EndpointView>, at: Seq<Instant>) -> Seq<usize>
    decreases endpoints.len(),
{
    if endpoints.len() == 0 {
        seq![]
    } else {
        let front = open_positions(endpoints.drop_last(), at);
        if takes_connections(endpoints.last(), at[endpoints.len() - 1]) {
            front.push((endpoints.len() - 1) as usize)
        } else {
            front
        }
    }
}

/// Connections in use of all endpoints.
pub open spec fn total_active(endpoints: Seq<EndpointView>) -> nat
    decreases endpoints.len(),
{
    if endpoints.len() == 0 {
        0
    } else {
        total_active(endpoints.drop_last()) + endpoints.last().active
    }
}

/// Connections in use at some positions.
pub open spec fn active_at(endpoints: Seq<EndpointView>, positions: Seq<usize>) -> Seq<nat> {
    positions.map_values(|p: usize| endpoints[p as int].active)
}

/// A cluster's balancer picks one of the endpoints that take connections, or
/// none.
pub open spec fn endpoint_picked(
    endpoints: Seq<EndpointView>,
    at: Seq<Instant>,
    before: Balancer,
    after: Balancer,
    rank: Option<usize>,
    picked: Option<usize>,
) -> bool {
    let positions = open_positions(endpoints, at);
    if positions.len() == 0 {
        picked is None && after == before
    } else {
        &&& balanced_among(before, after, active_at(endpoints, positions), positions, rank)
        &&& match rank {
            Some(k) => k < positions.len() && picked == Some(positions[k as int]),
            None => picked is None,
        }
    }
}

/// A cluster of upstream endpoints.
#[derive(Debug)]
pub struct Cluster {
    name: String,
    endpoints: Vec<Endpoint>,
    load_balancer: Balancer,
    is_mock: bool,
}

/// What holds of a cluster, apart from its balancer.
#[verifier::ext_equal]
pub struct ClusterView {
    /// Name.
    pub name: Seq<char>,
    /// Endpoints.
    pub endpoints: Seq<EndpointView>,
    /// Whether it is a mock.
    pub is_mock: bool,
}

impl View for Cluster {
    type V = ClusterView;

    closed spec fn view(&self) -> ClusterView {
        ClusterView {
            name: self.name@,
            endpoints: endpoint_views(self.endpoints@),
            is_mock: self.is_mock,
        }
    }
}

proof fn positions_in_range(endpoints: Seq<EndpointView>, at: Seq<Instant>)
    requires
        endpoints.len() <= usize::MAX,
    ensures
        ({
            let p = open_positions(endpoints, at);
            &&& p.len() <= endpoints.len()
            &&& forall|i: int|
                0 <= i < p.len() ==> (#[trigger] p[i]) < endpoints.len() && takes_connections(
                    endpoints[p[i] as int],
                    at[p[i] as int],
                )
        }),
    decreases endpoints.len(),
{
    if endpoints.len() > 0 {
        positions_in_range(endpoints.drop_last(), at);
    }
}

proof fn healthy_in_range(endpoints: Seq<EndpointView>)
    requires
        endpoints.len() <= usize::MAX,
    ensures
        ({
            let p = healthy_positions(endpoints);
            forall|i: int| 0 <= i < p.len() ==> (#[trigger] p[i]) < endpoints.len()
        }),
    decreases endpoints.len(),
{
    if endpoints.len() > 0 {
        let front = healthy_positions(endpoints.drop_last());
        healthy_in_range(endpoints.drop_last());
        let p = healthy_positions(endpoints);
        assert forall|i: int| 0 <= i < p.len() implies (#[trigger] p[i]) < endpoints.len() by {
            if i < front.len() {
                assert(p[i] == front[i]);
            }
        }
    }
}

impl Cluster {
    /// The balancer.
    pub closed spec fn balancer(&self) -> Balancer {
        self.load_balancer
    }

    /// Every endpoint is consistent.
    pub open spec fn well_formed(&self) -> bool {
        forall|i: int|
            0 <= i < self@.endpoints.len() ==> crate::cluster::endpoint::consistent(
                #[trigger] self@.endpoints[i],
            )
    }

    /// A cluster by its configuration.
    pub fn new(config: &ClusterConfig) -> (c: Self)
        requires
            weights_fit(*config),
        ensures
            is_new_cluster(c, *config),
    {
        let mut endpoints: Vec<Endpoint> = Vec::new();
        let mut i: usize = 0;
        while i < config.endpoints.len()
            invariant
                i <= config.endpoints.len(),
                endpoints@.len() == i,
                forall|j: int|
                    0 <= j < i ==> (#[trigger] endpoints@[j]).well_formed() && is_new_endpoint(
                        endpoints@[j]@,
                        config.name@,
                        j as nat,
                        config.endpoints@[j],
                        config.pool,
                        config.health_check,
                    ),
            decreases config.endpoints.len() - i,
        {
            endpoints.push(
                Endpoint::new(
                    config.name.as_str(),
                    i,
                    &config.endpoints[i],
                    &config.pool,
                    &config.health_check,
                ),
            );
            i += 1;
        }
        let load_balancer = Balancer::new(config.load_balancer, &config.endpoints);
        let c = Cluster {
            name: config.name.clone(),
            endpoints,
            load_balancer,
            is_mock: config.mock.is_some(),
        };
        assert forall|j: int| 0 <= j < c@.endpoints.len() implies is_new_endpoint(
            #[trigger] c@.endpoints[j],
            config.name@,
            j as nat,
            config.endpoints@[j],
            config.pool,
            config.health_check,
        ) && crate::cluster::endpoint::consistent(c@.endpoints[j]) by {
            assert(endpoints@[j].well_formed());
        }
        c
    }

    /// Name.
    pub fn name(&self) -> (s: &str)
        ensures
            s@ == self@.name,
    {
        self.name.as_str()
    }

    /// Number of endpoints.
    pub fn endpoint_count(&self) -> (n: usize)
        ensures
            n == self@.endpoints.len(),
    {
        self.endpoints.len()
    }

    /// Whether it is a mock.
    pub fn is_mock(&self) -> (b: bool)
        ensures
            b == self@.is_mock,
    {
        self.is_mock
    }

    /// The endpoints.
    pub fn endpoints(&self) -> (e: &Vec<Endpoint>)
        ensures
            endpoint_views(e@) == self@.endpoints,
    {
        &self.endpoints
    }

    /// Picks an endpoint that takes connections, with a moment for each
    /// endpoint.
    pub fn select_endpoint_at(&mut self, at: &Vec<Instant>) -> (picked: Option<usize>)
        requires
            at@.len() == old(self)@.endpoints.len(),
        ensures
            final(self)@ == old(self)@,
            exists|rank: Option<usize>| #[trigger]
                endpoint_picked(
                    old(self)@.endpoints,
                    at@,
                    old(self).balancer(),
                    final(self).balancer(),
                    rank,
                    picked,
                ),
            picked matches Some(p) ==> p < old(self)@.endpoints.len() && takes_connections(
                old(self)@.endpoints[p as int],
                at@[p as int],
            ),
    {
        let ghost views = self@.endpoints;
        let mut positions: Vec<usize> = Vec::new();
        let mut healthy: Vec<&Endpoint> = Vec::new();
        let mut i: usize = 0;
        while i < self.endpoints.len()
            invariant
                i <= self.endpoints.len(),
                views == endpoint_views(self.endpoints@),
                at@.len() == self.endpoints@.len(),
                positions@ == open_positions(views.take(i as int), at@),
                positions@.len() == healthy@.len(),
                positions@.len() <= i,
                forall|k: int|
                    0 <= k < positions@.len() ==> (#[trigger] positions@[k]) < i
                        && *healthy@[k] == self.endpoints@[positions@[k] as int],
            decreases self.endpoints.len() - i,
        {
            assert(views.take(i + 1).drop_last() == views.take(i as int));
            assert(views.take(i + 1).last() == self.endpoints@[i as int]@);
            if self.endpoints[i].takes_connections_at(&at[i]) {
                positions.push(i);
                healthy.push(&self.endpoints[i]);
            }
            i += 1;
        }
        assert(views.take(i as int) == views);
        proof {
            positions_in_range(views, at@);
            assert(loads(healthy@) =~= active_at(views, positions@));
        }
        if healthy.len() == 0 {
            assert(endpoint_picked(views, at@, self.balancer(), self.balancer(), None, None));
            return None;
        }
        let rank = self.load_balancer.select_among(&healthy, &positions);
        let picked = match rank {
            Some(k) => Some(positions[k]),
            None => None,
        };
        assert(endpoint_picked(views, at@, old(self).balancer(), self.balancer(), rank, picked));
        picked
    }

    /// Picks an endpoint that takes connections now.
    pub fn select_endpoint(&mut self) -> (picked: Option<usize>)
        ensures
            final(self)@ == old(self)@,
            exists|at: Seq<Instant>, rank: Option<usize>|
                at.len() == old(self)@.endpoints.len() && #[trigger] endpoint_picked(
                    old(self)@.endpoints,
                    at,
                    old(self).balancer(),
                    final(self).balancer(),
                    rank,
                    picked,
                ),
            picked matches Some(p) ==> p < old(self)@.endpoints.len(),
    {
        let mut at: Vec<Instant> = Vec::new();
        let mut i: usize = 0;
        while i < self.endpoints.len()
            invariant
                i <= self.endpoints.len(),
                at@.len() == i,
            decreases self.endpoints.len() - i,
        {
            at.push(self.endpoints[i].now());
            i += 1;
        }
        self.select_endpoint_at(&at)
    }

    /// Takes note of an event at an endpoint while a connection is asked for,
    /// and says what is to be done next.
    pub fn get_connection(&mut self, position: usize, event: EndpointEvent) -> (action: PoolAction)
        requires
            old(self).well_formed(),
            position < old(self)@.endpoints.len(),
        ensures
            final(self).well_formed(),
            final(self).balancer() == old(self).balancer(),
            exists|now: Instant|
                {
                    let (after, answer) = #[trigger] endpoint_step(
                        old(self)@.endpoints[position as int],
                        event,
                        now,
                    );
                    &&& answer == action
                    &&& final(self)@ == (ClusterView {
                        endpoints: old(self)@.endpoints.update(position as int, after),
                        ..old(self)@
                    })
                },
    {
        assert(self@.endpoints[position as int] == self.endpoints@[position as int]@);
        let endpoint = &mut self.endpoints[position];
        let action = endpoint.get_connection(event);
        assert(self@.endpoints =~= old(self)@.endpoints.update(
            position as int,
            self.endpoints@[position as int]@,
        ));
        action
    }

    /// Notes that a connection of an endpoint is no longer used, and whether
    /// it served its purpose.
    pub fn return_connection(&mut self, position: usize, success: bool)
        requires
            old(self).well_formed(),
            position < old(self)@.endpoints.len(),
        ensures
            final(self).well_formed(),
            final(self).balancer() == old(self).balancer(),
            exists|now: Instant|
                {
                    let after = #[trigger] crate::cluster::endpoint::connection_returned(
                        old(self)@.endpoints[position as int],
                        success,
                        now,
                    );
                    final(self)@ == (ClusterView {
                        endpoints: old(self)@.endpoints.update(position as int, after),
                        ..old(self)@
                    })
                },
    {
        assert(self@.endpoints[position as int] == self.endpoints@[position as int]@);
        let endpoint = &mut self.endpoints[position];
        endpoint.return_connection(success);
        assert(self@.endpoints =~= old(self)@.endpoints.update(
            position as int,
            self.endpoints@[position as int]@,
        ));
    }

    /// Gives the permit of a connection back to the pool of an endpoint.
    pub fn release(&mut self, position: usize)
        requires
            old(self).well_formed(),
            position < old(self)@.endpoints.len(),
        ensures
            final(self).well_formed(),
            final(self).balancer() == old(self).balancer(),
            final(self)@ == (ClusterView {
                endpoints: old(self)@.endpoints.update(
                    position as int,
                    EndpointView {
                        pool: released(old(self)@.endpoints[position as int].pool),
                        ..old(self)@.endpoints[position as int]
                    },
                ),
                ..old(self)@
            }),
    {
        assert(self@.endpoints[position as int] == self.endpoints@[position as int]@);
        let endpoint = &mut self.endpoints[position];
        endpoint.release();
        assert(self@.endpoints =~= old(self)@.endpoints.update(
            position as int,
            self.endpoints@[position as int]@,
        ));
    }

    /// Takes note of an event while the pool of an endpoint is warmed, and
    /// says whether to make one more connection.
    pub fn warm(&mut self, position: usize, event: WarmEvent) -> (connect: bool)
        requires
            old(self).well_formed(),
            position < old(self)@.endpoints.len(),
        ensures
            final(self).well_formed(),
            final(self).balancer() == old(self).balancer(),
            connect == warm_step(old(self)@.endpoints[position as int].pool, event).1,
            final(self)@ == (ClusterView {
                endpoints: old(self)@.endpoints.update(
                    position as int,
                    EndpointView {
                        pool: warm_step(old(self)@.endpoints[position as int].pool, event).0,
                        ..old(self)@.endpoints[position as int]
                    },
                ),
                ..old(self)@
            }),
    {
        assert(self@.endpoints[position as int] == self.endpoints@[position as int]@);
        let endpoint = &mut self.endpoints[position];
        let connect = endpoint.warm(event);
        assert(self@.endpoints =~= old(self)@.endpoints.update(
            position as int,
            self.endpoints@[position as int]@,
        ));
        connect
    }

    /// Takes note of a health check of an endpoint; the answer says whether
    /// its state changed.
    pub fn health_checked(&mut self, position: usize, result: &HealthState) -> (changed: bool)
        requires
            old(self).well_formed(),
            position < old(self)@.endpoints.len(),
        ensures
            final(self).well_formed(),
            final(self).balancer() == old(self).balancer(),
            final(self)@ == (ClusterView {
                endpoints: old(self)@.endpoints.update(
                    position as int,
                    health_checked(old(self)@.endpoints[position as int], *result is Healthy),
                ),
                ..old(self)@
            }),
            changed == (final(self)@.endpoints[position as int].state
                != old(self)@.endpoints[position as int].state),
    {
        assert(self@.endpoints[position as int] == self.endpoints@[position as int]@);
        let endpoint = &mut self.endpoints[position];
        let changed = endpoint.perform_health_check(result);
        assert(self@.endpoints =~= old(self)@.endpoints.update(
            position as int,
            self.endpoints@[position as int]@,
        ));
        changed
    }

    /// Number of endpoints in full health.
    pub fn healthy_count(&self) -> (n: usize)
        ensures
            n == healthy_positions(self@.endpoints).len(),
    {
        let ghost views = self@.endpoints;
        let mut n: usize = 0;
        let mut i: usize = 0;
        while i < self.endpoints.len()
            invariant
                i <= self.endpoints.len(),
                n <= i,
                views == endpoint_views(self.endpoints@),
                n == healthy_positions(views.take(i as int)).len(),
            decreases self.endpoints.len() - i,
        {
            assert(views.take(i + 1).drop_last() == views.take(i as int));
            assert(views.take(i + 1).last() == self.endpoints@[i as int]@);
            if self.endpoints[i].is_healthy() {
                n += 1;
            }
            i += 1;
        }
        assert(views.take(i as int) == views);
        n
    }

    /// Connections in use of all endpoints.
    pub fn active_connections(&self) -> (n: usize)
        requires
            total_active(self@.endpoints) <= usize::MAX,
        ensures
            n == total_active(self@.endpoints),
    {
        let ghost views = self@.endpoints;
        let mut n: usize = 0;
        let mut i: usize = 0;
        while i < self.endpoints.len()
            invariant
                i <= self.endpoints.len(),
                views == endpoint_views(self.endpoints@),
                total_active(views) <= usize::MAX,
                n == total_active(views.take(i as int)),
            decreases self.endpoints.len() - i,
        {
            assert(views.take(i + 1).drop_last() == views.take(i as int));
            assert(views.take(i + 1).last() == self.endpoints@[i as int]@);
            proof {
                total_grows(views, i + 1);
            }
            n = n + self.endpoints[i].active_connections();
            i += 1;
        }
        assert(views.take(i as int) == views);
        n
    }
}

proof fn total_grows(endpoints: Seq<EndpointView>, n: int)
    requires
        0 <= n <= endpoints.len(),
    ensures
        total_active(endpoints.take(n)) <= total_active(endpoints),
    decreases endpoints.len(),
{
    if n < endpoints.len() {
        total_grows(endpoints.drop_last(), n);
        assert(endpoints.drop_last().take(n) == endpoints.take(n));
    } else {
        assert(endpoints.take(n) == endpoints);
    }
}

/// An endpoint is among the positions of the healthy ones exactly if it is in
/// full health.
pub proof fn healthy_positions_are_complete(endpoints: Seq<EndpointView>, i: int)
    requires
        endpoints.len() <= usize::MAX,
        0 <= i < endpoints.len(),
    ensures
        healthy_positions(endpoints).contains(i as usize) <==> in_health(endpoints[i]),
    decreases endpoints.len(),
{
    let front = endpoints.drop_last();
    let positions = healthy_positions(front);
    let n = (endpoints.len() - 1) as usize;
    healthy_in_range(front);
    if i < front.len() {
        healthy_positions_are_complete(front, i);
        if in_health(endpoints.last()) {
            let more = positions.push(n);
            if positions.contains(i as usize) {
                assert(more[positions.index_of(i as usize)] == i as usize);
            }
            if more.contains(i as usize) {
                assert(positions[more.index_of(i as usize)] == i as usize);
            }
        }
    } else if in_health(endpoints.last()) {
        assert(positions.push(n)[positions.len() as int] == i as usize);
    }
}

/// An endpoint is among the positions that can be picked exactly if it takes
/// connections at its moment.
pub proof fn open_positions_are_complete(
    endpoints: Seq<EndpointView>,
    at: Seq<Instant>,
    i: int,
)
    requires
        endpoints.len() <= usize::MAX,
        0 <= i < endpoints.len(),
    ensures
        open_positions(endpoints, at).contains(i as usize) <==> takes_connections(
            endpoints[i],
            at[i],
        ),
    decreases endpoints.len(),
{
    let front = endpoints.drop_last();
    let positions = open_positions(front, at);
    let n = (endpoints.len() - 1) as usize;
    positions_in_range(front, at);
    if i < front.len() {
        open_positions_are_complete(front, at, i);
        if takes_connections(endpoints.last(), at[endpoints.len() - 1]) {
            let more = positions.push(n);
            if positions.contains(i as usize) {
                assert(more[positions.index_of(i as usize)] == i as usize);
            }
            if more.contains(i as usize) {
                assert(positions[more.index_of(i as usize)] == i as usize);
            }
        }
    } else if takes_connections(endpoints.last(), at[endpoints.len() - 1]) {
        assert(positions.push(n)[positions.len() as int] == i as usize);
    }
}

/// All clusters by name.
#[derive(Debug)]
pub struct Clusters {
    index: StringMap<usize>,
    clusters: Vec<Cluster>,
}

/// Position of the last configuration with a name.
pub open spec fn last_named(configs: Seq<ClusterConfig>, name: Seq<char>) -> Option<int>
    decreases configs.len(),
{
    if configs.len() == 0 {
        None
    } else if configs.last().name@ == name {
        Some(configs.len() - 1)
    } else {
        last_named(configs.drop_last(), name)
    }
}

/// A cluster is as its configuration says.
pub open spec fn is_new_cluster(c: Cluster, config: ClusterConfig) -> bool {
    &&& c.well_formed()
    &&& c@.name == config.name@
    &&& c@.is_mock == (config.mock is Some)
    &&& c@.endpoints.len() == config.endpoints@.len()
    &&& forall|i: int|
        0 <= i < c@.endpoints.len() ==> is_new_endpoint(
            #[trigger] c@.endpoints[i],
            config.name@,
            i as nat,
            config.endpoints@[i],
            config.pool,
            config.health_check,
        )
    &&& is_new_balancer(c.balancer(), config.load_balancer, config.endpoints@)
}

/// The weights of a cluster that goes by weights can be added up.
pub open spec fn weights_fit(config: ClusterConfig) -> bool {
    config.load_balancer == LbType::Weighted ==> weight_sum(weights_of(config.endpoints@))
        <= u32::MAX
}

impl View for Clusters {
    type V = Map<Seq<char>, Cluster>;

    closed spec fn view(&self) -> Map<Seq<char>, Cluster> {
        Map::new(
            |k: Seq<char>| self.index@.dom().contains(k),
            |k: Seq<char>| self.clusters@[self.index@[k] as int],
        )
    }
}

impl Clusters {
    /// Every name leads to a cluster of its own.
    pub closed spec fn well_formed(&self) -> bool {
        &&& forall|k: Seq<char>|
            #![trigger self.index@[k]]
            self.index@.dom().contains(k) ==> self.index@[k] < self.clusters@.len()
        &&& forall|j: Seq<char>, k: Seq<char>|
            #![trigger self.index@[j], self.index@[k]]
            self.index@.dom().contains(j) && self.index@.dom().contains(k) && j != k
                ==> self.index@[j] != self.index@[k]
    }

    /// The clusters of some configurations. Of two with the same name the
    /// later one counts.
    pub fn new(configs: &Vec<ClusterConfig>) -> (c: Self)
        requires
            forall|i: int| 0 <= i < configs@.len() ==> weights_fit(#[trigger] configs@[i]),
        ensures
            c.well_formed(),
            forall|k: Seq<char>|
                #![trigger c@.dom().contains(k)]
                c@.dom().contains(k) <==> last_named(configs@, k) is Some,
            forall|k: Seq<char>|
                #![trigger c@[k]]
                last_named(configs@, k) matches Some(i) ==> is_new_cluster(c@[k], configs@[i]),
    {
        let mut index: StringMap<usize> = StringMap::new();
        let mut clusters: Vec<Cluster> = Vec::new();
        let mut i: usize = 0;
        while i < configs.len()
            invariant
                i <= configs.len(),
                clusters@.len() == i,
                forall|j: int| 0 <= j < configs@.len() ==> weights_fit(#[trigger] configs@[j]),
                forall|j: int| 0 <= j < i ==> is_new_cluster(#[trigger] clusters@[j], configs@[j]),
                forall|k: Seq<char>|
                    #![trigger index@.dom().contains(k)]
                    index@.dom().contains(k) <==> last_named(configs@.take(i as int), k) is Some,
                forall|k: Seq<char>|
                    #![trigger index@[k]]
                    index@.dom().contains(k) ==> {
                        &&& index@[k] < i
                        &&& last_named(configs@.take(i as int), k) == Some(index@[k] as int)
                        &&& configs@[index@[k] as int].name@ == k
                    },
            decreases configs.len() - i,
        {
            let ghost before = index@;
            assert(configs@.take(i + 1).drop_last() == configs@.take(i as int));
            assert(configs@.take(i + 1).last() == configs@[i as int]);
            assert(weights_fit(configs@[i as int]));
            clusters.push(Cluster::new(&configs[i]));
            index.insert(configs[i].name.clone(), i);
            assert forall|k: Seq<char>|
                #![trigger index@[k]]
                index@.dom().contains(k) implies {
                &&& index@[k] < i + 1
                &&& last_named(configs@.take(i + 1), k) == Some(index@[k] as int)
                &&& configs@[index@[k] as int].name@ == k
            } by {
                if k != configs@[i as int].name@ {
                    assert(before.dom().contains(k));
                    assert(before[k] == index@[k]);
                }
            }
            i += 1;
        }
        assert(configs@.take(i as int) == configs@);
        let c = Clusters { index, clusters };
        assert forall|k: Seq<char>|
            #![trigger c@[k]]
            last_named(configs@, k) is Some implies is_new_cluster(
            c@[k],
            configs@[last_named(configs@, k)->0],
        ) by {
            assert(index@.dom().contains(k));
            assert(index@[k] < clusters@.len());
        }
        c
    }

    /// A cluster by name.
    pub fn get(&self, name: &str) -> (c: Option<&Cluster>)
        requires
            self.well_formed(),
        ensures
            match c {
                Some(c) => self@.dom().contains(name@) && *c == self@[name@],
                None => !self@.dom().contains(name@),
            },
    {
        match self.index.get(name) {
            Some(i) => Some(&self.clusters[*i]),
            None => None,
        }
    }

    /// A cluster by name, for a change.
    pub fn get_mut(&mut self, name: &str) -> (c: Option<&mut Cluster>)
        requires
            old(self).well_formed(),
        ensures
            final(self).well_formed(),
            match c {
                Some(c) => {
                    &&& old(self)@.dom().contains(name@)
                    &&& *c == old(self)@[name@]
                    &&& final(self)@ == old(self)@.insert(name@, *final(c))
                },
                None => !old(self)@.dom().contains(name@) && final(self)@ == old(self)@,
            },
    {
        match self.index.get(name) {
            Some(i) => {
                let position: usize = *i;
                Some(&mut self.clusters[position])
            },
            None => None,
        }
    }

    /// The names.
    pub fn names(&self) -> (names: Vec<&str>)
        ensures
            names@.map_values(|n: &str| n@).to_set() == self@.dom(),
            names@.map_values(|n: &str| n@).no_duplicates(),
    {
        let names = self.index.names();
        assert(self@.dom() =~= self.index@.dom());
        names
    }

    /// Number of clusters.
    pub fn len(&self) -> (n: usize)
        ensures
            n == self@.dom().len(),
    {
        assert(self@.dom() =~= self.index@.dom());
        self.index.len()
    }

    /// Whether there is no cluster.
    pub fn is_empty(&self) -> (b: bool)
        ensures
            b == (self@.dom().len() == 0),
    {
        self.len() == 0
    }
}

} // verus!
