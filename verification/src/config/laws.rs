//! What a configuration must be, and what is said of one that is not.

use crate::collections::texts;
use crate::config::loader::{
    after_last, all_known, cluster_names, clusters_error, config_error, extension, extension_format,
    first_duplicate, first_unknown, listener_names, path_format, route_error, route_valid,
    routes_error, split_clusters, trimmed_path, valid_exactly_when, validation_message, Format,
    ValidationErrorView,
};
use crate::config::types::{store_defaults, ClusterConfig, Config, RouteConfig, StorageBackend};
use crate::config::store::{check_storable, config_error_message, ConfigError, MemoryConfigStore};
use crate::config::watcher::{ConfigEvent, ConfigWatcher, FileEvent};
use crate::text::lowercase;
use crate::time::Duration;
use vstd::prelude::*;

verus! {

/// The first name that comes a second time is one that stands earlier in the
/// list, and before it no name does.
pub proof fn the_first_name_that_comes_again(names: Seq<Seq<char>>)
    ensures
        first_duplicate(names) matches Some(d) ==> exists|i: int, j: int|
            0 <= i < j < names.len() && #[trigger] names[i] == d && #[trigger] names[j] == d
                && forall|a: int, b: int| 0 <= a < b < j ==> names[a] != names[b],
        first_duplicate(names) is None <==> forall|i: int, j: int|
            0 <= i < j < names.len() ==> names[i] != names[j],
    decreases names.len(),
{
    if names.len() > 0 {
        let init = names.drop_last();
        the_first_name_that_comes_again(init);
        let n = names.len() - 1;
        if first_duplicate(init) is Some {
            let d = first_duplicate(init)->0;
            let (i, j) = choose|i: int, j: int|
                0 <= i < j < init.len() && #[trigger] init[i] == d && #[trigger] init[j] == d
                    && forall|a: int, b: int| 0 <= a < b < j ==> init[a] != init[b];
            assert(names[i] == d && names[j] == d);
            assert forall|a: int, b: int| 0 <= a < b < j implies names[a] != names[b] by {
                assert(init[a] != init[b]);
            }
        } else {
            assert forall|a: int, b: int| 0 <= a < b < n implies names[a] != names[b] by {
                assert(init[a] != init[b]);
            }
            if init.contains(names.last()) {
                let i = choose|i: int| 0 <= i < init.len() && init[i] == names.last();
                assert(names[i] == names[n]);
            } else {
                assert forall|i: int, j: int| 0 <= i < j < names.len() implies names[i]
                    != names[j] by {
                    if j == n {
                        assert(init.contains(init[i]));
                    }
                }
            }
        }
    }
}

/// The first name that is not known stands in the list, and before it every
/// name is known.
pub proof fn the_first_name_that_is_unknown(names: Seq<Seq<char>>, known: Set<Seq<char>>)
    ensures
        first_unknown(names, known) matches Some(u) ==> exists|i: int|
            0 <= i < names.len() && #[trigger] names[i] == u && !known.contains(u) && forall|a: int|
                0 <= a < i ==> known.contains(#[trigger] names[a]),
        first_unknown(names, known) is None <==> forall|i: int|
            0 <= i < names.len() ==> known.contains(#[trigger] names[i]),
    decreases names.len(),
{
    if names.len() > 0 {
        let init = names.drop_last();
        the_first_name_that_is_unknown(init, known);
        let n = names.len() - 1;
        if first_unknown(init, known) is Some {
            let u = first_unknown(init, known)->0;
            let i = choose|i: int|
                0 <= i < init.len() && #[trigger] init[i] == u && !known.contains(u) && forall|
                    a: int,
                |
                    0 <= a < i ==> known.contains(#[trigger] init[a]);
            assert(names[i] == u);
            assert forall|a: int| 0 <= a < i implies known.contains(#[trigger] names[a]) by {
                assert(known.contains(init[a]));
            }
        } else {
            assert forall|a: int| 0 <= a < n implies known.contains(#[trigger] names[a]) by {
                assert(known.contains(init[a]));
            }
            assert(names[n] == names.last());
        }
    }
}

/// A configuration is taken exactly when it has a listener, no two of its
/// listeners and no two of its clusters have one name, each of its routes goes
/// either to one cluster or to several and names only clusters that there are,
/// and each of its clusters has an endpoint or is a mock.
pub proof fn configurations_are_taken(config: Config)
    ensures
        config_error(config) is None <==> ({
            &&& config.listeners@.len() > 0
            &&& forall|i: int, j: int|
                0 <= i < j < config.listeners@.len() ==> #[trigger] config.listeners@[i].name@
                    != #[trigger] config.listeners@[j].name@
            &&& forall|i: int, j: int|
                0 <= i < j < config.clusters@.len() ==> #[trigger] config.clusters@[i].name@
                    != #[trigger] config.clusters@[j].name@
            &&& forall|i: int| 0 <= i < config.routes@.len() ==> leads_somewhere(
                #[trigger] config.routes@[i],
                config.clusters@,
            )
            &&& forall|i: int|
                0 <= i < config.clusters@.len() ==> (#[trigger] config.clusters@[i]).endpoints@.len()
                    > 0 || config.clusters@[i].mock is Some
        }),
{
    valid_exactly_when(config);
    let ls = listener_names(config.listeners@);
    let cs = cluster_names(config.clusters@);
    the_first_name_that_comes_again(ls);
    the_first_name_that_comes_again(cs);
    assert(forall|i: int| 0 <= i < ls.len() ==> #[trigger] ls[i] == config.listeners@[i].name@);
    assert(forall|i: int| 0 <= i < cs.len() ==> #[trigger] cs[i] == config.clusters@[i].name@);
    if first_duplicate(ls) is None {
        assert forall|i: int, j: int| 0 <= i < j < config.listeners@.len() implies
            #[trigger] config.listeners@[i].name@ != #[trigger] config.listeners@[j].name@ by {
            assert(ls[i] != ls[j]);
        }
    }
    if first_duplicate(cs) is None {
        assert forall|i: int, j: int| 0 <= i < j < config.clusters@.len() implies
            #[trigger] config.clusters@[i].name@ != #[trigger] config.clusters@[j].name@ by {
            assert(cs[i] != cs[j]);
        }
    }
    assert forall|i: int| 0 <= i < config.routes@.len() implies (route_valid(
        #[trigger] config.routes@[i],
        cs.to_set(),
    ) <==> leads_somewhere(config.routes@[i], config.clusters@)) by {
        routes_lead_somewhere(config.routes@[i], config.clusters@);
    }
}

/// There is a cluster of a name.
pub open spec fn there_is(clusters: Seq<ClusterConfig>, name: Seq<char>) -> bool {
    exists|i: int| 0 <= i < clusters.len() && #[trigger] clusters[i].name@ == name
}

/// A route goes either to one cluster or to several, and there are all the
/// clusters that it names.
pub open spec fn leads_somewhere(route: RouteConfig, clusters: Seq<ClusterConfig>) -> bool {
    &&& route.cluster is None || route.split is None
    &&& route.cluster is Some || route.split is Some
    &&& route.cluster matches Some(c) ==> there_is(clusters, c@)
    &&& route.split matches Some(s) ==> forall|k: int|
        0 <= k < s@.len() ==> there_is(clusters, (#[trigger] s@[k]).cluster@)
    &&& route.fallback matches Some(f) ==> forall|k: int|
        0 <= k < f@.len() ==> there_is(clusters, (#[trigger] f@[k])@)
}

proof fn names_of_clusters(clusters: Seq<ClusterConfig>, name: Seq<char>)
    ensures
        cluster_names(clusters).to_set().contains(name) <==> there_is(clusters, name),
{
    let cs = cluster_names(clusters);
    if cs.contains(name) {
        let i = choose|i: int| 0 <= i < cs.len() && cs[i] == name;
        assert(clusters[i].name@ == name);
    }
    if there_is(clusters, name) {
        let i = choose|i: int| 0 <= i < clusters.len() && #[trigger] clusters[i].name@ == name;
        assert(cs[i] == name);
    }
}

proof fn routes_lead_somewhere(route: RouteConfig, clusters: Seq<ClusterConfig>)
    ensures
        route_valid(route, cluster_names(clusters).to_set()) <==> leads_somewhere(route, clusters),
{
    let known = cluster_names(clusters).to_set();
    assert forall|n: Seq<char>| known.contains(n) <==> #[trigger] there_is(clusters, n) by {
        names_of_clusters(clusters, n);
    }
    if let Some(s) = route.split {
        let names = split_clusters(s@);
        assert(forall|k: int| 0 <= k < s@.len() ==> #[trigger] names[k] == s@[k].cluster@);
        if all_known(names, known) {
            assert forall|k: int| 0 <= k < s@.len() implies there_is(
                clusters,
                (#[trigger] s@[k]).cluster@,
            ) by {
                assert(known.contains(names[k]));
            }
        }
    }
    if let Some(f) = route.fallback {
        let names = texts(f@);
        assert(forall|k: int| 0 <= k < f@.len() ==> #[trigger] names[k] == f@[k]@);
        if all_known(names, known) {
            assert forall|k: int| 0 <= k < f@.len() implies there_is(
                clusters,
                (#[trigger] f@[k])@,
            ) by {
                assert(known.contains(names[k]));
            }
        }
    }
}

/// Without a listener nothing else is looked at; a listener's name that comes
/// again is named before a cluster's, a cluster's before a wrong route, and a
/// wrong route before an empty cluster.
pub proof fn faults_are_named_in_order(config: Config)
    ensures
        config_error(config) == Some(ValidationErrorView::NoListener)
            <==> config.listeners@.len() == 0,
        config_error(config) matches Some(ValidationErrorView::DuplicateListener(n))
            ==> first_duplicate(listener_names(config.listeners@)) == Some(n),
        config_error(config) matches Some(ValidationErrorView::DuplicateCluster(n))
            ==> first_duplicate(cluster_names(config.clusters@)) == Some(n) && first_duplicate(
            listener_names(config.listeners@),
        ) is None,
        first_duplicate(listener_names(config.listeners@)) is Some ==> config_error(
            config,
        ) matches Some(ValidationErrorView::DuplicateListener(_)),
        first_duplicate(listener_names(config.listeners@)) is None && first_duplicate(
            cluster_names(config.clusters@),
        ) is Some && config.listeners@.len() > 0 ==> config_error(config) matches Some(
            ValidationErrorView::DuplicateCluster(_),
        ),
        config_error(config) matches Some(ValidationErrorView::EmptyCluster(n)) ==> exists|i: int|
            0 <= i < config.clusters@.len() && (#[trigger] config.clusters@[i]).name@ == n
                && config.clusters@[i].endpoints@.len() == 0 && config.clusters@[i].mock is None
                && forall|j: int|
                0 <= j < i ==> (#[trigger] config.clusters@[j]).endpoints@.len() > 0
                    || config.clusters@[j].mock is Some,
        config_error(config) matches Some(ValidationErrorView::EmptyCluster(n)) ==> forall|i: int|
            0 <= i < config.routes@.len() ==> route_error(
                #[trigger] config.routes@[i],
                cluster_names(config.clusters@).to_set(),
            ) is None,
{
    routes_are_named(config.routes@, cluster_names(config.clusters@).to_set());
    empty_clusters_are_named(config.clusters@);
}

proof fn empty_clusters_are_named(clusters: Seq<ClusterConfig>)
    ensures
        clusters_error(clusters) matches Some(e) ==> exists|i: int|
            0 <= i < clusters.len() && e == ValidationErrorView::EmptyCluster(
                (#[trigger] clusters[i]).name@,
            ) && clusters[i].endpoints@.len() == 0 && clusters[i].mock is None && forall|j: int|
                0 <= j < i ==> (#[trigger] clusters[j]).endpoints@.len() > 0
                    || clusters[j].mock is Some,
        clusters_error(clusters) is None ==> forall|j: int|
            0 <= j < clusters.len() ==> (#[trigger] clusters[j]).endpoints@.len() > 0
                || clusters[j].mock is Some,
    decreases clusters.len(),
{
    if clusters.len() > 0 {
        let init = clusters.drop_last();
        empty_clusters_are_named(init);
        let n = clusters.len() - 1;
        if clusters_error(init) is Some {
            let e = clusters_error(init)->0;
            let i = choose|i: int|
                0 <= i < init.len() && e == ValidationErrorView::EmptyCluster(
                    (#[trigger] init[i]).name@,
                ) && init[i].endpoints@.len() == 0 && init[i].mock is None && forall|j: int|
                    0 <= j < i ==> (#[trigger] init[j]).endpoints@.len() > 0
                        || init[j].mock is Some;
            assert(clusters[i] == init[i]);
            assert forall|j: int| 0 <= j < i implies (#[trigger] clusters[j]).endpoints@.len() > 0
                || clusters[j].mock is Some by {
                assert(init[j] == clusters[j]);
            }
        } else {
            assert forall|j: int| 0 <= j < n implies (#[trigger] clusters[j]).endpoints@.len() > 0
                || clusters[j].mock is Some by {
                assert(init[j] == clusters[j]);
            }
            assert(clusters[n] == clusters.last());
        }
    }
}

/// Of wrong routes the first one is named.
pub proof fn routes_are_named(routes: Seq<RouteConfig>, known: Set<Seq<char>>)
    ensures
        routes_error(routes, known) matches Some(e) ==> exists|i: int|
            0 <= i < routes.len() && route_error(#[trigger] routes[i], known) == Some(e)
                && forall|j: int| 0 <= j < i ==> route_error(#[trigger] routes[j], known) is None,
        routes_error(routes, known) matches Some(e) ==> !(e is NoListener)
            && !(e is DuplicateListener) && !(e is DuplicateCluster) && !(e is EmptyCluster),
        routes_error(routes, known) is None ==> forall|j: int|
            0 <= j < routes.len() ==> route_error(#[trigger] routes[j], known) is None,
    decreases routes.len(),
{
    if routes.len() > 0 {
        let init = routes.drop_last();
        routes_are_named(init, known);
        let n = routes.len() - 1;
        if routes_error(init, known) is Some {
            let e = routes_error(init, known)->0;
            let i = choose|i: int|
                0 <= i < init.len() && route_error(#[trigger] init[i], known) == Some(e)
                    && forall|j: int| 0 <= j < i ==> route_error(#[trigger] init[j], known) is None;
            assert(routes[i] == init[i]);
            assert forall|j: int| 0 <= j < i implies route_error(
                #[trigger] routes[j],
                known,
            ) is None by {
                assert(init[j] == routes[j]);
            }
        } else {
            assert forall|j: int| 0 <= j < n implies route_error(
                #[trigger] routes[j],
                known,
            ) is None by {
                assert(init[j] == routes[j]);
            }
            assert(routes[n] == routes.last());
        }
    }
}

/// A fault of a route names the route and, where it is about a cluster, one
/// that the route names and that is not there: as its target, in its split or
/// to fall back to.
pub proof fn faults_of_routes_name_them(route: RouteConfig, known: Set<Seq<char>>)
    ensures
        match route_error(route, known) {
            Some(ValidationErrorView::UnknownCluster(r, c)) => {
                &&& r == route.name@
                &&& route.cluster matches Some(x)
                &&& x@ == c
                &&& !known.contains(c)
            },
            Some(ValidationErrorView::UnknownSplitCluster(r, c)) => {
                &&& r == route.name@
                &&& !known.contains(c)
                &&& route.split matches Some(s)
                &&& exists|k: int| 0 <= k < s@.len() && (#[trigger] s@[k]).cluster@ == c
            },
            Some(ValidationErrorView::UnknownFallbackCluster(r, c)) => {
                &&& r == route.name@
                &&& !known.contains(c)
                &&& route.fallback matches Some(f)
                &&& exists|k: int| 0 <= k < f@.len() && (#[trigger] f@[k])@ == c
            },
            Some(ValidationErrorView::NoTarget(r)) => r == route.name@ && route.cluster is None
                && route.split is None,
            Some(ValidationErrorView::TwoTargets(r)) => r == route.name@ && route.cluster is Some
                && route.split is Some,
            Some(_) => false,
            None => route.cluster is None <==> route.split is Some,
        },
        route.cluster matches Some(c) && !known.contains(c@) ==> route_error(
            route,
            known,
        ) matches Some(ValidationErrorView::UnknownCluster(_, _)),
{
    if let Some(s) = route.split {
        let names = split_clusters(s@);
        the_first_name_that_is_unknown(names, known);
        if first_unknown(names, known) is Some {
            let u = first_unknown(names, known)->0;
            let k = choose|i: int|
                0 <= i < names.len() && #[trigger] names[i] == u && !known.contains(u) && forall|
                    a: int,
                |
                    0 <= a < i ==> known.contains(#[trigger] names[a]);
            assert(s@[k].cluster@ == u);
        }
    }
    if let Some(f) = route.fallback {
        let names = texts(f@);
        the_first_name_that_is_unknown(names, known);
        if first_unknown(names, known) is Some {
            let u = first_unknown(names, known)->0;
            let k = choose|i: int|
                0 <= i < names.len() && #[trigger] names[i] == u && !known.contains(u) && forall|
                    a: int,
                |
                    0 <= a < i ==> known.contains(#[trigger] names[a]);
            assert(f@[k]@ == u);
        }
    }
}

/// What is said of a fault tells the names that it is about, and faults of
/// different routes and clusters are told apart.
pub proof fn faults_are_told(route: Seq<char>, name: Seq<char>, other: Seq<char>)
    ensures
        validation_message(ValidationErrorView::DuplicateListener(name))
            == "duplicate listener name: "@ + name,
        validation_message(ValidationErrorView::DuplicateCluster(name))
            == "duplicate cluster name: "@ + name,
        validation_message(ValidationErrorView::UnknownCluster(route, name)) == "route '"@ + route
            + "' references unknown cluster: "@ + name,
        validation_message(ValidationErrorView::UnknownSplitCluster(route, name)) == "route '"@
            + route + "' references unknown cluster in split: "@ + name,
        validation_message(ValidationErrorView::UnknownFallbackCluster(route, name))
            == "route '"@ + route + "' references unknown fallback cluster: "@ + name,
        validation_message(ValidationErrorView::NoTarget(route)) == "route '"@ + route
            + "' must have either 'cluster' or 'split' target"@,
        validation_message(ValidationErrorView::TwoTargets(route)) == "route '"@ + route
            + "' cannot have both 'cluster' and 'split' targets"@,
        validation_message(ValidationErrorView::EmptyCluster(name)) == "cluster '"@ + name
            + "' must have at least one endpoint or mock configuration"@,
        validation_message(ValidationErrorView::NoListener)
            == "at least one listener must be defined"@,
{
}

/// What stands behind the last of a character holds none of it and ends the
/// text.
pub proof fn the_end_of_a_text(text: Seq<char>, head: Seq<char>, c: char)
    requires
        !text.contains(c),
    ensures
        after_last(text, c) == text,
        after_last(head.push(c) + text, c) == text,
    decreases text.len(),
{
    if text.len() == 0 {
        assert(text =~= Seq::empty());
        assert((head.push(c) + text).last() == c);
    } else {
        let front = text.drop_last();
        assert forall|x: char| front.contains(x) implies text.contains(x) by {
            let i = choose|i: int| 0 <= i < front.len() && front[i] == x;
            assert(text[i] == x);
        }
        the_end_of_a_text(front, head, c);
        assert(text.contains(text.last()));
        assert((head.push(c) + text).drop_last() =~= head.push(c) + front);
        assert((head.push(c) + text).last() == text.last());
        assert(front.push(text.last()) =~= text);
    }
}

/// The format of a file is told by what stands behind the last dot of its name,
/// in small letters or in capital ones, and by nothing before it.
pub proof fn formats_are_told_by_the_ending(dir: Seq<char>, stem: Seq<char>, ending: Seq<char>)
    requires
        !stem.contains('/'),
        !ending.contains('/'),
        !ending.contains('.'),
        stem.len() > 0,
        ending.len() > 0,
    ensures
        extension(dir.push('/') + (stem.push('.') + ending)) == Some(ending),
        extension(stem.push('.') + ending) == Some(ending),
        path_format(dir.push('/') + (stem.push('.') + ending)) == extension_format(
            lowercase(ending),
        ),
        extension_format(ending) == Some(Format::Yaml) <==> ending == "yaml"@ || ending == "yml"@,
        extension_format(ending) == Some(Format::Json) <==> ending == "json"@,
        extension_format(ending) == Some(Format::Toml) <==> ending == "toml"@,
{
    reveal_strlit("yaml");
    reveal_strlit("yml");
    reveal_strlit("json");
    reveal_strlit("toml");
    assert("json"@[0] == 'j' && "toml"@[0] == 't' && "yaml"@[0] == 'y' && "yml"@[0] == 'y');
    let name = stem.push('.') + ending;
    let path = dir.push('/') + name;
    assert forall|x: char| name.contains(x) implies x != '/' by {
        let i = choose|i: int| 0 <= i < name.len() && name[i] == x;
        if i < stem.len() {
            assert(stem.contains(stem[i]));
        } else if i > stem.len() {
            assert(ending.contains(ending[i - stem.len() - 1]));
        }
    }
    assert(ending.contains(ending.last()));
    assert(name.last() == ending.last() && path.last() == ending.last());
    assert(trimmed_path(path) == path);
    assert(trimmed_path(name) == name);
    the_end_of_a_text(name, dir, '/');
    the_end_of_a_text(ending, stem, '.');
    assert(name != seq!['.'] && name != seq!['.', '.']) by {
        assert(name.len() >= 3);
    }
}

/// The stores are set up alike but for the one that is used.
pub proof fn stores_are_set_up_alike(backend: StorageBackend)
    ensures
        store_defaults(backend).backend == backend,
        store_defaults(backend).memory.max_messages == 1_000_000,
        store_defaults(backend).memory.max_memory_mb == 512,
        store_defaults(backend).memory.prune_percent == 10,
        store_defaults(backend).fjall.path is None,
        store_defaults(backend).fjall.max_messages == 1_000_000,
        store_defaults(backend).fjall.block_cache_mb == 64,
        store_defaults(backend).fjall.write_buffer_mb == 32,
        !store_defaults(backend).fjall.fsync,
        store_defaults(backend).fjall.compression,
{
}

/// A store takes a configuration exactly when nothing is wrong with it, and
/// says otherwise what is.
pub proof fn stores_take_what_is_right(config: Config, r: Result<(), ConfigError>)
    requires
        call_ensures(check_storable, (&config,), r),
    ensures
        r is Ok <==> config_error(config) is None,
        r matches Err(e) ==> e is ValidationFailed && config_error_message(e)
            == "validation failed: "@ + validation_message(config_error(config)->0),
{
}

/// An error of a store says what failed and why.
pub proof fn errors_of_stores_are_told(m: String)
    ensures
        config_error_message(ConfigError::LoadFailed(m)) == "failed to load config: "@ + m@,
        config_error_message(ConfigError::SaveFailed(m)) == "failed to save config: "@ + m@,
        config_error_message(ConfigError::ValidationFailed(m)) == "validation failed: "@ + m@,
        config_error_message(ConfigError::Io(m)) == "I/O error: "@ + m@,
        config_error_message(ConfigError::Serialization(m)) == "serialization error: "@ + m@,
        config_error_message(ConfigError::Backend(m)) == "backend error: "@ + m@,
{
}

/// A file is read again only after its contents may have changed, and not
/// before the watcher has waited.
pub proof fn changed_files_are_read_again(
    w: ConfigWatcher,
    event: FileEvent,
    delay: Option<Duration>,
)
    requires
        call_ensures(ConfigWatcher::process_event, (&w, event), delay),
    ensures
        delay is Some <==> event is Modified,
        delay matches Some(d) ==> d@ == w.delay(),
{
}

/// A store in memory keeps a configuration that is right, and stays as it was
/// otherwise.
pub proof fn wrong_configurations_are_not_stored(
    store: &mut MemoryConfigStore,
    config: Config,
    r: Result<(), ConfigError>,
)
    requires
        call_ensures(MemoryConfigStore::update, (store, config), r),
    ensures
        config_error(config) is None ==> r is Ok && final(store).stored() == config,
        config_error(config) is Some ==> r is Err && final(store).stored() == old(store).stored(),
{
}

/// A watcher holds the configuration that was loaded last; one that could not
/// be loaded changes nothing, and what went wrong is told.
pub proof fn failed_loads_are_told(
    w: &mut ConfigWatcher,
    result: Result<Config, String>,
    event: ConfigEvent,
)
    requires
        call_ensures(ConfigWatcher::loaded, (w, result), event),
    ensures
        final(w).location() == old(w).location() && final(w).delay() == old(w).delay(),
        result matches Ok(config) ==> *final(w).held() == config && event is Reloaded && *event
            ->Reloaded_0 == config,
        result matches Err(e) ==> final(w).held() == old(w).held() && event is ReloadFailed
            && event->ReloadFailed_0@ == e@,
{
}

} // verus!
