//! Configuration formats and checks.

use super::types::{ClusterConfig, Config, ListenerConfig, RouteConfig, TrafficSplit};
use crate::collections::{distinct_texts, texts, StringSet};
use crate::text::{from_chars, lowercase, same, to_chars, to_lowercase};
use vstd::prelude::*;

verus! {

/// Formats of configuration files.
#[derive(Debug, Clone, Copy, PartialEq, Eq, Structural)]
pub enum Format {
    Yaml,
    Json,
    Toml,
}

/// A path without the slashes, and slashes with a dot, that end it.
pub open spec fn trimmed_path(path: Seq<char>) -> Seq<char>
    decreases path.len(),
{
    if path.len() > 0 && path.last() == '/' {
        trimmed_path(path.drop_last())
    } else if path.len() > 1 && path.last() == '.' && path[path.len() - 2] == '/' {
        trimmed_path(path.drop_last())
    } else {
        path
    }
}

/// The part of a text behind the last occurrence of a character, or all of it.
pub open spec fn after_last(text: Seq<char>, c: char) -> Seq<char>
    decreases text.len(),
{
    if text.len() == 0 || text.last() == c {
        Seq::empty()
    } else {
        after_last(text.drop_last(), c).push(text.last())
    }
}

/// The file name that ends a path; nothing for one that ends in a directory
/// of no name of its own.
pub open spec fn file_name(path: Seq<char>) -> Option<Seq<char>> {
    let name = after_last(trimmed_path(path), '/');
    if name.len() == 0 || name == seq!['.'] || name == seq!['.', '.'] {
        None
    } else {
        Some(name)
    }
}

/// The extension of a path: what stands behind the last dot of the file name,
/// unless that dot begins the name.
pub open spec fn extension(path: Seq<char>) -> Option<Seq<char>> {
    match file_name(path) {
        None => None,
        Some(name) => {
            let ext = after_last(name, '.');
            if ext.len() + 1 < name.len() {
                Some(ext)
            } else {
                None
            }
        },
    }
}

/// The format that an extension in lower case stands for.
pub open spec fn extension_format(ext: Seq<char>) -> Option<Format> {
    if ext == "yaml"@ || ext == "yml"@ {
        Some(Format::Yaml)
    } else if ext == "json"@ {
        Some(Format::Json)
    } else if ext == "toml"@ {
        Some(Format::Toml)
    } else {
        None
    }
}

/// The format of a path: that of its extension in lower case.
pub open spec fn path_format(path: Seq<char>) -> Option<Format> {
    match extension(path) {
        Some(ext) => extension_format(lowercase(ext)),
        None => None,
    }
}

fn tail_after(text: &Vec<char>, to: usize, c: char) -> (from: usize)
    requires
        to <= text.len(),
    ensures
        from <= to,
        text@.subrange(from as int, to as int) == after_last(text@.take(to as int), c),
{
    let mut from: usize = to;
    let ghost whole = text@.take(to as int);
    assert(text@.subrange(to as int, to as int) == Seq::<char>::empty());
    assert(after_last(text@.take(from as int), c) + text@.subrange(from as int, to as int)
        == after_last(whole, c));
    while from > 0 && text[from - 1] != c
        invariant
            from <= to <= text.len(),
            whole == text@.take(to as int),
            after_last(text@.take(from as int), c) + text@.subrange(from as int, to as int)
                == after_last(whole, c),
        decreases from,
    {
        let ghost here = text@.take(from as int);
        assert(here.drop_last() == text@.take(from - 1));
        assert(after_last(here.drop_last(), c).push(here.last()) + text@.subrange(
            from as int,
            to as int,
        ) == after_last(here.drop_last(), c) + text@.subrange(from - 1, to as int));
        from -= 1;
    }
    assert(after_last(text@.take(from as int), c) == Seq::<char>::empty());
    assert(Seq::<char>::empty() + text@.subrange(from as int, to as int) == text@.subrange(
        from as int,
        to as int,
    ));
    from
}

/// The extension of a path.
pub fn extension_of(path: &str) -> (ext: Option<String>)
    ensures
        match extension(path@) {
            Some(e) => ext matches Some(x) && x@ == e,
            None => ext is None,
        },
{
    let chars = to_chars(path);
    let mut to: usize = chars.len();
    assert(chars@.take(to as int) == path@);
    while to > 0 && (chars[to - 1] == '/' || (to > 1 && chars[to - 1] == '.' && chars[to - 2]
        == '/'))
        invariant
            to <= chars.len(),
            trimmed_path(chars@.take(to as int)) == trimmed_path(path@),
        decreases to,
    {
        assert(chars@.take(to as int).drop_last() == chars@.take(to - 1));
        to -= 1;
    }
    let ghost trimmed = trimmed_path(path@);
    assert(trimmed == chars@.take(to as int));
    let start: usize = tail_after(&chars, to, '/');
    let ghost name = chars@.subrange(start as int, to as int);
    let len: usize = to - start;
    if len == 0 {
        return None;
    }
    if len == 1 && chars[start] == '.' {
        assert(name == seq!['.']);
        return None;
    }
    if len == 2 && chars[start] == '.' && chars[start + 1] == '.' {
        assert(name == seq!['.', '.']);
        return None;
    }
    assert(name[0] == chars@[start as int]);
    assert(len > 1 ==> name[1] == chars@[start + 1]);
    assert(seq!['.'][0] == '.');
    assert(seq!['.', '.'][0] == '.' && seq!['.', '.'][1] == '.');
    assert(after_last(trimmed, '/') == name);
    assert(name.len() == len);
    assert(name != seq!['.']);
    assert(name != seq!['.', '.']);
    assert(file_name(path@) == Some(name));
    let mut part: Vec<char> = Vec::new();
    let mut i: usize = start;
    while i < to
        invariant
            start <= i <= to <= chars.len(),
            part@ == chars@.subrange(start as int, i as int),
        decreases to - i,
    {
        part.push(chars[i]);
        i += 1;
    }
    assert(part@ == name);
    assert(part@.take(part@.len() as int) == name);
    let dot: usize = tail_after(&part, part.len(), '.');
    let ghost ext = after_last(name, '.');
    assert(ext.len() == part@.len() - dot);
    if dot < 2 {
        return None;
    }
    let mut tail: Vec<char> = Vec::new();
    let mut j: usize = dot;
    while j < part.len()
        invariant
            dot <= j <= part.len(),
            tail@ == part@.subrange(dot as int, j as int),
        decreases part.len() - j,
    {
        tail.push(part[j]);
        j += 1;
    }
    Some(from_chars(&tail))
}

impl Format {
    /// The format that an extension in lower case stands for.
    pub fn from_extension(ext: &str) -> (f: Option<Format>)
        ensures
            f == extension_format(ext@),
    {
        if same(ext, "yaml") || same(ext, "yml") {
            Some(Format::Yaml)
        } else if same(ext, "json") {
            Some(Format::Json)
        } else if same(ext, "toml") {
            Some(Format::Toml)
        } else {
            None
        }
    }

    /// The format of a path, by its extension in any case.
    pub fn from_path(path: &str) -> (f: Option<Format>)
        ensures
            f == path_format(path@),
    {
        match extension_of(path) {
            Some(ext) => {
                let lower = to_lowercase(ext.as_str());
                Format::from_extension(lower.as_str())
            },
            None => None,
        }
    }
}

/// What can be wrong with a configuration.
#[derive(Debug)]
pub enum ValidationError {
    /// There is no listener.
    NoListener,
    /// Two listeners have one name.
    DuplicateListener { name: String },
    /// Two clusters have one name.
    DuplicateCluster { name: String },
    /// A route targets a cluster that is not there.
    UnknownCluster { route: String, cluster: String },
    /// A route splits traffic to a cluster that is not there.
    UnknownSplitCluster { route: String, cluster: String },
    /// A route falls back to a cluster that is not there.
    UnknownFallbackCluster { route: String, cluster: String },
    /// A route has no target.
    NoTarget { route: String },
    /// A route has a target and a split.
    TwoTargets { route: String },
    /// A cluster has neither endpoints nor a mock.
    EmptyCluster { name: String },
}

/// What an error says.
#[verifier::ext_equal]
pub enum ValidationErrorView {
    NoListener,
    DuplicateListener(Seq<char>),
    DuplicateCluster(Seq<char>),
    UnknownCluster(Seq<char>, Seq<char>),
    UnknownSplitCluster(Seq<char>, Seq<char>),
    UnknownFallbackCluster(Seq<char>, Seq<char>),
    NoTarget(Seq<char>),
    TwoTargets(Seq<char>),
    EmptyCluster(Seq<char>),
}

impl View for ValidationError {
    type V = ValidationErrorView;

    open spec fn view(&self) -> ValidationErrorView {
        match self {
            ValidationError::NoListener => ValidationErrorView::NoListener,
            ValidationError::DuplicateListener { name } => ValidationErrorView::DuplicateListener(
                name@,
            ),
            ValidationError::DuplicateCluster { name } => ValidationErrorView::DuplicateCluster(
                name@,
            ),
            ValidationError::UnknownCluster { route, cluster } => {
                ValidationErrorView::UnknownCluster(route@, cluster@)
            },
            ValidationError::UnknownSplitCluster { route, cluster } => {
                ValidationErrorView::UnknownSplitCluster(route@, cluster@)
            },
            ValidationError::UnknownFallbackCluster { route, cluster } => {
                ValidationErrorView::UnknownFallbackCluster(route@, cluster@)
            },
            ValidationError::NoTarget { route } => ValidationErrorView::NoTarget(route@),
            ValidationError::TwoTargets { route } => ValidationErrorView::TwoTargets(route@),
            ValidationError::EmptyCluster { name } => ValidationErrorView::EmptyCluster(name@),
        }
    }
}

/// The message of an error.
pub open spec fn validation_message(e: ValidationErrorView) -> Seq<char> {
    match e {
        ValidationErrorView::NoListener => "at least one listener must be defined"@,
        ValidationErrorView::DuplicateListener(name) => "duplicate listener name: "@ + name,
        ValidationErrorView::DuplicateCluster(name) => "duplicate cluster name: "@ + name,
        ValidationErrorView::UnknownCluster(route, cluster) => "route '"@ + route
            + "' references unknown cluster: "@ + cluster,
        ValidationErrorView::UnknownSplitCluster(route, cluster) => "route '"@ + route
            + "' references unknown cluster in split: "@ + cluster,
        ValidationErrorView::UnknownFallbackCluster(route, cluster) => "route '"@ + route
            + "' references unknown fallback cluster: "@ + cluster,
        ValidationErrorView::NoTarget(route) => "route '"@ + route
            + "' must have either 'cluster' or 'split' target"@,
        ValidationErrorView::TwoTargets(route) => "route '"@ + route
            + "' cannot have both 'cluster' and 'split' targets"@,
        ValidationErrorView::EmptyCluster(name) => "cluster '"@ + name
            + "' must have at least one endpoint or mock configuration"@,
    }
}

fn joined(a: &str, b: &str, c: &str, d: &str) -> (s: String)
    ensures
        s@ == a@ + b@ + c@ + d@,
{
    let mut s = a.to_owned();
    s.append(b);
    s.append(c);
    s.append(d);
    s
}

impl ValidationError {
    /// The message of the error.
    pub fn to_string(&self) -> (s: String)
        ensures
            s@ == validation_message(self@),
    {
        proof {
            reveal_strlit("");
        }
        let s = match self {
            ValidationError::NoListener => "at least one listener must be defined".to_owned(),
            ValidationError::DuplicateListener { name } => joined(
                "duplicate listener name: ",
                name.as_str(),
                "",
                "",
            ),
            ValidationError::DuplicateCluster { name } => joined(
                "duplicate cluster name: ",
                name.as_str(),
                "",
                "",
            ),
            ValidationError::UnknownCluster { route, cluster } => joined(
                "route '",
                route.as_str(),
                "' references unknown cluster: ",
                cluster.as_str(),
            ),
            ValidationError::UnknownSplitCluster { route, cluster } => joined(
                "route '",
                route.as_str(),
                "' references unknown cluster in split: ",
                cluster.as_str(),
            ),
            ValidationError::UnknownFallbackCluster { route, cluster } => joined(
                "route '",
                route.as_str(),
                "' references unknown fallback cluster: ",
                cluster.as_str(),
            ),
            ValidationError::NoTarget { route } => joined(
                "route '",
                route.as_str(),
                "' must have either 'cluster' or 'split' target",
                "",
            ),
            ValidationError::TwoTargets { route } => joined(
                "route '",
                route.as_str(),
                "' cannot have both 'cluster' and 'split' targets",
                "",
            ),
            ValidationError::EmptyCluster { name } => joined(
                "cluster '",
                name.as_str(),
                "' must have at least one endpoint or mock configuration",
                "",
            ),
        };
        assert(s@ =~= validation_message(self@));
        s
    }
}

/// The names of listeners.
pub open spec fn listener_names(listeners: Seq<ListenerConfig>) -> Seq<Seq<char>> {
    listeners.map_values(|l: ListenerConfig| l.name@)
}

/// The names of clusters.
pub open spec fn cluster_names(clusters: Seq<ClusterConfig>) -> Seq<Seq<char>> {
    clusters.map_values(|c: ClusterConfig| c.name@)
}

/// The first name in a list that stands in it before.
pub open spec fn first_duplicate(names: Seq<Seq<char>>) -> Option<Seq<char>>
    decreases names.len(),
{
    if names.len() == 0 {
        None
    } else {
        match first_duplicate(names.drop_last()) {
            Some(d) => Some(d),
            None => if names.drop_last().contains(names.last()) {
                Some(names.last())
            } else {
                None
            },
        }
    }
}

/// The first name in a list that a set lacks.
pub open spec fn first_unknown(names: Seq<Seq<char>>, known: Set<Seq<char>>) -> Option<Seq<char>>
    decreases names.len(),
{
    if names.len() == 0 {
        None
    } else {
        match first_unknown(names.drop_last(), known) {
            Some(d) => Some(d),
            None => if known.contains(names.last()) {
                None
            } else {
                Some(names.last())
            },
        }
    }
}

/// The clusters that a split sends traffic to.
pub open spec fn split_clusters(splits: Seq<TrafficSplit>) -> Seq<Seq<char>> {
    splits.map_values(|s: TrafficSplit| s.cluster@)
}

/// What is wrong with a route, given the clusters that are there.
pub open spec fn route_error(route: RouteConfig, known: Set<Seq<char>>) -> Option<
    ValidationErrorView,
> {
    if route.cluster matches Some(c) && !known.contains(c@) {
        Some(ValidationErrorView::UnknownCluster(route.name@, route.cluster->0@))
    } else if route.split matches Some(s) && first_unknown(split_clusters(s@), known) is Some {
        Some(
            ValidationErrorView::UnknownSplitCluster(
                route.name@,
                first_unknown(split_clusters(route.split->0@), known)->0,
            ),
        )
    } else if route.fallback matches Some(f) && first_unknown(texts(f@), known) is Some {
        Some(
            ValidationErrorView::UnknownFallbackCluster(
                route.name@,
                first_unknown(texts(route.fallback->0@), known)->0,
            ),
        )
    } else if route.cluster is None && route.split is None {
        Some(ValidationErrorView::NoTarget(route.name@))
    } else if route.cluster is Some && route.split is Some {
        Some(ValidationErrorView::TwoTargets(route.name@))
    } else {
        None
    }
}

/// What is wrong with the first route that is wrong.
pub open spec fn routes_error(routes: Seq<RouteConfig>, known: Set<Seq<char>>) -> Option<
    ValidationErrorView,
>
    decreases routes.len(),
{
    if routes.len() == 0 {
        None
    } else {
        match routes_error(routes.drop_last(), known) {
            Some(e) => Some(e),
            None => route_error(routes.last(), known),
        }
    }
}

/// A cluster has neither endpoints nor a mock.
pub open spec fn cluster_empty(c: ClusterConfig) -> bool {
    c.endpoints@.len() == 0 && c.mock is None
}

/// What is wrong with the first cluster that is wrong.
pub open spec fn clusters_error(clusters: Seq<ClusterConfig>) -> Option<ValidationErrorView>
    decreases clusters.len(),
{
    if clusters.len() == 0 {
        None
    } else {
        match clusters_error(clusters.drop_last()) {
            Some(e) => Some(e),
            None => if cluster_empty(clusters.last()) {
                Some(ValidationErrorView::EmptyCluster(clusters.last().name@))
            } else {
                None
            },
        }
    }
}

/// What is wrong with a configuration: the first of the checks that fails, in
/// their order.
pub open spec fn config_error(config: Config) -> Option<ValidationErrorView> {
    if config.listeners@.len() == 0 {
        Some(ValidationErrorView::NoListener)
    } else if first_duplicate(listener_names(config.listeners@)) is Some {
        Some(
            ValidationErrorView::DuplicateListener(
                first_duplicate(listener_names(config.listeners@))->0,
            ),
        )
    } else if first_duplicate(cluster_names(config.clusters@)) is Some {
        Some(
            ValidationErrorView::DuplicateCluster(
                first_duplicate(cluster_names(config.clusters@))->0,
            ),
        )
    } else if routes_error(config.routes@, cluster_names(config.clusters@).to_set()) is Some {
        routes_error(config.routes@, cluster_names(config.clusters@).to_set())
    } else {
        clusters_error(config.clusters@)
    }
}

proof fn duplicate_stays(names: Seq<Seq<char>>, n: int)
    requires
        0 <= n <= names.len(),
        first_duplicate(names.take(n)) is Some,
    ensures
        first_duplicate(names) == first_duplicate(names.take(n)),
    decreases names.len() - n,
{
    if n < names.len() {
        assert(names.take(n + 1).drop_last() == names.take(n));
        duplicate_stays(names, n + 1);
    } else {
        assert(names.take(n) == names);
    }
}

proof fn unknown_stays(names: Seq<Seq<char>>, known: Set<Seq<char>>, n: int)
    requires
        0 <= n <= names.len(),
        first_unknown(names.take(n), known) is Some,
    ensures
        first_unknown(names, known) == first_unknown(names.take(n), known),
    decreases names.len() - n,
{
    if n < names.len() {
        assert(names.take(n + 1).drop_last() == names.take(n));
        unknown_stays(names, known, n + 1);
    } else {
        assert(names.take(n) == names);
    }
}

proof fn routes_error_stays(routes: Seq<RouteConfig>, known: Set<Seq<char>>, n: int)
    requires
        0 <= n <= routes.len(),
        routes_error(routes.take(n), known) is Some,
    ensures
        routes_error(routes, known) == routes_error(routes.take(n), known),
    decreases routes.len() - n,
{
    if n < routes.len() {
        assert(routes.take(n + 1).drop_last() == routes.take(n));
        routes_error_stays(routes, known, n + 1);
    } else {
        assert(routes.take(n) == routes);
    }
}

proof fn clusters_error_stays(clusters: Seq<ClusterConfig>, n: int)
    requires
        0 <= n <= clusters.len(),
        clusters_error(clusters.take(n)) is Some,
    ensures
        clusters_error(clusters) == clusters_error(clusters.take(n)),
    decreases clusters.len() - n,
{
    if n < clusters.len() {
        assert(clusters.take(n + 1).drop_last() == clusters.take(n));
        clusters_error_stays(clusters, n + 1);
    } else {
        assert(clusters.take(n) == clusters);
    }
}

proof fn to_set_push(s: Seq<Seq<char>>, x: Seq<char>)
    ensures
        s.push(x).to_set() == s.to_set().insert(x),
{
    assert forall|k: Seq<char>|
        s.push(x).to_set().contains(k) == #[trigger] s.to_set().insert(x).contains(k) by {
        if s.contains(k) {
            assert(s.push(x)[s.index_of(k)] == k);
        }
        assert(s.push(x)[s.len() as int] == x);
        if s.push(x).contains(k) {
            let j = s.push(x).index_of(k);
            if j < s.len() {
                assert(s[j] == k);
            }
        }
    }
    assert(s.push(x).to_set() =~= s.to_set().insert(x));
}

/// Checks one route.
pub fn validate_route(route: &RouteConfig, known: &StringSet) -> (r: Result<(), ValidationError>)
    ensures
        match route_error(*route, known@) {
            Some(e) => r matches Err(x) && x@ == e,
            None => r is Ok,
        },
{
    if let Some(cluster) = &route.cluster {
        if !known.contains(cluster.as_str()) {
            return Err(
                ValidationError::UnknownCluster {
                    route: route.name.clone(),
                    cluster: cluster.clone(),
                },
            );
        }
    }
    if let Some(splits) = &route.split {
        let ghost names = split_clusters(splits@);
        let mut i: usize = 0;
        while i < splits.len()
            invariant
                i <= splits.len(),
                names == split_clusters(splits@),
                route.split == Some(*splits),
                !(route.cluster matches Some(c) && !known@.contains(c@)),
                first_unknown(names.take(i as int), known@) is None,
            decreases splits.len() - i,
        {
            assert(names.take(i + 1).drop_last() == names.take(i as int));
            assert(names.take(i + 1).last() == splits@[i as int].cluster@);
            if !known.contains(splits[i].cluster.as_str()) {
                proof {
                    unknown_stays(names, known@, i + 1);
                }
                return Err(
                    ValidationError::UnknownSplitCluster {
                        route: route.name.clone(),
                        cluster: splits[i].cluster.clone(),
                    },
                );
            }
            i += 1;
        }
        assert(names.take(i as int) == names);
    }
    if let Some(fallbacks) = &route.fallback {
        let ghost names = texts(fallbacks@);
        let mut i: usize = 0;
        while i < fallbacks.len()
            invariant
                i <= fallbacks.len(),
                names == texts(fallbacks@),
                route.fallback == Some(*fallbacks),
                !(route.cluster matches Some(c) && !known@.contains(c@)),
                !(route.split matches Some(s) && first_unknown(
                    split_clusters(s@),
                    known@,
                ) is Some),
                first_unknown(names.take(i as int), known@) is None,
            decreases fallbacks.len() - i,
        {
            assert(names.take(i + 1).drop_last() == names.take(i as int));
            assert(names.take(i + 1).last() == fallbacks@[i as int]@);
            if !known.contains(fallbacks[i].as_str()) {
                proof {
                    unknown_stays(names, known@, i + 1);
                }
                return Err(
                    ValidationError::UnknownFallbackCluster {
                        route: route.name.clone(),
                        cluster: fallbacks[i].clone(),
                    },
                );
            }
            i += 1;
        }
        assert(names.take(i as int) == names);
    }
    if route.cluster.is_none() && route.split.is_none() {
        return Err(ValidationError::NoTarget { route: route.name.clone() });
    }
    if route.cluster.is_some() && route.split.is_some() {
        return Err(ValidationError::TwoTargets { route: route.name.clone() });
    }
    Ok(())
}

impl Config {
    /// Checks the configuration.
    pub fn validate(&self) -> (r: Result<(), ValidationError>)
        ensures
            match config_error(*self) {
                Some(e) => r matches Err(x) && x@ == e,
                None => r is Ok,
            },
    {
        if self.listeners.len() == 0 {
            return Err(ValidationError::NoListener);
        }
        let mut seen = StringSet::new();
        let ghost lnames = listener_names(self.listeners@);
        let mut i: usize = 0;
        assert(lnames.take(0).to_set() =~= Set::<Seq<char>>::empty());
        while i < self.listeners.len()
            invariant
                i <= self.listeners.len(),
                self.listeners@.len() > 0,
                lnames == listener_names(self.listeners@),
                seen@ == lnames.take(i as int).to_set(),
                first_duplicate(lnames.take(i as int)) is None,
            decreases self.listeners.len() - i,
        {
            let ghost next = lnames.take(i + 1);
            assert(next.drop_last() == lnames.take(i as int));
            assert(next.last() == self.listeners@[i as int].name@);
            proof {
                to_set_push(lnames.take(i as int), next.last());
                assert(lnames.take(i as int).push(next.last()) == next);
            }
            if !seen.insert(self.listeners[i].name.clone()) {
                proof {
                    duplicate_stays(lnames, i + 1);
                }
                return Err(
                    ValidationError::DuplicateListener { name: self.listeners[i].name.clone() },
                );
            }
            i += 1;
        }
        assert(lnames.take(i as int) == lnames);
        let mut known = StringSet::new();
        let ghost cnames = cluster_names(self.clusters@);
        let mut j: usize = 0;
        assert(cnames.take(0).to_set() =~= Set::<Seq<char>>::empty());
        while j < self.clusters.len()
            invariant
                j <= self.clusters.len(),
                self.listeners@.len() > 0,
                first_duplicate(listener_names(self.listeners@)) is None,
                cnames == cluster_names(self.clusters@),
                known@ == cnames.take(j as int).to_set(),
                first_duplicate(cnames.take(j as int)) is None,
            decreases self.clusters.len() - j,
        {
            let ghost next = cnames.take(j + 1);
            assert(next.drop_last() == cnames.take(j as int));
            assert(next.last() == self.clusters@[j as int].name@);
            proof {
                to_set_push(cnames.take(j as int), next.last());
                assert(cnames.take(j as int).push(next.last()) == next);
            }
            if !known.insert(self.clusters[j].name.clone()) {
                proof {
                    duplicate_stays(cnames, j + 1);
                }
                return Err(
                    ValidationError::DuplicateCluster { name: self.clusters[j].name.clone() },
                );
            }
            j += 1;
        }
        assert(cnames.take(j as int) == cnames);
        let mut k: usize = 0;
        while k < self.routes.len()
            invariant
                k <= self.routes.len(),
                self.listeners@.len() > 0,
                first_duplicate(listener_names(self.listeners@)) is None,
                first_duplicate(cluster_names(self.clusters@)) is None,
                known@ == cluster_names(self.clusters@).to_set(),
                routes_error(self.routes@.take(k as int), known@) is None,
            decreases self.routes.len() - k,
        {
            assert(self.routes@.take(k + 1).drop_last() == self.routes@.take(k as int));
            match validate_route(&self.routes[k], &known) {
                Ok(()) => {},
                Err(e) => {
                    proof {
                        routes_error_stays(self.routes@, known@, k + 1);
                    }
                    return Err(e);
                },
            }
            k += 1;
        }
        assert(self.routes@.take(k as int) == self.routes@);
        let mut n: usize = 0;
        while n < self.clusters.len()
            invariant
                n <= self.clusters.len(),
                self.listeners@.len() > 0,
                first_duplicate(listener_names(self.listeners@)) is None,
                first_duplicate(cluster_names(self.clusters@)) is None,
                routes_error(
                    self.routes@,
                    cluster_names(self.clusters@).to_set(),
                ) is None,
                clusters_error(self.clusters@.take(n as int)) is None,
            decreases self.clusters.len() - n,
        {
            assert(self.clusters@.take(n + 1).drop_last() == self.clusters@.take(n as int));
            if self.clusters[n].endpoints.len() == 0 && self.clusters[n].mock.is_none() {
                proof {
                    clusters_error_stays(self.clusters@, n + 1);
                }
                return Err(ValidationError::EmptyCluster { name: self.clusters[n].name.clone() });
            }
            n += 1;
        }
        assert(self.clusters@.take(n as int) == self.clusters@);
        Ok(())
    }
}

/// Every name of a list is in a set.
pub open spec fn all_known(names: Seq<Seq<char>>, known: Set<Seq<char>>) -> bool {
    forall|i: int| 0 <= i < names.len() ==> known.contains(#[trigger] names[i])
}

/// A route sends messages to clusters that are there, either to one or to a
/// split, and falls back to clusters that are there.
pub open spec fn route_valid(route: RouteConfig, known: Set<Seq<char>>) -> bool {
    &&& route.cluster is Some <==> route.split is None
    &&& route.cluster matches Some(c) ==> known.contains(c@)
    &&& route.split matches Some(s) ==> all_known(split_clusters(s@), known)
    &&& route.fallback matches Some(f) ==> all_known(texts(f@), known)
}

proof fn duplicate_exactly(names: Seq<Seq<char>>)
    ensures
        first_duplicate(names) is None <==> distinct_texts(names),
    decreases names.len(),
{
    if names.len() > 0 {
        let init = names.drop_last();
        duplicate_exactly(init);
        if first_duplicate(names) is None {
            assert forall|i: int, j: int| 0 <= i < j < names.len() implies names[i]
                != names[j] by {
                if j < init.len() {
                    assert(init[i] != init[j]);
                } else {
                    assert(init.contains(init[i]));
                }
            }
        }
        if distinct_texts(names) {
            assert forall|i: int, j: int| 0 <= i < j < init.len() implies init[i] != init[j] by {
                assert(names[i] != names[j]);
            }
            if init.contains(names.last()) {
                let i = init.index_of(names.last());
                assert(names[i] != names[names.len() - 1]);
            }
        }
    }
}

proof fn unknown_exactly(names: Seq<Seq<char>>, known: Set<Seq<char>>)
    ensures
        first_unknown(names, known) is None <==> all_known(names, known),
    decreases names.len(),
{
    if names.len() > 0 {
        let init = names.drop_last();
        unknown_exactly(init, known);
        if first_unknown(names, known) is None {
            assert forall|i: int| 0 <= i < names.len() implies known.contains(
                #[trigger] names[i],
            ) by {
                if i < init.len() {
                    assert(known.contains(init[i]));
                }
            }
        }
        if all_known(names, known) {
            assert forall|i: int| 0 <= i < init.len() implies known.contains(
                #[trigger] init[i],
            ) by {
                assert(known.contains(names[i]));
            }
            assert(known.contains(names[names.len() - 1]));
        }
    }
}

proof fn route_exactly(route: RouteConfig, known: Set<Seq<char>>)
    ensures
        route_error(route, known) is None <==> route_valid(route, known),
{
    if let Some(s) = route.split {
        unknown_exactly(split_clusters(s@), known);
    }
    if let Some(f) = route.fallback {
        unknown_exactly(texts(f@), known);
    }
}

proof fn routes_exactly(routes: Seq<RouteConfig>, known: Set<Seq<char>>)
    ensures
        routes_error(routes, known) is None <==> forall|i: int|
            0 <= i < routes.len() ==> route_valid(#[trigger] routes[i], known),
    decreases routes.len(),
{
    if routes.len() > 0 {
        let init = routes.drop_last();
        routes_exactly(init, known);
        route_exactly(routes.last(), known);
        if routes_error(routes, known) is None {
            assert forall|i: int| 0 <= i < routes.len() implies route_valid(
                #[trigger] routes[i],
                known,
            ) by {
                if i < init.len() {
                    assert(route_valid(init[i], known));
                }
            }
        }
        if forall|i: int| 0 <= i < routes.len() ==> route_valid(#[trigger] routes[i], known) {
            assert forall|i: int| 0 <= i < init.len() implies route_valid(
                #[trigger] init[i],
                known,
            ) by {
                assert(route_valid(routes[i], known));
            }
            assert(route_valid(routes[routes.len() - 1], known));
        }
    }
}

proof fn clusters_exactly(clusters: Seq<ClusterConfig>)
    ensures
        clusters_error(clusters) is None <==> forall|i: int|
            0 <= i < clusters.len() ==> !cluster_empty(#[trigger] clusters[i]),
    decreases clusters.len(),
{
    if clusters.len() > 0 {
        let init = clusters.drop_last();
        clusters_exactly(init);
        if clusters_error(clusters) is None {
            assert forall|i: int| 0 <= i < clusters.len() implies !cluster_empty(
                #[trigger] clusters[i],
            ) by {
                if i < init.len() {
                    assert(!cluster_empty(init[i]));
                }
            }
        }
        if forall|i: int| 0 <= i < clusters.len() ==> !cluster_empty(#[trigger] clusters[i]) {
            assert forall|i: int| 0 <= i < init.len() implies !cluster_empty(
                #[trigger] init[i],
            ) by {
                assert(!cluster_empty(clusters[i]));
            }
            assert(!cluster_empty(clusters[clusters.len() - 1]));
        }
    }
}

/// A configuration passes the checks exactly when it has a listener, when no
/// two listeners and no two clusters have one name, when every route has one
/// target and names only clusters that are there, and when every cluster has
/// endpoints or a mock.
pub proof fn valid_exactly_when(config: Config)
    ensures
        config_error(config) is None <==> ({
            &&& config.listeners@.len() > 0
            &&& distinct_texts(listener_names(config.listeners@))
            &&& distinct_texts(cluster_names(config.clusters@))
            &&& forall|i: int|
                0 <= i < config.routes@.len() ==> route_valid(
                    #[trigger] config.routes@[i],
                    cluster_names(config.clusters@).to_set(),
                )
            &&& forall|i: int|
                0 <= i < config.clusters@.len() ==> !cluster_empty(
                    #[trigger] config.clusters@[i],
                )
        }),
{
    duplicate_exactly(listener_names(config.listeners@));
    duplicate_exactly(cluster_names(config.clusters@));
    routes_exactly(config.routes@, cluster_names(config.clusters@).to_set());
    clusters_exactly(config.clusters@);
}

} // verus!
