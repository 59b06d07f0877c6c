//! Credentials of clients, and where they are kept.

use crate::collections::{texts, StringMap};
use crate::config::types::{BindType, ClientConfig};
use crate::filter::request::{SmppRequest, SmppResponse};
use crate::net::{net_contains, parse_net, parsed_net, IpAddr, IpNet};
use crate::pdu::Status;
use crate::text::{same, starts_with};
use vstd::prelude::*;

verus! {

/// What a client may do.
#[derive(Debug)]
pub struct Credentials {
    /// System ID.
    pub system_id: String,
    /// Password.
    pub password: String,
    /// Bind types allowed; none stands for all.
    pub allowed_bind_types: Vec<BindType>,
    /// Source addresses allowed; nothing stands for all.
    pub allowed_sources: Option<Vec<String>>,
    /// Networks allowed; none stands for all.
    pub allowed_ips: Vec<IpNet>,
    /// Maximum number of connections.
    pub max_connections: Option<usize>,
    /// Rate limit in place of the default one.
    pub rate_limit: Option<u32>,
    /// Whether the client may bind at all.
    pub enabled: bool,
}

/// What credentials say.
#[verifier::ext_equal]
pub struct CredentialsView {
    pub system_id: Seq<char>,
    pub password: Seq<char>,
    pub allowed_bind_types: Seq<BindType>,
    pub allowed_sources: Option<Seq<Seq<char>>>,
    pub allowed_ips: Seq<IpNet>,
    pub max_connections: Option<usize>,
    pub rate_limit: Option<u32>,
    pub enabled: bool,
}

impl View for Credentials {
    type V = CredentialsView;

    open spec fn view(&self) -> CredentialsView {
        CredentialsView {
            system_id: self.system_id@,
            password: self.password@,
            allowed_bind_types: self.allowed_bind_types@,
            allowed_sources: match self.allowed_sources {
                Some(list) => Some(texts(list@)),
                None => None,
            },
            allowed_ips: self.allowed_ips@,
            max_connections: self.max_connections,
            rate_limit: self.rate_limit,
            enabled: self.enabled,
        }
    }
}

/// A client may bind in a way.
pub open spec fn bind_allowed(c: CredentialsView, bind_type: BindType) -> bool {
    c.allowed_bind_types.len() == 0 || c.allowed_bind_types.contains(bind_type)
}

/// A client may connect from an address.
pub open spec fn ip_allowed(c: CredentialsView, ip: IpAddr) -> bool {
    c.allowed_ips.len() == 0 || exists|i: int|
        0 <= i < c.allowed_ips.len() && net_contains(#[trigger] c.allowed_ips[i], ip)
}

/// A client may send from an address: it is one of those allowed, or begins
/// with one.
pub open spec fn source_allowed(c: CredentialsView, source: Seq<char>) -> bool {
    match c.allowed_sources {
        None => true,
        Some(list) => exists|i: int|
            0 <= i < list.len() && (#[trigger] list[i]).is_prefix_of(source),
    }
}

/// Credentials with a system ID and a password and no restrictions.
pub open spec fn unrestricted(system_id: Seq<char>, password: Seq<char>) -> CredentialsView {
    CredentialsView {
        system_id,
        password,
        allowed_bind_types: Seq::empty(),
        allowed_sources: None,
        allowed_ips: Seq::empty(),
        max_connections: None,
        rate_limit: None,
        enabled: true,
    }
}

impl Credentials {
    /// Credentials without restrictions.
    pub fn new(system_id: &str, password: &str) -> (c: Self)
        ensures
            c@ == unrestricted(system_id@, password@),
    {
        Credentials {
            system_id: system_id.to_owned(),
            password: password.to_owned(),
            allowed_bind_types: Vec::new(),
            allowed_sources: None,
            allowed_ips: Vec::new(),
            max_connections: None,
            rate_limit: None,
            enabled: true,
        }
    }

    /// Sets the source addresses allowed.
    pub fn with_allowed_sources(self, sources: Vec<String>) -> (c: Self)
        ensures
            c == (Credentials { allowed_sources: Some(sources), ..self }),
    {
        Credentials { allowed_sources: Some(sources), ..self }
    }

    /// Sets the rate limit.
    pub fn with_rate_limit(self, limit: u32) -> (c: Self)
        ensures
            c == (Credentials { rate_limit: Some(limit), ..self }),
    {
        Credentials { rate_limit: Some(limit), ..self }
    }

    /// Whether the client may bind in a way.
    pub fn is_bind_allowed(&self, bind_type: BindType) -> (b: bool)
        ensures
            b == bind_allowed(self@, bind_type),
    {
        let mut i: usize = 0;
        while i < self.allowed_bind_types.len()
            invariant
                i <= self.allowed_bind_types.len(),
                forall|j: int| 0 <= j < i ==> self.allowed_bind_types@[j] != bind_type,
            decreases self.allowed_bind_types.len() - i,
        {
            if self.allowed_bind_types[i] == bind_type {
                assert(self.allowed_bind_types@[i as int] == bind_type);
                return true;
            }
            i += 1;
        }
        self.allowed_bind_types.len() == 0
    }

    /// Whether the client may connect from an address.
    pub fn is_ip_allowed(&self, ip: &IpAddr) -> (b: bool)
        ensures
            b == ip_allowed(self@, *ip),
    {
        let mut i: usize = 0;
        while i < self.allowed_ips.len()
            invariant
                i <= self.allowed_ips.len(),
                forall|j: int|
                    0 <= j < i ==> !net_contains(#[trigger] self.allowed_ips@[j], *ip),
            decreases self.allowed_ips.len() - i,
        {
            if self.allowed_ips[i].contains(ip) {
                return true;
            }
            i += 1;
        }
        self.allowed_ips.len() == 0
    }

    /// Whether the client may send from an address.
    pub fn is_source_allowed(&self, source: &str) -> (b: bool)
        ensures
            b == source_allowed(self@, source@),
    {
        match &self.allowed_sources {
            None => true,
            Some(list) => {
                let mut i: usize = 0;
                while i < list.len()
                    invariant
                        i <= list.len(),
                        self.allowed_sources == Some(*list),
                        forall|j: int|
                            0 <= j < i ==> !(#[trigger] list@[j])@.is_prefix_of(source@),
                    decreases list.len() - i,
                {
                    if starts_with(source, list[i].as_str()) {
                        assert(self@.allowed_sources->0[i as int].is_prefix_of(source@));
                        return true;
                    }
                    i += 1;
                }
                false
            },
        }
    }

    /// The credentials of a configured client.
    pub fn from_config(config: &ClientConfig) -> (c: Self)
        ensures
            c@ == configured(*config),
    {
        let mut allowed_ips: Vec<IpNet> = Vec::new();
        let mut i: usize = 0;
        while i < config.allowed_ips.len()
            invariant
                i <= config.allowed_ips.len(),
                allowed_ips@ == networks(texts(config.allowed_ips@.take(i as int))),
            decreases config.allowed_ips.len() - i,
        {
            let ghost next = texts(config.allowed_ips@.take(i + 1));
            assert(next.drop_last() == texts(config.allowed_ips@.take(i as int)));
            assert(next.last() == config.allowed_ips@[i as int]@);
            if let Some(net) = parse_net(config.allowed_ips[i].as_str()) {
                allowed_ips.push(net);
            }
            i += 1;
        }
        assert(config.allowed_ips@.take(i as int) == config.allowed_ips@);
        let allowed_sources = if config.allowed_sources.len() == 0 {
            None
        } else {
            Some(copy_texts(&config.allowed_sources))
        };
        Credentials {
            system_id: config.system_id.clone(),
            password: config.password.clone(),
            allowed_bind_types: copy_binds(&config.allowed_bind_types),
            allowed_sources,
            allowed_ips,
            max_connections: config.max_connections,
            rate_limit: config.rate_limit,
            enabled: config.enabled,
        }
    }

    /// The same credentials once more.
    pub fn copy(&self) -> (c: Self)
        ensures
            c@ == self@,
    {
        let allowed_sources = match &self.allowed_sources {
            Some(list) => Some(copy_texts(list)),
            None => None,
        };
        let mut allowed_ips: Vec<IpNet> = Vec::new();
        let mut i: usize = 0;
        while i < self.allowed_ips.len()
            invariant
                i <= self.allowed_ips.len(),
                allowed_ips@ == self.allowed_ips@.take(i as int),
            decreases self.allowed_ips.len() - i,
        {
            allowed_ips.push(self.allowed_ips[i]);
            assert(self.allowed_ips@.take(i + 1) == self.allowed_ips@.take(i as int).push(
                self.allowed_ips@[i as int],
            ));
            i += 1;
        }
        assert(self.allowed_ips@.take(i as int) == self.allowed_ips@);
        Credentials {
            system_id: self.system_id.clone(),
            password: self.password.clone(),
            allowed_bind_types: copy_binds(&self.allowed_bind_types),
            allowed_sources,
            allowed_ips,
            max_connections: self.max_connections,
            rate_limit: self.rate_limit,
            enabled: self.enabled,
        }
    }
}

/// The networks of a list of texts; what is not a network is left out.
pub open spec fn networks(list: Seq<Seq<char>>) -> Seq<IpNet>
    decreases list.len(),
{
    if list.len() == 0 {
        Seq::empty()
    } else {
        match parsed_net(list.last()) {
            Some(net) => networks(list.drop_last()).push(net),
            None => networks(list.drop_last()),
        }
    }
}

/// The credentials of a configured client.
pub open spec fn configured(config: ClientConfig) -> CredentialsView {
    CredentialsView {
        system_id: config.system_id@,
        password: config.password@,
        allowed_bind_types: config.allowed_bind_types@,
        allowed_sources: if config.allowed_sources@.len() == 0 {
            None
        } else {
            Some(texts(config.allowed_sources@))
        },
        allowed_ips: networks(texts(config.allowed_ips@)),
        max_connections: config.max_connections,
        rate_limit: config.rate_limit,
        enabled: config.enabled,
    }
}

/// A copy of a list of strings.
pub fn copy_texts(list: &Vec<String>) -> (copy: Vec<String>)
    ensures
        copy@ == list@,
{
    let mut copy: Vec<String> = Vec::new();
    let mut i: usize = 0;
    while i < list.len()
        invariant
            i <= list.len(),
            copy@ == list@.take(i as int),
        decreases list.len() - i,
    {
        copy.push(list[i].clone());
        assert(list@.take(i + 1) == list@.take(i as int).push(list@[i as int]));
        i += 1;
    }
    assert(list@.take(i as int) == list@);
    copy
}

fn copy_binds(list: &Vec<BindType>) -> (copy: Vec<BindType>)
    ensures
        copy@ == list@,
{
    let mut copy: Vec<BindType> = Vec::new();
    let mut i: usize = 0;
    while i < list.len()
        invariant
            i <= list.len(),
            copy@ == list@.take(i as int),
        decreases list.len() - i,
    {
        copy.push(list[i]);
        assert(list@.take(i + 1) == list@.take(i as int).push(list@[i as int]));
        i += 1;
    }
    assert(list@.take(i as int) == list@);
    copy
}

/// A place where credentials are kept.
pub trait CredentialStore {
    /// Checks a password and gives what the client may do.
    fn validate(&self, system_id: &str, password: &str) -> (c: Option<Credentials>);

    /// Gives what a client may do, without a password.
    fn get(&self, system_id: &str) -> (c: Option<Credentials>);
}

/// What a lookup gives: the kept credentials, where they are there and pass.
pub open spec fn lookup(
    kept: Map<Seq<char>, CredentialsView>,
    system_id: Seq<char>,
    passes: bool,
) -> Option<CredentialsView> {
    if kept.dom().contains(system_id) && passes {
        Some(kept[system_id])
    } else {
        None
    }
}

/// What a client may do who gives its password.
pub open spec fn checked(
    kept: Map<Seq<char>, CredentialsView>,
    system_id: Seq<char>,
    password: Seq<char>,
) -> Option<CredentialsView> {
    lookup(kept, system_id, kept[system_id].password == password)
}

/// What a client may do who gives its password and is enabled.
pub open spec fn checked_strictly(
    kept: Map<Seq<char>, CredentialsView>,
    system_id: Seq<char>,
    password: Seq<char>,
) -> Option<CredentialsView> {
    lookup(kept, system_id, kept[system_id].password == password && kept[system_id].enabled)
}

/// What optional credentials say.
pub open spec fn opt_view(c: Option<Credentials>) -> Option<CredentialsView> {
    match c {
        Some(x) => Some(x@),
        None => None,
    }
}

/// What kept credentials say.
pub open spec fn kept_views(kept: Map<Seq<char>, Credentials>) -> Map<
    Seq<char>,
    CredentialsView,
> {
    kept.map_values(|c: Credentials| c@)
}

/// Credentials of the configured clients.
#[derive(Debug)]
pub struct ConfigCredentialStore {
    credentials: StringMap<Credentials>,
}

/// The credentials of the enabled clients of a list by system ID; of two
/// clients with one ID, the later one counts.
pub open spec fn enabled_clients(clients: Seq<ClientConfig>) -> Map<Seq<char>, CredentialsView>
    decreases clients.len(),
{
    if clients.len() == 0 {
        Map::empty()
    } else if clients.last().enabled {
        enabled_clients(clients.drop_last()).insert(
            clients.last().system_id@,
            configured(clients.last()),
        )
    } else {
        enabled_clients(clients.drop_last())
    }
}

impl ConfigCredentialStore {
    /// The kept credentials by system ID.
    pub closed spec fn kept(&self) -> Map<Seq<char>, CredentialsView> {
        kept_views(self.credentials@)
    }

    /// Keeps the credentials of the enabled clients.
    pub fn from_config(clients: &Vec<ClientConfig>) -> (s: Self)
        ensures
            s.kept() == enabled_clients(clients@),
    {
        let mut credentials: StringMap<Credentials> = StringMap::new();
        assert(kept_views(credentials@) =~= Map::<Seq<char>, CredentialsView>::empty());
        let mut i: usize = 0;
        while i < clients.len()
            invariant
                i <= clients.len(),
                kept_views(credentials@) == enabled_clients(clients@.take(i as int)),
            decreases clients.len() - i,
        {
            let ghost before = credentials@;
            assert(clients@.take(i + 1).drop_last() == clients@.take(i as int));
            assert(clients@.take(i + 1).last() == clients@[i as int]);
            if clients[i].enabled {
                let c = Credentials::from_config(&clients[i]);
                credentials.insert(clients[i].system_id.clone(), c);
                assert(kept_views(credentials@) =~= kept_views(before).insert(
                    clients@[i as int].system_id@,
                    configured(clients@[i as int]),
                ));
            }
            i += 1;
        }
        assert(clients@.take(i as int) == clients@);
        ConfigCredentialStore { credentials }
    }

    /// Whether no client is configured.
    pub fn is_empty(&self) -> (b: bool)
        ensures
            b == (self.kept() == Map::<Seq<char>, CredentialsView>::empty()),
    {
        let n: usize = self.credentials.len();
        proof {
            crate::collections::map_order_lists_the_keys(&self.credentials);
            let order = self.credentials.order();
            if n == 0 {
                assert(self.credentials@.dom() =~= Set::<Seq<char>>::empty()) by {
                    assert(order.to_set() =~= Set::<Seq<char>>::empty());
                }
                assert(self.kept() =~= Map::<Seq<char>, CredentialsView>::empty());
            } else {
                assert(order.to_set().contains(order[0]));
                assert(self.kept().dom().contains(order[0]));
            }
        }
        n == 0
    }
}

impl CredentialStore for ConfigCredentialStore {
    fn validate(&self, system_id: &str, password: &str) -> (c: Option<Credentials>)
        ensures
            opt_view(c) == checked_strictly(self.kept(), system_id@, password@),
    {
        match self.credentials.get(system_id) {
            Some(c) => if same(c.password.as_str(), password) && c.enabled {
                Some(c.copy())
            } else {
                None
            },
            None => None,
        }
    }

    fn get(&self, system_id: &str) -> (c: Option<Credentials>)
        ensures
            opt_view(c) == lookup(self.kept(), system_id@, true),
    {
        match self.credentials.get(system_id) {
            Some(c) => Some(c.copy()),
            None => None,
        }
    }
}

/// Credentials in memory.
#[derive(Debug)]
pub struct InMemoryCredentialStore {
    credentials: StringMap<Credentials>,
}

impl InMemoryCredentialStore {
    /// The kept credentials by system ID.
    pub closed spec fn kept(&self) -> Map<Seq<char>, CredentialsView> {
        kept_views(self.credentials@)
    }

    /// An empty store.
    pub fn new() -> (s: Self)
        ensures
            s.kept() == Map::<Seq<char>, CredentialsView>::empty(),
    {
        let s = InMemoryCredentialStore { credentials: StringMap::new() };
        assert(s.kept() =~= Map::<Seq<char>, CredentialsView>::empty());
        s
    }

    /// Adds credentials.
    pub fn add(&mut self, creds: Credentials)
        ensures
            final(self).kept() == old(self).kept().insert(creds.system_id@, creds@),
    {
        let ghost before = self.credentials@;
        let ghost added = creds;
        self.credentials.insert(creds.system_id.clone(), creds);
        assert(kept_views(self.credentials@) =~= kept_views(before).insert(
            added.system_id@,
            added@,
        ));
    }
}

impl CredentialStore for InMemoryCredentialStore {
    fn validate(&self, system_id: &str, password: &str) -> (c: Option<Credentials>)
        ensures
            opt_view(c) == checked(self.kept(), system_id@, password@),
    {
        match self.credentials.get(system_id) {
            Some(c) => if same(c.password.as_str(), password) {
                Some(c.copy())
            } else {
                None
            },
            None => None,
        }
    }

    fn get(&self, system_id: &str) -> (c: Option<Credentials>)
        ensures
            opt_view(c) == lookup(self.kept(), system_id@, true),
    {
        match self.credentials.get(system_id) {
            Some(c) => Some(c.copy()),
            None => None,
        }
    }
}

/// Accepts every client without restrictions.
#[derive(Debug, Clone, Copy)]
pub struct OpenCredentialStore;

impl CredentialStore for OpenCredentialStore {
    fn validate(&self, system_id: &str, password: &str) -> (c: Option<Credentials>)
        ensures
            opt_view(c) == Some(unrestricted(system_id@, Seq::empty())),
    {
        proof {
            reveal_strlit("");
        }
        let c = Credentials::new(system_id, "");
        assert(c.password@ =~= Seq::<char>::empty());
        Some(c)
    }

    fn get(&self, system_id: &str) -> (c: Option<Credentials>)
        ensures
            opt_view(c) == Some(unrestricted(system_id@, Seq::empty())),
    {
        proof {
            reveal_strlit("");
        }
        let c = Credentials::new(system_id, "");
        assert(c.password@ =~= Seq::<char>::empty());
        Some(c)
    }
}

/// A filter that passes on the requests of bound clients only.
#[derive(Debug, Clone, Copy)]
pub struct AuthFilter;

impl AuthFilter {
    /// Rejects a request without a client, and passes on every other one.
    pub fn call(request: SmppRequest) -> (r: SmppResponse)
        ensures
            r == match request.meta.system_id {
                None => SmppResponse::Reject {
                    sequence: request.sequence,
                    status: Status::InvalidBindStatus,
                    reason: None,
                },
                Some(_) => SmppResponse::Continue(request),
            },
    {
        if request.meta.system_id.is_none() {
            return SmppResponse::reject(request.sequence, Status::InvalidBindStatus);
        }
        SmppResponse::Continue(request)
    }
}

/// Only the client with the right password is let in, and with what it may
/// do: after credentials were added, a lookup with their password gives them
/// back, and a lookup with another password gives nothing.
pub proof fn added_credentials_are_found(
    kept: Map<Seq<char>, CredentialsView>,
    c: CredentialsView,
    password: Seq<char>,
)
    ensures
        ({
            let after = kept.insert(c.system_id, c);
            lookup(after, c.system_id, after[c.system_id].password == password) == if password
                == c.password {
                Some(c)
            } else {
                None
            }
        }),
{
}

/// Credentials of one client do not touch those of another.
pub proof fn other_credentials_stay(
    kept: Map<Seq<char>, CredentialsView>,
    c: CredentialsView,
    system_id: Seq<char>,
    password: Seq<char>,
)
    requires
        system_id != c.system_id,
    ensures
        ({
            let after = kept.insert(c.system_id, c);
            lookup(after, system_id, after[system_id].password == password) == lookup(
                kept,
                system_id,
                kept[system_id].password == password,
            )
        }),
{
}

/// A disabled client is not among those that a configuration lets in, unless
/// an enabled client has the same system ID.
pub proof fn disabled_clients_are_left_out(clients: Seq<ClientConfig>, system_id: Seq<char>)
    requires
        forall|i: int|
            0 <= i < clients.len() && (#[trigger] clients[i]).system_id@ == system_id
                ==> !clients[i].enabled,
    ensures
        !enabled_clients(clients).dom().contains(system_id),
    decreases clients.len(),
{
    if clients.len() > 0 {
        let init = clients.drop_last();
        assert forall|i: int|
            0 <= i < init.len() && (#[trigger] init[i]).system_id@ == system_id implies !init[i].enabled by {
            assert(init[i] == clients[i]);
        }
        disabled_clients_are_left_out(init, system_id);
        assert(clients[clients.len() - 1] == clients.last());
    }
}

} // verus!
