//! Accounts of clients: credentials, quotas, prices, routes and limits.

use crate::collections::{holds_prefix, StringMap, StringSet};
use crate::text::{opt_text, same};
use crate::time::{stamp, UtcTime};
use vstd::prelude::*;

verus! {

/// Status of an account.
#[derive(Debug, Clone, Copy, PartialEq, Eq, Structural)]
pub enum EsmeStatus {
    /// It can send messages.
    Active,
    /// It is suspended because of its bills.
    Suspended,
    /// It was disabled.
    Disabled,
    /// It is being tried out.
    Trial,
    /// It has used up its quota.
    QuotaExceeded,
}

impl EsmeStatus {
    /// Accounts of this status can send messages.
    pub open spec fn sends(&self) -> bool {
        self is Active || self is Trial
    }

    /// Whether accounts of this status can send messages.
    pub fn can_send(&self) -> (b: bool)
        ensures
            b == self.sends(),
    {
        match self {
            EsmeStatus::Active | EsmeStatus::Trial => true,
            _ => false,
        }
    }
}

/// Prices for a country.
#[derive(Debug, Clone, Copy, PartialEq, Eq, Structural)]
pub struct CountryPricing {
    /// Cost of a message.
    pub cost: i64,
    /// Price of a message.
    pub price: i64,
}

/// Prices, in the smallest unit of a currency.
#[derive(Debug)]
pub struct PricingTier {
    pub name: String,
    /// Cost of a message.
    pub cost_per_message: i64,
    /// What the account pays for a message.
    pub price_per_message: i64,
    /// Currency by its code.
    pub currency: String,
    /// Prices by country.
    pub country_pricing: StringMap<CountryPricing>,
}

impl Default for PricingTier {
    fn default() -> (p: Self)
        ensures
            p.name@ == "default"@,
            p.cost_per_message == 10,
            p.price_per_message == 25,
            p.currency@ == "MZN"@,
            p.country_pricing@ == Map::<Seq<char>, CountryPricing>::empty(),
    {
        PricingTier {
            name: "default".to_string(),
            cost_per_message: 10,
            price_per_message: 25,
            currency: "MZN".to_string(),
            country_pricing: StringMap::new(),
        }
    }
}

/// Rate limits of an account.
#[derive(Debug, Clone, Copy, PartialEq, Eq, Structural)]
pub struct EsmeRateLimit {
    pub messages_per_second: u32,
    pub messages_per_minute: u32,
    pub messages_per_hour: u32,
    pub messages_per_day: u32,
    /// Connections at the same time.
    pub max_connections: u32,
    /// Window of the rate limit.
    pub window_size_secs: u64,
}

impl Default for EsmeRateLimit {
    fn default() -> (l: Self)
        ensures
            l == (EsmeRateLimit {
                messages_per_second: 100,
                messages_per_minute: 5000,
                messages_per_hour: 100_000,
                messages_per_day: 1_000_000,
                max_connections: 10,
                window_size_secs: 60,
            }),
    {
        EsmeRateLimit {
            messages_per_second: 100,
            messages_per_minute: 5000,
            messages_per_hour: 100_000,
            messages_per_day: 1_000_000,
            max_connections: 10,
            window_size_secs: 60,
        }
    }
}

/// Quotas of an account, and what it has used of them. Zero stands for no
/// limit.
#[derive(Debug, Clone, Copy, PartialEq, Eq, Structural)]
pub struct EsmeQuota {
    pub monthly_messages: u64,
    /// In the smallest unit of the currency.
    pub monthly_spend: i64,
    pub daily_messages: u64,
    pub current_monthly_messages: u64,
    pub current_monthly_spend: i64,
    pub current_daily_messages: u64,
}

impl Default for EsmeQuota {
    fn default() -> (q: Self)
        ensures
            q == (EsmeQuota {
                monthly_messages: 0,
                monthly_spend: 0,
                daily_messages: 0,
                current_monthly_messages: 0,
                current_monthly_spend: 0,
                current_daily_messages: 0,
            }),
    {
        EsmeQuota {
            monthly_messages: 0,
            monthly_spend: 0,
            daily_messages: 0,
            current_monthly_messages: 0,
            current_monthly_spend: 0,
            current_daily_messages: 0,
        }
    }
}

/// What is left of a quota of messages; nothing is said where there is no
/// limit.
pub open spec fn left_of(quota: u64, used: u64) -> Option<u64> {
    if quota == 0 {
        None
    } else if used >= quota {
        Some(0)
    } else {
        Some((quota - used) as u64)
    }
}

impl EsmeQuota {
    /// One of the quotas is used up.
    pub open spec fn used_up(&self) -> bool {
        ||| self.monthly_messages > 0 && self.current_monthly_messages >= self.monthly_messages
        ||| self.monthly_spend > 0 && self.current_monthly_spend >= self.monthly_spend
        ||| self.daily_messages > 0 && self.current_daily_messages >= self.daily_messages
    }

    /// Whether one of the quotas is used up.
    pub fn is_exceeded(&self) -> (b: bool)
        ensures
            b == self.used_up(),
    {
        if self.monthly_messages > 0 && self.current_monthly_messages >= self.monthly_messages {
            return true;
        }
        if self.monthly_spend > 0 && self.current_monthly_spend >= self.monthly_spend {
            return true;
        }
        if self.daily_messages > 0 && self.current_daily_messages >= self.daily_messages {
            return true;
        }
        false
    }

    /// Messages that are left for the month.
    pub fn remaining_monthly(&self) -> (n: Option<u64>)
        ensures
            n == left_of(self.monthly_messages, self.current_monthly_messages),
    {
        if self.monthly_messages > 0 {
            Some(self.monthly_messages.saturating_sub(self.current_monthly_messages))
        } else {
            None
        }
    }

    /// Messages that are left for the day.
    pub fn remaining_daily(&self) -> (n: Option<u64>)
        ensures
            n == left_of(self.daily_messages, self.current_daily_messages),
    {
        if self.daily_messages > 0 {
            Some(self.daily_messages.saturating_sub(self.current_daily_messages))
        } else {
            None
        }
    }
}

/// Where messages of an account go.
#[derive(Debug)]
pub struct EsmeRouting {
    pub preferred_cluster: Option<String>,
    /// Clusters to avoid.
    pub blocked_clusters: StringSet,
    /// Clusters by country.
    pub country_routes: StringMap<String>,
    pub priority: i32,
}

impl Default for EsmeRouting {
    fn default() -> (r: Self)
        ensures
            r.preferred_cluster is None,
            r.blocked_clusters@ == Set::<Seq<char>>::empty(),
            r.country_routes@ == Map::<Seq<char>, String>::empty(),
            r.priority == 0,
    {
        EsmeRouting {
            preferred_cluster: None,
            blocked_clusters: StringSet::new(),
            country_routes: StringMap::new(),
            priority: 0,
        }
    }
}

/// What an account may send. Without a list of what is allowed everything is.
#[derive(Debug)]
pub struct EsmeFirewall {
    /// Prefixes of destinations.
    pub destination_allow_list: Option<StringSet>,
    pub destination_deny_list: StringSet,
    pub sender_allow_list: Option<StringSet>,
    pub sender_deny_list: StringSet,
    /// Countries by their codes.
    pub country_allow_list: Option<StringSet>,
    pub country_deny_list: StringSet,
    pub content_filter_enabled: bool,
    pub block_premium_rate: bool,
}

impl Default for EsmeFirewall {
    fn default() -> (f: Self)
        ensures
            f.destination_allow_list is None,
            f.destination_deny_list@ == Set::<Seq<char>>::empty(),
            f.sender_allow_list is None,
            f.sender_deny_list@ == Set::<Seq<char>>::empty(),
            f.country_allow_list is None,
            f.country_deny_list@ == Set::<Seq<char>>::empty(),
            f.content_filter_enabled,
            f.block_premium_rate,
    {
        EsmeFirewall {
            destination_allow_list: None,
            destination_deny_list: StringSet::new(),
            sender_allow_list: None,
            sender_deny_list: StringSet::new(),
            country_allow_list: None,
            country_deny_list: StringSet::new(),
            content_filter_enabled: true,
            block_premium_rate: true,
        }
    }
}

/// How an account binds.
#[derive(Debug)]
pub struct EsmeCredentials {
    pub system_id: String,
    pub password: String,
    /// Addresses from which it may bind; without a list, from all.
    pub ip_allow_list: Option<StringSet>,
    pub require_tls: bool,
}

/// An account.
#[derive(Debug)]
pub struct Esme {
    pub id: String,
    /// Name to display.
    pub name: String,
    pub status: EsmeStatus,
    pub credentials: EsmeCredentials,
    pub pricing: PricingTier,
    pub rate_limits: EsmeRateLimit,
    pub quota: EsmeQuota,
    pub routing: EsmeRouting,
    pub firewall: EsmeFirewall,
    pub metadata: StringMap<String>,
    pub created_at: String,
    pub modified_at: String,
    pub contact_email: Option<String>,
    /// Where delivery receipts go.
    pub callback_url: Option<String>,
}

/// A set that is there holds an item; a set that is not there holds all.
pub open spec fn allowed_by(list: Option<StringSet>, item: Seq<char>) -> bool {
    match list {
        Some(set) => set@.contains(item),
        None => true,
    }
}

/// The quota after a message.
pub open spec fn quota_after(q: EsmeQuota, cost: i64) -> EsmeQuota {
    EsmeQuota {
        current_daily_messages: (q.current_daily_messages + 1) as u64,
        current_monthly_messages: (q.current_monthly_messages + 1) as u64,
        current_monthly_spend: (q.current_monthly_spend + cost) as i64,
        ..q
    }
}

impl Esme {
    /// An account that is as new, noted at a time.
    pub open spec fn is_new(
        &self,
        id: Seq<char>,
        name: Seq<char>,
        system_id: Seq<char>,
        password: Seq<char>,
        now: UtcTime,
    ) -> bool {
        &&& self.id@ == id
        &&& self.name@ == name
        &&& self.status == EsmeStatus::Active
        &&& self.credentials.system_id@ == system_id
        &&& self.credentials.password@ == password
        &&& self.credentials.ip_allow_list is None
        &&& !self.credentials.require_tls
        &&& self.pricing.name@ == "default"@
        &&& self.pricing.cost_per_message == 10
        &&& self.pricing.price_per_message == 25
        &&& self.pricing.currency@ == "MZN"@
        &&& self.pricing.country_pricing@ == Map::<Seq<char>, CountryPricing>::empty()
        &&& self.rate_limits == (EsmeRateLimit {
            messages_per_second: 100,
            messages_per_minute: 5000,
            messages_per_hour: 100_000,
            messages_per_day: 1_000_000,
            max_connections: 10,
            window_size_secs: 60,
        })
        &&& self.quota.monthly_messages == 0
        &&& self.quota.monthly_spend == 0
        &&& self.quota.daily_messages == 0
        &&& self.quota.current_monthly_messages == 0
        &&& self.quota.current_monthly_spend == 0
        &&& self.quota.current_daily_messages == 0
        &&& self.routing.preferred_cluster is None
        &&& self.routing.blocked_clusters@ == Set::<Seq<char>>::empty()
        &&& self.routing.country_routes@ == Map::<Seq<char>, String>::empty()
        &&& self.routing.priority == 0
        &&& self.firewall.destination_allow_list is None
        &&& self.firewall.destination_deny_list@ == Set::<Seq<char>>::empty()
        &&& self.firewall.sender_allow_list is None
        &&& self.firewall.sender_deny_list@ == Set::<Seq<char>>::empty()
        &&& self.firewall.country_allow_list is None
        &&& self.firewall.country_deny_list@ == Set::<Seq<char>>::empty()
        &&& self.firewall.content_filter_enabled
        &&& self.firewall.block_premium_rate
        &&& self.metadata@ == Map::<Seq<char>, String>::empty()
        &&& self.created_at@ == stamp(now)
        &&& self.modified_at@ == stamp(now)
        &&& self.contact_email is None
        &&& self.callback_url is None
    }

    /// A new account with default settings, noted at a time.
    pub fn new_at(id: &str, name: &str, system_id: &str, password: &str, now: &UtcTime) -> (e: Self)
        ensures
            e.is_new(id@, name@, system_id@, password@, *now),
    {
        Esme {
            id: id.to_string(),
            name: name.to_string(),
            status: EsmeStatus::Active,
            credentials: EsmeCredentials {
                system_id: system_id.to_string(),
                password: password.to_string(),
                ip_allow_list: None,
                require_tls: false,
            },
            pricing: PricingTier::default(),
            rate_limits: EsmeRateLimit::default(),
            quota: EsmeQuota::default(),
            routing: EsmeRouting::default(),
            firewall: EsmeFirewall::default(),
            metadata: StringMap::new(),
            created_at: now.stamp(),
            modified_at: now.stamp(),
            contact_email: None,
            callback_url: None,
        }
    }

    /// A new account with default settings.
    pub fn new(id: &str, name: &str, system_id: &str, password: &str) -> (e: Self)
        ensures
            exists|now: UtcTime| #[trigger] e.is_new(id@, name@, system_id@, password@, now),
    {
        let now = UtcTime::now();
        Esme::new_at(id, name, system_id, password, &now)
    }

    /// Whether the account can send messages.
    pub fn can_send(&self) -> (b: bool)
        ensures
            b == (self.status.sends() && !self.quota.used_up()),
    {
        self.status.can_send() && !self.quota.is_exceeded()
    }

    /// A destination is allowed: no denied prefix fits it, and an allowed one
    /// does where there is a list of them.
    pub open spec fn allows_destination(&self, dest: Seq<char>) -> bool {
        &&& !holds_prefix(self.firewall.destination_deny_list@, dest)
        &&& self.firewall.destination_allow_list matches Some(list) ==> holds_prefix(list@, dest)
    }

    /// Whether a destination is allowed.
    pub fn is_destination_allowed(&self, dest: &str) -> (b: bool)
        ensures
            b == self.allows_destination(dest@),
    {
        if self.firewall.destination_deny_list.holds_prefix_of(dest) {
            return false;
        }
        match &self.firewall.destination_allow_list {
            Some(list) => list.holds_prefix_of(dest),
            None => true,
        }
    }

    /// A sender is allowed.
    pub open spec fn allows_sender(&self, sender: Seq<char>) -> bool {
        &&& !self.firewall.sender_deny_list@.contains(sender)
        &&& allowed_by(self.firewall.sender_allow_list, sender)
    }

    /// Whether a sender is allowed.
    pub fn is_sender_allowed(&self, sender: &str) -> (b: bool)
        ensures
            b == self.allows_sender(sender@),
    {
        if self.firewall.sender_deny_list.contains(sender) {
            return false;
        }
        match &self.firewall.sender_allow_list {
            Some(list) => list.contains(sender),
            None => true,
        }
    }

    /// Whether the account may bind from an address.
    pub fn is_ip_allowed(&self, ip: &str) -> (b: bool)
        ensures
            b == allowed_by(self.credentials.ip_allow_list, ip@),
    {
        match &self.credentials.ip_allow_list {
            Some(list) => list.contains(ip),
            None => true,
        }
    }

    /// Cost and price of a message to a country.
    pub open spec fn prices(&self, country: Option<Seq<char>>) -> (i64, i64) {
        match country {
            Some(c) if self.pricing.country_pricing@.dom().contains(c) => (
                self.pricing.country_pricing@[c].cost,
                self.pricing.country_pricing@[c].price,
            ),
            _ => (self.pricing.cost_per_message, self.pricing.price_per_message),
        }
    }

    /// Cost and price of a message to a country.
    pub fn get_pricing(&self, country_code: Option<&str>) -> (r: (i64, i64))
        ensures
            r == self.prices(
                match country_code {
                    Some(c) => Some(c@),
                    None => None,
                },
            ),
    {
        if let Some(country) = country_code {
            if let Some(pricing) = self.pricing.country_pricing.get(country) {
                return (pricing.cost, pricing.price);
            }
        }
        (self.pricing.cost_per_message, self.pricing.price_per_message)
    }

    /// The cluster for a country.
    pub open spec fn cluster_for(&self, country: Option<Seq<char>>) -> Option<Seq<char>> {
        match country {
            Some(c) if self.routing.country_routes@.dom().contains(c) => Some(
                self.routing.country_routes@[c]@,
            ),
            _ => opt_text(self.routing.preferred_cluster),
        }
    }

    /// The cluster for a country: that of the country if there is one, else
    /// the preferred one.
    pub fn get_preferred_cluster(&self, country_code: Option<&str>) -> (r: Option<&str>)
        ensures
            self.cluster_for(
                match country_code {
                    Some(c) => Some(c@),
                    None => None,
                },
            ) == match r {
                Some(cluster) => Some(cluster@),
                None => None,
            },
    {
        if let Some(country) = country_code {
            if let Some(cluster) = self.routing.country_routes.get(country) {
                return Some(cluster.as_str());
            }
        }
        match &self.routing.preferred_cluster {
            Some(cluster) => Some(cluster.as_str()),
            None => None,
        }
    }

    /// Notes a message that was sent.
    pub fn record_message(&mut self, cost: i64)
        requires
            old(self).quota.current_daily_messages < u64::MAX,
            old(self).quota.current_monthly_messages < u64::MAX,
            i64::MIN <= old(self).quota.current_monthly_spend + cost <= i64::MAX,
        ensures
            *final(self) == (Esme { quota: quota_after(old(self).quota, cost), ..*old(self) }),
    {
        self.quota.current_daily_messages = self.quota.current_daily_messages + 1;
        self.quota.current_monthly_messages = self.quota.current_monthly_messages + 1;
        self.quota.current_monthly_spend = self.quota.current_monthly_spend + cost;
    }
}

/// Answer to an attempt to bind.
#[derive(Debug)]
pub enum AuthResult<'a> {
    /// The account may bind.
    Success(&'a Esme),
    /// The password is wrong.
    InvalidCredentials,
    /// There is no such account.
    NotFound,
    /// The account cannot send messages.
    Suspended(EsmeStatus),
    /// It may not bind from its address.
    IpNotAllowed,
    /// It may bind with TLS only.
    TlsRequired,
}

/// A store of accounts.
pub trait EsmeStore: Sized {
    /// An account by its ID.
    fn get(&self, id: &str) -> Option<&Esme>;

    /// An account by its system ID.
    fn get_by_system_id(&self, system_id: &str) -> Option<&Esme>;

    /// All accounts.
    fn list(&self) -> Vec<&Esme>;

    /// Adds an account or replaces it.
    fn save(&mut self, esme: Esme) -> Result<(), String>;

    /// Removes an account.
    fn delete(&mut self, id: &str) -> Result<(), String>;

    /// Decides whether an account may bind.
    fn authenticate(&self, system_id: &str, password: &str, ip: Option<&str>) -> AuthResult<'_>;
}

/// Accounts by ID, and IDs by system ID.
#[verifier::ext_equal]
pub struct EsmesView {
    pub esmes: Map<Seq<char>, Esme>,
    pub index: Map<Seq<char>, Seq<char>>,
}

/// Accounts in memory.
#[derive(Debug)]
pub struct MemoryEsmeStore {
    esmes: StringMap<Esme>,
    system_id_index: StringMap<String>,
}

impl View for MemoryEsmeStore {
    type V = EsmesView;

    closed spec fn view(&self) -> EsmesView {
        EsmesView {
            esmes: self.esmes@,
            index: self.system_id_index@.map_values(|s: String| s@),
        }
    }
}

/// The accounts after one was added or replaced.
pub open spec fn saved(s: EsmesView, esme: Esme) -> EsmesView {
    let cleared = if s.esmes.dom().contains(esme.id@) {
        s.index.remove(s.esmes[esme.id@].credentials.system_id@)
    } else {
        s.index
    };
    EsmesView {
        esmes: s.esmes.insert(esme.id@, esme),
        index: cleared.insert(esme.credentials.system_id@, esme.id@),
    }
}

/// The accounts after some were added one after the other.
pub open spec fn all_saved(s: EsmesView, esmes: Seq<Esme>) -> EsmesView
    decreases esmes.len(),
{
    if esmes.len() == 0 {
        s
    } else {
        saved(all_saved(s, esmes.drop_last()), esmes.last())
    }
}

/// The accounts after one was removed.
pub open spec fn deleted(s: EsmesView, id: Seq<char>) -> EsmesView {
    if s.esmes.dom().contains(id) {
        EsmesView {
            esmes: s.esmes.remove(id),
            index: s.index.remove(s.esmes[id].credentials.system_id@),
        }
    } else {
        s
    }
}

/// No accounts.
pub open spec fn no_esmes() -> EsmesView {
    EsmesView { esmes: Map::empty(), index: Map::empty() }
}

/// An account by its ID.
pub open spec fn esme_by_id(s: EsmesView, id: Seq<char>) -> Option<Esme> {
    if s.esmes.dom().contains(id) {
        Some(s.esmes[id])
    } else {
        None
    }
}

/// An account by its system ID.
pub open spec fn esme_by_system_id(s: EsmesView, system_id: Seq<char>) -> Option<Esme> {
    if s.index.dom().contains(system_id) {
        esme_by_id(s, s.index[system_id])
    } else {
        None
    }
}

/// Decides whether an account may bind with a password and from an address.
pub open spec fn auth_outcome<'a>(
    found: Option<&'a Esme>,
    password: Seq<char>,
    ip: Option<Seq<char>>,
) -> AuthResult<'a> {
    match found {
        None => AuthResult::NotFound,
        Some(esme) => if !esme.status.sends() {
            AuthResult::Suspended(esme.status)
        } else if esme.credentials.password@ != password {
            AuthResult::InvalidCredentials
        } else if ip matches Some(address) && !allowed_by(
            esme.credentials.ip_allow_list,
            address,
        ) {
            AuthResult::IpNotAllowed
        } else {
            AuthResult::Success(esme)
        },
    }
}

/// An optional reference to an account, as a value.
pub open spec fn opt_esme(e: Option<&Esme>) -> Option<Esme> {
    match e {
        Some(e) => Some(*e),
        None => None,
    }
}

/// The accounts of some IDs in order, or those of them that can send messages.
pub open spec fn accounts_of(
    esmes: Map<Seq<char>, Esme>,
    ids: Seq<Seq<char>>,
    senders_only: bool,
) -> Seq<Esme>
    decreases ids.len(),
{
    if ids.len() == 0 {
        seq![]
    } else {
        let front = accounts_of(esmes, ids.drop_last(), senders_only);
        let esme = esmes[ids.last()];
        if !senders_only || esme.status.sends() {
            front.push(esme)
        } else {
            front
        }
    }
}

/// The accounts that references lead to.
pub open spec fn referred(listed: Seq<&Esme>) -> Seq<Esme> {
    listed.map_values(|e: &Esme| *e)
}

impl MemoryEsmeStore {
    /// The IDs of the accounts, in the order in which they are listed.
    pub closed spec fn order(&self) -> Seq<Seq<char>> {
        self.esmes.order()
    }

    fn accounts(&self, senders_only: bool) -> (listed: Vec<&Esme>)
        ensures
            self.order().to_set() == self@.esmes.dom(),
            self.order().no_duplicates(),
            referred(listed@) == accounts_of(self@.esmes, self.order(), senders_only),
    {
        let mut listed: Vec<&Esme> = Vec::new();
        let n: usize = self.esmes.len();
        let ghost order = self.esmes.order();
        let mut i: usize = 0;
        while i < n
            invariant
                i <= n,
                n == order.len(),
                order == self.esmes.order(),
                referred(listed@) == accounts_of(self.esmes@, order.take(i as int), senders_only),
            decreases n - i,
        {
            let (_, esme) = self.esmes.entry(i);
            assert(order.take(i + 1).drop_last() == order.take(i as int));
            assert(order.take(i + 1).last() == order[i as int]);
            if !senders_only || esme.status.can_send() {
                let ghost before = listed@;
                listed.push(esme);
                assert(referred(listed@) =~= referred(before).push(*esme));
            }
            i += 1;
        }
        assert(order.take(i as int) == order);
        proof {
            crate::collections::map_order_lists_the_keys(&self.esmes);
        }
        listed
    }

    /// No accounts.
    pub fn new() -> (s: Self)
        ensures
            s@ == no_esmes(),
    {
        let s = MemoryEsmeStore { esmes: StringMap::new(), system_id_index: StringMap::new() };
        assert(s@.index =~= Map::<Seq<char>, Seq<char>>::empty());
        s
    }

    /// Some accounts.
    pub fn with_esmes(esmes: Vec<Esme>) -> (s: Self)
        ensures
            s@ == all_saved(no_esmes(), esmes@),
    {
        let ghost all = esmes@;
        let mut rest = esmes;
        let mut reversed: Vec<Esme> = Vec::new();
        while rest.len() > 0
            invariant
                rest@.len() + reversed@.len() == all.len(),
                rest@ == all.take(rest@.len() as int),
                forall|j: int|
                    0 <= j < reversed@.len() ==> #[trigger] reversed@[j] == all[all.len() - 1 - j],
            decreases rest@.len(),
        {
            if let Some(esme) = rest.pop() {
                reversed.push(esme);
            }
        }
        let mut store = MemoryEsmeStore::new();
        while reversed.len() > 0
            invariant
                reversed@.len() <= all.len(),
                forall|j: int|
                    0 <= j < reversed@.len() ==> #[trigger] reversed@[j] == all[all.len() - 1 - j],
                store@ == all_saved(no_esmes(), all.take(all.len() - reversed@.len())),
            decreases reversed@.len(),
        {
            let ghost done = all.len() - reversed@.len();
            if let Some(esme) = reversed.pop() {
                assert(esme == all[done]);
                assert(all.take(done + 1).drop_last() == all.take(done));
                assert(all.take(done + 1).last() == esme);
                let _ = store.save(esme);
            }
        }
        assert(all.take(all.len() as int) == all);
        store
    }

    /// Number of accounts.
    pub fn count(&self) -> (n: usize)
        ensures
            n == self@.esmes.dom().len(),
    {
        self.esmes.len()
    }

    /// The accounts that can send messages.
    pub fn active_esmes(&self) -> (listed: Vec<&Esme>)
        ensures
            self.order().to_set() == self@.esmes.dom(),
            self.order().no_duplicates(),
            referred(listed@) == accounts_of(self@.esmes, self.order(), true),
    {
        self.accounts(true)
    }

    /// Starts a new day: nothing has been used of the daily quotas.
    pub fn reset_daily_quotas(&mut self)
        ensures
            final(self)@.index == old(self)@.index,
            final(self)@.esmes.dom() == old(self)@.esmes.dom(),
            forall|id: Seq<char>|
                #![trigger final(self)@.esmes[id]]
                old(self)@.esmes.dom().contains(id) ==> final(self)@.esmes[id] == day_begun(
                    old(self)@.esmes[id],
                ),
    {
        let n: usize = self.esmes.len();
        let ghost before = self.esmes;
        let mut i: usize = 0;
        proof {
            crate::collections::map_order_lists_the_keys(&self.esmes);
        }
        while i < n
            invariant
                i <= n,
                n == self.esmes.order().len(),
                self.esmes.order() == before.order(),
                self.system_id_index == old(self).system_id_index,
                before == old(self).esmes,
                before.order().no_duplicates(),
                before.order().to_set() == before@.dom(),
                self.esmes@.dom() == before@.dom(),
                forall|j: int|
                    #![trigger before.order()[j]]
                    0 <= j < n ==> self.esmes@[before.order()[j]] == if j < i {
                        day_begun(before@[before.order()[j]])
                    } else {
                        before@[before.order()[j]]
                    },
            decreases n - i,
        {
            let ghost key = before.order()[i as int];
            assert(before.order().to_set().contains(key));
            let ghost was = self.esmes@;
            let esme = self.esmes.value_mut(i);
            esme.quota.current_daily_messages = 0;
            assert(self.esmes@.dom() =~= before@.dom());
            i += 1;
        }
        assert forall|id: Seq<char>|
            #![trigger self@.esmes[id]]
            old(self)@.esmes.dom().contains(id) implies self@.esmes[id] == day_begun(
            old(self)@.esmes[id],
        ) by {
            assert(before.order().to_set().contains(id));
            let j = before.order().index_of(id);
            assert(before.order()[j] == id);
        }
    }

    /// Starts a new month: nothing has been used of the monthly quotas.
    pub fn reset_monthly_quotas(&mut self)
        ensures
            final(self)@.index == old(self)@.index,
            final(self)@.esmes.dom() == old(self)@.esmes.dom(),
            forall|id: Seq<char>|
                #![trigger final(self)@.esmes[id]]
                old(self)@.esmes.dom().contains(id) ==> final(self)@.esmes[id] == month_begun(
                    old(self)@.esmes[id],
                ),
    {
        let n: usize = self.esmes.len();
        let ghost before = self.esmes;
        let mut i: usize = 0;
        proof {
            crate::collections::map_order_lists_the_keys(&self.esmes);
        }
        while i < n
            invariant
                i <= n,
                n == self.esmes.order().len(),
                self.esmes.order() == before.order(),
                self.system_id_index == old(self).system_id_index,
                before == old(self).esmes,
                before.order().no_duplicates(),
                before.order().to_set() == before@.dom(),
                self.esmes@.dom() == before@.dom(),
                forall|j: int|
                    #![trigger before.order()[j]]
                    0 <= j < n ==> self.esmes@[before.order()[j]] == if j < i {
                        month_begun(before@[before.order()[j]])
                    } else {
                        before@[before.order()[j]]
                    },
            decreases n - i,
        {
            let ghost key = before.order()[i as int];
            assert(before.order().to_set().contains(key));
            let esme = self.esmes.value_mut(i);
            esme.quota.current_monthly_messages = 0;
            esme.quota.current_monthly_spend = 0;
            assert(self.esmes@.dom() =~= before@.dom());
            i += 1;
        }
        assert forall|id: Seq<char>|
            #![trigger self@.esmes[id]]
            old(self)@.esmes.dom().contains(id) implies self@.esmes[id] == month_begun(
            old(self)@.esmes[id],
        ) by {
            assert(before.order().to_set().contains(id));
            let j = before.order().index_of(id);
            assert(before.order()[j] == id);
        }
    }
}

/// An account at the start of a day.
pub open spec fn day_begun(e: Esme) -> Esme {
    Esme { quota: EsmeQuota { current_daily_messages: 0, ..e.quota }, ..e }
}

/// An account at the start of a month.
pub open spec fn month_begun(e: Esme) -> Esme {
    Esme {
        quota: EsmeQuota { current_monthly_messages: 0, current_monthly_spend: 0, ..e.quota },
        ..e
    }
}

impl Default for MemoryEsmeStore {
    fn default() -> (s: Self)
        ensures
            s@ == no_esmes(),
    {
        MemoryEsmeStore::new()
    }
}

impl EsmeStore for MemoryEsmeStore {
    fn get(&self, id: &str) -> (e: Option<&Esme>)
        ensures
            opt_esme(e) == esme_by_id(self@, id@),
    {
        self.esmes.get(id)
    }

    fn get_by_system_id(&self, system_id: &str) -> (e: Option<&Esme>)
        ensures
            opt_esme(e) == esme_by_system_id(self@, system_id@),
    {
        match self.system_id_index.get(system_id) {
            Some(id) => self.esmes.get(id.as_str()),
            None => None,
        }
    }

    fn list(&self) -> (listed: Vec<&Esme>)
        ensures
            self.order().to_set() == self@.esmes.dom(),
            self.order().no_duplicates(),
            referred(listed@) == accounts_of(self@.esmes, self.order(), false),
    {
        self.accounts(false)
    }

    fn save(&mut self, esme: Esme) -> (r: Result<(), String>)
        ensures
            final(self)@ == saved(old(self)@, esme),
            r is Ok,
    {
        let id = esme.id.clone();
        let system_id = esme.credentials.system_id.clone();
        if let Some(existing) = self.esmes.get(id.as_str()) {
            let _ = self.system_id_index.remove(existing.credentials.system_id.as_str());
        }
        self.system_id_index.insert(system_id, id.clone());
        self.esmes.insert(id, esme);
        assert(self@.index =~= saved(old(self)@, esme).index);
        Ok(())
    }

    fn delete(&mut self, id: &str) -> (r: Result<(), String>)
        ensures
            final(self)@ == deleted(old(self)@, id@),
            match r {
                Ok(_) => old(self)@.esmes.dom().contains(id@),
                Err(e) => !old(self)@.esmes.dom().contains(id@) && e@ == "ESME not found: "@ + id@,
            },
    {
        match self.esmes.remove(id) {
            Some(esme) => {
                let _ = self.system_id_index.remove(esme.credentials.system_id.as_str());
                assert(self@.index =~= deleted(old(self)@, id@).index);
                Ok(())
            },
            None => {
                let mut error = "ESME not found: ".to_string();
                error.append(id);
                Err(error)
            },
        }
    }

    fn authenticate(&self, system_id: &str, password: &str, ip: Option<&str>) -> (r: AuthResult<'_>)
        ensures
            exists|found: Option<&Esme>| #[trigger]
                opt_esme(found) == esme_by_system_id(self@, system_id@) && r == auth_outcome(
                    found,
                    password@,
                    match ip {
                        Some(a) => Some(a@),
                        None => None,
                    },
                ),
    {
        let found = self.get_by_system_id(system_id);
        assert(opt_esme(found) == esme_by_system_id(self@, system_id@));
        let esme = match found {
            Some(e) => e,
            None => {
                return AuthResult::NotFound;
            },
        };
        if !esme.status.can_send() {
            return AuthResult::Suspended(esme.status);
        }
        if !same(esme.credentials.password.as_str(), password) {
            return AuthResult::InvalidCredentials;
        }
        if let Some(client_ip) = ip {
            if !esme.is_ip_allowed(client_ip) {
                return AuthResult::IpNotAllowed;
            }
        }
        AuthResult::Success(esme)
    }
}

/// Every entry of the index leads to an account with that system ID.
pub open spec fn index_consistent(s: EsmesView) -> bool {
    forall|system_id: Seq<char>|
        #![trigger s.index[system_id]]
        s.index.dom().contains(system_id) ==> s.esmes.dom().contains(s.index[system_id])
            && s.esmes[s.index[system_id]].credentials.system_id@ == system_id
}

/// Every account is kept under its ID.
pub open spec fn ids_consistent(s: EsmesView) -> bool {
    forall|id: Seq<char>|
        #![trigger s.esmes[id]]
        s.esmes.dom().contains(id) ==> s.esmes[id].id@ == id
}

/// The index of the system IDs stays consistent with the accounts.
pub proof fn index_stays_consistent(s: EsmesView, esme: Esme, id: Seq<char>)
    requires
        index_consistent(s),
        ids_consistent(s),
    ensures
        index_consistent(saved(s, esme)),
        ids_consistent(saved(s, esme)),
        index_consistent(deleted(s, id)),
        ids_consistent(deleted(s, id)),
        index_consistent(no_esmes()),
        ids_consistent(no_esmes()),
{
}

/// An account that was saved is found under its ID and under its system ID,
/// and no other account changes.
pub proof fn saved_accounts_are_found(s: EsmesView, esme: Esme, other: Seq<char>)
    ensures
        esme_by_id(saved(s, esme), esme.id@) == Some(esme),
        esme_by_system_id(saved(s, esme), esme.credentials.system_id@) == Some(esme),
        other != esme.id@ ==> esme_by_id(saved(s, esme), other) == esme_by_id(s, other),
{
}

/// An account that got another system ID is no longer found under the old one.
pub proof fn renamed_accounts_lose_the_old_name(s: EsmesView, esme: Esme)
    requires
        s.esmes.dom().contains(esme.id@),
        s.esmes[esme.id@].credentials.system_id@ != esme.credentials.system_id@,
    ensures
        esme_by_system_id(saved(s, esme), s.esmes[esme.id@].credentials.system_id@) is None,
{
}

/// An account that was removed is found neither under its ID nor under its
/// system ID.
pub proof fn deleted_accounts_are_gone(s: EsmesView, id: Seq<char>)
    requires
        s.esmes.dom().contains(id),
    ensures
        esme_by_id(deleted(s, id), id) is None,
        esme_by_system_id(deleted(s, id), s.esmes[id].credentials.system_id@) is None,
{
}

/// Only an account that can send messages binds, with its password, and from
/// an address that is allowed.
pub proof fn binding_needs_everything(
    found: Option<&Esme>,
    password: Seq<char>,
    ip: Option<Seq<char>>,
)
    ensures
        auth_outcome(found, password, ip) is Success <==> {
            &&& found matches Some(esme)
            &&& esme.status.sends()
            &&& esme.credentials.password@ == password
            &&& ip matches Some(address) ==> allowed_by(esme.credentials.ip_allow_list, address)
        },
{
}

/// Use of an account.
#[derive(Debug)]
pub struct EsmeUsageStats {
    pub esme_id: String,
    pub total_messages: u64,
    pub delivered_messages: u64,
    pub failed_messages: u64,
    pub total_cost: i64,
    pub total_revenue: i64,
    pub avg_latency_ms: u64,
    /// Messages per minute, by the bits of a 64-bit float.
    pub current_rate_bits: u64,
}

/// Use of an account.
#[verifier::ext_equal]
pub struct UsageView {
    pub total: nat,
    pub delivered: nat,
    pub failed: nat,
    pub cost: int,
    pub revenue: int,
    pub avg_latency: nat,
}

impl View for EsmeUsageStats {
    type V = UsageView;

    open spec fn view(&self) -> UsageView {
        UsageView {
            total: self.total_messages as nat,
            delivered: self.delivered_messages as nat,
            failed: self.failed_messages as nat,
            cost: self.total_cost as int,
            revenue: self.total_revenue as int,
            avg_latency: self.avg_latency_ms as nat,
        }
    }
}

/// No use.
pub open spec fn unused() -> UsageView {
    UsageView { total: 0, delivered: 0, failed: 0, cost: 0, revenue: 0, avg_latency: 0 }
}

/// The use after a message.
pub open spec fn used(u: UsageView, cost: i64, revenue: i64, delivered: bool, latency: u64) -> UsageView {
    let d = u.delivered + if delivered {
        1nat
    } else {
        0
    };
    let f = u.failed + if delivered {
        0nat
    } else {
        1
    };
    UsageView {
        total: u.total + 1,
        delivered: d,
        failed: f,
        cost: u.cost + cost,
        revenue: u.revenue + revenue,
        avg_latency: (u.avg_latency * (u.delivered + u.failed) + latency as nat) / (d + f),
    }
}

/// The numbers of a use can be kept after one more message.
pub open spec fn can_count(u: UsageView, cost: i64, revenue: i64, latency: u64) -> bool {
    &&& u.total < u64::MAX
    &&& u.delivered + u.failed < u64::MAX
    &&& i64::MIN <= u.cost + cost <= i64::MAX
    &&& i64::MIN <= u.revenue + revenue <= i64::MAX
    &&& u.avg_latency * (u.delivered + u.failed) + latency <= u64::MAX
}

impl EsmeUsageStats {
    /// No use of an account.
    pub fn new(esme_id: &str) -> (s: Self)
        ensures
            s@ == unused(),
            s.esme_id@ == esme_id@,
            s.current_rate_bits == 0,
    {
        EsmeUsageStats {
            esme_id: esme_id.to_string(),
            total_messages: 0,
            delivered_messages: 0,
            failed_messages: 0,
            total_cost: 0,
            total_revenue: 0,
            avg_latency_ms: 0,
            current_rate_bits: 0,
        }
    }

    /// Notes a message.
    pub fn record(&mut self, cost: i64, revenue: i64, delivered: bool, latency_ms: u64)
        requires
            can_count(old(self)@, cost, revenue, latency_ms),
        ensures
            final(self)@ == used(old(self)@, cost, revenue, delivered, latency_ms),
            final(self).esme_id == old(self).esme_id,
            final(self).current_rate_bits == old(self).current_rate_bits,
    {
        let counted: u64 = self.delivered_messages + self.failed_messages;
        self.total_messages = self.total_messages + 1;
        if delivered {
            self.delivered_messages = self.delivered_messages + 1;
        } else {
            self.failed_messages = self.failed_messages + 1;
        }
        self.total_cost = self.total_cost + cost;
        self.total_revenue = self.total_revenue + revenue;
        assert(self.avg_latency_ms * counted <= u64::MAX);
        self.avg_latency_ms = (self.avg_latency_ms * counted + latency_ms) / (counted + 1);
    }
}

/// Accounts at work.
#[derive(Debug)]
pub struct EsmeManager<S> {
    store: S,
    stats: StringMap<EsmeUsageStats>,
}

impl<S: EsmeStore> EsmeManager<S> {
    /// The store of the accounts.
    pub closed spec fn accounts(&self) -> S {
        self.store
    }

    /// Use of the accounts by their IDs.
    pub closed spec fn usage(&self) -> Map<Seq<char>, EsmeUsageStats> {
        self.stats@
    }

    /// The IDs of the accounts with some use, in the order in which they are
    /// listed.
    pub closed spec fn usage_order(&self) -> Seq<Seq<char>> {
        self.stats.order()
    }

    /// Use of an account.
    pub open spec fn usage_of(&self, id: Seq<char>) -> UsageView {
        if self.usage().dom().contains(id) {
            self.usage()[id]@
        } else {
            unused()
        }
    }

    /// A manager of the accounts of a store.
    pub fn new(store: S) -> (m: Self)
        ensures
            m.accounts() == store,
            m.usage() == Map::<Seq<char>, EsmeUsageStats>::empty(),
    {
        EsmeManager { store, stats: StringMap::new() }
    }

    /// Decides whether an account may bind.
    pub fn authenticate(&self, system_id: &str, password: &str, ip: Option<&str>) -> (r: AuthResult<
        '_,
    >)
        ensures
            call_ensures(S::authenticate, (&self.accounts(), system_id, password, ip), r),
    {
        self.store.authenticate(system_id, password, ip)
    }

    /// An account by its ID.
    pub fn get(&self, id: &str) -> (e: Option<&Esme>)
        ensures
            call_ensures(S::get, (&self.accounts(), id), e),
    {
        self.store.get(id)
    }

    /// An account by its system ID.
    pub fn get_by_system_id(&self, system_id: &str) -> (e: Option<&Esme>)
        ensures
            call_ensures(S::get_by_system_id, (&self.accounts(), system_id), e),
    {
        self.store.get_by_system_id(system_id)
    }

    /// Notes a message of an account.
    pub fn record_message(
        &mut self,
        esme_id: &str,
        cost: i64,
        revenue: i64,
        delivered: bool,
        latency_ms: u64,
    )
        requires
            can_count(old(self).usage_of(esme_id@), cost, revenue, latency_ms),
        ensures
            final(self).accounts() == old(self).accounts(),
            final(self).usage().dom() == old(self).usage().dom().insert(esme_id@),
            old(self).usage().dom().contains(esme_id@) ==> {
                &&& final(self).usage()[esme_id@].esme_id == old(self).usage()[esme_id@].esme_id
                &&& final(self).usage()[esme_id@].current_rate_bits
                    == old(self).usage()[esme_id@].current_rate_bits
            },
            !old(self).usage().dom().contains(esme_id@) ==> {
                &&& final(self).usage()[esme_id@].esme_id@ == esme_id@
                &&& final(self).usage()[esme_id@].current_rate_bits == 0
            },
            final(self).usage_of(esme_id@) == used(
                old(self).usage_of(esme_id@),
                cost,
                revenue,
                delivered,
                latency_ms,
            ),
            forall|id: Seq<char>|
                #![trigger final(self).usage()[id]]
                id != esme_id@ && old(self).usage().dom().contains(id) ==> final(self).usage()[id]
                    == old(self).usage()[id],
    {
        let mut entry = match self.stats.remove(esme_id) {
            Some(entry) => entry,
            None => EsmeUsageStats::new(esme_id),
        };
        entry.record(cost, revenue, delivered, latency_ms);
        self.stats.insert(esme_id.to_string(), entry);
        assert(self.usage().dom() =~= old(self).usage().dom().insert(esme_id@));
    }

    /// Use of an account.
    pub fn get_stats(&self, esme_id: &str) -> (s: Option<&EsmeUsageStats>)
        ensures
            match s {
                Some(s) => self.usage().dom().contains(esme_id@) && *s == self.usage()[esme_id@],
                None => !self.usage().dom().contains(esme_id@),
            },
    {
        self.stats.get(esme_id)
    }

    /// Use of all accounts.
    pub fn all_stats(&self) -> (listed: Vec<&EsmeUsageStats>)
        ensures
            self.usage_order().to_set() == self.usage().dom(),
            self.usage_order().no_duplicates(),
            listed@.len() == self.usage_order().len(),
            forall|i: int|
                0 <= i < listed@.len() ==> *#[trigger] listed@[i]
                    == self.usage()[self.usage_order()[i]],
    {
        let mut listed: Vec<&EsmeUsageStats> = Vec::new();
        let n: usize = self.stats.len();
        let mut i: usize = 0;
        while i < n
            invariant
                i <= n,
                n == self.stats.order().len(),
                listed@.len() == i,
                forall|j: int|
                    0 <= j < i ==> *#[trigger] listed@[j] == self.stats@[self.stats.order()[j]],
            decreases n - i,
        {
            let (_, entry) = self.stats.entry(i);
            listed.push(entry);
            i += 1;
        }
        proof {
            crate::collections::map_order_lists_the_keys(&self.stats);
        }
        listed
    }

    /// The store of the accounts.
    pub fn store(&self) -> (s: &S)
        ensures
            *s == self.accounts(),
    {
        &self.store
    }
}

/// Every message counts as delivered or as failed.
pub proof fn messages_are_delivered_or_failed(
    u: UsageView,
    cost: i64,
    revenue: i64,
    delivered: bool,
    latency: u64,
)
    requires
        u.total == u.delivered + u.failed,
    ensures
        ({
            let after = used(u, cost, revenue, delivered, latency);
            after.total == after.delivered + after.failed
        }),
{
}

/// A quota without limits is never used up.
pub proof fn unlimited_quotas_are_never_used_up(q: EsmeQuota)
    requires
        q.monthly_messages == 0,
        q.monthly_spend == 0,
        q.daily_messages == 0,
    ensures
        !q.used_up(),
{
}

} // verus!
