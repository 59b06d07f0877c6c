//! Configuration of the rule engine.

use crate::collections::StringMap;
use crate::text::copy_opt;
use crate::time::Duration;
use vstd::prelude::*;

verus! {

/// What to do when no rule decides.
#[derive(Debug, Clone, Copy, PartialEq, Eq, Structural)]
pub enum Policy {
    Accept,
    Drop,
    Reject,
}

impl Default for Policy {
    fn default() -> (p: Self)
        ensures
            p == Policy::Accept,
    {
        Policy::Accept
    }
}

/// Where an external list comes from.
#[derive(Debug, Clone, Copy, PartialEq, Eq, Structural)]
pub enum ListType {
    /// A file with one entry per line.
    File,
    /// A URL to fetch.
    Http,
    /// A Redis set.
    Redis,
}

/// Configuration of an external list.
#[derive(Debug)]
pub struct ExternalListConfig {
    /// List type.
    pub list_type: ListType,
    /// Path to the list file.
    pub path: Option<String>,
    /// URL to fetch the list from.
    pub url: Option<String>,
    /// Reload interval.
    pub reload_interval: Option<Duration>,
}

/// The direction that a chain is for.
#[derive(Debug, Clone, Copy, PartialEq, Eq, Structural)]
pub enum ChainType {
    /// Incoming messages.
    Input,
    /// Outgoing messages.
    Output,
    /// Forwarding.
    Forward,
}

impl Default for ChainType {
    fn default() -> (t: Self)
        ensures
            t == ChainType::Input,
    {
        ChainType::Input
    }
}

/// What a rate limit counts by.
#[derive(Debug, Clone, Copy, PartialEq, Eq, Structural)]
pub enum RateKey {
    SystemId,
    Source,
    Destination,
    ClientIp,
    SenderId,
}

/// How a text is matched.
#[derive(Debug, Clone, Copy, PartialEq, Eq, Structural)]
pub enum StringMatchType {
    Exact,
    Prefix,
    Suffix,
    Contains,
    Regex,
    List,
}

impl Default for StringMatchType {
    fn default() -> (t: Self)
        ensures
            t == StringMatchType::Exact,
    {
        StringMatchType::Exact
    }
}

/// A text to match.
#[derive(Debug)]
pub struct StringMatcherConfig {
    /// How to match.
    pub match_type: StringMatchType,
    /// The text, for an exact, prefix, suffix or contains match.
    pub value: Option<String>,
    /// The pattern, for a regex match.
    pub pattern: Option<String>,
    /// The list name, for a list match.
    pub list: Option<String>,
    /// Turn the answer round.
    pub negate: bool,
}

/// How content is matched.
#[derive(Debug, Clone, Copy, PartialEq, Eq, Structural)]
pub enum ContentMatchType {
    Contains,
    Exact,
    Regex,
    Keywords,
}

impl Default for ContentMatchType {
    fn default() -> (t: Self)
        ensures
            t == ContentMatchType::Contains,
    {
        ContentMatchType::Contains
    }
}

/// Content to match.
#[derive(Debug)]
pub struct ContentMatcherConfig {
    /// How to match.
    pub match_type: ContentMatchType,
    /// The text, for an exact or contains match.
    pub value: Option<String>,
    /// The pattern, for a regex match.
    pub pattern: Option<String>,
    /// The name of a keyword list.
    pub list: Option<String>,
    /// Match in any case.
    pub case_insensitive: bool,
    /// Turn the answer round.
    pub negate: bool,
}

/// How an address is matched.
#[derive(Debug, Clone, Copy, PartialEq, Eq, Structural)]
pub enum IpMatchType {
    Exact,
    Cidr,
    List,
}

impl Default for IpMatchType {
    fn default() -> (t: Self)
        ensures
            t == IpMatchType::Exact,
    {
        IpMatchType::Exact
    }
}

/// An address to match.
#[derive(Debug)]
pub struct IpMatcherConfig {
    /// How to match.
    pub match_type: IpMatchType,
    /// An address, or a network in CIDR notation.
    pub value: Option<String>,
    /// The list name, for a list match.
    pub list: Option<String>,
    /// Turn the answer round.
    pub negate: bool,
}

/// A condition of a rule.
#[derive(Debug)]
pub enum ConditionConfig {
    /// The source address.
    Source { matcher: StringMatcherConfig },
    /// The destination address.
    Destination { matcher: StringMatcherConfig },
    /// The sender ID.
    SenderId { matcher: StringMatcherConfig },
    /// The system ID.
    SystemId { matcher: StringMatcherConfig },
    /// The message content.
    Content { matcher: ContentMatcherConfig },
    /// The content length.
    ContentLength { min: Option<usize>, max: Option<usize>, negate: bool },
    /// The ESM class, under a mask.
    EsmClass { value: u8, mask: Option<u8> },
    /// The protocol ID.
    ProtocolId { value: u8 },
    /// The data coding.
    DataCoding { value: u8 },
    /// The client address.
    ClientIp { matcher: IpMatcherConfig },
    /// Whether the connection uses TLS.
    TlsEnabled { value: bool },
    /// More messages than a threshold in a time window.
    Rate { key: RateKey, window: Duration, threshold: u64 },
    /// A span of the day, from and to `HH:MM`, in a time zone. Without a zone,
    /// and with one that is not known, the times are in UTC.
    Time { start: String, end: String, timezone: Option<String> },
    /// Days of the week, counted from Sunday.
    DayOfWeek { days: Vec<u8> },
    /// The opposite of a condition.
    Not { condition: Box<ConditionConfig> },
    /// All of several.
    And { conditions: Vec<ConditionConfig> },
    /// One of several.
    Or { conditions: Vec<ConditionConfig> },
    /// A condition of a plugin, with its parameters as YAML text.
    Plugin { name: String, params: String },
}

/// Severity of a log entry.
#[derive(Debug, Clone, Copy, PartialEq, Eq, Structural)]
pub enum LogLevel {
    Trace,
    Debug,
    Info,
    Warn,
    Error,
}

impl Default for LogLevel {
    fn default() -> (l: Self)
        ensures
            l == LogLevel::Info,
    {
        LogLevel::Info
    }
}

/// What a rule does when its conditions hold.
#[derive(Debug)]
pub enum ActionConfig {
    /// Accept the message.
    Accept,
    /// Drop it silently.
    Drop,
    /// Reject it with a status.
    Reject { status: u32, reason: Option<String> },
    /// Log it, and take another action if there is one. Without a message the
    /// line names the source and the destination.
    Log { level: LogLevel, message: Option<String>, then_action: Option<Box<ActionConfig>> },
    /// Reject it with a status if more messages than a limit come in a window,
    /// counted by a key; else go on with the next chain.
    RateLimit { key: RateKey, window: Duration, limit: u64, status: u32 },
    /// Modify fields of the message. The chains that follow see the message as
    /// it came.
    Modify {
        set_source: Option<String>,
        set_destination: Option<String>,
        set_content: Option<String>,
        prepend_content: Option<String>,
        append_content: Option<String>,
    },
    /// Answer what another chain answers. Without such a chain, and when the
    /// jumps go round in a circle, go on with the next chain.
    Jump { chain: String },
    /// Leave the chain, and go on with the next one.
    Return,
    /// Keep the message for review.
    Quarantine,
    /// Delay the message, and go on with the next chain.
    Delay { duration: Duration },
    /// Set metadata of the message, and go on with the next chain.
    Mark { key: String, value: String },
    /// An action of a plugin, with its parameters as YAML text. There are no
    /// plugins, so it goes on with the next chain.
    Plugin { name: String, action: String, params: String },
}

impl Clone for ActionConfig {
    fn clone(&self) -> (res: Self)
        ensures
            res == *self,
        decreases self,
    {
        match self {
            ActionConfig::Accept => ActionConfig::Accept,
            ActionConfig::Drop => ActionConfig::Drop,
            ActionConfig::Reject { status, reason } => ActionConfig::Reject {
                status: *status,
                reason: copy_opt(reason),
            },
            ActionConfig::Log { level, message, then_action } => {
                let copy = match then_action {
                    Some(a) => Some(Box::new((&**a).clone())),
                    None => None,
                };
                ActionConfig::Log { level: *level, message: copy_opt(message), then_action: copy }
            },
            ActionConfig::RateLimit { key, window, limit, status } => ActionConfig::RateLimit {
                key: *key,
                window: *window,
                limit: *limit,
                status: *status,
            },
            ActionConfig::Modify {
                set_source,
                set_destination,
                set_content,
                prepend_content,
                append_content,
            } => ActionConfig::Modify {
                set_source: copy_opt(set_source),
                set_destination: copy_opt(set_destination),
                set_content: copy_opt(set_content),
                prepend_content: copy_opt(prepend_content),
                append_content: copy_opt(append_content),
            },
            ActionConfig::Jump { chain } => ActionConfig::Jump { chain: chain.clone() },
            ActionConfig::Return => ActionConfig::Return,
            ActionConfig::Quarantine => ActionConfig::Quarantine,
            ActionConfig::Delay { duration } => ActionConfig::Delay { duration: *duration },
            ActionConfig::Mark { key, value } => ActionConfig::Mark {
                key: key.clone(),
                value: value.clone(),
            },
            ActionConfig::Plugin { name, action, params } => ActionConfig::Plugin {
                name: name.clone(),
                action: action.clone(),
                params: params.clone(),
            },
        }
    }
}

/// A rule.
#[derive(Debug)]
pub struct RuleConfig {
    /// Name, for logs.
    pub name: Option<String>,
    /// Whether the rule is used.
    pub enabled: bool,
    /// Conditions that must all hold.
    pub conditions: Vec<ConditionConfig>,
    /// What to do when they hold.
    pub action: ActionConfig,
}

/// A chain of rules.
#[derive(Debug)]
pub struct ChainConfig {
    /// Chain name.
    pub name: String,
    /// Chain type.
    pub chain_type: ChainType,
    /// Priority; chains with a lower one are evaluated first.
    pub priority: i32,
    /// What to do when no rule matches.
    pub policy: Policy,
    /// The rules.
    pub rules: Vec<RuleConfig>,
}

/// Firewall configuration.
#[derive(Debug)]
pub struct FirewallConfig {
    /// Whether the firewall does anything.
    pub enabled: bool,
    /// What to do when no chain decides.
    pub default_policy: Policy,
    /// External lists.
    pub lists: StringMap<ExternalListConfig>,
    /// Chains.
    pub chains: Vec<ChainConfig>,
}

impl Default for FirewallConfig {
    fn default() -> (c: Self)
        ensures
            !c.enabled,
            c.default_policy == Policy::Accept,
            c.lists@ == Map::<Seq<char>, ExternalListConfig>::empty(),
            c.chains@ == Seq::<ChainConfig>::empty(),
    {
        FirewallConfig {
            enabled: false,
            default_policy: Policy::Accept,
            lists: StringMap::new(),
            chains: Vec::new(),
        }
    }
}

/// What can be wrong with a firewall.
#[derive(Debug)]
pub enum FirewallError {
    ConfigError(String),
    EvaluationError(String),
    ListNotFound(String),
    InvalidCondition(String),
    ChainNotFound(String),
    RegexError(regex::Error),
    IoError(String),
}

/// What an error says.
#[verifier::ext_equal]
pub enum FirewallErrorView {
    ConfigError(Seq<char>),
    EvaluationError(Seq<char>),
    ListNotFound(Seq<char>),
    InvalidCondition(Seq<char>),
    ChainNotFound(Seq<char>),
    RegexError,
    IoError(Seq<char>),
}

impl View for FirewallError {
    type V = FirewallErrorView;

    open spec fn view(&self) -> FirewallErrorView {
        match self {
            FirewallError::ConfigError(m) => FirewallErrorView::ConfigError(m@),
            FirewallError::EvaluationError(m) => FirewallErrorView::EvaluationError(m@),
            FirewallError::ListNotFound(m) => FirewallErrorView::ListNotFound(m@),
            FirewallError::InvalidCondition(m) => FirewallErrorView::InvalidCondition(m@),
            FirewallError::ChainNotFound(m) => FirewallErrorView::ChainNotFound(m@),
            FirewallError::RegexError(_) => FirewallErrorView::RegexError,
            FirewallError::IoError(m) => FirewallErrorView::IoError(m@),
        }
    }
}

} // verus!
