//! Compilation and evaluation of firewall rules.

use super::context::{
    effect_views, rate_value, terminal, Effect, EffectView, EvaluationContext, EvaluationResult,
    EvaluationResultView,
};
use super::types::{
    ActionConfig, ChainConfig, ChainType, ConditionConfig, ContentMatchType, ContentMatcherConfig,
    FirewallConfig, FirewallError, FirewallErrorView, IpMatchType, IpMatcherConfig, Policy,
    RateKey, RuleConfig, StringMatchType, StringMatcherConfig,
};
use crate::collections::{texts, StringMap};
use crate::net::{
    ip_text, net_contains, parse_ip, parse_net, parsed_ip, parsed_net, IpAddr, IpNet,
};
use crate::regexes::{compile, is_match, regex_matches, regex_pattern, regex_valid};
use crate::text::{
    contains, copy_opt, ends_with, has_substring, lowercase, opt_text, parse_number,
    parsed_number, same, split, split_text, starts_with, to_lowercase,
};
use crate::time::{
    elapsed_nanos, read_in_zone, utc_day_from_sunday, utc_hour, utc_minute, utc_now,
    zoned_reading, Clock, Duration, Instant, UtcTime,
};
use vstd::prelude::*;

verus! {

/// A test of a text.
#[verifier::ext_equal]
pub enum TextTest {
    Exact(Seq<char>),
    Prefix(Seq<char>),
    Suffix(Seq<char>),
    Contains(Seq<char>),
    Regex(Seq<char>),
    List(Seq<char>),
}

/// A test of message content. The flags say whether case is left out.
#[verifier::ext_equal]
pub enum ContentTest {
    Contains(Seq<char>, bool),
    Exact(Seq<char>, bool),
    Regex(Seq<char>),
    Keywords(Seq<char>, bool),
}

/// A test of an address.
#[verifier::ext_equal]
pub enum IpTest {
    Exact(IpAddr),
    Cidr(IpNet),
    List(Seq<char>),
}

/// What a condition asks. The flags beside the tests turn the answer round.
#[verifier::ext_equal]
pub enum Condition {
    Source(TextTest, bool),
    Destination(TextTest, bool),
    SenderId(TextTest, bool),
    SystemId(TextTest, bool),
    Content(ContentTest, bool),
    ContentLength(Option<usize>, Option<usize>, bool),
    EsmClass(u8, Option<u8>),
    ProtocolId(u8),
    DataCoding(u8),
    ClientIp(IpTest, bool),
    TlsEnabled(bool),
    /// The key, the window in nanoseconds and the threshold.
    Rate(RateKey, nat, u64),
    /// The hour and minute of the start, those of the end, and the time zone.
    Time(nat, nat, nat, nat, Option<Seq<char>>),
    DayOfWeek(Seq<u8>),
    Not(Box<Condition>),
    And(Seq<Condition>),
    Or(Seq<Condition>),
}

/// A condition that cannot be compiled.
pub open spec fn invalid<T>(message: Seq<char>) -> Result<T, FirewallErrorView> {
    Err(FirewallErrorView::InvalidCondition(message))
}

/// The test that a text matcher stands for.
pub open spec fn text_test(m: StringMatcherConfig) -> Result<TextTest, FirewallErrorView> {
    match m.match_type {
        StringMatchType::Exact => match m.value {
            Some(v) => Ok(TextTest::Exact(v@)),
            None => invalid("exact match requires value"@),
        },
        StringMatchType::Prefix => match m.value {
            Some(v) => Ok(TextTest::Prefix(v@)),
            None => invalid("prefix match requires value"@),
        },
        StringMatchType::Suffix => match m.value {
            Some(v) => Ok(TextTest::Suffix(v@)),
            None => invalid("suffix match requires value"@),
        },
        StringMatchType::Contains => match m.value {
            Some(v) => Ok(TextTest::Contains(v@)),
            None => invalid("contains match requires value"@),
        },
        StringMatchType::Regex => match m.pattern {
            Some(p) => if regex_valid(p@) {
                Ok(TextTest::Regex(p@))
            } else {
                Err(FirewallErrorView::RegexError)
            },
            None => invalid("regex match requires pattern"@),
        },
        StringMatchType::List => match m.list {
            Some(l) => Ok(TextTest::List(l@)),
            None => invalid("list match requires list name"@),
        },
    }
}

/// The pattern of a content matcher; one that leaves out case has a flag
/// before it.
pub open spec fn content_pattern(pattern: Seq<char>, case_insensitive: bool) -> Seq<char> {
    if case_insensitive {
        "(?i)"@ + pattern
    } else {
        pattern
    }
}

/// The test that a content matcher stands for.
pub open spec fn content_test(m: ContentMatcherConfig) -> Result<ContentTest, FirewallErrorView> {
    match m.match_type {
        ContentMatchType::Contains => match m.value {
            Some(v) => Ok(ContentTest::Contains(v@, m.case_insensitive)),
            None => invalid("contains match requires value"@),
        },
        ContentMatchType::Exact => match m.value {
            Some(v) => Ok(ContentTest::Exact(v@, m.case_insensitive)),
            None => invalid("exact match requires value"@),
        },
        ContentMatchType::Regex => match m.pattern {
            Some(p) => {
                let full = content_pattern(p@, m.case_insensitive);
                if regex_valid(full) {
                    Ok(ContentTest::Regex(full))
                } else {
                    Err(FirewallErrorView::RegexError)
                }
            },
            None => invalid("regex match requires pattern"@),
        },
        ContentMatchType::Keywords => match m.list {
            Some(l) => Ok(ContentTest::Keywords(l@, m.case_insensitive)),
            None => invalid("keywords match requires list name"@),
        },
    }
}

/// The test that an address matcher stands for.
pub open spec fn ip_test(m: IpMatcherConfig) -> Result<IpTest, FirewallErrorView> {
    match m.match_type {
        IpMatchType::Exact => match m.value {
            Some(v) => match parsed_ip(v@) {
                Some(ip) => Ok(IpTest::Exact(ip)),
                None => invalid("invalid IP address: "@ + v@),
            },
            None => invalid("exact IP match requires value"@),
        },
        IpMatchType::Cidr => match m.value {
            Some(v) => match parsed_net(v@) {
                Some(net) => Ok(IpTest::Cidr(net)),
                None => invalid("invalid CIDR: "@ + v@),
            },
            None => invalid("CIDR match requires value"@),
        },
        IpMatchType::List => match m.list {
            Some(l) => Ok(IpTest::List(l@)),
            None => invalid("list IP match requires list name"@),
        },
    }
}

/// The hour and minute that a time writes: two numbers with a colon between.
pub open spec fn clock_time(text: Seq<char>) -> Result<(nat, nat), FirewallErrorView> {
    let parts = split_text(text, ':');
    if parts.len() != 2 {
        invalid("invalid time format: "@ + text)
    } else {
        match parsed_number(parts[0], u32::MAX as nat) {
            None => invalid("invalid hour: "@ + parts[0]),
            Some(hour) => match parsed_number(parts[1], u32::MAX as nat) {
                None => invalid("invalid minute: "@ + parts[1]),
                Some(minute) => Ok((hour, minute)),
            },
        }
    }
}

/// What a configured condition asks, or what is wrong with it.
pub open spec fn condition_of(config: ConditionConfig) -> Result<Condition, FirewallErrorView>
    decreases config,
{
    match config {
        ConditionConfig::Source { matcher } => match text_test(matcher) {
            Ok(t) => Ok(Condition::Source(t, matcher.negate)),
            Err(e) => Err(e),
        },
        ConditionConfig::Destination { matcher } => match text_test(matcher) {
            Ok(t) => Ok(Condition::Destination(t, matcher.negate)),
            Err(e) => Err(e),
        },
        ConditionConfig::SenderId { matcher } => match text_test(matcher) {
            Ok(t) => Ok(Condition::SenderId(t, matcher.negate)),
            Err(e) => Err(e),
        },
        ConditionConfig::SystemId { matcher } => match text_test(matcher) {
            Ok(t) => Ok(Condition::SystemId(t, matcher.negate)),
            Err(e) => Err(e),
        },
        ConditionConfig::Content { matcher } => match content_test(matcher) {
            Ok(t) => Ok(Condition::Content(t, matcher.negate)),
            Err(e) => Err(e),
        },
        ConditionConfig::ContentLength { min, max, negate } => Ok(
            Condition::ContentLength(min, max, negate),
        ),
        ConditionConfig::EsmClass { value, mask } => Ok(Condition::EsmClass(value, mask)),
        ConditionConfig::ProtocolId { value } => Ok(Condition::ProtocolId(value)),
        ConditionConfig::DataCoding { value } => Ok(Condition::DataCoding(value)),
        ConditionConfig::ClientIp { matcher } => match ip_test(matcher) {
            Ok(t) => Ok(Condition::ClientIp(t, matcher.negate)),
            Err(e) => Err(e),
        },
        ConditionConfig::TlsEnabled { value } => Ok(Condition::TlsEnabled(value)),
        ConditionConfig::Rate { key, window, threshold } => Ok(
            Condition::Rate(key, window@, threshold),
        ),
        ConditionConfig::Time { start, end, timezone } => match clock_time(start@) {
            Err(e) => Err(e),
            Ok(s) => match clock_time(end@) {
                Err(e) => Err(e),
                Ok(t) => Ok(Condition::Time(s.0, s.1, t.0, t.1, opt_text(timezone))),
            },
        },
        ConditionConfig::DayOfWeek { days } => Ok(Condition::DayOfWeek(days@)),
        ConditionConfig::Not { condition } => match condition_of(*condition) {
            Ok(c) => Ok(Condition::Not(Box::new(c))),
            Err(e) => Err(e),
        },
        ConditionConfig::And { conditions } => match conditions_of(conditions@) {
            Ok(cs) => Ok(Condition::And(cs)),
            Err(e) => Err(e),
        },
        ConditionConfig::Or { conditions } => match conditions_of(conditions@) {
            Ok(cs) => Ok(Condition::Or(cs)),
            Err(e) => Err(e),
        },
        ConditionConfig::Plugin { name, params } => invalid(
            "plugin conditions not yet supported"@,
        ),
    }
}

/// What a list of conditions asks, or what is wrong with the first one that
/// is wrong.
pub open spec fn conditions_of(configs: Seq<ConditionConfig>) -> Result<
    Seq<Condition>,
    FirewallErrorView,
>
    decreases configs,
{
    if configs.len() == 0 {
        Ok(Seq::empty())
    } else {
        match conditions_of(configs.drop_last()) {
            Err(e) => Err(e),
            Ok(cs) => match condition_of(configs.last()) {
                Err(e) => Err(e),
                Ok(c) => Ok(cs.push(c)),
            },
        }
    }
}

/// A compiled text matcher.
#[derive(Debug)]
pub enum StringMatcher {
    Exact { value: String, negate: bool },
    Prefix { value: String, negate: bool },
    Suffix { value: String, negate: bool },
    Contains { value: String, negate: bool },
    Regex { pattern: regex::Regex, negate: bool },
    List { list_name: String, negate: bool },
}

impl View for StringMatcher {
    type V = (TextTest, bool);

    open spec fn view(&self) -> (TextTest, bool) {
        match self {
            StringMatcher::Exact { value, negate } => (TextTest::Exact(value@), *negate),
            StringMatcher::Prefix { value, negate } => (TextTest::Prefix(value@), *negate),
            StringMatcher::Suffix { value, negate } => (TextTest::Suffix(value@), *negate),
            StringMatcher::Contains { value, negate } => (TextTest::Contains(value@), *negate),
            StringMatcher::Regex { pattern, negate } => (
                TextTest::Regex(regex_pattern(*pattern)),
                *negate,
            ),
            StringMatcher::List { list_name, negate } => (TextTest::List(list_name@), *negate),
        }
    }
}

/// A compiled content matcher.
#[derive(Debug)]
pub enum ContentMatcher {
    Contains { value: String, case_insensitive: bool, negate: bool },
    Exact { value: String, case_insensitive: bool, negate: bool },
    Regex { pattern: regex::Regex, negate: bool },
    Keywords { list_name: String, case_insensitive: bool, negate: bool },
}

impl View for ContentMatcher {
    type V = (ContentTest, bool);

    open spec fn view(&self) -> (ContentTest, bool) {
        match self {
            ContentMatcher::Contains { value, case_insensitive, negate } => (
                ContentTest::Contains(value@, *case_insensitive),
                *negate,
            ),
            ContentMatcher::Exact { value, case_insensitive, negate } => (
                ContentTest::Exact(value@, *case_insensitive),
                *negate,
            ),
            ContentMatcher::Regex { pattern, negate } => (
                ContentTest::Regex(regex_pattern(*pattern)),
                *negate,
            ),
            ContentMatcher::Keywords { list_name, case_insensitive, negate } => (
                ContentTest::Keywords(list_name@, *case_insensitive),
                *negate,
            ),
        }
    }
}

/// A compiled address matcher.
#[derive(Debug)]
pub enum IpMatcher {
    Exact { ip: IpAddr, negate: bool },
    Cidr { network: IpNet, negate: bool },
    List { list_name: String, negate: bool },
}

impl View for IpMatcher {
    type V = (IpTest, bool);

    open spec fn view(&self) -> (IpTest, bool) {
        match self {
            IpMatcher::Exact { ip, negate } => (IpTest::Exact(*ip), *negate),
            IpMatcher::Cidr { network, negate } => (IpTest::Cidr(*network), *negate),
            IpMatcher::List { list_name, negate } => (IpTest::List(list_name@), *negate),
        }
    }
}

/// A compiled condition.
#[derive(Debug)]
pub enum CompiledCondition {
    Source(StringMatcher),
    Destination(StringMatcher),
    SenderId(StringMatcher),
    SystemId(StringMatcher),
    Content(ContentMatcher),
    ContentLength { min: Option<usize>, max: Option<usize>, negate: bool },
    EsmClass { value: u8, mask: Option<u8> },
    ProtocolId { value: u8 },
    DataCoding { value: u8 },
    ClientIp(IpMatcher),
    TlsEnabled { value: bool },
    Rate { key: RateKey, window: Duration, threshold: u64 },
    Time {
        start_hour: u32,
        start_min: u32,
        end_hour: u32,
        end_min: u32,
        timezone: Option<String>,
    },
    DayOfWeek { days: Vec<u8> },
    Not(Box<CompiledCondition>),
    And(Vec<CompiledCondition>),
    Or(Vec<CompiledCondition>),
}

/// What a compiled condition asks.
pub open spec fn compiled_view(c: CompiledCondition) -> Condition
    decreases c,
{
    match c {
        CompiledCondition::Source(m) => Condition::Source(m@.0, m@.1),
        CompiledCondition::Destination(m) => Condition::Destination(m@.0, m@.1),
        CompiledCondition::SenderId(m) => Condition::SenderId(m@.0, m@.1),
        CompiledCondition::SystemId(m) => Condition::SystemId(m@.0, m@.1),
        CompiledCondition::Content(m) => Condition::Content(m@.0, m@.1),
        CompiledCondition::ContentLength { min, max, negate } => Condition::ContentLength(
            min,
            max,
            negate,
        ),
        CompiledCondition::EsmClass { value, mask } => Condition::EsmClass(value, mask),
        CompiledCondition::ProtocolId { value } => Condition::ProtocolId(value),
        CompiledCondition::DataCoding { value } => Condition::DataCoding(value),
        CompiledCondition::ClientIp(m) => Condition::ClientIp(m@.0, m@.1),
        CompiledCondition::TlsEnabled { value } => Condition::TlsEnabled(value),
        CompiledCondition::Rate { key, window, threshold } => Condition::Rate(
            key,
            window@,
            threshold,
        ),
        CompiledCondition::Time { start_hour, start_min, end_hour, end_min, timezone } => {
            Condition::Time(
                start_hour as nat,
                start_min as nat,
                end_hour as nat,
                end_min as nat,
                opt_text(timezone),
            )
        },
        CompiledCondition::DayOfWeek { days } => Condition::DayOfWeek(days@),
        CompiledCondition::Not(inner) => Condition::Not(Box::new(compiled_view(*inner))),
        CompiledCondition::And(cs) => Condition::And(compiled_views(cs@)),
        CompiledCondition::Or(cs) => Condition::Or(compiled_views(cs@)),
    }
}

/// What a list of compiled conditions asks.
pub open spec fn compiled_views(cs: Seq<CompiledCondition>) -> Seq<Condition>
    decreases cs,
{
    if cs.len() == 0 {
        Seq::empty()
    } else {
        compiled_views(cs.drop_last()).push(compiled_view(cs.last()))
    }
}

impl View for CompiledCondition {
    type V = Condition;

    open spec fn view(&self) -> Condition {
        compiled_view(*self)
    }
}

proof fn compiled_views_at(cs: Seq<CompiledCondition>, i: int)
    requires
        0 <= i < cs.len(),
    ensures
        compiled_views(cs).len() == cs.len(),
        compiled_views(cs)[i] == compiled_view(cs[i]),
    decreases cs.len(),
{
    let init = cs.drop_last();
    if init.len() > 0 {
        compiled_views_at(init, if i < init.len() { i } else { 0 });
    } else {
        assert(compiled_views(init) == Seq::<Condition>::empty());
    }
}

fn missing(message: &str) -> (e: FirewallError)
    ensures
        e@ == FirewallErrorView::InvalidCondition(message@),
{
    FirewallError::InvalidCondition(message.to_owned())
}

fn missing_with(message: &str, detail: &str) -> (e: FirewallError)
    ensures
        e@ == FirewallErrorView::InvalidCondition(message@ + detail@),
{
    let mut text = message.to_owned();
    text.append(detail);
    FirewallError::InvalidCondition(text)
}

fn compile_string_matcher(config: &StringMatcherConfig) -> (r: Result<
    StringMatcher,
    FirewallError,
>)
    ensures
        match text_test(*config) {
            Ok(t) => r matches Ok(m) && m@ == (t, config.negate),
            Err(e) => r matches Err(x) && x@ == e,
        },
{
    let negate = config.negate;
    match config.match_type {
        StringMatchType::Exact => match &config.value {
            Some(v) => Ok(StringMatcher::Exact { value: v.clone(), negate }),
            None => Err(missing("exact match requires value")),
        },
        StringMatchType::Prefix => match &config.value {
            Some(v) => Ok(StringMatcher::Prefix { value: v.clone(), negate }),
            None => Err(missing("prefix match requires value")),
        },
        StringMatchType::Suffix => match &config.value {
            Some(v) => Ok(StringMatcher::Suffix { value: v.clone(), negate }),
            None => Err(missing("suffix match requires value")),
        },
        StringMatchType::Contains => match &config.value {
            Some(v) => Ok(StringMatcher::Contains { value: v.clone(), negate }),
            None => Err(missing("contains match requires value")),
        },
        StringMatchType::Regex => match &config.pattern {
            Some(p) => match compile(p.as_str()) {
                Ok(pattern) => Ok(StringMatcher::Regex { pattern, negate }),
                Err(e) => Err(FirewallError::RegexError(e)),
            },
            None => Err(missing("regex match requires pattern")),
        },
        StringMatchType::List => match &config.list {
            Some(l) => Ok(StringMatcher::List { list_name: l.clone(), negate }),
            None => Err(missing("list match requires list name")),
        },
    }
}

fn compile_content_matcher(config: &ContentMatcherConfig) -> (r: Result<
    ContentMatcher,
    FirewallError,
>)
    ensures
        match content_test(*config) {
            Ok(t) => r matches Ok(m) && m@ == (t, config.negate),
            Err(e) => r matches Err(x) && x@ == e,
        },
{
    let negate = config.negate;
    let case_insensitive = config.case_insensitive;
    match config.match_type {
        ContentMatchType::Contains => match &config.value {
            Some(v) => Ok(
                ContentMatcher::Contains { value: v.clone(), case_insensitive, negate },
            ),
            None => Err(missing("contains match requires value")),
        },
        ContentMatchType::Exact => match &config.value {
            Some(v) => Ok(ContentMatcher::Exact { value: v.clone(), case_insensitive, negate }),
            None => Err(missing("exact match requires value")),
        },
        ContentMatchType::Regex => match &config.pattern {
            Some(p) => {
                let full = if case_insensitive {
                    let mut f = "(?i)".to_owned();
                    f.append(p.as_str());
                    f
                } else {
                    p.clone()
                };
                match compile(full.as_str()) {
                    Ok(pattern) => Ok(ContentMatcher::Regex { pattern, negate }),
                    Err(e) => Err(FirewallError::RegexError(e)),
                }
            },
            None => Err(missing("regex match requires pattern")),
        },
        ContentMatchType::Keywords => match &config.list {
            Some(l) => Ok(
                ContentMatcher::Keywords { list_name: l.clone(), case_insensitive, negate },
            ),
            None => Err(missing("keywords match requires list name")),
        },
    }
}

fn compile_ip_matcher(config: &IpMatcherConfig) -> (r: Result<IpMatcher, FirewallError>)
    ensures
        match ip_test(*config) {
            Ok(t) => r matches Ok(m) && m@ == (t, config.negate),
            Err(e) => r matches Err(x) && x@ == e,
        },
{
    let negate = config.negate;
    match config.match_type {
        IpMatchType::Exact => match &config.value {
            Some(v) => match parse_ip(v.as_str()) {
                Some(ip) => Ok(IpMatcher::Exact { ip, negate }),
                None => Err(missing_with("invalid IP address: ", v.as_str())),
            },
            None => Err(missing("exact IP match requires value")),
        },
        IpMatchType::Cidr => match &config.value {
            Some(v) => match parse_net(v.as_str()) {
                Some(network) => Ok(IpMatcher::Cidr { network, negate }),
                None => Err(missing_with("invalid CIDR: ", v.as_str())),
            },
            None => Err(missing("CIDR match requires value")),
        },
        IpMatchType::List => match &config.list {
            Some(l) => Ok(IpMatcher::List { list_name: l.clone(), negate }),
            None => Err(missing("list IP match requires list name")),
        },
    }
}

fn parse_time(time_str: &str) -> (r: Result<(u32, u32), FirewallError>)
    ensures
        match clock_time(time_str@) {
            Ok(t) => r matches Ok(x) && x.0 == t.0 && x.1 == t.1,
            Err(e) => r matches Err(x) && x@ == e,
        },
{
    let parts = split(time_str, ':');
    assert(texts(parts@).len() == parts@.len());
    if parts.len() != 2 {
        return Err(missing_with("invalid time format: ", time_str));
    }
    assert(texts(parts@)[0] == parts@[0]@);
    assert(texts(parts@)[1] == parts@[1]@);
    let hour: u64 = match parse_number(parts[0].as_str(), 0xffff_ffff) {
        Some(h) => h,
        None => return Err(missing_with("invalid hour: ", parts[0].as_str())),
    };
    let min: u64 = match parse_number(parts[1].as_str(), 0xffff_ffff) {
        Some(m) => m,
        None => return Err(missing_with("invalid minute: ", parts[1].as_str())),
    };
    Ok((hour as u32, min as u32))
}

/// Compiles a condition.
pub fn compile_condition(config: &ConditionConfig) -> (r: Result<CompiledCondition, FirewallError>)
    ensures
        match condition_of(*config) {
            Ok(c) => r matches Ok(x) && x@ == c,
            Err(e) => r matches Err(x) && x@ == e,
        },
    decreases config,
{
    match config {
        ConditionConfig::Source { matcher } => match compile_string_matcher(matcher) {
            Ok(m) => Ok(CompiledCondition::Source(m)),
            Err(e) => Err(e),
        },
        ConditionConfig::Destination { matcher } => match compile_string_matcher(matcher) {
            Ok(m) => Ok(CompiledCondition::Destination(m)),
            Err(e) => Err(e),
        },
        ConditionConfig::SenderId { matcher } => match compile_string_matcher(matcher) {
            Ok(m) => Ok(CompiledCondition::SenderId(m)),
            Err(e) => Err(e),
        },
        ConditionConfig::SystemId { matcher } => match compile_string_matcher(matcher) {
            Ok(m) => Ok(CompiledCondition::SystemId(m)),
            Err(e) => Err(e),
        },
        ConditionConfig::Content { matcher } => match compile_content_matcher(matcher) {
            Ok(m) => Ok(CompiledCondition::Content(m)),
            Err(e) => Err(e),
        },
        ConditionConfig::ContentLength { min, max, negate } => Ok(
            CompiledCondition::ContentLength { min: *min, max: *max, negate: *negate },
        ),
        ConditionConfig::EsmClass { value, mask } => Ok(
            CompiledCondition::EsmClass { value: *value, mask: *mask },
        ),
        ConditionConfig::ProtocolId { value } => Ok(
            CompiledCondition::ProtocolId { value: *value },
        ),
        ConditionConfig::DataCoding { value } => Ok(
            CompiledCondition::DataCoding { value: *value },
        ),
        ConditionConfig::ClientIp { matcher } => match compile_ip_matcher(matcher) {
            Ok(m) => Ok(CompiledCondition::ClientIp(m)),
            Err(e) => Err(e),
        },
        ConditionConfig::TlsEnabled { value } => Ok(
            CompiledCondition::TlsEnabled { value: *value },
        ),
        ConditionConfig::Rate { key, window, threshold } => Ok(
            CompiledCondition::Rate { key: *key, window: *window, threshold: *threshold },
        ),
        ConditionConfig::Time { start, end, timezone } => {
            let (start_hour, start_min) = match parse_time(start.as_str()) {
                Ok(t) => t,
                Err(e) => return Err(e),
            };
            let (end_hour, end_min) = match parse_time(end.as_str()) {
                Ok(t) => t,
                Err(e) => return Err(e),
            };
            Ok(
                CompiledCondition::Time {
                    start_hour,
                    start_min,
                    end_hour,
                    end_min,
                    timezone: copy_opt(timezone),
                },
            )
        },
        ConditionConfig::DayOfWeek { days } => {
            let copy = crate::pdu::copy_bytes(days);
            Ok(CompiledCondition::DayOfWeek { days: copy })
        },
        ConditionConfig::Not { condition } => match compile_condition(condition) {
            Ok(c) => Ok(CompiledCondition::Not(Box::new(c))),
            Err(e) => Err(e),
        },
        ConditionConfig::And { conditions } => match compile_conditions(conditions) {
            Ok(cs) => Ok(CompiledCondition::And(cs)),
            Err(e) => Err(e),
        },
        ConditionConfig::Or { conditions } => match compile_conditions(conditions) {
            Ok(cs) => Ok(CompiledCondition::Or(cs)),
            Err(e) => Err(e),
        },
        ConditionConfig::Plugin { .. } => Err(missing("plugin conditions not yet supported")),
    }
}

proof fn conditions_error(configs: Seq<ConditionConfig>, n: int)
    requires
        0 <= n <= configs.len(),
        conditions_of(configs.take(n)) is Err,
    ensures
        conditions_of(configs) == conditions_of(configs.take(n)),
    decreases configs.len() - n,
{
    if n < configs.len() {
        assert(configs.take(n + 1).drop_last() == configs.take(n));
        conditions_error(configs, n + 1);
    } else {
        assert(configs.take(n) == configs);
    }
}

/// Compiles a list of conditions.
pub fn compile_conditions(configs: &Vec<ConditionConfig>) -> (r: Result<
    Vec<CompiledCondition>,
    FirewallError,
>)
    ensures
        match conditions_of(configs@) {
            Ok(cs) => r matches Ok(x) && compiled_views(x@) == cs,
            Err(e) => r matches Err(x) && x@ == e,
        },
    decreases configs,
{
    let mut compiled: Vec<CompiledCondition> = Vec::new();
    let mut i: usize = 0;
    while i < configs.len()
        invariant
            i <= configs.len(),
            conditions_of(configs@.take(i as int)) == Ok::<_, FirewallErrorView>(
                compiled_views(compiled@),
            ),
        decreases configs.len() - i,
    {
        let ghost next = configs@.take(i + 1);
        assert(next.drop_last() == configs@.take(i as int));
        match compile_condition(&configs[i]) {
            Ok(c) => {
                let ghost before = compiled@;
                compiled.push(c);
                assert(compiled@.drop_last() == before);
            },
            Err(e) => {
                proof {
                    conditions_error(configs@, i + 1);
                }
                return Err(e);
            },
        }
        i += 1;
    }
    assert(configs@.take(i as int) == configs@);
    Ok(compiled)
}

/// The state of a rate limit for one value.
#[derive(Debug, Clone, Copy, PartialEq, Eq, Structural)]
pub struct RateLimitState {
    /// Messages in the window.
    pub count: u64,
    /// When the window began.
    pub window_start: Instant,
}

/// A moment, on the monotonic clock and in UTC.
#[derive(Debug, Clone, Copy, PartialEq, Eq, Structural)]
pub struct Moment {
    pub clock: Instant,
    pub utc: UtcTime,
}

/// External lists by name.
pub type Lists = Map<Seq<char>, Vec<String>>;

/// Rate limit states by counted value.
pub type Rates = Map<Seq<char>, RateLimitState>;

/// A value stands on a list; on a list that is not loaded nothing stands.
pub open spec fn on_list(lists: Lists, name: Seq<char>, value: Seq<char>) -> bool {
    lists.dom().contains(name) && texts(lists[name]@).contains(value)
}

/// A text passes a test.
pub open spec fn text_passes(t: TextTest, lists: Lists, value: Seq<char>) -> bool {
    match t {
        TextTest::Exact(v) => value == v,
        TextTest::Prefix(v) => v.is_prefix_of(value),
        TextTest::Suffix(v) => v.is_suffix_of(value),
        TextTest::Contains(v) => has_substring(value, v),
        TextTest::Regex(p) => regex_matches(p, value),
        TextTest::List(name) => on_list(lists, name, value),
    }
}

/// A text with or without its case.
pub open spec fn folded(text: Seq<char>, case_insensitive: bool) -> Seq<char> {
    if case_insensitive {
        lowercase(text)
    } else {
        text
    }
}

/// One of some keywords occurs in a content.
pub open spec fn has_keyword(
    keywords: Seq<String>,
    content: Seq<char>,
    case_insensitive: bool,
) -> bool {
    exists|i: int|
        0 <= i < keywords.len() && has_substring(
            folded(content, case_insensitive),
            folded((#[trigger] keywords[i])@, case_insensitive),
        )
}

/// A content passes a test.
pub open spec fn content_passes(t: ContentTest, lists: Lists, content: Seq<char>) -> bool {
    match t {
        ContentTest::Contains(v, ci) => has_substring(folded(content, ci), folded(v, ci)),
        ContentTest::Exact(v, ci) => folded(content, ci) == folded(v, ci),
        ContentTest::Regex(p) => regex_matches(p, content),
        ContentTest::Keywords(name, ci) => lists.dom().contains(name) && has_keyword(
            lists[name]@,
            content,
            ci,
        ),
    }
}

/// An address passes a test.
pub open spec fn ip_passes(t: IpTest, lists: Lists, ip: IpAddr) -> bool {
    match t {
        IpTest::Exact(expected) => ip == expected,
        IpTest::Cidr(network) => net_contains(network, ip),
        IpTest::List(name) => on_list(lists, name, ip_text(ip)),
    }
}

/// The name of a rate key.
pub open spec fn rate_key_name(key: RateKey) -> Seq<char> {
    match key {
        RateKey::SystemId => "SystemId"@,
        RateKey::Source => "Source"@,
        RateKey::Destination => "Destination"@,
        RateKey::ClientIp => "ClientIp"@,
        RateKey::SenderId => "SenderId"@,
    }
}

/// What a rate limit counts a message under: the name of the key, a colon and
/// the value.
pub open spec fn rate_entry(ctx: EvaluationContext, key: RateKey) -> Seq<char> {
    rate_key_name(key) + ":"@ + rate_value(ctx, key)
}

/// The state of a rate limit after one more message. A window that is over
/// starts anew.
pub open spec fn rate_counted(
    before: Option<RateLimitState>,
    window: nat,
    now: Instant,
) -> RateLimitState {
    let open = match before {
        Some(s) => if elapsed_nanos(s.window_start, now) >= window {
            RateLimitState { count: 0, window_start: now }
        } else {
            s
        },
        None => RateLimitState { count: 0, window_start: now },
    };
    RateLimitState {
        count: if open.count == u64::MAX {
            u64::MAX
        } else {
            (open.count + 1) as u64
        },
        window_start: open.window_start,
    }
}

/// The state of a rate limit for one value.
pub open spec fn rate_state(rates: Rates, entry: Seq<char>) -> Option<RateLimitState> {
    if rates.dom().contains(entry) {
        Some(rates[entry])
    } else {
        None
    }
}

/// The minutes after midnight at a moment in a time zone. Without a zone, and
/// for one that is not known, they are those in UTC.
pub open spec fn minutes_of_day(zone: Option<Seq<char>>, utc: UtcTime) -> nat {
    let in_utc = utc_hour(utc.secs as int) * 60 + utc_minute(utc.secs as int);
    match zone {
        Some(z) => match zoned_reading(z, utc.secs, utc.nanos) {
            Some(reading) => (reading.1 / 60) as nat,
            None => in_utc as nat,
        },
        None => in_utc as nat,
    }
}

/// A time of the day, in minutes after midnight, lies in a span of the day,
/// which may run over midnight.
pub open spec fn in_day_span(sh: nat, sm: nat, eh: nat, em: nat, now: nat) -> bool {
    let start = sh * 60 + sm;
    let end = eh * 60 + em;
    if start <= end {
        start <= now && now <= end
    } else {
        now >= start || now <= end
    }
}

/// Whether a condition holds for a message, and the rate limits after it was
/// asked.
pub open spec fn holds(
    c: Condition,
    ctx: EvaluationContext,
    lists: Lists,
    rates: Rates,
    at: Moment,
) -> (bool, Rates)
    decreases c,
{
    match c {
        Condition::Source(t, negate) => (text_passes(t, lists, ctx.source@) != negate, rates),
        Condition::Destination(t, negate) => (
            text_passes(t, lists, ctx.destination@) != negate,
            rates,
        ),
        Condition::SenderId(t, negate) => (
            ctx.sender_id matches Some(s) && (text_passes(t, lists, s@) != negate),
            rates,
        ),
        Condition::SystemId(t, negate) => (text_passes(t, lists, ctx.system_id@) != negate, rates),
        Condition::Content(t, negate) => (content_passes(t, lists, ctx.content@) != negate, rates),
        Condition::ContentLength(min, max, negate) => (
            ((min matches Some(m) ==> ctx.content_length >= m) && (max matches Some(m)
                ==> ctx.content_length <= m)) != negate,
            rates,
        ),
        Condition::EsmClass(value, mask) => (
            match mask {
                Some(m) => (ctx.esm_class & m) == (value & m),
                None => ctx.esm_class == value,
            },
            rates,
        ),
        Condition::ProtocolId(value) => (ctx.protocol_id == value, rates),
        Condition::DataCoding(value) => (ctx.data_coding == value, rates),
        Condition::ClientIp(t, negate) => (
            ctx.client_ip matches Some(ip) && (ip_passes(t, lists, ip) != negate),
            rates,
        ),
        Condition::TlsEnabled(value) => (ctx.tls_enabled == value, rates),
        Condition::Rate(key, window, threshold) => {
            let entry = rate_entry(ctx, key);
            let after = rate_counted(rate_state(rates, entry), window, at.clock);
            (after.count > threshold, rates.insert(entry, after))
        },
        Condition::Time(sh, sm, eh, em, zone) => (
            in_day_span(sh, sm, eh, em, minutes_of_day(zone, at.utc)),
            rates,
        ),
        Condition::DayOfWeek(days) => (
            days.contains(utc_day_from_sunday(at.utc.secs as int) as u8),
            rates,
        ),
        Condition::Not(inner) => {
            let r = holds(*inner, ctx, lists, rates, at);
            (!r.0, r.1)
        },
        Condition::And(cs) => all_hold(cs, ctx, lists, rates, at),
        Condition::Or(cs) => one_holds(cs, ctx, lists, rates, at),
    }
}

/// Whether all conditions of a list hold, asked in order up to the first that
/// does not.
pub open spec fn all_hold(
    cs: Seq<Condition>,
    ctx: EvaluationContext,
    lists: Lists,
    rates: Rates,
    at: Moment,
) -> (bool, Rates)
    decreases cs,
{
    if cs.len() == 0 {
        (true, rates)
    } else {
        let first = holds(cs[0], ctx, lists, rates, at);
        if first.0 {
            all_hold(cs.drop_first(), ctx, lists, first.1, at)
        } else {
            first
        }
    }
}

/// Whether one condition of a list holds, asked in order up to the first that
/// does.
pub open spec fn one_holds(
    cs: Seq<Condition>,
    ctx: EvaluationContext,
    lists: Lists,
    rates: Rates,
    at: Moment,
) -> (bool, Rates)
    decreases cs,
{
    if cs.len() == 0 {
        (false, rates)
    } else {
        let first = holds(cs[0], ctx, lists, rates, at);
        if first.0 {
            first
        } else {
            one_holds(cs.drop_first(), ctx, lists, first.1, at)
        }
    }
}

fn listed(lists: &StringMap<Vec<String>>, name: &str, value: &str) -> (b: bool)
    ensures
        b == on_list(lists@, name@, value@),
{
    match lists.get(name) {
        None => false,
        Some(list) => {
            let mut i: usize = 0;
            while i < list.len()
                invariant
                    i <= list.len(),
                    lists@.dom().contains(name@),
                    lists@[name@] == *list,
                    forall|j: int| 0 <= j < i ==> list@[j]@ != value@,
                decreases list.len() - i,
            {
                if same(list[i].as_str(), value) {
                    assert(texts(list@)[i as int] == value@);
                    return true;
                }
                i += 1;
            }
            assert(!texts(list@).contains(value@));
            false
        },
    }
}

fn match_string(matcher: &StringMatcher, lists: &StringMap<Vec<String>>, value: &str) -> (b: bool)
    ensures
        b == (text_passes(matcher@.0, lists@, value@) != matcher@.1),
{
    match matcher {
        StringMatcher::Exact { value: v, negate } => same(value, v.as_str()) != *negate,
        StringMatcher::Prefix { value: v, negate } => starts_with(value, v.as_str()) != *negate,
        StringMatcher::Suffix { value: v, negate } => ends_with(value, v.as_str()) != *negate,
        StringMatcher::Contains { value: v, negate } => contains(value, v.as_str()) != *negate,
        StringMatcher::Regex { pattern, negate } => is_match(pattern, value) != *negate,
        StringMatcher::List { list_name, negate } => listed(lists, list_name.as_str(), value)
            != *negate,
    }
}

fn fold_case(text: &str, case_insensitive: bool) -> (t: String)
    ensures
        t@ == folded(text@, case_insensitive),
{
    if case_insensitive {
        to_lowercase(text)
    } else {
        text.to_owned()
    }
}

fn match_keywords(keywords: &Vec<String>, content: &str, case_insensitive: bool) -> (b: bool)
    ensures
        b == has_keyword(keywords@, content@, case_insensitive),
{
    let text = fold_case(content, case_insensitive);
    let mut i: usize = 0;
    while i < keywords.len()
        invariant
            i <= keywords.len(),
            text@ == folded(content@, case_insensitive),
            forall|j: int|
                0 <= j < i ==> !has_substring(
                    folded(content@, case_insensitive),
                    folded((#[trigger] keywords@[j])@, case_insensitive),
                ),
        decreases keywords.len() - i,
    {
        let word = fold_case(keywords[i].as_str(), case_insensitive);
        if contains(text.as_str(), word.as_str()) {
            return true;
        }
        i += 1;
    }
    false
}

fn match_content(
    matcher: &ContentMatcher,
    lists: &StringMap<Vec<String>>,
    content: &str,
) -> (b: bool)
    ensures
        b == (content_passes(matcher@.0, lists@, content@) != matcher@.1),
{
    match matcher {
        ContentMatcher::Contains { value, case_insensitive, negate } => {
            let text = fold_case(content, *case_insensitive);
            let part = fold_case(value.as_str(), *case_insensitive);
            contains(text.as_str(), part.as_str()) != *negate
        },
        ContentMatcher::Exact { value, case_insensitive, negate } => {
            let text = fold_case(content, *case_insensitive);
            let whole = fold_case(value.as_str(), *case_insensitive);
            same(text.as_str(), whole.as_str()) != *negate
        },
        ContentMatcher::Regex { pattern, negate } => is_match(pattern, content) != *negate,
        ContentMatcher::Keywords { list_name, case_insensitive, negate } => {
            let found = match lists.get(list_name.as_str()) {
                Some(keywords) => match_keywords(keywords, content, *case_insensitive),
                None => false,
            };
            found != *negate
        },
    }
}

fn match_ip(matcher: &IpMatcher, lists: &StringMap<Vec<String>>, ip: IpAddr) -> (b: bool)
    ensures
        b == (ip_passes(matcher@.0, lists@, ip) != matcher@.1),
{
    match matcher {
        IpMatcher::Exact { ip: expected, negate } => (ip == *expected) != *negate,
        IpMatcher::Cidr { network, negate } => network.contains(&ip) != *negate,
        IpMatcher::List { list_name, negate } => {
            let text = ip.to_text();
            listed(lists, list_name.as_str(), text.as_str()) != *negate
        },
    }
}

/// The text that a rate limit counts a message under.
pub fn rate_entry_text(ctx: &EvaluationContext, key: &RateKey) -> (t: String)
    ensures
        t@ == rate_entry(*ctx, *key),
{
    let name: &str = match key {
        RateKey::SystemId => "SystemId",
        RateKey::Source => "Source",
        RateKey::Destination => "Destination",
        RateKey::ClientIp => "ClientIp",
        RateKey::SenderId => "SenderId",
    };
    let value = ctx.get_rate_key(key);
    let mut text = name.to_owned();
    text.append(":");
    text.append(value.as_str());
    text
}

fn check_rate_limit(
    key: &RateKey,
    window: &Duration,
    threshold: u64,
    ctx: &EvaluationContext,
    rates: &mut StringMap<RateLimitState>,
    now: &Instant,
) -> (b: bool)
    ensures
        ({
            let entry = rate_entry(*ctx, *key);
            let after = rate_counted(rate_state(old(rates)@, entry), window@, *now);
            &&& final(rates)@ == old(rates)@.insert(entry, after)
            &&& b == (after.count > threshold)
        }),
{
    let entry = rate_entry_text(ctx, key);
    count_message(entry, window, threshold, rates, now)
}

fn count_message(
    entry: String,
    window: &Duration,
    threshold: u64,
    rates: &mut StringMap<RateLimitState>,
    now: &Instant,
) -> (exceeded: bool)
    ensures
        ({
            let after = rate_counted(rate_state(old(rates)@, entry@), window@, *now);
            &&& final(rates)@ == old(rates)@.insert(entry@, after)
            &&& exceeded == (after.count > threshold)
        }),
{
    let fresh = RateLimitState { count: 0, window_start: *now };
    let mut state = match rates.get(entry.as_str()) {
        Some(s) => {
            let elapsed = now.duration_since(&s.window_start);
            if elapsed.at_least(window) {
                fresh
            } else {
                *s
            }
        },
        None => fresh,
    };
    state.count = state.count.saturating_add(1);
    rates.insert(entry, state);
    state.count > threshold
}

fn minutes_now(timezone: &Option<String>, utc: &UtcTime) -> (minutes: u64)
    ensures
        minutes == minutes_of_day(opt_text(*timezone), *utc),
{
    if let Some(zone) = timezone {
        if let Some(reading) = read_in_zone(zone.as_str(), utc.secs, utc.nanos) {
            return (reading.1 / 60) as u64;
        }
    }
    utc.hour() as u64 * 60 + utc.minute() as u64
}

fn check_time(start_hour: u32, start_min: u32, end_hour: u32, end_min: u32, now: u64) -> (b: bool)
    ensures
        b == in_day_span(
            start_hour as nat,
            start_min as nat,
            end_hour as nat,
            end_min as nat,
            now as nat,
        ),
{
    let start: u64 = start_hour as u64 * 60 + start_min as u64;
    let end: u64 = end_hour as u64 * 60 + end_min as u64;
    if start <= end {
        now >= start && now <= end
    } else {
        now >= start || now <= end
    }
}

fn has_day(days: &Vec<u8>, day: u8) -> (b: bool)
    ensures
        b == days@.contains(day),
{
    let mut i: usize = 0;
    while i < days.len()
        invariant
            i <= days.len(),
            forall|j: int| 0 <= j < i ==> days@[j] != day,
        decreases days.len() - i,
    {
        if days[i] == day {
            return true;
        }
        i += 1;
    }
    false
}

/// Evaluates a condition.
pub fn evaluate_condition(
    condition: &CompiledCondition,
    ctx: &EvaluationContext,
    lists: &StringMap<Vec<String>>,
    rates: &mut StringMap<RateLimitState>,
    at: &Moment,
) -> (b: bool)
    ensures
        (b, final(rates)@) == holds(condition@, *ctx, lists@, old(rates)@, *at),
    decreases condition,
{
    match condition {
        CompiledCondition::Source(m) => match_string(m, lists, ctx.source.as_str()),
        CompiledCondition::Destination(m) => match_string(m, lists, ctx.destination.as_str()),
        CompiledCondition::SenderId(m) => match &ctx.sender_id {
            Some(s) => match_string(m, lists, s.as_str()),
            None => false,
        },
        CompiledCondition::SystemId(m) => match_string(m, lists, ctx.system_id.as_str()),
        CompiledCondition::Content(m) => match_content(m, lists, ctx.content.as_str()),
        CompiledCondition::ContentLength { min, max, negate } => {
            let above = match min {
                Some(m) => ctx.content_length >= *m,
                None => true,
            };
            let below = match max {
                Some(m) => ctx.content_length <= *m,
                None => true,
            };
            (above && below) != *negate
        },
        CompiledCondition::EsmClass { value, mask } => match mask {
            Some(m) => (ctx.esm_class & *m) == (*value & *m),
            None => ctx.esm_class == *value,
        },
        CompiledCondition::ProtocolId { value } => ctx.protocol_id == *value,
        CompiledCondition::DataCoding { value } => ctx.data_coding == *value,
        CompiledCondition::ClientIp(m) => match ctx.client_ip {
            Some(ip) => match_ip(m, lists, ip),
            None => false,
        },
        CompiledCondition::TlsEnabled { value } => ctx.tls_enabled == *value,
        CompiledCondition::Rate { key, window, threshold } => check_rate_limit(
            key,
            window,
            *threshold,
            ctx,
            rates,
            &at.clock,
        ),
        CompiledCondition::Time { start_hour, start_min, end_hour, end_min, timezone } => {
            let now: u64 = minutes_now(timezone, &at.utc);
            check_time(*start_hour, *start_min, *end_hour, *end_min, now)
        },
        CompiledCondition::DayOfWeek { days } => {
            let day: u8 = at.utc.day_from_sunday();
            has_day(days, day)
        },
        CompiledCondition::Not(inner) => !evaluate_condition(inner, ctx, lists, rates, at),
        CompiledCondition::And(cs) => evaluate_conditions(cs, ctx, lists, rates, at),
        CompiledCondition::Or(cs) => evaluate_any(cs, ctx, lists, rates, at),
    }
}

proof fn views_skip(cs: Seq<CompiledCondition>, i: int)
    requires
        0 <= i < cs.len(),
    ensures
        compiled_views(cs).len() == cs.len(),
        compiled_views(cs).skip(i)[0] == compiled_view(cs[i]),
        compiled_views(cs).skip(i).drop_first() == compiled_views(cs).skip(i + 1),
{
    compiled_views_at(cs, i);
}

proof fn views_len(cs: Seq<CompiledCondition>)
    ensures
        compiled_views(cs).len() == cs.len(),
{
    if cs.len() > 0 {
        compiled_views_at(cs, 0);
    }
}

/// Evaluates conditions that must all hold.
pub fn evaluate_conditions(
    cs: &Vec<CompiledCondition>,
    ctx: &EvaluationContext,
    lists: &StringMap<Vec<String>>,
    rates: &mut StringMap<RateLimitState>,
    at: &Moment,
) -> (b: bool)
    ensures
        (b, final(rates)@) == all_hold(compiled_views(cs@), *ctx, lists@, old(rates)@, *at),
    decreases cs,
{
    let ghost views = compiled_views(cs@);
    proof {
        views_len(cs@);
        assert(views.skip(0) == views);
    }
    let mut i: usize = 0;
    while i < cs.len()
        invariant
            i <= cs.len(),
            views == compiled_views(cs@),
            views.len() == cs@.len(),
            all_hold(views, *ctx, lists@, old(rates)@, *at) == all_hold(
                views.skip(i as int),
                *ctx,
                lists@,
                rates@,
                *at,
            ),
        decreases cs.len() - i,
    {
        proof {
            views_skip(cs@, i as int);
        }
        if !evaluate_condition(&cs[i], ctx, lists, rates, at) {
            return false;
        }
        i += 1;
    }
    true
}

/// Evaluates conditions of which one must hold.
pub fn evaluate_any(
    cs: &Vec<CompiledCondition>,
    ctx: &EvaluationContext,
    lists: &StringMap<Vec<String>>,
    rates: &mut StringMap<RateLimitState>,
    at: &Moment,
) -> (b: bool)
    ensures
        (b, final(rates)@) == one_holds(compiled_views(cs@), *ctx, lists@, old(rates)@, *at),
    decreases cs,
{
    let ghost views = compiled_views(cs@);
    proof {
        views_len(cs@);
        assert(views.skip(0) == views);
    }
    let mut i: usize = 0;
    while i < cs.len()
        invariant
            i <= cs.len(),
            views == compiled_views(cs@),
            views.len() == cs@.len(),
            one_holds(views, *ctx, lists@, old(rates)@, *at) == one_holds(
                views.skip(i as int),
                *ctx,
                lists@,
                rates@,
                *at,
            ),
        decreases cs.len() - i,
    {
        proof {
            views_skip(cs@, i as int);
        }
        if evaluate_condition(&cs[i], ctx, lists, rates, at) {
            return true;
        }
        i += 1;
    }
    false
}

/// A compiled rule.
#[derive(Debug)]
pub struct CompiledRule {
    /// Name of the rule.
    pub name: Option<String>,
    /// Whether the rule is used.
    pub enabled: bool,
    /// Conditions that must all hold.
    pub conditions: Vec<CompiledCondition>,
    /// What to do when they hold.
    pub action: ActionConfig,
    /// How often the rule has matched.
    pub counter: u64,
}

/// A compiled chain.
#[derive(Debug)]
pub struct CompiledChain {
    /// Name of the chain.
    pub name: String,
    /// What the chain is for.
    pub chain_type: ChainType,
    /// Priority of the chain.
    pub priority: i32,
    /// What to do when no rule matches.
    pub policy: Policy,
    /// The rules.
    pub rules: Vec<CompiledRule>,
}

/// What a rule says.
#[verifier::ext_equal]
pub struct RuleView {
    pub name: Option<Seq<char>>,
    pub enabled: bool,
    pub conditions: Seq<Condition>,
    pub action: ActionConfig,
}

/// What a chain says.
#[verifier::ext_equal]
pub struct ChainView {
    pub name: Seq<char>,
    pub chain_type: ChainType,
    pub priority: i32,
    pub policy: Policy,
    pub rules: Seq<RuleView>,
}

impl View for CompiledRule {
    type V = RuleView;

    open spec fn view(&self) -> RuleView {
        RuleView {
            name: opt_text(self.name),
            enabled: self.enabled,
            conditions: compiled_views(self.conditions@),
            action: self.action,
        }
    }
}

/// What a list of rules says.
pub open spec fn rule_views(rules: Seq<CompiledRule>) -> Seq<RuleView> {
    rules.map_values(|r: CompiledRule| r@)
}

impl View for CompiledChain {
    type V = ChainView;

    open spec fn view(&self) -> ChainView {
        ChainView {
            name: self.name@,
            chain_type: self.chain_type,
            priority: self.priority,
            policy: self.policy,
            rules: rule_views(self.rules@),
        }
    }
}

/// What a list of chains says.
pub open spec fn chain_views(chains: Seq<CompiledChain>) -> Seq<ChainView> {
    chains.map_values(|c: CompiledChain| c@)
}

/// How often the rules of a list have matched.
pub open spec fn rule_counters(rules: Seq<CompiledRule>) -> Seq<u64> {
    rules.map_values(|r: CompiledRule| r.counter)
}

/// How often the rules of each chain have matched.
pub open spec fn chain_counters(chains: Seq<CompiledChain>) -> Seq<Seq<u64>> {
    chains.map_values(|c: CompiledChain| rule_counters(c.rules@))
}

/// What a configured rule says, or what is wrong with it.
pub open spec fn rule_of(config: RuleConfig) -> Result<RuleView, FirewallErrorView> {
    match conditions_of(config.conditions@) {
        Err(e) => Err(e),
        Ok(conditions) => Ok(
            RuleView {
                name: opt_text(config.name),
                enabled: config.enabled,
                conditions,
                action: config.action,
            },
        ),
    }
}

/// What configured rules say, or what is wrong with the first one that is
/// wrong.
pub open spec fn rules_of(configs: Seq<RuleConfig>) -> Result<Seq<RuleView>, FirewallErrorView>
    decreases configs.len(),
{
    if configs.len() == 0 {
        Ok(Seq::empty())
    } else {
        match rules_of(configs.drop_last()) {
            Err(e) => Err(e),
            Ok(rs) => match rule_of(configs.last()) {
                Err(e) => Err(e),
                Ok(r) => Ok(rs.push(r)),
            },
        }
    }
}

/// What a configured chain says, or what is wrong with it.
pub open spec fn chain_of(config: ChainConfig) -> Result<ChainView, FirewallErrorView> {
    match rules_of(config.rules@) {
        Err(e) => Err(e),
        Ok(rules) => Ok(
            ChainView {
                name: config.name@,
                chain_type: config.chain_type,
                priority: config.priority,
                policy: config.policy,
                rules,
            },
        ),
    }
}

/// The position of a new chain among chains in order of priority: behind all
/// chains whose priority is not higher.
pub open spec fn chain_slot(chains: Seq<ChainView>, priority: i32) -> nat
    decreases chains.len(),
{
    if chains.len() == 0 || chains.last().priority <= priority {
        chains.len()
    } else {
        chain_slot(chains.drop_last(), priority)
    }
}

/// Chains with a new chain in its place.
pub open spec fn chain_added(chains: Seq<ChainView>, chain: ChainView) -> Seq<ChainView> {
    chains.insert(chain_slot(chains, chain.priority) as int, chain)
}

/// What configured chains say, in the order in which they are evaluated, or
/// what is wrong with the first one that is wrong.
pub open spec fn chains_of(configs: Seq<ChainConfig>) -> Result<Seq<ChainView>, FirewallErrorView>
    decreases configs.len(),
{
    if configs.len() == 0 {
        Ok(Seq::empty())
    } else {
        match chains_of(configs.drop_last()) {
            Err(e) => Err(e),
            Ok(cs) => match chain_of(configs.last()) {
                Err(e) => Err(e),
                Ok(c) => Ok(chain_added(cs, c)),
            },
        }
    }
}

/// The first enabled rule whose conditions all hold, and the rate limits after
/// the conditions were asked.
pub open spec fn first_match(
    rules: Seq<RuleView>,
    ctx: EvaluationContext,
    lists: Lists,
    rates: Rates,
    at: Moment,
) -> (Option<nat>, Rates)
    decreases rules.len(),
{
    if rules.len() == 0 {
        (None, rates)
    } else {
        let asked = if rules[0].enabled {
            all_hold(rules[0].conditions, ctx, lists, rates, at)
        } else {
            (false, rates)
        };
        if asked.0 {
            (Some(0), asked.1)
        } else {
            let rest = first_match(rules.drop_first(), ctx, lists, asked.1, at);
            (
                match rest.0 {
                    Some(i) => Some(i + 1),
                    None => None,
                },
                rest.1,
            )
        }
    }
}

/// A text that may be missing; then it is empty.
pub open spec fn text_or_nothing(text: Option<String>) -> Seq<char> {
    match text {
        Some(t) => t@,
        None => seq![],
    }
}

/// The new content of a message, of which something may be replaced, put in
/// front and put behind; nothing where the content stays.
pub open spec fn modified_content(
    ctx: EvaluationContext,
    set_content: Option<String>,
    prepend_content: Option<String>,
    append_content: Option<String>,
) -> Option<Seq<char>> {
    if set_content is None && prepend_content is None && append_content is None {
        None
    } else {
        let content = match set_content {
            Some(c) => c@,
            None => ctx.content@,
        };
        Some(text_or_nothing(prepend_content) + content + text_or_nothing(append_content))
    }
}

/// The line that a log action writes; without a message of its own it names
/// the source and the destination.
pub open spec fn log_text(ctx: EvaluationContext, message: Option<String>) -> Seq<char> {
    match message {
        Some(m) => m@,
        None => "Firewall: "@ + ctx.source@ + " -> "@ + ctx.destination@,
    }
}

/// What the rate limit of an action counts a message under. It is apart from
/// what conditions count.
pub open spec fn limit_entry(ctx: EvaluationContext, key: RateKey) -> Seq<char> {
    "limit:"@ + rate_entry(ctx, key)
}

/// What came of an evaluation: the answer, the rate limits after it, the
/// chains and rules that matched, and what is to be done, in order.
#[verifier::ext_equal]
pub struct RunView {
    pub answer: EvaluationResultView,
    pub rates: Rates,
    pub hits: Seq<(nat, nat)>,
    pub effects: Seq<EffectView>,
}

/// An answer with nothing beside it.
pub open spec fn plain(answer: EvaluationResultView, rates: Rates) -> RunView {
    RunView { answer, rates, hits: seq![], effects: seq![] }
}

/// Two parts of an evaluation, one after the other; the answer is that of the
/// second.
pub open spec fn followed_by(first: RunView, second: RunView) -> RunView {
    RunView {
        answer: second.answer,
        rates: second.rates,
        hits: first.hits + second.hits,
        effects: first.effects + second.effects,
    }
}

/// The first chain with a name.
pub open spec fn chain_named(chains: Seq<ChainView>, name: Seq<char>) -> Option<nat>
    decreases chains.len(),
{
    if chains.len() == 0 {
        None
    } else {
        match chain_named(chains.drop_last(), name) {
            Some(i) => Some(i),
            None => if chains.last().name == name {
                Some((chains.len() - 1) as nat)
            } else {
                None
            },
        }
    }
}

/// What comes of an action. A jump answers what the chain with the name
/// answers; where there is none, or no more jumps are left, it does nothing.
/// Plugins are not there, so their actions do nothing.
pub open spec fn acted(
    chains: Seq<ChainView>,
    action: ActionConfig,
    ctx: EvaluationContext,
    lists: Lists,
    rates: Rates,
    at: Moment,
    jumps: nat,
) -> RunView
    decreases jumps, 0nat, action,
{
    match action {
        ActionConfig::Accept => plain(EvaluationResultView::Accept, rates),
        ActionConfig::Drop => plain(EvaluationResultView::Drop, rates),
        ActionConfig::Reject { status, reason } => plain(
            EvaluationResultView::Reject { status, reason: opt_text(reason) },
            rates,
        ),
        ActionConfig::Log { level, message, then_action } => {
            let line = RunView {
                effects: seq![EffectView::Log { level, text: log_text(ctx, message) }],
                ..plain(EvaluationResultView::Continue, rates)
            };
            match then_action {
                Some(a) => followed_by(line, acted(chains, *a, ctx, lists, rates, at, jumps)),
                None => line,
            }
        },
        ActionConfig::RateLimit { key, window, limit, status } => {
            let entry = limit_entry(ctx, key);
            let after = rate_counted(rate_state(rates, entry), window@, at.clock);
            plain(
                if after.count > limit {
                    EvaluationResultView::Reject { status, reason: None }
                } else {
                    EvaluationResultView::Continue
                },
                rates.insert(entry, after),
            )
        },
        ActionConfig::Modify {
            set_source,
            set_destination,
            set_content,
            prepend_content,
            append_content,
        } => {
            let source = opt_text(set_source);
            let destination = opt_text(set_destination);
            let content = modified_content(ctx, set_content, prepend_content, append_content);
            RunView {
                effects: seq![EffectView::Modify { source, destination, content }],
                ..plain(EvaluationResultView::Modify { source, destination, content }, rates)
            }
        },
        ActionConfig::Jump { chain } => match chain_named(chains, chain@) {
            Some(c) if jumps > 0 => chain_run(
                chains,
                c as int,
                ctx,
                lists,
                rates,
                at,
                (jumps - 1) as nat,
            ),
            _ => plain(EvaluationResultView::Continue, rates),
        },
        ActionConfig::Return => plain(EvaluationResultView::Continue, rates),
        ActionConfig::Quarantine => plain(EvaluationResultView::Quarantine, rates),
        ActionConfig::Delay { duration } => RunView {
            effects: seq![EffectView::Delay { duration: duration@ }],
            ..plain(EvaluationResultView::Continue, rates)
        },
        ActionConfig::Mark { key, value } => RunView {
            effects: seq![EffectView::Mark { key: key@, value: value@ }],
            ..plain(EvaluationResultView::Continue, rates)
        },
        ActionConfig::Plugin { name, action, params } => plain(
            EvaluationResultView::Continue,
            rates,
        ),
    }
}

/// What comes of a chain: its first rule that matches acts, and where none
/// does its policy answers.
pub open spec fn chain_run(
    chains: Seq<ChainView>,
    c: int,
    ctx: EvaluationContext,
    lists: Lists,
    rates: Rates,
    at: Moment,
    jumps: nat,
) -> RunView
    decreases jumps, 1nat, ActionConfig::Accept,
{
    let found = first_match(chains[c].rules, ctx, lists, rates, at);
    match found.0 {
        Some(i) => followed_by(
            RunView {
                hits: seq![(c as nat, i)],
                ..plain(EvaluationResultView::Continue, found.1)
            },
            acted(chains, chains[c].rules[i as int].action, ctx, lists, found.1, at, jumps),
        ),
        None => plain(policy_result(chains[c].policy), found.1),
    }
}

/// What a policy answers.
pub open spec fn policy_result(policy: Policy) -> EvaluationResultView {
    match policy {
        Policy::Accept => EvaluationResultView::Accept,
        Policy::Drop => EvaluationResultView::Drop,
        Policy::Reject => EvaluationResultView::Reject { status: 8, reason: None },
    }
}

/// What comes of the chains from a position on, up to the first answer that
/// ends the evaluation. Only input chains are evaluated, and from each of them
/// at most as many jumps are made as there are chains. The message stays as it
/// came until the end, whatever is to be changed of it.
pub open spec fn chains_run(
    chains: Seq<ChainView>,
    from: nat,
    ctx: EvaluationContext,
    lists: Lists,
    rates: Rates,
    at: Moment,
) -> RunView
    decreases chains.len() - from,
{
    if from >= chains.len() {
        plain(EvaluationResultView::Continue, rates)
    } else if chains[from as int].chain_type != ChainType::Input {
        chains_run(chains, from + 1, ctx, lists, rates, at)
    } else {
        let run = chain_run(chains, from as int, ctx, lists, rates, at, chains.len());
        if terminal(run.answer) {
            run
        } else {
            followed_by(run, chains_run(chains, from + 1, ctx, lists, run.rates, at))
        }
    }
}

/// A counter after one more hit.
pub open spec fn counted_up(counter: u64) -> u64 {
    if counter == u64::MAX {
        0
    } else {
        (counter + 1) as u64
    }
}

/// The counters of all rules after a rule of a chain matched.
pub open spec fn hit(counters: Seq<Seq<u64>>, at: (nat, nat)) -> Seq<Seq<u64>> {
    let (c, i) = (at.0 as int, at.1 as int);
    counters.update(c, counters[c].update(i, counted_up(counters[c][i])))
}

/// The counters of all rules after some rules matched one after the other.
pub open spec fn all_hit(counters: Seq<Seq<u64>>, hits: Seq<(nat, nat)>) -> Seq<Seq<u64>>
    decreases hits.len(),
{
    if hits.len() == 0 {
        counters
    } else {
        hit(all_hit(counters, hits.drop_last()), hits.last())
    }
}

fn compile_rule(config: &RuleConfig) -> (r: Result<CompiledRule, FirewallError>)
    ensures
        match rule_of(*config) {
            Ok(v) => r matches Ok(x) && x@ == v && x.counter == 0,
            Err(e) => r matches Err(x) && x@ == e,
        },
{
    match compile_conditions(&config.conditions) {
        Err(e) => Err(e),
        Ok(conditions) => Ok(
            CompiledRule {
                name: copy_opt(&config.name),
                enabled: config.enabled,
                conditions,
                action: config.action.clone(),
                counter: 0,
            },
        ),
    }
}

proof fn rules_error(configs: Seq<RuleConfig>, n: int)
    requires
        0 <= n <= configs.len(),
        rules_of(configs.take(n)) is Err,
    ensures
        rules_of(configs) == rules_of(configs.take(n)),
    decreases configs.len() - n,
{
    if n < configs.len() {
        assert(configs.take(n + 1).drop_last() == configs.take(n));
        rules_error(configs, n + 1);
    } else {
        assert(configs.take(n) == configs);
    }
}

/// No rule has matched yet.
pub open spec fn unused(rules: Seq<CompiledRule>) -> bool {
    forall|i: int| 0 <= i < rules.len() ==> (#[trigger] rules[i]).counter == 0
}

fn compile_rules(configs: &Vec<RuleConfig>) -> (r: Result<Vec<CompiledRule>, FirewallError>)
    ensures
        match rules_of(configs@) {
            Ok(vs) => r matches Ok(x) && rule_views(x@) == vs && unused(x@),
            Err(e) => r matches Err(x) && x@ == e,
        },
{
    let mut rules: Vec<CompiledRule> = Vec::new();
    let mut i: usize = 0;
    assert(rule_views(rules@) == Seq::<RuleView>::empty());
    while i < configs.len()
        invariant
            i <= configs.len(),
            unused(rules@),
            rules_of(configs@.take(i as int)) == Ok::<_, FirewallErrorView>(rule_views(rules@)),
        decreases configs.len() - i,
    {
        assert(configs@.take(i + 1).drop_last() == configs@.take(i as int));
        match compile_rule(&configs[i]) {
            Ok(rule) => {
                let ghost before = rules@;
                rules.push(rule);
                assert(rule_views(rules@) == rule_views(before).push(rule@));
            },
            Err(e) => {
                proof {
                    rules_error(configs@, i + 1);
                }
                return Err(e);
            },
        }
        i += 1;
    }
    assert(configs@.take(i as int) == configs@);
    Ok(rules)
}

fn compile_chain(config: &ChainConfig) -> (r: Result<CompiledChain, FirewallError>)
    ensures
        match chain_of(*config) {
            Ok(v) => r matches Ok(x) && x@ == v && unused(x.rules@),
            Err(e) => r matches Err(x) && x@ == e,
        },
{
    match compile_rules(&config.rules) {
        Err(e) => Err(e),
        Ok(rules) => Ok(
            CompiledChain {
                name: config.name.clone(),
                chain_type: config.chain_type,
                priority: config.priority,
                policy: config.policy,
                rules,
            },
        ),
    }
}

proof fn chains_error(configs: Seq<ChainConfig>, n: int)
    requires
        0 <= n <= configs.len(),
        chains_of(configs.take(n)) is Err,
    ensures
        chains_of(configs) == chains_of(configs.take(n)),
    decreases configs.len() - n,
{
    if n < configs.len() {
        assert(configs.take(n + 1).drop_last() == configs.take(n));
        chains_error(configs, n + 1);
    } else {
        assert(configs.take(n) == configs);
    }
}

proof fn chain_slot_bound(chains: Seq<ChainView>, priority: i32)
    ensures
        chain_slot(chains, priority) <= chains.len(),
        forall|i: int|
            chain_slot(chains, priority) <= i < chains.len() ==> chains[i].priority > priority,
        chain_slot(chains, priority) > 0 ==> chains[chain_slot(chains, priority) - 1].priority
            <= priority,
    decreases chains.len(),
{
    if chains.len() == 0 || chains.last().priority <= priority {
    } else {
        let init = chains.drop_last();
        chain_slot_bound(init, priority);
        assert forall|i: int| chain_slot(chains, priority) <= i < chains.len() implies chains[i].priority
            > priority by {
            if i < init.len() {
                assert(init[i] == chains[i]);
            }
        }
    }
}

fn insert_chain(chains: &mut Vec<CompiledChain>, chain: CompiledChain)
    requires
        forall|i: int| 0 <= i < old(chains)@.len() ==> unused((#[trigger] old(chains)@[i]).rules@),
        unused(chain.rules@),
    ensures
        chain_views(final(chains)@) == chain_added(chain_views(old(chains)@), chain@),
        forall|i: int|
            0 <= i < final(chains)@.len() ==> unused((#[trigger] final(chains)@[i]).rules@),
{
    let ghost views = chain_views(chains@);
    let mut at: usize = chains.len();
    assert(views.take(at as int) == views);
    while at > 0 && chains[at - 1].priority > chain.priority
        invariant
            at <= chains@.len(),
            chains@ == old(chains)@,
            views == chain_views(chains@),
            chain_slot(views.take(at as int), chain.priority) == chain_slot(views, chain.priority),
        decreases at,
    {
        assert(views.take(at as int).drop_last() == views.take(at - 1));
        assert(views.take(at as int).last() == chains@[at - 1]@);
        at -= 1;
    }
    proof {
        chain_slot_bound(views, chain.priority);
        if at > 0 {
            assert(views.take(at as int).last() == chains@[at - 1]@);
        }
    }
    chains.insert(at, chain);
    assert(chain_views(chains@) =~= views.insert(at as int, chain@));
}

fn find_match(
    chain: &CompiledChain,
    ctx: &EvaluationContext,
    lists: &StringMap<Vec<String>>,
    rates: &mut StringMap<RateLimitState>,
    at: &Moment,
) -> (matched: Option<usize>)
    ensures
        ({
            let m = first_match(rule_views(chain.rules@), *ctx, lists@, old(rates)@, *at);
            &&& final(rates)@ == m.1
            &&& match m.0 {
                Some(i) => matched matches Some(k) && k == i && k < chain.rules@.len(),
                None => matched is None,
            }
        }),
{
    let ghost views = rule_views(chain.rules@);
    let ghost whole = first_match(views, *ctx, lists@, rates@, *at);
    assert(views.skip(0) == views);
    let mut i: usize = 0;
    while i < chain.rules.len()
        invariant
            i <= chain.rules.len(),
            views == rule_views(chain.rules@),
            ({
                let rest = first_match(views.skip(i as int), *ctx, lists@, rates@, *at);
                &&& whole.1 == rest.1
                &&& whole.0 == match rest.0 {
                    Some(k) => Some((k + i) as nat),
                    None => None,
                }
            }),
            whole == first_match(views, *ctx, lists@, old(rates)@, *at),
        decreases chain.rules.len() - i,
    {
        assert(views.skip(i as int)[0] == chain.rules@[i as int]@);
        assert(views.skip(i as int).drop_first() == views.skip(i + 1));
        if chain.rules[i].enabled {
            if evaluate_conditions(&chain.rules[i].conditions, ctx, lists, rates, at) {
                return Some(i);
            }
        }
        i += 1;
    }
    None
}

/// The rules that matched and what is to be done, as they come.
#[derive(Debug)]
struct Trail {
    hits: Vec<(usize, usize)>,
    effects: Vec<Effect>,
}

/// Rules by the positions of their chains and their own.
pub open spec fn hit_views(hits: Seq<(usize, usize)>) -> Seq<(nat, nat)> {
    hits.map_values(|h: (usize, usize)| (h.0 as nat, h.1 as nat))
}

/// Every rule of a list is there.
pub open spec fn hits_fit(hits: Seq<(usize, usize)>, chains: Seq<CompiledChain>) -> bool {
    forall|j: int|
        0 <= j < hits.len() ==> (#[trigger] hits[j]).0 < chains.len() && hits[j].1
            < chains[hits[j].0 as int].rules@.len()
}

impl Trail {
    /// The trail goes on from another one with what came of an evaluation.
    spec fn follows(self, before: Trail, run: RunView) -> bool {
        &&& hit_views(self.hits@) == hit_views(before.hits@) + run.hits
        &&& effect_views(self.effects@) == effect_views(before.effects@) + run.effects
    }

    fn note(&mut self, effect: Effect)
        ensures
            final(self).hits == old(self).hits,
            effect_views(final(self).effects@) == effect_views(old(self).effects@) + seq![effect@],
    {
        let ghost before = self.effects@;
        self.effects.push(effect);
        assert(effect_views(self.effects@) =~= effect_views(before) + seq![effect@]);
    }
}

fn new_content(
    ctx: &EvaluationContext,
    set_content: &Option<String>,
    prepend_content: &Option<String>,
    append_content: &Option<String>,
) -> (content: Option<String>)
    ensures
        opt_text(content) == modified_content(
            *ctx,
            *set_content,
            *prepend_content,
            *append_content,
        ),
{
    if set_content.is_none() && prepend_content.is_none() && append_content.is_none() {
        return None;
    }
    let mut text = match prepend_content {
        Some(t) => t.clone(),
        None => String::new(),
    };
    match set_content {
        Some(t) => text.append(t.as_str()),
        None => text.append(ctx.content.as_str()),
    }
    if let Some(t) = append_content {
        text.append(t.as_str());
    }
    assert(text@ =~= modified_content(
        *ctx,
        *set_content,
        *prepend_content,
        *append_content,
    )->0);
    Some(text)
}

fn log_line(ctx: &EvaluationContext, message: &Option<String>) -> (text: String)
    ensures
        text@ == log_text(*ctx, *message),
{
    match message {
        Some(m) => m.clone(),
        None => {
            let mut text = "Firewall: ".to_owned();
            text.append(ctx.source.as_str());
            text.append(" -> ");
            text.append(ctx.destination.as_str());
            text
        },
    }
}

fn check_limit(
    key: &RateKey,
    window: &Duration,
    limit: u64,
    ctx: &EvaluationContext,
    rates: &mut StringMap<RateLimitState>,
    now: &Instant,
) -> (exceeded: bool)
    ensures
        ({
            let entry = limit_entry(*ctx, *key);
            let after = rate_counted(rate_state(old(rates)@, entry), window@, *now);
            &&& final(rates)@ == old(rates)@.insert(entry, after)
            &&& exceeded == (after.count > limit)
        }),
{
    let mut entry = "limit:".to_owned();
    let rest = rate_entry_text(ctx, key);
    entry.append(rest.as_str());
    count_message(entry, window, limit, rates, now)
}

proof fn chain_named_found(chains: Seq<ChainView>, name: Seq<char>, n: int)
    requires
        0 <= n <= chains.len(),
        chain_named(chains.take(n), name) is Some,
    ensures
        chain_named(chains, name) == chain_named(chains.take(n), name),
    decreases chains.len() - n,
{
    if n < chains.len() {
        assert(chains.take(n + 1).drop_last() == chains.take(n));
        chain_named_found(chains, name, n + 1);
    } else {
        assert(chains.take(n) == chains);
    }
}

fn find_chain(chains: &Vec<CompiledChain>, name: &str) -> (c: Option<usize>)
    ensures
        match chain_named(chain_views(chains@), name@) {
            Some(i) => c matches Some(k) && k == i && k < chains@.len(),
            None => c is None,
        },
{
    let ghost views = chain_views(chains@);
    let mut i: usize = 0;
    while i < chains.len()
        invariant
            i <= chains.len(),
            views == chain_views(chains@),
            chain_named(views.take(i as int), name@) is None,
        decreases chains.len() - i,
    {
        assert(views.take(i + 1).drop_last() == views.take(i as int));
        assert(views.take(i + 1).last() == chains@[i as int]@);
        if same(chains[i].name.as_str(), name) {
            proof {
                chain_named_found(views, name@, i + 1);
            }
            return Some(i);
        }
        i += 1;
    }
    assert(views.take(i as int) == views);
    None
}

fn execute_action(
    action: &ActionConfig,
    chains: &Vec<CompiledChain>,
    ctx: &EvaluationContext,
    lists: &StringMap<Vec<String>>,
    rates: &mut StringMap<RateLimitState>,
    at: &Moment,
    jumps: usize,
    trail: &mut Trail,
) -> (r: EvaluationResult)
    requires
        hits_fit(old(trail).hits@, chains@),
    ensures
        ({
            let run = acted(
                chain_views(chains@),
                *action,
                *ctx,
                lists@,
                old(rates)@,
                *at,
                jumps as nat,
            );
            &&& r@ == run.answer
            &&& final(rates)@ == run.rates
            &&& final(trail).follows(*old(trail), run)
        }),
        hits_fit(final(trail).hits@, chains@),
    decreases jumps, 0nat, action,
{
    assert(hit_views(trail.hits@) + seq![] =~= hit_views(trail.hits@));
    assert(effect_views(trail.effects@) + seq![] =~= effect_views(trail.effects@));
    match action {
        ActionConfig::Accept => EvaluationResult::Accept,
        ActionConfig::Drop => EvaluationResult::Drop,
        ActionConfig::Reject { status, reason } => EvaluationResult::Reject {
            status: *status,
            reason: copy_opt(reason),
        },
        ActionConfig::Log { level, message, then_action } => {
            let text = log_line(ctx, message);
            trail.note(Effect::Log { level: *level, text });
            match then_action {
                Some(a) => {
                    let ghost noted = effect_views(trail.effects@);
                    let r = execute_action(a, chains, ctx, lists, rates, at, jumps, trail);
                    proof {
                        let before = effect_views(old(trail).effects@);
                        let line = EffectView::Log {
                            level: *level,
                            text: log_text(*ctx, *message),
                        };
                        let rest = acted(
                            chain_views(chains@),
                            **a,
                            *ctx,
                            lists@,
                            old(rates)@,
                            *at,
                            jumps as nat,
                        );
                        assert(noted + rest.effects =~= before + (seq![line] + rest.effects));
                        assert(seq![] + rest.hits =~= rest.hits);
                    }
                    r
                },
                None => EvaluationResult::Continue,
            }
        },
        ActionConfig::RateLimit { key, window, limit, status } => {
            if check_limit(key, window, *limit, ctx, rates, &at.clock) {
                EvaluationResult::Reject { status: *status, reason: None }
            } else {
                EvaluationResult::Continue
            }
        },
        ActionConfig::Modify {
            set_source,
            set_destination,
            set_content,
            prepend_content,
            append_content,
        } => {
            let content = new_content(ctx, set_content, prepend_content, append_content);
            trail.note(
                Effect::Modify {
                    source: copy_opt(set_source),
                    destination: copy_opt(set_destination),
                    content: copy_opt(&content),
                },
            );
            EvaluationResult::Modify {
                source: copy_opt(set_source),
                destination: copy_opt(set_destination),
                content,
            }
        },
        ActionConfig::Jump { chain } => match find_chain(chains, chain.as_str()) {
            Some(c) => if jumps > 0 {
                run_chain(c, chains, ctx, lists, rates, at, jumps - 1, trail)
            } else {
                EvaluationResult::Continue
            },
            None => EvaluationResult::Continue,
        },
        ActionConfig::Return => EvaluationResult::Continue,
        ActionConfig::Quarantine => EvaluationResult::Quarantine,
        ActionConfig::Delay { duration } => {
            trail.note(Effect::Delay { duration: *duration });
            EvaluationResult::Continue
        },
        ActionConfig::Mark { key, value } => {
            trail.note(Effect::Mark { key: key.clone(), value: value.clone() });
            EvaluationResult::Continue
        },
        ActionConfig::Plugin { .. } => EvaluationResult::Continue,
    }
}

fn run_chain(
    c: usize,
    chains: &Vec<CompiledChain>,
    ctx: &EvaluationContext,
    lists: &StringMap<Vec<String>>,
    rates: &mut StringMap<RateLimitState>,
    at: &Moment,
    jumps: usize,
    trail: &mut Trail,
) -> (r: EvaluationResult)
    requires
        c < chains@.len(),
        hits_fit(old(trail).hits@, chains@),
    ensures
        ({
            let run = chain_run(
                chain_views(chains@),
                c as int,
                *ctx,
                lists@,
                old(rates)@,
                *at,
                jumps as nat,
            );
            &&& r@ == run.answer
            &&& final(rates)@ == run.rates
            &&& final(trail).follows(*old(trail), run)
        }),
        hits_fit(final(trail).hits@, chains@),
    decreases jumps, 1nat, ActionConfig::Accept,
{
    let chain = &chains[c];
    assert(chain_views(chains@)[c as int] == chain@);
    assert(hit_views(trail.hits@) + seq![] =~= hit_views(trail.hits@));
    assert(effect_views(trail.effects@) + seq![] =~= effect_views(trail.effects@));
    match find_match(chain, ctx, lists, rates, at) {
        Some(i) => {
            let ghost found = rates@;
            let ghost before = *trail;
            trail.hits.push((c, i));
            let ghost noted = hit_views(trail.hits@);
            assert(noted =~= hit_views(before.hits@).push((c as nat, i as nat)));
            let r = execute_action(
                &chain.rules[i].action,
                chains,
                ctx,
                lists,
                rates,
                at,
                jumps,
                trail,
            );
            proof {
                let rest = acted(
                    chain_views(chains@),
                    chain@.rules[i as int].action,
                    *ctx,
                    lists@,
                    found,
                    *at,
                    jumps as nat,
                );
                assert(noted + rest.hits =~= hit_views(before.hits@) + (seq![
                    (c as nat, i as nat),
                ] + rest.hits));
                assert(seq![] + rest.effects =~= rest.effects);
            }
            r
        },
        None => apply_policy(chain.policy),
    }
}

fn apply_policy(policy: Policy) -> (r: EvaluationResult)
    ensures
        r@ == policy_result(policy),
{
    match policy {
        Policy::Accept => EvaluationResult::Accept,
        Policy::Drop => EvaluationResult::Drop,
        Policy::Reject => EvaluationResult::Reject { status: 8, reason: None },
    }
}

fn run_chains(
    chains: &Vec<CompiledChain>,
    ctx: &EvaluationContext,
    lists: &StringMap<Vec<String>>,
    rates: &mut StringMap<RateLimitState>,
    at: &Moment,
) -> (r: (EvaluationResult, Trail))
    ensures
        ({
            let run = chains_run(chain_views(chains@), 0, *ctx, lists@, old(rates)@, *at);
            &&& r.0@ == run.answer
            &&& final(rates)@ == run.rates
            &&& hit_views(r.1.hits@) == run.hits
            &&& effect_views(r.1.effects@) == run.effects
        }),
        hits_fit(r.1.hits@, chains@),
{
    let ghost views = chain_views(chains@);
    let ghost whole = chains_run(views, 0, *ctx, lists@, rates@, *at);
    let mut trail = Trail { hits: Vec::new(), effects: Vec::new() };
    assert(hit_views(trail.hits@) + whole.hits =~= whole.hits);
    assert(effect_views(trail.effects@) + whole.effects =~= whole.effects);
    let mut i: usize = 0;
    while i < chains.len()
        invariant
            i <= chains.len(),
            views == chain_views(chains@),
            whole == chains_run(views, 0, *ctx, lists@, old(rates)@, *at),
            hits_fit(trail.hits@, chains@),
            ({
                let rest = chains_run(views, i as nat, *ctx, lists@, rates@, *at);
                &&& whole.answer == rest.answer
                &&& whole.rates == rest.rates
                &&& whole.hits == hit_views(trail.hits@) + rest.hits
                &&& whole.effects == effect_views(trail.effects@) + rest.effects
            }),
        decreases chains.len() - i,
    {
        assert(views[i as int] == chains@[i as int]@);
        if chains[i].chain_type == ChainType::Input {
            let ghost before = trail;
            let ghost run = chain_run(
                views,
                i as int,
                *ctx,
                lists@,
                rates@,
                *at,
                views.len(),
            );
            let result = run_chain(i, chains, ctx, lists, rates, at, chains.len(), &mut trail);
            if result.is_terminal() {
                return (result, trail);
            }
            proof {
                let rest = chains_run(views, (i + 1) as nat, *ctx, lists@, rates@, *at);
                assert(hit_views(before.hits@) + (run.hits + rest.hits) =~= hit_views(trail.hits@)
                    + rest.hits);
                assert(effect_views(before.effects@) + (run.effects + rest.effects)
                    =~= effect_views(trail.effects@) + rest.effects);
            }
        }
        i += 1;
    }
    proof {
        let rest = chains_run(views, i as nat, *ctx, lists@, rates@, *at);
        assert(hit_views(trail.hits@) + rest.hits =~= hit_views(trail.hits@));
        assert(effect_views(trail.effects@) + rest.effects =~= effect_views(trail.effects@));
    }
    (EvaluationResult::Continue, trail)
}

/// A firewall ready for evaluation.
#[derive(Debug)]
pub struct CompiledFirewall {
    enabled: bool,
    default_policy: Policy,
    chains: Vec<CompiledChain>,
    lists: StringMap<Vec<String>>,
    rate_limits: StringMap<RateLimitState>,
    clock: Clock,
}

/// How often each named rule has matched: of two rules of one name, the later
/// one counts.
pub open spec fn named_hits(rules: Seq<RuleView>, counters: Seq<u64>, before: Map<Seq<char>, u64>) -> Map<
    Seq<char>,
    u64,
>
    decreases rules.len(),
{
    if rules.len() == 0 {
        before
    } else {
        let init = named_hits(rules.drop_last(), counters.drop_last(), before);
        match rules.last().name {
            Some(name) => init.insert(name, counters.last()),
            None => init,
        }
    }
}

/// How often each named rule of some chains has matched.
pub open spec fn all_named_hits(chains: Seq<ChainView>, counters: Seq<Seq<u64>>) -> Map<
    Seq<char>,
    u64,
>
    decreases chains.len(),
{
    if chains.len() == 0 {
        Map::empty()
    } else {
        named_hits(
            chains.last().rules,
            counters.last(),
            all_named_hits(chains.drop_last(), counters.drop_last()),
        )
    }
}

/// The number of rules in some chains.
pub open spec fn rule_total(chains: Seq<ChainView>) -> nat
    decreases chains.len(),
{
    if chains.len() == 0 {
        0
    } else {
        rule_total(chains.drop_last()) + chains.last().rules.len()
    }
}

/// Statistics of a firewall.
#[derive(Debug)]
pub struct FirewallStats {
    pub enabled: bool,
    pub chains: usize,
    /// The number of rules, or the greatest number that fits where there are
    /// more.
    pub rules: usize,
    pub lists: usize,
    pub rule_hits: StringMap<u64>,
}

impl CompiledFirewall {
    /// Whether the firewall does anything.
    pub closed spec fn enabled(&self) -> bool {
        self.enabled
    }

    /// What to do when no chain decides.
    pub closed spec fn default_policy(&self) -> Policy {
        self.default_policy
    }

    /// The chains, in the order in which they are evaluated.
    pub closed spec fn chains(&self) -> Seq<ChainView> {
        chain_views(self.chains@)
    }

    /// How often the rules of each chain have matched.
    pub closed spec fn counters(&self) -> Seq<Seq<u64>> {
        chain_counters(self.chains@)
    }

    /// The loaded lists.
    pub closed spec fn lists(&self) -> Lists {
        self.lists@
    }

    /// The number of loaded lists.
    pub closed spec fn list_count(&self) -> nat {
        self.lists.order().len()
    }

    /// The state of the rate limits.
    pub closed spec fn rates(&self) -> Rates {
        self.rate_limits@
    }

    /// The same rules, lists and policy.
    pub open spec fn same_rules(&self, other: CompiledFirewall) -> bool {
        &&& self.enabled() == other.enabled()
        &&& self.default_policy() == other.default_policy()
        &&& self.chains() == other.chains()
        &&& self.lists() == other.lists()
        &&& self.list_count() == other.list_count()
    }

    /// What comes of the chains for a message at a moment.
    pub open spec fn outcome(&self, ctx: EvaluationContext, at: Moment) -> RunView {
        chains_run(self.chains(), 0, ctx, self.lists(), self.rates(), at)
    }

    /// An evaluation at a moment leads from one firewall to another, with an
    /// answer and with what is to be done.
    pub open spec fn evaluated(
        &self,
        after: CompiledFirewall,
        ctx: EvaluationContext,
        at: Moment,
        result: EvaluationResultView,
        effects: Seq<EffectView>,
    ) -> bool {
        &&& after.same_rules(*self)
        &&& if self.enabled() {
            let run = self.outcome(ctx, at);
            &&& result == if terminal(run.answer) {
                run.answer
            } else {
                policy_result(self.default_policy())
            }
            &&& after.rates() == run.rates
            &&& after.counters() == all_hit(self.counters(), run.hits)
            &&& effects == run.effects
        } else {
            &&& result == EvaluationResultView::Accept
            &&& after.rates() == self.rates()
            &&& after.counters() == self.counters()
            &&& effects == Seq::<EffectView>::empty()
        }
    }

    /// Compiles a configuration.
    pub fn from_config(config: &FirewallConfig) -> (r: Result<Self, FirewallError>)
        ensures
            match chains_of(config.chains@) {
                Ok(chains) => {
                    r matches Ok(f) && f.enabled() == config.enabled && f.default_policy()
                        == config.default_policy && f.chains() == chains && f.counters()
                        == Seq::new(
                        chains.len(),
                        |i: int| Seq::new(chains[i].rules.len(), |j: int| 0u64),
                    ) && f.lists() == Map::<Seq<char>, Vec<String>>::empty() && f.list_count() == 0
                        && f.rates() == Map::<Seq<char>, RateLimitState>::empty()
                },
                Err(e) => r matches Err(x) && x@ == e,
            },
    {
        let mut chains: Vec<CompiledChain> = Vec::new();
        let mut i: usize = 0;
        assert(chain_views(chains@) == Seq::<ChainView>::empty());
        while i < config.chains.len()
            invariant
                i <= config.chains.len(),
                chains_of(config.chains@.take(i as int)) == Ok::<_, FirewallErrorView>(
                    chain_views(chains@),
                ),
                forall|k: int| 0 <= k < chains@.len() ==> unused((#[trigger] chains@[k]).rules@),
            decreases config.chains.len() - i,
        {
            assert(config.chains@.take(i + 1).drop_last() == config.chains@.take(i as int));
            match compile_chain(&config.chains[i]) {
                Ok(chain) => {
                    insert_chain(&mut chains, chain);
                },
                Err(e) => {
                    proof {
                        chains_error(config.chains@, i + 1);
                    }
                    return Err(e);
                },
            }
            i += 1;
        }
        assert(config.chains@.take(i as int) == config.chains@);
        let f = CompiledFirewall {
            enabled: config.enabled,
            default_policy: config.default_policy,
            chains,
            lists: StringMap::new(),
            rate_limits: StringMap::new(),
            clock: Clock::new(),
        };
        proof {
            let views = f.chains();
            let zero = Seq::new(
                views.len(),
                |i: int| Seq::new(views[i].rules.len(), |j: int| 0u64),
            );
            assert forall|k: int| 0 <= k < views.len() implies f.counters()[k] == zero[k] by {
                assert(views[k].rules.len() == f.chains@[k].rules@.len());
                assert(f.counters()[k] =~= zero[k]);
            }
            assert(f.counters() =~= zero);
        }
        Ok(f)
    }

    /// Loads an external list, in place of an earlier list of the same name.
    pub fn load_list(&mut self, name: &str, entries: Vec<String>)
        ensures
            final(self).lists() == old(self).lists().insert(name@, entries),
            final(self).list_count() == old(self).list_count() + if old(
                self,
            ).lists().dom().contains(name@) {
                0int
            } else {
                1
            },
            final(self).enabled() == old(self).enabled(),
            final(self).default_policy() == old(self).default_policy(),
            final(self).chains() == old(self).chains(),
            final(self).counters() == old(self).counters(),
            final(self).rates() == old(self).rates(),
    {
        self.lists.insert(name.to_owned(), entries);
    }

    fn count_hits(&mut self, hits: &Vec<(usize, usize)>)
        requires
            hits_fit(hits@, old(self).chains@),
        ensures
            final(self).same_rules(*old(self)),
            final(self).rate_limits == old(self).rate_limits,
            final(self).counters() == all_hit(old(self).counters(), hit_views(hits@)),
    {
        let ghost start = self.chains@;
        let ghost views = hit_views(hits@);
        let mut j: usize = 0;
        while j < hits.len()
            invariant
                j <= hits.len(),
                start == old(self).chains@,
                views == hit_views(hits@),
                hits_fit(hits@, start),
                self.chains@.len() == start.len(),
                forall|k: int|
                    0 <= k < start.len() ==> (#[trigger] self.chains@[k]).rules@.len()
                        == start[k].rules@.len(),
                self.same_rules(*old(self)),
                self.rate_limits == old(self).rate_limits,
                self.counters() == all_hit(old(self).counters(), views.take(j as int)),
            decreases hits.len() - j,
        {
            let ghost before = self.chains@;
            let ghost counters = self.counters();
            let (c, i) = hits[j];
            assert(hits@[j as int] == (c, i));
            assert(before[c as int].rules@.len() == start[c as int].rules@.len());
            let count: u64 = self.chains[c].rules[i].counter.wrapping_add(1);
            self.chains[c].rules[i].counter = count;
            proof {
                let old_rules = before[c as int].rules@;
                let new_rules = self.chains@[c as int].rules@;
                assert(new_rules.len() == old_rules.len());
                assert(rule_views(new_rules) =~= rule_views(old_rules));
                assert(rule_counters(new_rules) =~= rule_counters(old_rules).update(
                    i as int,
                    counted_up(rule_counters(old_rules)[i as int]),
                ));
                assert(self.chains@[c as int]@ == before[c as int]@);
                assert(chain_views(self.chains@) =~= chain_views(before));
                assert(views.take(j + 1).drop_last() == views.take(j as int));
                assert(views.take(j + 1).last() == (c as nat, i as nat));
                assert(counters[c as int] == rule_counters(old_rules));
                assert(self.counters() =~= hit(counters, (c as nat, i as nat)));
            }
            j += 1;
        }
        assert(views.take(j as int) == views);
    }

    /// Evaluates the firewall for a message at a moment. Beside the answer
    /// comes what the actions of the rules ask for, in order.
    pub fn evaluate_with_effects_at(&mut self, ctx: &EvaluationContext, at: &Moment) -> (r: (
        EvaluationResult,
        Vec<Effect>,
    ))
        ensures
            old(self).evaluated(*final(self), *ctx, *at, r.0@, effect_views(r.1@)),
    {
        if !self.enabled {
            let none: Vec<Effect> = Vec::new();
            assert(effect_views(none@) =~= Seq::<EffectView>::empty());
            return (EvaluationResult::Accept, none);
        }
        let (result, trail) = run_chains(
            &self.chains,
            ctx,
            &self.lists,
            &mut self.rate_limits,
            at,
        );
        self.count_hits(&trail.hits);
        if result.is_terminal() {
            (result, trail.effects)
        } else {
            (apply_policy(self.default_policy), trail.effects)
        }
    }

    /// Evaluates the firewall for a message now. Beside the answer comes what
    /// the actions of the rules ask for, in order.
    pub fn evaluate_with_effects(&mut self, ctx: &EvaluationContext) -> (r: (
        EvaluationResult,
        Vec<Effect>,
    ))
        ensures
            exists|at: Moment| #[trigger]
                old(self).evaluated(*final(self), *ctx, at, r.0@, effect_views(r.1@)),
    {
        let at = Moment { clock: self.clock.now(), utc: utc_now() };
        self.evaluate_with_effects_at(ctx, &at)
    }

    /// Evaluates the firewall for a message at a moment.
    pub fn evaluate_at(&mut self, ctx: &EvaluationContext, at: &Moment) -> (r: EvaluationResult)
        ensures
            exists|effects: Seq<EffectView>| #[trigger]
                old(self).evaluated(*final(self), *ctx, *at, r@, effects),
    {
        self.evaluate_with_effects_at(ctx, at).0
    }

    /// Evaluates the firewall for a message now.
    pub fn evaluate(&mut self, ctx: &EvaluationContext) -> (r: EvaluationResult)
        ensures
            exists|at: Moment, effects: Seq<EffectView>| #[trigger]
                old(self).evaluated(*final(self), *ctx, at, r@, effects),
    {
        self.evaluate_with_effects(ctx).0
    }

    /// Statistics of the firewall.
    pub fn get_stats(&self) -> (s: FirewallStats)
        ensures
            s.enabled == self.enabled(),
            s.chains == self.chains().len(),
            s.rules == if rule_total(self.chains()) <= usize::MAX {
                rule_total(self.chains())
            } else {
                usize::MAX as nat
            },
            s.lists == self.list_count(),
            s.rule_hits@ == all_named_hits(self.chains(), self.counters()),
    {
        let mut rule_hits: StringMap<u64> = StringMap::new();
        let mut rules: usize = 0;
        let mut i: usize = 0;
        let ghost views = self.chains();
        let ghost counters = self.counters();
        while i < self.chains.len()
            invariant
                i <= self.chains.len(),
                views == chain_views(self.chains@),
                counters == chain_counters(self.chains@),
                rules == if rule_total(views.take(i as int)) <= usize::MAX {
                    rule_total(views.take(i as int))
                } else {
                    usize::MAX as nat
                },
                rule_hits@ == all_named_hits(views.take(i as int), counters.take(i as int)),
            decreases self.chains.len() - i,
        {
            proof {
                assert(views.take(i + 1).drop_last() == views.take(i as int));
                assert(counters.take(i + 1).drop_last() == counters.take(i as int));
                assert(views.take(i + 1).last() == self.chains@[i as int]@);
                assert(counters.take(i + 1).last() == rule_counters(self.chains@[i as int].rules@));
            }
            rules = rules.saturating_add(self.chains[i].rules.len());
            add_named_hits(&self.chains[i].rules, &mut rule_hits);
            i += 1;
        }
        assert(views.take(i as int) == views);
        assert(counters.take(i as int) == counters);
        FirewallStats {
            enabled: self.enabled,
            chains: self.chains.len(),
            rules,
            lists: self.lists.len(),
            rule_hits,
        }
    }
}

fn add_named_hits(rules: &Vec<CompiledRule>, hits: &mut StringMap<u64>)
    ensures
        final(hits)@ == named_hits(rule_views(rules@), rule_counters(rules@), old(hits)@),
{
    let ghost views = rule_views(rules@);
    let ghost counters = rule_counters(rules@);
    let mut i: usize = 0;
    while i < rules.len()
        invariant
            i <= rules.len(),
            views == rule_views(rules@),
            counters == rule_counters(rules@),
            hits@ == named_hits(views.take(i as int), counters.take(i as int), old(hits)@),
        decreases rules.len() - i,
    {
        proof {
            assert(views.take(i + 1).drop_last() == views.take(i as int));
            assert(counters.take(i + 1).drop_last() == counters.take(i as int));
            assert(views.take(i + 1).last() == rules@[i as int]@);
            assert(counters.take(i + 1).last() == rules@[i as int].counter);
        }
        if let Some(name) = &rules[i].name {
            hits.insert(name.clone(), rules[i].counter);
        }
        i += 1;
    }
    assert(views.take(i as int) == views);
    assert(counters.take(i as int) == counters);
}

/// Chains in order of rising priority.
pub open spec fn chains_by_priority(chains: Seq<ChainView>) -> bool {
    forall|i: int, j: int| 0 <= i < j < chains.len() ==> chains[i].priority <= chains[j].priority
}

/// The chains of one priority.
pub open spec fn of_priority(chains: Seq<ChainView>, priority: i32) -> Seq<ChainView> {
    chains.filter(|c: ChainView| c.priority == priority)
}

/// What the configured chains of one priority say, in the order of the
/// configuration.
pub open spec fn configured_with(configs: Seq<ChainConfig>, priority: i32) -> Seq<ChainView>
    decreases configs.len(),
{
    if configs.len() == 0 {
        Seq::empty()
    } else if configs.last().priority == priority {
        configured_with(configs.drop_last(), priority).push(chain_of(configs.last())->Ok_0)
    } else {
        configured_with(configs.drop_last(), priority)
    }
}

/// However the chains are configured, they are evaluated in order of rising
/// priority, and chains of one priority in the order of the configuration.
pub proof fn chains_are_in_order(configs: Seq<ChainConfig>, priority: i32)
    requires
        chains_of(configs) is Ok,
    ensures
        chains_by_priority(chains_of(configs)->Ok_0),
        chains_of(configs)->Ok_0.len() == configs.len(),
        of_priority(chains_of(configs)->Ok_0, priority) == configured_with(configs, priority),
    decreases configs.len(),
{
    if configs.len() > 0 {
        chains_are_in_order(configs.drop_last(), priority);
        let before = chains_of(configs.drop_last())->Ok_0;
        let chain = chain_of(configs.last())->Ok_0;
        new_chain_goes_behind_its_equals(before, chain);
        chain_added_among_its_equals(before, chain, priority);
    } else {
        reveal(Seq::filter);
    }
}

proof fn none_of_priority(chains: Seq<ChainView>, priority: i32)
    requires
        forall|i: int| 0 <= i < chains.len() ==> (#[trigger] chains[i]).priority != priority,
    ensures
        of_priority(chains, priority) == Seq::<ChainView>::empty(),
    decreases chains.len(),
{
    reveal(Seq::filter);
    if chains.len() > 0 {
        none_of_priority(chains.drop_last(), priority);
    }
}

proof fn chain_added_among_its_equals(chains: Seq<ChainView>, chain: ChainView, priority: i32)
    requires
        chains_by_priority(chains),
    ensures
        of_priority(chain_added(chains, chain), priority) == if chain.priority == priority {
            of_priority(chains, priority).push(chain)
        } else {
            of_priority(chains, priority)
        },
{
    let at = chain_slot(chains, chain.priority) as int;
    let all = chain_added(chains, chain);
    let pick = |c: ChainView| c.priority == priority;
    chain_added_places(chains, chain);
    let head = chains.take(at);
    let tail = chains.skip(at);
    assert(head + tail == chains);
    assert(head.push(chain) + tail == all);
    Seq::filter_distributes_over_add(head, tail, pick);
    Seq::filter_distributes_over_add(head.push(chain), tail, pick);
    assert(head.push(chain).drop_last() == head);
    reveal(Seq::filter);
    if chain.priority == priority {
        assert forall|i: int| 0 <= i < tail.len() implies (#[trigger] tail[i]).priority
            != priority by {
            assert(all[at + 1 + i] == chains[at + i]);
        }
        none_of_priority(tail, priority);
    }
}

/// A new chain goes behind all chains of its own or a lower priority and
/// before all chains of a higher one; the other chains keep their order.
pub proof fn new_chain_goes_behind_its_equals(chains: Seq<ChainView>, chain: ChainView)
    requires
        chains_by_priority(chains),
    ensures
        ({
            let at = chain_slot(chains, chain.priority) as int;
            let all = chain_added(chains, chain);
            &&& all.len() == chains.len() + 1
            &&& all[at] == chain
            &&& all.remove(at) == chains
            &&& chains_by_priority(all)
            &&& forall|i: int| 0 <= i < at ==> (#[trigger] all[i]).priority <= chain.priority
            &&& forall|i: int|
                at < i < all.len() ==> (#[trigger] all[i]).priority > chain.priority
        }),
{
    chain_added_places(chains, chain);
    let at = chain_slot(chains, chain.priority) as int;
    let all = chain_added(chains, chain);
    assert(all.remove(at) == chains) by {
        assert(all.remove(at).len() == chains.len());
        assert forall|i: int| 0 <= i < chains.len() implies all.remove(at)[i] == chains[i] by {}
    }
    chain_added_sorted(chains, chain);
}

proof fn chain_added_places(chains: Seq<ChainView>, chain: ChainView)
    requires
        chains_by_priority(chains),
    ensures
        ({
            let at = chain_slot(chains, chain.priority) as int;
            let all = chain_added(chains, chain);
            &&& 0 <= at <= chains.len()
            &&& all.len() == chains.len() + 1
            &&& all[at] == chain
            &&& forall|i: int|
                0 <= i < at ==> #[trigger] all[i] == chains[i] && all[i].priority <= chain.priority
            &&& forall|i: int|
                at < i < all.len() ==> #[trigger] all[i] == chains[i - 1] && all[i].priority
                    > chain.priority
        }),
{
    chain_slot_bound(chains, chain.priority);
    let at = chain_slot(chains, chain.priority) as int;
    let all = chain_added(chains, chain);
    assert forall|i: int| 0 <= i < at implies #[trigger] all[i] == chains[i] && all[i].priority
        <= chain.priority by {
        if i < at - 1 {
            assert(chains[i].priority <= chains[at - 1].priority);
        }
    }
}

#[verifier::spinoff_prover]
proof fn chain_added_sorted(chains: Seq<ChainView>, chain: ChainView)
    requires
        chains_by_priority(chains),
    ensures
        chains_by_priority(chain_added(chains, chain)),
{
    chain_added_places(chains, chain);
    let at = chain_slot(chains, chain.priority) as int;
    let all = chain_added(chains, chain);
    assert forall|i: int, j: int| 0 <= i < j < all.len() implies all[i].priority
        <= all[j].priority by {
        let a = if i < at { i } else { i - 1 };
        let b = if j < at { j } else { j - 1 };
        if i != at && j != at {
            assert(chains[a].priority <= chains[b].priority);
        }
    }
}

/// A rate limit lets through the first messages of a window up to its
/// threshold, and holds for every further message of the window.
pub proof fn rate_holds_above_threshold(
    before: RateLimitState,
    window: nat,
    now: Instant,
    threshold: u64,
)
    requires
        elapsed_nanos(before.window_start, now) < window,
        before.count < u64::MAX,
    ensures
        rate_counted(Some(before), window, now).window_start == before.window_start,
        rate_counted(Some(before), window, now).count > threshold <==> before.count >= threshold,
{
}

/// What the rate limit of an action counts is apart from what the conditions
/// count.
pub proof fn limits_count_apart(
    ctx: EvaluationContext,
    key: RateKey,
    other: EvaluationContext,
    other_key: RateKey,
)
    ensures
        limit_entry(ctx, key) != rate_entry(other, other_key),
{
    reveal_strlit("limit:");
    reveal_strlit("SystemId");
    reveal_strlit("Source");
    reveal_strlit("Destination");
    reveal_strlit("ClientIp");
    reveal_strlit("SenderId");
    assert(limit_entry(ctx, key)[0] == 'l');
    assert(rate_entry(other, other_key)[0] == rate_key_name(other_key)[0]);
}

/// A window that is over starts anew with the message that finds it so.
pub proof fn rate_window_restarts(before: RateLimitState, window: nat, now: Instant)
    requires
        elapsed_nanos(before.window_start, now) >= window,
    ensures
        rate_counted(Some(before), window, now) == (RateLimitState { count: 1, window_start: now }),
{
}

/// The opposite of the opposite of a condition holds when the condition does.
pub proof fn double_negation(
    c: Condition,
    ctx: EvaluationContext,
    lists: Lists,
    rates: Rates,
    at: Moment,
)
    ensures
        holds(Condition::Not(Box::new(Condition::Not(Box::new(c)))), ctx, lists, rates, at)
            == holds(c, ctx, lists, rates, at),
{
    reveal_with_fuel(holds, 3);
}

/// A condition has no rate limit in it.
pub open spec fn counts_nothing(c: Condition) -> bool
    decreases c,
{
    match c {
        Condition::Rate(_, _, _) => false,
        Condition::Not(inner) => counts_nothing(*inner),
        Condition::And(cs) => all_count_nothing(cs),
        Condition::Or(cs) => all_count_nothing(cs),
        _ => true,
    }
}

/// No condition of a list has a rate limit in it.
pub open spec fn all_count_nothing(cs: Seq<Condition>) -> bool
    decreases cs,
{
    cs.len() == 0 || (counts_nothing(cs[0]) && all_count_nothing(cs.drop_first()))
}

/// Asking a condition without rate limits changes nothing.
pub proof fn asking_changes_nothing(
    c: Condition,
    ctx: EvaluationContext,
    lists: Lists,
    rates: Rates,
    at: Moment,
)
    requires
        counts_nothing(c),
    ensures
        holds(c, ctx, lists, rates, at).1 == rates,
    decreases c,
{
    match c {
        Condition::Not(inner) => {
            asking_changes_nothing(*inner, ctx, lists, rates, at);
        },
        Condition::And(cs) => {
            asking_all_changes_nothing(cs, ctx, lists, rates, at);
        },
        Condition::Or(cs) => {
            asking_all_changes_nothing(cs, ctx, lists, rates, at);
        },
        _ => {},
    }
}

/// Asking conditions without rate limits changes nothing, whether all of them
/// must hold or one.
pub proof fn asking_all_changes_nothing(
    cs: Seq<Condition>,
    ctx: EvaluationContext,
    lists: Lists,
    rates: Rates,
    at: Moment,
)
    requires
        all_count_nothing(cs),
    ensures
        all_hold(cs, ctx, lists, rates, at).1 == rates,
        one_holds(cs, ctx, lists, rates, at).1 == rates,
    decreases cs,
{
    if cs.len() > 0 {
        asking_changes_nothing(cs[0], ctx, lists, rates, at);
        asking_all_changes_nothing(cs.drop_first(), ctx, lists, rates, at);
    }
}

} // verus!
