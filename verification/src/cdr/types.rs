//! Call detail records.

use crate::collections::{texts, StringMap};
use crate::text::{
    decimal, number, opt_text, signed_decimal, signed_number, to_chars,
};
use crate::time::{parsed_rfc3339, stamp, UtcTime};
use vstd::prelude::*;
use vstd::utf8::{encode_utf8, is_char_boundary};

verus! {

/// Kind of a record.
#[derive(Debug, Clone, Copy, PartialEq, Eq, Structural)]
pub enum CdrType {
    /// A message was submitted.
    Submit,
    /// A receipt came.
    Delivery,
    /// A message came from a mobile.
    MobileOriginated,
    /// A query was answered.
    Query,
}

/// Name of a kind.
pub open spec fn cdr_type_name(t: CdrType) -> Seq<char> {
    match t {
        CdrType::Submit => "Submit"@,
        CdrType::Delivery => "Delivery"@,
        CdrType::MobileOriginated => "MobileOriginated"@,
        CdrType::Query => "Query"@,
    }
}

/// Number of a kind.
pub open spec fn cdr_type_number(t: CdrType) -> nat {
    match t {
        CdrType::Submit => 0,
        CdrType::Delivery => 1,
        CdrType::MobileOriginated => 2,
        CdrType::Query => 3,
    }
}

impl CdrType {
    /// Name of the kind.
    pub fn name(&self) -> (s: &'static str)
        ensures
            s@ == cdr_type_name(*self),
    {
        match self {
            CdrType::Submit => "Submit",
            CdrType::Delivery => "Delivery",
            CdrType::MobileOriginated => "MobileOriginated",
            CdrType::Query => "Query",
        }
    }

    /// Number of the kind.
    pub fn number(&self) -> (n: u64)
        ensures
            n == cdr_type_number(*self),
    {
        match self {
            CdrType::Submit => 0,
            CdrType::Delivery => 1,
            CdrType::MobileOriginated => 2,
            CdrType::Query => 3,
        }
    }
}

/// What a receipt says.
#[derive(Debug)]
pub struct DeliveryInfo {
    pub submit_date: Option<String>,
    pub done_date: Option<String>,
    pub delivery_latency_secs: Option<u64>,
    pub error_code: Option<u32>,
    pub error_text: Option<String>,
}

/// Fields of a record.
#[derive(Debug, Clone, Copy, PartialEq, Eq, Structural, Hash)]
pub enum CdrField {
    MessageId,
    SmscMessageId,
    Timestamp,
    EsmeId,
    SourceAddr,
    DestAddr,
    Route,
    Endpoint,
    DeliveryStatus,
    StatusCode,
    Cost,
    Revenue,
    CountryCode,
    Network,
}

/// A call detail record.
#[derive(Debug)]
pub struct Cdr {
    pub cdr_type: CdrType,
    pub message_id: String,
    /// Message ID that an upstream endpoint gave.
    pub smsc_message_id: Option<String>,
    /// When the record was made.
    pub timestamp: String,
    /// The client.
    pub esme_id: String,
    pub source_addr: String,
    pub dest_addr: String,
    pub content: Option<String>,
    /// Length of the message in bytes.
    pub message_length: u32,
    pub segments: u32,
    pub data_coding: u8,
    pub esm_class: u8,
    pub route: Option<String>,
    pub endpoint: Option<String>,
    pub delivery_status: Option<String>,
    pub delivery_info: Option<DeliveryInfo>,
    pub status_code: u32,
    pub status_message: Option<String>,
    pub latency_ms: Option<u64>,
    /// In the smallest unit of the currency.
    pub cost: Option<i64>,
    pub revenue: Option<i64>,
    pub currency: Option<String>,
    pub country_code: Option<String>,
    pub network: Option<String>,
    pub mcc: Option<String>,
    pub mnc: Option<String>,
    pub ported: Option<bool>,
    pub firewall_result: Option<String>,
    pub firewall_rule: Option<String>,
    pub rate_limited: Option<bool>,
    pub retry_count: u32,
    pub listener: Option<String>,
    pub connection_id: Option<u64>,
    pub client_ip: Option<String>,
    pub tls: bool,
    pub smpp_version: Option<String>,
    pub custom: StringMap<String>,
}

/// The text of an optional string; nothing where there is none.
pub open spec fn text_or_nothing(s: Option<String>) -> Seq<char> {
    match s {
        Some(x) => x@,
        None => seq![],
    }
}

fn or_nothing(s: &Option<String>) -> (text: String)
    ensures
        text@ == text_or_nothing(*s),
{
    match s {
        Some(x) => x.clone(),
        None => String::new(),
    }
}

/// The first bytes of a content, and dots in place of the rest. The bytes are
/// those of whole characters.
pub open spec fn shortened(content: Seq<char>, max: nat, kept: Seq<char>) -> bool {
    exists|head: Seq<char>|
        kept == #[trigger] (head + "..."@) && encode_utf8(head) == encode_utf8(content).subrange(
            0,
            max as int,
        )
}

/// What is kept of a content.
pub open spec fn content_kept(content: Seq<char>, max_len: Option<usize>, kept: Seq<char>) -> bool {
    match max_len {
        Some(max) if encode_utf8(content).len() > max => shortened(content, max as nat, kept),
        _ => kept == content,
    }
}

impl Cdr {
    /// A record of a submitted message, with nothing else noted yet.
    pub open spec fn is_submit(
        &self,
        message_id: Seq<char>,
        esme_id: Seq<char>,
        source_addr: Seq<char>,
        dest_addr: Seq<char>,
        now: UtcTime,
    ) -> bool {
        &&& self.cdr_type == CdrType::Submit
        &&& self.smsc_message_id is None
        &&& self.delivery_status is None
        &&& self.is_blank(message_id, esme_id, source_addr, dest_addr, now)
    }

    /// A record in which only the addresses, the IDs and the time are noted.
    pub open spec fn is_blank(
        &self,
        message_id: Seq<char>,
        esme_id: Seq<char>,
        source_addr: Seq<char>,
        dest_addr: Seq<char>,
        now: UtcTime,
    ) -> bool {
        &&& self.message_id@ == message_id
        &&& self.timestamp@ == stamp(now)
        &&& self.esme_id@ == esme_id
        &&& self.source_addr@ == source_addr
        &&& self.dest_addr@ == dest_addr
        &&& self.content is None
        &&& self.message_length == 0
        &&& self.segments == 1
        &&& self.data_coding == 0
        &&& self.esm_class == 0
        &&& self.route is None
        &&& self.endpoint is None
        &&& self.delivery_info is None
        &&& self.status_code == 0
        &&& self.status_message is None
        &&& self.latency_ms is None
        &&& self.cost is None
        &&& self.revenue is None
        &&& self.currency is None
        &&& self.country_code is None
        &&& self.network is None
        &&& self.mcc is None
        &&& self.mnc is None
        &&& self.ported is None
        &&& self.firewall_result is None
        &&& self.firewall_rule is None
        &&& self.rate_limited is None
        &&& self.retry_count == 0
        &&& self.listener is None
        &&& self.connection_id is None
        &&& self.client_ip is None
        &&& !self.tls
        &&& self.smpp_version is None
        &&& self.custom@ == Map::<Seq<char>, String>::empty()
    }

    /// A record of a receipt, with nothing else noted yet.
    pub open spec fn is_delivery(
        &self,
        message_id: Seq<char>,
        smsc_message_id: Seq<char>,
        status: Seq<char>,
        now: UtcTime,
    ) -> bool {
        &&& self.cdr_type == CdrType::Delivery
        &&& opt_text(self.smsc_message_id) == Some(smsc_message_id)
        &&& opt_text(self.delivery_status) == Some(status)
        &&& self.is_blank(message_id, seq![], seq![], seq![], now)
    }

    /// A record of a message that is submitted at a time.
    pub fn submit_at(
        message_id: &str,
        esme_id: &str,
        source_addr: &str,
        dest_addr: &str,
        now: &UtcTime,
    ) -> (c: Self)
        ensures
            c.is_submit(message_id@, esme_id@, source_addr@, dest_addr@, *now),
    {
        Cdr {
            cdr_type: CdrType::Submit,
            message_id: message_id.to_string(),
            smsc_message_id: None,
            timestamp: now.stamp(),
            esme_id: esme_id.to_string(),
            source_addr: source_addr.to_string(),
            dest_addr: dest_addr.to_string(),
            content: None,
            message_length: 0,
            segments: 1,
            data_coding: 0,
            esm_class: 0,
            route: None,
            endpoint: None,
            delivery_status: None,
            delivery_info: None,
            status_code: 0,
            status_message: None,
            latency_ms: None,
            cost: None,
            revenue: None,
            currency: None,
            country_code: None,
            network: None,
            mcc: None,
            mnc: None,
            ported: None,
            firewall_result: None,
            firewall_rule: None,
            rate_limited: None,
            retry_count: 0,
            listener: None,
            connection_id: None,
            client_ip: None,
            tls: false,
            smpp_version: None,
            custom: StringMap::new(),
        }
    }

    /// A record of a message that is submitted now.
    pub fn submit(message_id: &str, esme_id: &str, source_addr: &str, dest_addr: &str) -> (c: Self)
        ensures
            exists|now: UtcTime| #[trigger]
                c.is_submit(message_id@, esme_id@, source_addr@, dest_addr@, now),
    {
        let now = UtcTime::now();
        Cdr::submit_at(message_id, esme_id, source_addr, dest_addr, &now)
    }

    /// A record of a receipt that comes at a time.
    pub fn delivery_at(message_id: &str, smsc_message_id: &str, status: &str, now: &UtcTime) -> (c:
        Self)
        ensures
            c.is_delivery(message_id@, smsc_message_id@, status@, *now),
    {
        proof {
            reveal_strlit("");
            assert(""@ =~= Seq::<char>::empty());
        }
        let cdr = Cdr::submit_at(message_id, "", "", "", now);
        Cdr {
            cdr_type: CdrType::Delivery,
            smsc_message_id: Some(smsc_message_id.to_string()),
            delivery_status: Some(status.to_string()),
            ..cdr
        }
    }

    /// A record of a receipt that comes now.
    pub fn delivery(message_id: &str, smsc_message_id: &str, status: &str) -> (c: Self)
        ensures
            exists|now: UtcTime| #[trigger]
                c.is_delivery(message_id@, smsc_message_id@, status@, now),
    {
        let now = UtcTime::now();
        Cdr::delivery_at(message_id, smsc_message_id, status, &now)
    }

    /// The record with a content, no longer than some bytes. The place where a
    /// content is cut must lie between two characters.
    pub fn with_content(self, content: &str, max_len: Option<usize>) -> (c: Self)
        requires
            max_len matches Some(max) ==> (encode_utf8(content@).len() > max ==> is_char_boundary(
                encode_utf8(content@),
                max as int,
            )),
            encode_utf8(content@).len() <= usize::MAX,
        ensures
            c.message_length as nat == encode_utf8(content@).len() % 0x1_0000_0000,
            c.content matches Some(kept) && content_kept(content@, max_len, kept@),
            c == (Cdr { message_length: c.message_length, content: c.content, ..self }),
    {
        let bytes: usize = content.len();
        let message_length: u32 = (bytes as u64 % 0x1_0000_0000u64) as u32;
        let kept = match max_len {
            Some(max) => {
                if bytes > max {
                    let (head, _) = content.split_at(max);
                    let mut text = head.to_string();
                    text.append("...");
                    assert(text@ == head@ + "..."@);
                    text
                } else {
                    content.to_string()
                }
            },
            None => content.to_string(),
        };
        Cdr { message_length, content: Some(kept), ..self }
    }

    /// The record with a route.
    pub fn with_route(self, route: &str, endpoint: Option<&str>) -> (c: Self)
        ensures
            opt_text(c.route) == Some(route@),
            opt_text(c.endpoint) == (match endpoint {
                Some(e) => Some(e@),
                None => None,
            }),
            c == (Cdr { route: c.route, endpoint: c.endpoint, ..self }),
    {
        let endpoint = match endpoint {
            Some(e) => Some(e.to_string()),
            None => None,
        };
        Cdr { route: Some(route.to_string()), endpoint, ..self }
    }

    /// The record with prices.
    pub fn with_pricing(self, cost: i64, revenue: i64, currency: &str) -> (c: Self)
        ensures
            c.cost == Some(cost),
            c.revenue == Some(revenue),
            opt_text(c.currency) == Some(currency@),
            c == (Cdr { cost: c.cost, revenue: c.revenue, currency: c.currency, ..self }),
    {
        Cdr {
            cost: Some(cost),
            revenue: Some(revenue),
            currency: Some(currency.to_string()),
            ..self
        }
    }

    /// The record with a network.
    pub fn with_network(self, country: &str, mcc: &str, mnc: &str, network: &str) -> (c: Self)
        ensures
            opt_text(c.country_code) == Some(country@),
            opt_text(c.mcc) == Some(mcc@),
            opt_text(c.mnc) == Some(mnc@),
            opt_text(c.network) == Some(network@),
            c == (Cdr {
                country_code: c.country_code,
                mcc: c.mcc,
                mnc: c.mnc,
                network: c.network,
                ..self
            }),
    {
        Cdr {
            country_code: Some(country.to_string()),
            mcc: Some(mcc.to_string()),
            mnc: Some(mnc.to_string()),
            network: Some(network.to_string()),
            ..self
        }
    }

    /// The record with a latency.
    pub fn with_latency(self, ms: u64) -> (c: Self)
        ensures
            c == (Cdr { latency_ms: Some(ms), ..self }),
    {
        Cdr { latency_ms: Some(ms), ..self }
    }

    /// The record with a status.
    pub fn with_status(self, code: u32, message: Option<&str>) -> (c: Self)
        ensures
            c.status_code == code,
            opt_text(c.status_message) == (match message {
                Some(m) => Some(m@),
                None => None,
            }),
            c == (Cdr { status_code: c.status_code, status_message: c.status_message, ..self }),
    {
        let status_message = match message {
            Some(m) => Some(m.to_string()),
            None => None,
        };
        Cdr { status_code: code, status_message, ..self }
    }

    /// The record with a field of one's own.
    pub fn with_custom(self, key: &str, value: &str) -> (c: Self)
        ensures
            c.custom@.dom() == self.custom@.dom().insert(key@),
            c.custom@[key@]@ == value@,
            forall|k: Seq<char>|
                #![trigger c.custom@[k]]
                k != key@ && self.custom@.dom().contains(k) ==> c.custom@[k] == self.custom@[k],
            c == (Cdr { custom: c.custom, ..self }),
    {
        let Cdr { mut custom, .. } = self;
        custom.insert(key.to_string(), value.to_string());
        assert(custom@.dom() =~= self.custom@.dom().insert(key@));
        Cdr { custom, ..self }
    }

    /// What is earned: the revenue less the cost, where both are known.
    pub fn margin(&self) -> (m: Option<i64>)
        requires
            self.revenue matches Some(r) ==> (self.cost matches Some(c) ==> i64::MIN <= r - c
                <= i64::MAX),
        ensures
            m == match (self.revenue, self.cost) {
                (Some(r), Some(c)) => Some((r - c) as i64),
                _ => None,
            },
    {
        match (self.revenue, self.cost) {
            (Some(r), Some(c)) => Some(r - c),
            _ => None,
        }
    }

    /// The texts of a line of values.
    pub open spec fn csv_fields(&self) -> Seq<Seq<char>> {
        seq![
            cdr_type_name(self.cdr_type),
            self.message_id@,
            text_or_nothing(self.smsc_message_id),
            self.timestamp@,
            self.esme_id@,
            self.source_addr@,
            self.dest_addr@,
            decimal(self.message_length as nat),
            decimal(self.segments as nat),
            text_or_nothing(self.route),
            text_or_nothing(self.endpoint),
            text_or_nothing(self.delivery_status),
            decimal(self.status_code as nat),
            match self.latency_ms {
                Some(l) => decimal(l as nat),
                None => seq![],
            },
            match self.cost {
                Some(c) => signed_decimal(c as int),
                None => seq![],
            },
            match self.revenue {
                Some(r) => signed_decimal(r as int),
                None => seq![],
            },
            text_or_nothing(self.currency),
            text_or_nothing(self.country_code),
            text_or_nothing(self.network),
        ]
    }

    fn field_texts(&self) -> (fields: Vec<String>)
        ensures
            texts(fields@) == self.csv_fields(),
    {
        let latency = match self.latency_ms {
            Some(l) => number(l),
            None => String::new(),
        };
        let cost = match self.cost {
            Some(c) => signed_number(c),
            None => String::new(),
        };
        let revenue = match self.revenue {
            Some(r) => signed_number(r),
            None => String::new(),
        };
        let mut fields: Vec<String> = Vec::new();
        fields.push(self.cdr_type.name().to_string());
        fields.push(self.message_id.clone());
        fields.push(or_nothing(&self.smsc_message_id));
        fields.push(self.timestamp.clone());
        fields.push(self.esme_id.clone());
        fields.push(self.source_addr.clone());
        fields.push(self.dest_addr.clone());
        fields.push(number(self.message_length as u64));
        fields.push(number(self.segments as u64));
        fields.push(or_nothing(&self.route));
        fields.push(or_nothing(&self.endpoint));
        fields.push(or_nothing(&self.delivery_status));
        fields.push(number(self.status_code as u64));
        fields.push(latency);
        fields.push(cost);
        fields.push(revenue);
        fields.push(or_nothing(&self.currency));
        fields.push(or_nothing(&self.country_code));
        fields.push(or_nothing(&self.network));
        assert(texts(fields@) =~= self.csv_fields());
        fields
    }

    /// The record as a line of values that are separated by commas.
    pub fn to_csv_line(&self) -> (line: String)
        ensures
            line@ == csv_line(self.csv_fields()),
            without_carriage_returns(*self) ==> csv_record(line@) == self.csv_fields(),
    {
        proof {
            if without_carriage_returns(*self) {
                records_are_read_back(*self);
            }
        }
        let fields = self.field_texts();
        let ghost all = texts(fields@);
        let mut line = String::new();
        let mut i: usize = 0;
        while i < fields.len()
            invariant
                i <= fields.len(),
                all == texts(fields@),
                line@ == csv_line(all.take(i as int)),
            decreases fields.len() - i,
        {
            assert(all.take(i + 1).drop_last() == all.take(i as int));
            assert(all.take(i + 1).last() == fields@[i as int]@);
            if i > 0 {
                line.push(',');
            }
            let cell = csv_escape(fields[i].as_str());
            line.append(cell.as_str());
            assert(line@ =~= csv_line(all.take(i + 1)));
            i += 1;
        }
        assert(all.take(i as int) == all);
        line
    }

    /// The names of the values of a line.
    pub fn csv_header() -> (s: &'static str)
        ensures
            s@
                == "type,message_id,smsc_message_id,timestamp,esme_id,source_addr,dest_addr,message_length,segments,route,endpoint,delivery_status,status_code,latency_ms,cost,revenue,currency,country_code,network"@,
            s@ == csv_line(csv_columns()),
            csv_record(s@) == csv_columns(),
    {
        proof {
            header_names_the_columns();
        }
        "type,message_id,smsc_message_id,timestamp,esme_id,source_addr,dest_addr,message_length,segments,route,endpoint,delivery_status,status_code,latency_ms,cost,revenue,currency,country_code,network"
    }

    /// When the record was made; none if its timestamp cannot be read.
    pub fn timestamp_datetime(&self) -> (t: Option<UtcTime>)
        ensures
            t == match parsed_rfc3339(self.timestamp@) {
                Some((secs, nanos)) => Some(UtcTime { secs, nanos }),
                None => None,
            },
    {
        UtcTime::parse(self.timestamp.as_str())
    }
}

/// A value must be put in quotes: it holds a comma, a quote or a line break.
pub open spec fn needs_quotes(field: Seq<char>) -> bool {
    field.contains(',') || field.contains('"') || field.contains('\n')
}

/// A text in which every quote stands twice.
pub open spec fn quotes_doubled(text: Seq<char>) -> Seq<char>
    decreases text.len(),
{
    if text.len() == 0 {
        seq![]
    } else {
        let front = quotes_doubled(text.drop_last());
        if text.last() == '"' {
            front.push('"').push('"')
        } else {
            front.push(text.last())
        }
    }
}

/// A value as it stands in a line.
pub open spec fn csv_cell(field: Seq<char>) -> Seq<char> {
    if needs_quotes(field) {
        seq!['"'] + quotes_doubled(field) + seq!['"']
    } else {
        field
    }
}

/// A line of values.
pub open spec fn csv_line(fields: Seq<Seq<char>>) -> Seq<char>
    decreases fields.len(),
{
    if fields.len() == 0 {
        seq![]
    } else if fields.len() == 1 {
        csv_cell(fields[0])
    } else {
        csv_line(fields.drop_last()) + seq![','] + csv_cell(fields.last())
    }
}

/// A value as it stands in a line.
pub fn csv_escape(field: &str) -> (cell: String)
    ensures
        cell@ == csv_cell(field@),
{
    let chars = to_chars(field);
    let mut quoted = false;
    let mut cell = String::new();
    cell.push('"');
    let mut i: usize = 0;
    while i < chars.len()
        invariant
            i <= chars.len(),
            chars@ == field@,
            cell@ == seq!['"'] + quotes_doubled(field@.take(i as int)),
            quoted == needs_quotes(field@.take(i as int)),
        decreases chars.len() - i,
    {
        let c = chars[i];
        let ghost before = field@.take(i as int);
        let ghost more = field@.take(i + 1);
        proof {
            assert(more.drop_last() == before);
            assert(more == before.push(c));
            assert forall|x: char| more.contains(x) == (before.contains(x) || x == c) by {
                if before.contains(x) {
                    assert(more[before.index_of(x)] == x);
                }
                if x == c {
                    assert(more[i as int] == x);
                }
            }
        }
        if c == '"' {
            cell.push('"');
        }
        if c == ',' || c == '"' || c == '\n' {
            quoted = true;
        }
        cell.push(c);
        assert(cell@ =~= seq!['"'] + quotes_doubled(more));
        i += 1;
    }
    assert(field@.take(i as int) == field@);
    if quoted {
        cell.push('"');
        cell
    } else {
        field.to_string()
    }
}

/// A text in which every pair of quotes has become one.
pub open spec fn quotes_undoubled(text: Seq<char>) -> Seq<char>
    decreases text.len(),
{
    if text.len() == 0 {
        seq![]
    } else if text.last() == '"' && text.len() >= 2 && text[text.len() - 2] == '"' {
        quotes_undoubled(text.take(text.len() - 2)).push('"')
    } else {
        quotes_undoubled(text.drop_last()).push(text.last())
    }
}

/// What a value of a line stands for.
pub open spec fn csv_read(cell: Seq<char>) -> Seq<char> {
    if cell.len() >= 2 && cell[0] == '"' {
        quotes_undoubled(cell.subrange(1, cell.len() - 1))
    } else {
        cell
    }
}

proof fn doubled_quotes_are_read_back(text: Seq<char>)
    ensures
        quotes_undoubled(quotes_doubled(text)) == text,
    decreases text.len(),
{
    if text.len() > 0 {
        let front = text.drop_last();
        let doubled = quotes_doubled(front);
        doubled_quotes_are_read_back(front);
        assert(front.push(text.last()) == text);
        if text.last() == '"' {
            let more = doubled.push('"').push('"');
            assert(more.take(more.len() - 2) == doubled);
        } else {
            let more = doubled.push(text.last());
            assert(more.drop_last() == doubled);
        }
    } else {
        assert(quotes_doubled(text) == Seq::<char>::empty());
        assert(text == Seq::<char>::empty());
    }
}

/// A value that was written to a line is read back as it was.
pub proof fn values_are_read_back(field: Seq<char>)
    ensures
        csv_read(csv_cell(field)) == field,
{
    let cell = csv_cell(field);
    if needs_quotes(field) {
        assert(cell.subrange(1, cell.len() - 1) == quotes_doubled(field));
        doubled_quotes_are_read_back(field);
    } else if field.len() > 0 {
        assert(field.contains(field[0]));
    }
}

/// Where the reading of a record stands.
pub enum CsvMode {
    /// At the start of a value.
    Start,
    /// In a value without quotes.
    Bare,
    /// In a value in quotes.
    Quoted,
    /// Behind a quote in a value in quotes.
    QuoteSeen,
    /// Behind the end of the record.
    Ended,
}

/// What has been read of a record.
#[verifier::ext_equal]
pub struct CsvReading {
    /// The values that are complete.
    pub done: Seq<Seq<char>>,
    /// The value that is being read.
    pub current: Seq<char>,
    /// Where the reading stands.
    pub mode: CsvMode,
}

/// A reading that goes on behind a separator.
pub open spec fn csv_separated(r: CsvReading) -> CsvReading {
    CsvReading { done: r.done.push(r.current), current: seq![], mode: CsvMode::Start }
}

/// What has been read after one more character. Outside quotes a comma ends
/// the value and a line break the record; in quotes a pair of quotes stands
/// for one.
pub open spec fn csv_step(r: CsvReading, c: char) -> CsvReading {
    let more = r.current.push(c);
    let line_break = c == '\n' || c == '\r';
    match r.mode {
        CsvMode::Start => if c == '"' {
            CsvReading { mode: CsvMode::Quoted, ..r }
        } else if c == ',' {
            csv_separated(r)
        } else if line_break {
            CsvReading { mode: CsvMode::Ended, ..r }
        } else {
            CsvReading { current: more, mode: CsvMode::Bare, ..r }
        },
        CsvMode::Bare => if c == ',' {
            csv_separated(r)
        } else if line_break {
            CsvReading { mode: CsvMode::Ended, ..r }
        } else {
            CsvReading { current: more, ..r }
        },
        CsvMode::Quoted => if c == '"' {
            CsvReading { mode: CsvMode::QuoteSeen, ..r }
        } else {
            CsvReading { current: more, ..r }
        },
        CsvMode::QuoteSeen => if c == '"' {
            CsvReading { current: more, mode: CsvMode::Quoted, ..r }
        } else if c == ',' {
            csv_separated(r)
        } else {
            CsvReading { mode: CsvMode::Ended, ..r }
        },
        CsvMode::Ended => r,
    }
}

/// What has been read after some more characters.
pub open spec fn csv_run(r: CsvReading, text: Seq<char>) -> CsvReading
    decreases text.len(),
{
    if text.len() == 0 {
        r
    } else {
        csv_step(csv_run(r, text.drop_last()), text.last())
    }
}

/// Nothing has been read.
pub open spec fn csv_start() -> CsvReading {
    CsvReading { done: seq![], current: seq![], mode: CsvMode::Start }
}

/// The values of the record that a text begins with.
pub open spec fn csv_record(text: Seq<char>) -> Seq<Seq<char>> {
    let r = csv_run(csv_start(), text);
    r.done.push(r.current)
}

proof fn csv_run_on(r: CsvReading, a: Seq<char>, b: Seq<char>)
    ensures
        csv_run(r, a + b) == csv_run(csv_run(r, a), b),
    decreases b.len(),
{
    if b.len() > 0 {
        assert((a + b).drop_last() =~= a + b.drop_last());
        csv_run_on(r, a, b.drop_last());
    } else {
        assert(a + b =~= a);
    }
}

proof fn csv_run_one(r: CsvReading, c: char)
    ensures
        csv_run(r, seq![c]) == csv_step(r, c),
{
    assert(seq![c].drop_last() =~= Seq::<char>::empty());
    reveal_with_fuel(csv_run, 2);
}

/// The reading of a value may end here.
spec fn csv_complete(mode: CsvMode) -> bool {
    mode is Start || mode is Bare || mode is QuoteSeen
}

proof fn csv_run_bare(done: Seq<Seq<char>>, text: Seq<char>)
    requires
        !needs_quotes(text),
        !text.contains('\r'),
    ensures
        csv_run(CsvReading { done, current: seq![], mode: CsvMode::Start }, text) == (CsvReading {
            done,
            current: text,
            mode: if text.len() == 0 {
                CsvMode::Start
            } else {
                CsvMode::Bare
            },
        }),
    decreases text.len(),
{
    if text.len() > 0 {
        let front = text.drop_last();
        assert(text.contains(text.last()));
        assert forall|c: char| front.contains(c) implies text.contains(c) by {
            assert(text[front.index_of(c)] == c);
        }
        csv_run_bare(done, front);
        assert(front.push(text.last()) =~= text);
    } else {
        assert(text =~= seq![]);
    }
}

proof fn csv_run_quoted(done: Seq<Seq<char>>, text: Seq<char>)
    ensures
        csv_run(
            CsvReading { done, current: seq![], mode: CsvMode::Quoted },
            quotes_doubled(text),
        ) == (CsvReading { done, current: text, mode: CsvMode::Quoted }),
    decreases text.len(),
{
    let r = CsvReading { done, current: seq![], mode: CsvMode::Quoted };
    if text.len() > 0 {
        let front = text.drop_last();
        csv_run_quoted(done, front);
        let doubled = quotes_doubled(front);
        assert(front.push(text.last()) =~= text);
        if text.last() == '"' {
            let one = doubled.push('"');
            assert(one.drop_last() =~= doubled);
            assert(one.push('"').drop_last() =~= one);
            assert(csv_run(r, one) == csv_step(csv_run(r, doubled), '"'));
            assert(csv_run(r, one.push('"')) == csv_step(csv_run(r, one), '"'));
        } else {
            assert(doubled.push(text.last()).drop_last() =~= doubled);
        }
    } else {
        assert(text =~= seq![]);
    }
}

proof fn csv_run_cell(done: Seq<Seq<char>>, field: Seq<char>)
    requires
        !field.contains('\r'),
    ensures
        ({
            let r = csv_run(
                CsvReading { done, current: seq![], mode: CsvMode::Start },
                csv_cell(field),
            );
            r.done == done && r.current == field && csv_complete(r.mode)
        }),
{
    let start = CsvReading { done, current: seq![], mode: CsvMode::Start };
    if needs_quotes(field) {
        let open = seq!['"'];
        let body = quotes_doubled(field);
        csv_run_on(start, open + body, open);
        csv_run_on(start, open, body);
        csv_run_one(start, '"');
        csv_run_quoted(done, field);
        csv_run_one(csv_run(start, open + body), '"');
    } else {
        csv_run_bare(done, field);
    }
}

proof fn csv_run_line(fields: Seq<Seq<char>>)
    requires
        fields.len() > 0,
        forall|i: int| 0 <= i < fields.len() ==> !(#[trigger] fields[i]).contains('\r'),
    ensures
        ({
            let r = csv_run(csv_start(), csv_line(fields));
            r.done == fields.drop_last() && r.current == fields.last() && csv_complete(r.mode)
        }),
    decreases fields.len(),
{
    if fields.len() == 1 {
        csv_run_cell(seq![], fields[0]);
        assert(fields.drop_last() =~= seq![]);
    } else {
        let front = fields.drop_last();
        csv_run_line(front);
        let line = csv_line(front);
        let cell = csv_cell(fields.last());
        let comma = seq![','];
        csv_run_on(csv_start(), line + comma, cell);
        csv_run_on(csv_start(), line, comma);
        csv_run_one(csv_run(csv_start(), line), ',');
        assert(front.drop_last().push(front.last()) =~= front);
        csv_run_cell(front, fields.last());
    }
}

/// A line of values is read back as the values that were written to it.
pub proof fn lines_are_read_back(fields: Seq<Seq<char>>)
    requires
        fields.len() > 0,
        forall|i: int| 0 <= i < fields.len() ==> !(#[trigger] fields[i]).contains('\r'),
    ensures
        csv_record(csv_line(fields)) == fields,
{
    csv_run_line(fields);
    assert(fields.drop_last().push(fields.last()) =~= fields);
}

/// The names of the values of a line, in order.
pub open spec fn csv_columns() -> Seq<Seq<char>> {
    seq![
        "type"@,
        "message_id"@,
        "smsc_message_id"@,
        "timestamp"@,
        "esme_id"@,
        "source_addr"@,
        "dest_addr"@,
        "message_length"@,
        "segments"@,
        "route"@,
        "endpoint"@,
        "delivery_status"@,
        "status_code"@,
        "latency_ms"@,
        "cost"@,
        "revenue"@,
        "currency"@,
        "country_code"@,
        "network"@,
    ]
}

proof fn column_follows(header: Seq<char>, columns: Seq<Seq<char>>, at: int, name: Seq<char>) -> (all:
    Seq<Seq<char>>)
    requires
        columns.len() > 0,
        0 <= at,
        at + 1 + name.len() <= header.len(),
        header.take(at) == csv_line(columns),
        header[at] == ',',
        forall|i: int| 0 <= i < name.len() ==> #[trigger] name[i] == header[at + 1 + i],
        forall|i: int|
            0 <= i < name.len() ==> #[trigger] name[i] != ',' && name[i] != '"' && name[i] != '\n',
    ensures
        all == columns.push(name),
        header.take(at + 1 + name.len()) == csv_line(all),
{
    assert(!needs_quotes(name));
    assert(columns.push(name).drop_last() =~= columns);
    assert(header.take(at + 1 + name.len()) =~= header.take(at) + seq![','] + name);
    columns.push(name)
}

#[verifier::rlimit(60)]
proof fn header_names_the_columns()
    ensures
        "type,message_id,smsc_message_id,timestamp,esme_id,source_addr,dest_addr,message_length,segments,route,endpoint,delivery_status,status_code,latency_ms,cost,revenue,currency,country_code,network"@
            == csv_line(csv_columns()),
        csv_record(csv_line(csv_columns())) == csv_columns(),
{
    reveal_strlit("type,message_id,smsc_message_id,timestamp,esme_id,source_addr,dest_addr,message_length,segments,route,endpoint,delivery_status,status_code,latency_ms,cost,revenue,currency,country_code,network");
    let header = "type,message_id,smsc_message_id,timestamp,esme_id,source_addr,dest_addr,message_length,segments,route,endpoint,delivery_status,status_code,latency_ms,cost,revenue,currency,country_code,network"@;
    let columns = seq!["type"@];
    reveal_strlit("type");
    assert(header.take(4) =~= "type"@);
    assert(columns.drop_last() =~= Seq::<Seq<char>>::empty());
    assert(header.take(4) == csv_line(columns));
    reveal_strlit("message_id");
    let columns = column_follows(header, columns, 4, "message_id"@);
    reveal_strlit("smsc_message_id");
    let columns = column_follows(header, columns, 15, "smsc_message_id"@);
    reveal_strlit("timestamp");
    let columns = column_follows(header, columns, 31, "timestamp"@);
    reveal_strlit("esme_id");
    let columns = column_follows(header, columns, 41, "esme_id"@);
    reveal_strlit("source_addr");
    let columns = column_follows(header, columns, 49, "source_addr"@);
    reveal_strlit("dest_addr");
    let columns = column_follows(header, columns, 61, "dest_addr"@);
    reveal_strlit("message_length");
    let columns = column_follows(header, columns, 71, "message_length"@);
    reveal_strlit("segments");
    let columns = column_follows(header, columns, 86, "segments"@);
    reveal_strlit("route");
    let columns = column_follows(header, columns, 95, "route"@);
    reveal_strlit("endpoint");
    let columns = column_follows(header, columns, 101, "endpoint"@);
    reveal_strlit("delivery_status");
    let columns = column_follows(header, columns, 110, "delivery_status"@);
    reveal_strlit("status_code");
    let columns = column_follows(header, columns, 126, "status_code"@);
    reveal_strlit("latency_ms");
    let columns = column_follows(header, columns, 138, "latency_ms"@);
    reveal_strlit("cost");
    let columns = column_follows(header, columns, 149, "cost"@);
    reveal_strlit("revenue");
    let columns = column_follows(header, columns, 154, "revenue"@);
    reveal_strlit("currency");
    let columns = column_follows(header, columns, 162, "currency"@);
    reveal_strlit("country_code");
    let columns = column_follows(header, columns, 171, "country_code"@);
    reveal_strlit("network");
    let columns = column_follows(header, columns, 184, "network"@);
    assert(header.take(192) =~= header);
    assert(columns =~= csv_columns());
    lines_are_read_back(columns);
}

/// No text in the line of a record holds a carriage return.
pub open spec fn without_carriage_returns(cdr: Cdr) -> bool {
    &&& !cdr.message_id@.contains('\r')
    &&& !text_or_nothing(cdr.smsc_message_id).contains('\r')
    &&& !cdr.timestamp@.contains('\r')
    &&& !cdr.esme_id@.contains('\r')
    &&& !cdr.source_addr@.contains('\r')
    &&& !cdr.dest_addr@.contains('\r')
    &&& !text_or_nothing(cdr.route).contains('\r')
    &&& !text_or_nothing(cdr.endpoint).contains('\r')
    &&& !text_or_nothing(cdr.delivery_status).contains('\r')
    &&& !text_or_nothing(cdr.currency).contains('\r')
    &&& !text_or_nothing(cdr.country_code).contains('\r')
    &&& !text_or_nothing(cdr.network).contains('\r')
}

proof fn numbers_hold_no_carriage_return(n: nat)
    ensures
        !decimal(n).contains('\r'),
        !signed_decimal(n as int).contains('\r'),
        !signed_decimal(-(n as int)).contains('\r'),
    decreases n,
{
    if n >= 10 {
        numbers_hold_no_carriage_return(n / 10);
        let front = decimal(n / 10);
        assert forall|i: int| 0 <= i < decimal(n).len() implies decimal(n)[i] != '\r' by {
            if i < front.len() {
                assert(decimal(n)[i] == front[i]);
                assert(front.contains(front[i]));
            }
        }
    }
    let minus = seq!['-'] + decimal(n);
    assert forall|i: int| 0 <= i < minus.len() implies minus[i] != '\r' by {
        if i > 0 {
            assert(minus[i] == decimal(n)[i - 1]);
            assert(decimal(n).contains(decimal(n)[i - 1]));
        }
    }
}

/// The line of a record is read back as one value for each column, and each
/// value is the text that was written.
pub proof fn records_are_read_back(cdr: Cdr)
    requires
        without_carriage_returns(cdr),
    ensures
        csv_record(csv_line(cdr.csv_fields())) == cdr.csv_fields(),
        cdr.csv_fields().len() == csv_columns().len(),
{
    reveal_strlit("Submit");
    reveal_strlit("Delivery");
    reveal_strlit("MobileOriginated");
    reveal_strlit("Query");
    assert(!cdr_type_name(cdr.cdr_type).contains('\r'));
    numbers_hold_no_carriage_return(cdr.message_length as nat);
    numbers_hold_no_carriage_return(cdr.segments as nat);
    numbers_hold_no_carriage_return(cdr.status_code as nat);
    if let Some(l) = cdr.latency_ms {
        numbers_hold_no_carriage_return(l as nat);
    }
    if let Some(c) = cdr.cost {
        numbers_hold_no_carriage_return(if c < 0 { (-c) as nat } else { c as nat });
    }
    if let Some(r) = cdr.revenue {
        numbers_hold_no_carriage_return(if r < 0 { (-r) as nat } else { r as nat });
    }
    lines_are_read_back(cdr.csv_fields());
}

/// A value that is not in quotes holds no comma and no line break, so that it
/// ends where the next comma or the line does.
pub proof fn bare_values_hold_no_separator(field: Seq<char>)
    requires
        !needs_quotes(field),
    ensures
        csv_cell(field) == field,
        !csv_cell(field).contains(','),
        !csv_cell(field).contains('\n'),
{
}

} // verus!
