//! Where call detail records go.

use crate::cdr::types::{csv_line, cdr_type_number, Cdr};
use crate::text::{decimal, first_chars, number, opt_text, same, take_chars};
use crate::time::{date_digits, day_number, parsed_rfc3339, utc_not_after, UtcTime};
use std::collections::VecDeque;
use std::sync::Arc;
use vstd::prelude::*;

verus! {

/// Why a record could not be written.
#[derive(Debug)]
pub enum CdrError {
    /// A file could not be written.
    Io(String),
    /// The record could not be put into its format.
    Serialization(String),
    /// The writer cannot be used.
    Unavailable,
}

impl CdrError {
    /// The text of the error.
    pub fn to_string(&self) -> (text: String)
        ensures
            text@ == match self {
                CdrError::Io(e) => "I/O error: "@ + e@,
                CdrError::Serialization(e) => "serialization error: "@ + e@,
                CdrError::Unavailable => "writer not available"@,
            },
    {
        match self {
            CdrError::Io(e) => {
                let mut text = "I/O error: ".to_string();
                text.append(e.as_str());
                text
            },
            CdrError::Serialization(e) => {
                let mut text = "serialization error: ".to_string();
                text.append(e.as_str());
                text
            },
            CdrError::Unavailable => "writer not available".to_string(),
        }
    }
}

/// Format of records.
#[derive(Debug, Clone, Copy, PartialEq, Eq, Structural)]
pub enum CdrFormat {
    /// One JSON object to a line.
    Json,
    /// Values separated by commas.
    Csv,
    /// A few values separated by a character.
    Delimited(char),
}

/// Configuration of a writer.
#[derive(Debug, Clone, Copy, PartialEq, Eq, Structural)]
pub struct CdrConfig {
    pub format: CdrFormat,
    /// Whether the content of messages is written.
    pub include_content: bool,
    /// How many characters of a content are written at most.
    pub max_content_length: usize,
    /// Whether every day has a file of its own.
    pub rotate_daily: bool,
    pub compress_rotated: bool,
}

impl Default for CdrConfig {
    fn default() -> (c: Self)
        ensures
            c == (CdrConfig {
                format: CdrFormat::Json,
                include_content: false,
                max_content_length: 50,
                rotate_daily: true,
                compress_rotated: false,
            }),
    {
        CdrConfig {
            format: CdrFormat::Json,
            include_content: false,
            max_content_length: 50,
            rotate_daily: true,
            compress_rotated: false,
        }
    }
}

/// A writer of records.
pub trait CdrWriter: Sized {
    /// Writes a record.
    fn write(&mut self, cdr: &Arc<Cdr>) -> Result<(), CdrError>;

    /// Writes out what is waiting.
    fn flush(&mut self) -> Result<(), CdrError>;

    /// Name of the writer.
    fn name(&self) -> &str;
}

/// The file that is open.
#[derive(Debug, Clone, Copy, PartialEq, Eq, Structural)]
pub struct CurrentFile {
    /// Its day, counted from the epoch.
    pub day: i64,
    /// Records that were written to it. After the greatest number comes zero.
    pub records: u64,
}

/// A change of files.
#[derive(Debug)]
pub struct Rotation {
    /// Whether a file must be closed.
    pub close: bool,
    /// Name of the file to open.
    pub filename: String,
    /// Whether the new file begins with the names of the values.
    pub header: bool,
}

/// Decides in which file a record goes and how it is written.
#[derive(Debug)]
pub struct FileCdrWriter {
    name: String,
    base_path: String,
    config: CdrConfig,
    current_file: Option<CurrentFile>,
}

/// Ending of the names of files in a format.
pub open spec fn format_ending(format: CdrFormat) -> Seq<char> {
    match format {
        CdrFormat::Json => "jsonl"@,
        CdrFormat::Csv => "csv"@,
        CdrFormat::Delimited(_) => "txt"@,
    }
}

/// Name of the file for a day.
pub open spec fn cdr_filename(digits: Seq<char>, format: CdrFormat) -> Seq<char> {
    "cdr_"@ + digits + "."@ + format_ending(format)
}

/// The digits of a date, as far as the calendar reaches.
pub open spec fn digits_of(t: UtcTime) -> Seq<char> {
    match date_digits(t.secs) {
        Some(digits) => digits,
        None => seq![],
    }
}

/// Another file must be opened: none is open, or that of another day.
pub open spec fn needs_rotation(
    current: Option<CurrentFile>,
    config: CdrConfig,
    today: int,
) -> bool {
    match current {
        None => true,
        Some(file) => config.rotate_daily && file.day != today,
    }
}

/// A record in a format of a few values.
pub open spec fn delimited(cdr: Cdr, delim: char) -> Seq<char> {
    cdr.timestamp@ + seq![delim] + decimal(cdr_type_number(cdr.cdr_type)) + seq![delim]
        + cdr.message_id@ + seq![delim] + cdr.esme_id@ + seq![delim] + decimal(
        cdr.status_code as nat,
    )
}

/// What is written of the content of a message: nothing, or its beginning.
pub open spec fn written_content(config: CdrConfig, content: Option<Seq<char>>) -> Option<
    Seq<char>,
> {
    match content {
        Some(text) if config.include_content => Some(
            first_chars(text, config.max_content_length as nat),
        ),
        _ => None,
    }
}

impl FileCdrWriter {
    /// The file that is open.
    pub closed spec fn current(&self) -> Option<CurrentFile> {
        self.current_file
    }

    /// The configuration.
    pub closed spec fn config(&self) -> CdrConfig {
        self.config
    }

    /// Name of the writer.
    pub closed spec fn title(&self) -> Seq<char> {
        self.name@
    }

    /// Directory of the files.
    pub closed spec fn directory(&self) -> Seq<char> {
        self.base_path@
    }

    /// A writer without an open file.
    pub fn new(name: &str, base_path: String, config: CdrConfig) -> (w: Self)
        ensures
            w.title() == name@,
            w.directory() == base_path@,
            w.config() == config,
            w.current() is None,
    {
        FileCdrWriter { name: name.to_string(), base_path, config, current_file: None }
    }

    /// Name of the writer.
    pub fn name(&self) -> (s: &str)
        ensures
            s@ == self.title(),
    {
        self.name.as_str()
    }

    /// Directory of the files.
    pub fn base_path(&self) -> (s: &str)
        ensures
            s@ == self.directory(),
    {
        self.base_path.as_str()
    }

    /// Name of the file for a day.
    pub fn filename_for_date(&self, today: &UtcTime) -> (name: String)
        ensures
            name@ == cdr_filename(digits_of(*today), self.config().format),
    {
        let mut name = "cdr_".to_string();
        match today.date_digits() {
            Some(digits) => {
                name.append(digits.as_str());
            },
            None => {},
        }
        assert(name@ =~= "cdr_"@ + digits_of(*today));
        name.append(".");
        match self.config.format {
            CdrFormat::Json => name.append("jsonl"),
            CdrFormat::Csv => name.append("csv"),
            CdrFormat::Delimited(_) => name.append("txt"),
        }
        name
    }

    /// Decides before a record is written whether another file must be opened.
    pub fn get_or_create_file(&self, now: &UtcTime) -> (rotation: Option<Rotation>)
        ensures
            rotation is Some <==> needs_rotation(
                self.current(),
                self.config(),
                day_number(now.secs as int),
            ),
            rotation matches Some(r) ==> {
                &&& r.close == self.current() is Some
                &&& r.filename@ == cdr_filename(digits_of(*now), self.config().format)
                &&& r.header == (self.config().format == CdrFormat::Csv)
            },
    {
        let today: i64 = now.day();
        let needed = match &self.current_file {
            Some(file) => self.config.rotate_daily && file.day != today,
            None => true,
        };
        if !needed {
            return None;
        }
        let header = match self.config.format {
            CdrFormat::Csv => true,
            _ => false,
        };
        Some(
            Rotation {
                close: self.current_file.is_some(),
                filename: self.filename_for_date(now),
                header,
            },
        )
    }

    /// Notes that another file was opened.
    pub fn opened(&mut self, now: &UtcTime)
        ensures
            final(self).current() == Some(
                CurrentFile { day: day_number(now.secs as int) as i64, records: 0 },
            ),
            final(self).config() == old(self).config(),
            final(self).title() == old(self).title(),
            final(self).directory() == old(self).directory(),
    {
        self.current_file = Some(CurrentFile { day: now.day(), records: 0 });
    }

    /// Notes that a file was closed.
    pub fn closed(&mut self)
        ensures
            final(self).current() is None,
            final(self).config() == old(self).config(),
            final(self).title() == old(self).title(),
            final(self).directory() == old(self).directory(),
    {
        self.current_file = None;
    }

    /// Notes that a record was written.
    pub fn wrote(&mut self)
        ensures
            final(self).current() == match old(self).current() {
                Some(file) => Some(
                    CurrentFile {
                        records: if file.records == u64::MAX {
                            0
                        } else {
                            (file.records + 1) as u64
                        },
                        ..file
                    },
                ),
                None => None,
            },
            final(self).config() == old(self).config(),
            final(self).title() == old(self).title(),
            final(self).directory() == old(self).directory(),
    {
        if let Some(file) = self.current_file {
            self.current_file = Some(
                CurrentFile { day: file.day, records: file.records.wrapping_add(1) },
            );
        }
    }

    /// What is written of the content of a record, in a format that holds it.
    pub fn content_to_write(&self, cdr: &Cdr) -> (content: Option<String>)
        ensures
            opt_text(content) == written_content(self.config(), opt_text(cdr.content)),
    {
        match &cdr.content {
            Some(text) => if self.config.include_content {
                Some(take_chars(text.as_str(), self.config.max_content_length))
            } else {
                None
            },
            None => None,
        }
    }

    /// The line of a record; none for JSON, which the caller writes.
    pub fn format_cdr(&self, cdr: &Cdr) -> (line: Option<String>)
        ensures
            match self.config().format {
                CdrFormat::Json => line is None,
                CdrFormat::Csv => line matches Some(s) && s@ == csv_line(cdr.csv_fields()),
                CdrFormat::Delimited(delim) => line matches Some(s) && s@ == delimited(
                    *cdr,
                    delim,
                ),
            },
    {
        match self.config.format {
            CdrFormat::Json => None,
            CdrFormat::Csv => Some(cdr.to_csv_line()),
            CdrFormat::Delimited(delim) => {
                let mut line = cdr.timestamp.clone();
                line.push(delim);
                let kind = number(cdr.cdr_type.number());
                line.append(kind.as_str());
                line.push(delim);
                line.append(cdr.message_id.as_str());
                line.push(delim);
                line.append(cdr.esme_id.as_str());
                line.push(delim);
                let status = number(cdr.status_code as u64);
                line.append(status.as_str());
                assert(line@ =~= delimited(*cdr, delim));
                Some(line)
            },
        }
    }
}

/// Records of a day go to the file of that day: after a file was opened,
/// another is needed only on another day.
pub proof fn one_file_a_day(config: CdrConfig, opened: UtcTime, later: UtcTime)
    ensures
        needs_rotation(
            Some(CurrentFile { day: day_number(opened.secs as int) as i64, records: 0 }),
            config,
            day_number(later.secs as int),
        ) <==> config.rotate_daily && day_number(opened.secs as int) != day_number(
            later.secs as int,
        ),
{
    assert(i64::MIN <= day_number(opened.secs as int) <= i64::MAX);
}

/// Totals of records.
#[derive(Debug, Clone, Copy, PartialEq, Eq, Structural)]
pub struct CdrTotals {
    pub count: u64,
    pub segments: u64,
    pub cost: i64,
    pub revenue: i64,
    pub margin: i64,
}

/// Number of segments of records.
pub open spec fn segment_sum(records: Seq<Arc<Cdr>>) -> nat
    decreases records.len(),
{
    if records.len() == 0 {
        0
    } else {
        segment_sum(records.drop_last()) + records.last().segments as nat
    }
}

/// Cost of records.
pub open spec fn cost_sum(records: Seq<Arc<Cdr>>) -> int
    decreases records.len(),
{
    if records.len() == 0 {
        0
    } else {
        cost_sum(records.drop_last()) + match records.last().cost {
            Some(c) => c as int,
            None => 0,
        }
    }
}

/// Revenue of records.
pub open spec fn revenue_sum(records: Seq<Arc<Cdr>>) -> int
    decreases records.len(),
{
    if records.len() == 0 {
        0
    } else {
        revenue_sum(records.drop_last()) + match records.last().revenue {
            Some(r) => r as int,
            None => 0,
        }
    }
}

/// The totals of the first records can be kept, however many they are.
pub open spec fn sums_fit(records: Seq<Arc<Cdr>>) -> bool {
    &&& records.len() <= u64::MAX
    &&& segment_sum(records) <= u64::MAX
    &&& forall|n: int|
        0 <= n <= records.len() ==> i64::MIN <= cost_sum(#[trigger] records.take(n)) <= i64::MAX
    &&& forall|n: int|
        0 <= n <= records.len() ==> i64::MIN <= revenue_sum(#[trigger] records.take(n)) <= i64::MAX
    &&& i64::MIN <= revenue_sum(records) - cost_sum(records) <= i64::MAX
}

proof fn segments_grow(records: Seq<Arc<Cdr>>, n: int)
    requires
        0 <= n <= records.len(),
    ensures
        segment_sum(records.take(n)) <= segment_sum(records),
    decreases records.len(),
{
    if n < records.len() {
        segments_grow(records.drop_last(), n);
        assert(records.drop_last().take(n) == records.take(n));
    } else {
        assert(records.take(n) == records);
    }
}

/// The last records first, no more than some.
pub open spec fn latest(records: Seq<Arc<Cdr>>, count: nat) -> Seq<Arc<Cdr>>
    decreases records.len(),
{
    if records.len() == 0 || count == 0 {
        seq![]
    } else {
        seq![records.last()] + latest(records.drop_last(), (count - 1) as nat)
    }
}

/// The last records of a client first, no more than some.
pub open spec fn latest_of(records: Seq<Arc<Cdr>>, esme_id: Seq<char>, count: nat) -> Seq<Arc<Cdr>>
    decreases records.len(),
{
    if records.len() == 0 || count == 0 {
        seq![]
    } else if records.last().esme_id@ == esme_id {
        seq![records.last()] + latest_of(records.drop_last(), esme_id, (count - 1) as nat)
    } else {
        latest_of(records.drop_last(), esme_id, count)
    }
}

/// A record was made between two times.
pub open spec fn made_between(cdr: Cdr, start: UtcTime, end: UtcTime) -> bool {
    parsed_rfc3339(cdr.timestamp@) matches Some((secs, nanos)) && utc_not_after(
        start,
        UtcTime { secs, nanos },
    ) && utc_not_after(UtcTime { secs, nanos }, end)
}

/// The records that were made between two times, oldest first.
pub open spec fn between(records: Seq<Arc<Cdr>>, start: UtcTime, end: UtcTime) -> Seq<Arc<Cdr>>
    decreases records.len(),
{
    if records.len() == 0 {
        seq![]
    } else {
        let front = between(records.drop_last(), start, end);
        if made_between(*records.last(), start, end) {
            front.push(records.last())
        } else {
            front
        }
    }
}

/// The records after one was written: at the limit the oldest one goes.
pub open spec fn record_kept(records: Seq<Arc<Cdr>>, max: nat, cdr: Arc<Cdr>) -> Seq<Arc<Cdr>> {
    if records.len() >= max && records.len() > 0 {
        records.drop_first().push(cdr)
    } else {
        records.push(cdr)
    }
}

/// Keeps the last records in memory.
#[derive(Debug)]
pub struct MemoryCdrWriter {
    name: String,
    records: VecDeque<Arc<Cdr>>,
    max_records: usize,
}

impl MemoryCdrWriter {
    /// The records, oldest first.
    pub closed spec fn records(&self) -> Seq<Arc<Cdr>> {
        self.records@
    }

    /// How many records are kept.
    pub closed spec fn limit(&self) -> nat {
        self.max_records as nat
    }

    /// Name of the writer.
    pub closed spec fn title(&self) -> Seq<char> {
        self.name@
    }

    /// A writer that keeps some records.
    pub fn new(name: &str, max_records: usize) -> (w: Self)
        ensures
            w.records() == Seq::<Arc<Cdr>>::empty(),
            w.limit() == max_records,
            w.title() == name@,
    {
        MemoryCdrWriter { name: name.to_string(), records: VecDeque::new(), max_records }
    }

    /// The last records, the latest first.
    pub fn recent(&self, count: usize) -> (found: Vec<Arc<Cdr>>)
        ensures
            found@ == latest(self.records(), count as nat),
    {
        let ghost all = self.records@;
        let mut found: Vec<Arc<Cdr>> = Vec::new();
        let mut i: usize = self.records.len();
        assert(all.take(i as int) == all);
        while i > 0 && found.len() < count
            invariant
                i <= all.len(),
                all == self.records@,
                found@.len() <= count,
                latest(all, count as nat) == found@ + latest(
                    all.take(i as int),
                    (count - found@.len()) as nat,
                ),
            decreases i,
        {
            let ghost before = found@;
            assert(all.take(i as int).drop_last() == all.take(i - 1));
            assert(all.take(i as int).last() == all[i - 1]);
            found.push(self.records[i - 1].clone());
            assert(found@ =~= before + seq![all[i - 1]]);
            i -= 1;
            assert(latest(all, count as nat) =~= found@ + latest(
                all.take(i as int),
                (count - found@.len()) as nat,
            ));
        }
        assert(found@ =~= latest(all, count as nat));
        found
    }

    /// The last records of a client, the latest first.
    pub fn by_esme(&self, esme_id: &str, count: usize) -> (found: Vec<Arc<Cdr>>)
        ensures
            found@ == latest_of(self.records(), esme_id@, count as nat),
    {
        let ghost all = self.records@;
        let mut found: Vec<Arc<Cdr>> = Vec::new();
        let mut i: usize = self.records.len();
        assert(all.take(i as int) == all);
        while i > 0 && found.len() < count
            invariant
                i <= all.len(),
                all == self.records@,
                found@.len() <= count,
                latest_of(all, esme_id@, count as nat) == found@ + latest_of(
                    all.take(i as int),
                    esme_id@,
                    (count - found@.len()) as nat,
                ),
            decreases i,
        {
            let ghost before = found@;
            assert(all.take(i as int).drop_last() == all.take(i - 1));
            assert(all.take(i as int).last() == all[i - 1]);
            if same(self.records[i - 1].esme_id.as_str(), esme_id) {
                found.push(self.records[i - 1].clone());
                assert(found@ =~= before + seq![all[i - 1]]);
            }
            i -= 1;
            assert(latest_of(all, esme_id@, count as nat) =~= found@ + latest_of(
                all.take(i as int),
                esme_id@,
                (count - found@.len()) as nat,
            ));
        }
        assert(found@ =~= latest_of(all, esme_id@, count as nat));
        found
    }

    /// The records that were made between two times, oldest first.
    pub fn in_range(&self, start: &UtcTime, end: &UtcTime) -> (found: Vec<Arc<Cdr>>)
        ensures
            found@ == between(self.records(), *start, *end),
    {
        let ghost all = self.records@;
        let mut found: Vec<Arc<Cdr>> = Vec::new();
        let mut i: usize = 0;
        while i < self.records.len()
            invariant
                i <= all.len(),
                all == self.records@,
                found@ == between(all.take(i as int), *start, *end),
            decreases all.len() - i,
        {
            assert(all.take(i + 1).drop_last() == all.take(i as int));
            assert(all.take(i + 1).last() == all[i as int]);
            if let Some(t) = self.records[i].timestamp_datetime() {
                if start.not_after(&t) && t.not_after(end) {
                    found.push(self.records[i].clone());
                }
            }
            i += 1;
        }
        assert(all.take(i as int) == all);
        found
    }

    /// Number of records.
    pub fn count(&self) -> (n: usize)
        ensures
            n == self.records().len(),
    {
        self.records.len()
    }

    /// Totals of the records.
    pub fn totals(&self) -> (t: CdrTotals)
        requires
            sums_fit(self.records()),
        ensures
            t.count == self.records().len(),
            t.segments == segment_sum(self.records()),
            t.cost == cost_sum(self.records()),
            t.revenue == revenue_sum(self.records()),
            t.margin == t.revenue - t.cost,
            t.count == latest(self.records(), usize::MAX as nat).len(),
            t.segments == segment_sum(latest(self.records(), usize::MAX as nat)),
            t.cost == cost_sum(latest(self.records(), usize::MAX as nat)),
            t.revenue == revenue_sum(latest(self.records(), usize::MAX as nat)),
    {
        let ghost all = self.records@;
        let mut segments: u64 = 0;
        let mut cost: i64 = 0;
        let mut revenue: i64 = 0;
        let mut i: usize = 0;
        while i < self.records.len()
            invariant
                i <= all.len(),
                all == self.records@,
                sums_fit(all),
                segments == segment_sum(all.take(i as int)),
                cost == cost_sum(all.take(i as int)),
                revenue == revenue_sum(all.take(i as int)),
            decreases all.len() - i,
        {
            assert(all.take(i + 1).drop_last() == all.take(i as int));
            assert(all.take(i + 1).last() == all[i as int]);
            proof {
                segments_grow(all, i + 1);
            }
            let cdr = &self.records[i];
            assert(i64::MIN <= cost_sum(all.take(i + 1)) <= i64::MAX);
            assert(i64::MIN <= revenue_sum(all.take(i + 1)) <= i64::MAX);
            segments = segments + cdr.segments as u64;
            if let Some(c) = cdr.cost {
                cost = cost + c;
            }
            if let Some(r) = cdr.revenue {
                revenue = revenue + r;
            }
            i += 1;
        }
        assert(all.take(i as int) == all);
        proof {
            totals_are_those_of_recent(all, usize::MAX as nat);
        }
        CdrTotals {
            count: self.records.len() as u64,
            segments,
            cost,
            revenue,
            margin: revenue - cost,
        }
    }

    /// Forgets all records.
    pub fn clear(&mut self)
        ensures
            final(self).records() == Seq::<Arc<Cdr>>::empty(),
            final(self).limit() == old(self).limit(),
            final(self).title() == old(self).title(),
    {
        self.records.clear();
    }
}

impl CdrWriter for MemoryCdrWriter {
    fn write(&mut self, cdr: &Arc<Cdr>) -> (r: Result<(), CdrError>)
        ensures
            r is Ok,
            final(self).records() == record_kept(old(self).records(), old(self).limit(), *cdr),
            final(self).limit() == old(self).limit(),
            final(self).title() == old(self).title(),
    {
        if self.records.len() >= self.max_records {
            let _ = self.records.pop_front();
        }
        self.records.push_back(cdr.clone());
        assert(self.records() =~= record_kept(old(self).records(), old(self).limit(), *cdr));
        Ok(())
    }

    fn flush(&mut self) -> (r: Result<(), CdrError>)
        ensures
            r is Ok,
            *final(self) == *old(self),
    {
        Ok(())
    }

    fn name(&self) -> (s: &str)
        ensures
            s@ == self.title(),
    {
        self.name.as_str()
    }
}

proof fn sums_from_the_front(first: Arc<Cdr>, rest: Seq<Arc<Cdr>>)
    ensures
        segment_sum(seq![first] + rest) == segment_sum(seq![first]) + segment_sum(rest),
        cost_sum(seq![first] + rest) == cost_sum(seq![first]) + cost_sum(rest),
        revenue_sum(seq![first] + rest) == revenue_sum(seq![first]) + revenue_sum(rest),
    decreases rest.len(),
{
    if rest.len() > 0 {
        assert((seq![first] + rest).drop_last() =~= seq![first] + rest.drop_last());
        sums_from_the_front(first, rest.drop_last());
    } else {
        assert(seq![first] + rest =~= seq![first]);
    }
}

/// The records that are listed when as many are asked for as there are, or
/// more, have the totals of all records: the same number, and the same sums of
/// segments, costs and revenues, and so the same margin.
pub proof fn totals_are_those_of_recent(records: Seq<Arc<Cdr>>, count: nat)
    requires
        records.len() <= count,
    ensures
        latest(records, count).len() == records.len(),
        segment_sum(latest(records, count)) == segment_sum(records),
        cost_sum(latest(records, count)) == cost_sum(records),
        revenue_sum(latest(records, count)) == revenue_sum(records),
    decreases records.len(),
{
    if records.len() > 0 {
        let front = records.drop_last();
        let last = records.last();
        totals_are_those_of_recent(front, (count - 1) as nat);
        sums_from_the_front(last, latest(front, (count - 1) as nat));
        assert(seq![last].drop_last() =~= Seq::<Arc<Cdr>>::empty());
        assert(segment_sum(seq![last].drop_last()) == 0);
        assert(cost_sum(seq![last].drop_last()) == 0);
        assert(revenue_sum(seq![last].drop_last()) == 0);
    }
}

/// A writer in memory never keeps more records than its limit, and always the
/// one that was written last.
pub proof fn memory_stays_bounded(records: Seq<Arc<Cdr>>, max: nat, cdr: Arc<Cdr>)
    requires
        max > 0,
        records.len() <= max,
    ensures
        record_kept(records, max, cdr).len() <= max,
        record_kept(records, max, cdr).last() == cdr,
        latest(record_kept(records, max, cdr), 1) == seq![cdr],
{
    let after = record_kept(records, max, cdr);
    assert(latest(after.drop_last(), 0) == Seq::<Arc<Cdr>>::empty());
    assert(latest(after, 1) =~= seq![cdr]);
}

} // verus!
