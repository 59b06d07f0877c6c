//! What records hold, how they are written and which of them are found again.

use crate::cdr::types::{
    cdr_type_name, cdr_type_number, content_kept, csv_cell, csv_columns, csv_line, quotes_doubled,
    text_or_nothing, Cdr, CdrType,
};
use crate::cdr::writer::{
    between, cdr_filename, cost_sum, delimited, latest, latest_of, made_between, needs_rotation,
    record_kept, revenue_sum, segment_sum, written_content, CdrConfig, CdrFormat, CurrentFile,
    FileCdrWriter, Rotation,
};
use crate::text::{decimal, signed_decimal};
use crate::time::{parsed_rfc3339, UtcTime};
use std::sync::Arc;
use vstd::prelude::*;
use vstd::utf8::encode_utf8;

verus! {

/// A value stands in the line of a record where the name of the value stands in
/// the line of names.
pub proof fn values_stand_under_their_name(cdr: Cdr)
    ensures
        csv_columns().len() == 19,
        cdr.csv_fields().len() == 19,
        csv_columns()[0] == "type"@ && cdr.csv_fields()[0] == cdr_type_name(cdr.cdr_type),
        csv_columns()[1] == "message_id"@ && cdr.csv_fields()[1] == cdr.message_id@,
        csv_columns()[2] == "smsc_message_id"@ && cdr.csv_fields()[2] == text_or_nothing(
            cdr.smsc_message_id,
        ),
        csv_columns()[3] == "timestamp"@ && cdr.csv_fields()[3] == cdr.timestamp@,
        csv_columns()[4] == "esme_id"@ && cdr.csv_fields()[4] == cdr.esme_id@,
        csv_columns()[5] == "source_addr"@ && cdr.csv_fields()[5] == cdr.source_addr@,
        csv_columns()[6] == "dest_addr"@ && cdr.csv_fields()[6] == cdr.dest_addr@,
        csv_columns()[7] == "message_length"@ && cdr.csv_fields()[7] == decimal(
            cdr.message_length as nat,
        ),
        csv_columns()[8] == "segments"@ && cdr.csv_fields()[8] == decimal(cdr.segments as nat),
        csv_columns()[9] == "route"@ && cdr.csv_fields()[9] == text_or_nothing(cdr.route),
        csv_columns()[10] == "endpoint"@ && cdr.csv_fields()[10] == text_or_nothing(cdr.endpoint),
        csv_columns()[11] == "delivery_status"@ && cdr.csv_fields()[11] == text_or_nothing(
            cdr.delivery_status,
        ),
        csv_columns()[12] == "status_code"@ && cdr.csv_fields()[12] == decimal(
            cdr.status_code as nat,
        ),
        csv_columns()[13] == "latency_ms"@,
        cdr.latency_ms matches Some(l) ==> cdr.csv_fields()[13] == decimal(l as nat),
        cdr.latency_ms is None ==> cdr.csv_fields()[13].len() == 0,
        csv_columns()[14] == "cost"@,
        cdr.cost matches Some(c) ==> cdr.csv_fields()[14] == signed_decimal(c as int),
        cdr.cost is None ==> cdr.csv_fields()[14].len() == 0,
        csv_columns()[15] == "revenue"@,
        cdr.revenue matches Some(r) ==> cdr.csv_fields()[15] == signed_decimal(r as int),
        cdr.revenue is None ==> cdr.csv_fields()[15].len() == 0,
        csv_columns()[16] == "currency"@ && cdr.csv_fields()[16] == text_or_nothing(cdr.currency),
        csv_columns()[17] == "country_code"@ && cdr.csv_fields()[17] == text_or_nothing(
            cdr.country_code,
        ),
        csv_columns()[18] == "network"@ && cdr.csv_fields()[18] == text_or_nothing(cdr.network),
{
}

/// What there is is written as it is, and what there is not is left empty.
pub proof fn missing_values_are_empty(s: Option<String>)
    ensures
        s matches Some(x) ==> text_or_nothing(s) == x@,
        s is None ==> text_or_nothing(s).len() == 0,
{
}

/// A kind of record has a name and a number of its own.
pub proof fn kinds_have_a_name_and_a_number(a: CdrType, b: CdrType)
    ensures
        cdr_type_name(CdrType::Submit) == "Submit"@ && cdr_type_number(CdrType::Submit) == 0,
        cdr_type_name(CdrType::Delivery) == "Delivery"@ && cdr_type_number(CdrType::Delivery) == 1,
        cdr_type_name(CdrType::MobileOriginated) == "MobileOriginated"@ && cdr_type_number(
            CdrType::MobileOriginated,
        ) == 2,
        cdr_type_name(CdrType::Query) == "Query"@ && cdr_type_number(CdrType::Query) == 3,
        cdr_type_number(a) == cdr_type_number(b) <==> a == b,
{
}

/// A value stands in quotes exactly when it holds a comma, a quote or a line
/// break; each quote in it then stands twice.
pub proof fn values_are_quoted(field: Seq<char>, c: char)
    ensures
        field.contains(',') || field.contains('"') || field.contains('\n') <==> csv_cell(field)
            != field,
        csv_cell(field) != field ==> csv_cell(field) == seq!['"'] + quotes_doubled(field)
            + seq!['"'],
        quotes_doubled(field.push(c)) == if c == '"' {
            quotes_doubled(field) + seq!['"', '"']
        } else {
            quotes_doubled(field).push(c)
        },
        quotes_doubled(seq![]) == Seq::<char>::empty(),
{
    doubled_is_no_shorter(field);
    assert(field.push(c).drop_last() =~= field);
    assert(quotes_doubled(field).push('"').push('"') =~= quotes_doubled(field) + seq!['"', '"']);
}

proof fn doubled_is_no_shorter(text: Seq<char>)
    ensures
        quotes_doubled(text).len() >= text.len(),
    decreases text.len(),
{
    if text.len() > 0 {
        doubled_is_no_shorter(text.drop_last());
    }
}

/// Values are separated by commas.
pub proof fn values_are_separated(fields: Seq<Seq<char>>, field: Seq<char>)
    ensures
        csv_line(seq![field]) == csv_cell(field),
        fields.len() > 0 ==> csv_line(fields.push(field)) == csv_line(fields) + seq![',']
            + csv_cell(field),
{
    assert(fields.push(field).drop_last() =~= fields);
}

/// In the short format the time, the number of the kind, the ID of the message,
/// the client and the status are written, with one character between them.
pub proof fn short_lines_hold_five_values(cdr: Cdr, delim: char)
    ensures
        delimited(cdr, delim) == cdr.timestamp@ + seq![delim] + decimal(
            if cdr.cdr_type is Submit {
                0
            } else if cdr.cdr_type is Delivery {
                1
            } else if cdr.cdr_type is MobileOriginated {
                2
            } else {
                3
            },
        ) + seq![delim] + cdr.message_id@ + seq![delim] + cdr.esme_id@ + seq![delim] + decimal(
            cdr.status_code as nat,
        ),
{
}

/// A file is named by its day and by the format of the records in it.
pub proof fn files_are_named_by_day_and_format(digits: Seq<char>, delim: char)
    ensures
        cdr_filename(digits, CdrFormat::Json) == "cdr_"@ + digits + "."@ + "jsonl"@,
        cdr_filename(digits, CdrFormat::Csv) == "cdr_"@ + digits + "."@ + "csv"@,
        cdr_filename(digits, CdrFormat::Delimited(delim)) == "cdr_"@ + digits + "."@ + "txt"@,
{
}

/// Another file is opened when none is open, and on another day where files
/// change from day to day.
pub proof fn files_change_with_the_day(file: CurrentFile, config: CdrConfig, today: int)
    ensures
        needs_rotation(None, config, today),
        !config.rotate_daily ==> !needs_rotation(Some(file), config, today),
        file.day == today ==> !needs_rotation(Some(file), config, today),
        config.rotate_daily && file.day != today ==> needs_rotation(Some(file), config, today),
{
}

/// The content is written only where that is asked for, and no more of it than
/// allowed, from its beginning.
pub proof fn contents_are_written_on_request(config: CdrConfig, text: Seq<char>)
    ensures
        !config.include_content ==> written_content(config, Some(text)) is None,
        written_content(config, None) is None,
        config.include_content ==> (written_content(config, Some(text)) matches Some(w)
            && w.is_prefix_of(text) && (text.len() <= config.max_content_length ==> w == text) && (
        text.len() > config.max_content_length ==> w.len() == config.max_content_length)),
{
}

/// A content that is not too long is kept as it is; of one that is, the bytes
/// up to the limit, with three dots behind them.
pub proof fn long_contents_are_cut(content: Seq<char>, max: usize, kept: Seq<char>)
    requires
        content_kept(content, Some(max), kept),
    ensures
        encode_utf8(content).len() <= max ==> kept == content,
        encode_utf8(content).len() > max ==> kept.len() >= 3 && kept.subrange(
            kept.len() - 3,
            kept.len() as int,
        ) == seq!['.', '.', '.'] && encode_utf8(kept.take(kept.len() - 3)) == encode_utf8(
            content,
        ).subrange(0, max as int),
{
    reveal_strlit("...");
    if encode_utf8(content).len() > max {
        let head = choose|head: Seq<char>|
            kept == #[trigger] (head + "..."@) && encode_utf8(head) == encode_utf8(
                content,
            ).subrange(0, max as int);
        assert(kept.take(kept.len() - 3) =~= head);
        assert(kept.subrange(kept.len() - 3, kept.len() as int) =~= seq!['.', '.', '.']);
    }
}

/// A new record of a message holds the IDs and the addresses each in its place,
/// and nothing else.
pub proof fn new_records_hold_what_they_are_made_of(
    cdr: Cdr,
    message_id: Seq<char>,
    esme_id: Seq<char>,
    source: Seq<char>,
    dest: Seq<char>,
    status: Seq<char>,
    now: UtcTime,
)
    ensures
        cdr.is_submit(message_id, esme_id, source, dest, now) ==> cdr.cdr_type is Submit
            && cdr.message_id@ == message_id && cdr.esme_id@ == esme_id && cdr.source_addr@
            == source && cdr.dest_addr@ == dest && cdr.smsc_message_id is None
            && cdr.delivery_status is None && nothing_else_is_noted(cdr),
        cdr.is_delivery(message_id, esme_id, status, now) ==> cdr.cdr_type is Delivery
            && cdr.message_id@ == message_id && (cdr.smsc_message_id matches Some(s) && s@
            == esme_id) && (cdr.delivery_status matches Some(d) && d@ == status)
            && cdr.esme_id@.len() == 0 && cdr.source_addr@.len() == 0 && cdr.dest_addr@.len() == 0
            && nothing_else_is_noted(cdr),
{
}

/// Of what is known only later nothing is noted.
pub open spec fn nothing_else_is_noted(cdr: Cdr) -> bool {
    &&& cdr.content is None && cdr.route is None && cdr.endpoint is None
    &&& cdr.message_length == 0 && cdr.segments == 1 && cdr.data_coding == 0 && cdr.esm_class == 0
    &&& cdr.delivery_info is None && cdr.status_code == 0 && cdr.status_message is None
    &&& cdr.latency_ms is None && cdr.cost is None && cdr.revenue is None && cdr.currency is None
    &&& cdr.country_code is None && cdr.network is None && cdr.mcc is None && cdr.mnc is None
    &&& cdr.ported is None && cdr.firewall_result is None && cdr.firewall_rule is None
    &&& cdr.rate_limited is None && cdr.retry_count == 0 && cdr.listener is None
    &&& cdr.connection_id is None && cdr.client_ip is None && !cdr.tls && cdr.smpp_version is None
    &&& cdr.custom@.len() == 0
}

/// The margin is what is left of the revenue, where both prices are known.
pub proof fn margins_are_what_is_left(cdr: Cdr, margin: Option<i64>)
    requires
        cdr.revenue matches Some(r) ==> (cdr.cost matches Some(c) ==> i64::MIN <= r - c
            <= i64::MAX),
        call_ensures(Cdr::margin, (&cdr,), margin),
    ensures
        margin matches Some(m) ==> (cdr.revenue matches Some(r) && cdr.cost matches Some(c) && r
            == c + m),
        cdr.revenue is Some && cdr.cost is Some ==> margin is Some,
{
}

/// The last records come first: as many as are asked for, or all.
pub proof fn the_latest_come_first(records: Seq<Arc<Cdr>>, count: nat)
    ensures
        latest(records, count).len() == if count <= records.len() {
            count as int
        } else {
            records.len() as int
        },
        forall|i: int|
            0 <= i < latest(records, count).len() ==> #[trigger] latest(records, count)[i]
                == records[records.len() - 1 - i],
    decreases records.len(),
{
    if records.len() > 0 && count > 0 {
        let front = records.drop_last();
        the_latest_come_first(front, (count - 1) as nat);
        let rest = latest(front, (count - 1) as nat);
        assert forall|i: int| 0 <= i < latest(records, count).len() implies #[trigger] latest(
            records,
            count,
        )[i] == records[records.len() - 1 - i] by {
            if i > 0 {
                assert(rest[i - 1] == front[front.len() - 1 - (i - 1)]);
            }
        }
    }
}

/// Of a client only its own records are found, no more than are asked for, and
/// all of them where there are no more. A later record pushes itself before
/// the others if it is the client's, and changes nothing if it is not.
pub proof fn clients_have_their_own_records(
    records: Seq<Arc<Cdr>>,
    esme_id: Seq<char>,
    count: nat,
    next: Arc<Cdr>,
)
    ensures
        latest_of(records, esme_id, count).len() <= count,
        forall|i: int|
            0 <= i < latest_of(records, esme_id, count).len() ==> (#[trigger] latest_of(
                records,
                esme_id,
                count,
            )[i]).esme_id@ == esme_id,
        latest_of(records, esme_id, count).len() < count ==> forall|k: int|
            0 <= k < records.len() && (#[trigger] records[k]).esme_id@ == esme_id ==> latest_of(
                records,
                esme_id,
                count,
            ).contains(records[k]),
        next.esme_id@ != esme_id ==> latest_of(records.push(next), esme_id, count) == latest_of(
            records,
            esme_id,
            count,
        ),
        next.esme_id@ == esme_id ==> latest_of(records.push(next), esme_id, count + 1) == seq![next]
            + latest_of(records, esme_id, count),
    decreases records.len(),
{
    assert(records.push(next).drop_last() =~= records);
    let found = latest_of(records, esme_id, count);
    if records.len() > 0 && count > 0 {
        let front = records.drop_last();
        let n = records.len() - 1;
        let less = if records.last().esme_id@ == esme_id {
            (count - 1) as nat
        } else {
            count
        };
        clients_have_their_own_records(front, esme_id, less, next);
        let rest = latest_of(front, esme_id, less);
        assert forall|i: int| 0 <= i < found.len() implies (#[trigger] found[i]).esme_id@
            == esme_id by {
            if records.last().esme_id@ == esme_id && i > 0 {
                assert(found[i] == rest[i - 1]);
            }
        }
        if found.len() < count {
            assert forall|k: int| 0 <= k < records.len() && (#[trigger] records[k]).esme_id@
                == esme_id implies found.contains(records[k]) by {
                if k < n {
                    assert(front[k].esme_id@ == esme_id);
                    assert(rest.contains(front[k]));
                    let j = choose|j: int| 0 <= j < rest.len() && rest[j] == front[k];
                    if records.last().esme_id@ == esme_id {
                        assert(found[j + 1] == records[k]);
                    } else {
                        assert(found[j] == records[k]);
                    }
                } else {
                    assert(found[0] == records[k]);
                }
            }
        }
    }
}

/// A record is found by its time exactly when that can be read and lies neither
/// before the first time nor after the last one.
pub proof fn records_are_found_by_time(cdr: Cdr, start: UtcTime, end: UtcTime)
    ensures
        parsed_rfc3339(cdr.timestamp@) is None ==> !made_between(cdr, start, end),
        parsed_rfc3339(cdr.timestamp@) matches Some(t) ==> (made_between(cdr, start, end) <==> (
        start.secs < t.0 || (start.secs == t.0 && start.nanos <= t.1)) && (t.0 < end.secs || (t.0
            == end.secs && t.1 <= end.nanos))),
{
}

/// The records of a time are those that were made then, in their order.
pub proof fn records_of_a_time_keep_their_order(
    records: Seq<Arc<Cdr>>,
    next: Arc<Cdr>,
    start: UtcTime,
    end: UtcTime,
)
    ensures
        between(seq![], start, end) == Seq::<Arc<Cdr>>::empty(),
        made_between(*next, start, end) ==> between(records.push(next), start, end) == between(
            records,
            start,
            end,
        ).push(next),
        !made_between(*next, start, end) ==> between(records.push(next), start, end) == between(
            records,
            start,
            end,
        ),
        forall|i: int|
            0 <= i < records.len() && made_between(*(#[trigger] records[i]), start, end) ==> between(
                records,
                start,
                end,
            ).contains(records[i]),
        forall|i: int|
            0 <= i < between(records, start, end).len() ==> made_between(
                *(#[trigger] between(records, start, end)[i]),
                start,
                end,
            ) && records.contains(between(records, start, end)[i]),
    decreases records.len(),
{
    assert(records.push(next).drop_last() =~= records);
    if records.len() > 0 {
        let front = records.drop_last();
        records_of_a_time_keep_their_order(front, next, start, end);
        let before = between(front, start, end);
        let found = between(records, start, end);
        assert forall|i: int| 0 <= i < records.len() && made_between(
            *(#[trigger] records[i]),
            start,
            end,
        ) implies found.contains(records[i]) by {
            if i < front.len() {
                assert(made_between(*front[i], start, end));
                let j = choose|j: int| 0 <= j < before.len() && before[j] == front[i];
                assert(found[j] == records[i]);
            } else {
                assert(found[found.len() - 1] == records[i]);
            }
        }
        assert forall|i: int| 0 <= i < found.len() implies made_between(
            *(#[trigger] found[i]),
            start,
            end,
        ) && records.contains(found[i]) by {
            if i < before.len() {
                assert(found[i] == before[i]);
                let j = choose|j: int| 0 <= j < front.len() && front[j] == before[i];
                assert(records[j] == found[i]);
            } else {
                assert(records[records.len() - 1] == found[i]);
            }
        }
    }
}

/// A record that is written is the last one; only at the limit the oldest one
/// goes, and all others stay in their order.
pub proof fn the_oldest_record_goes(records: Seq<Arc<Cdr>>, max: nat, cdr: Arc<Cdr>)
    ensures
        record_kept(records, max, cdr).last() == cdr,
        records.len() < max ==> record_kept(records, max, cdr) == records.push(cdr),
        records.len() >= max && records.len() > 0 ==> record_kept(records, max, cdr).len()
            == records.len() && forall|i: int|
            1 <= i < records.len() ==> #[trigger] records[i] == record_kept(records, max, cdr)[i
                - 1],
{
}

/// A record adds its segments and the prices that it has to the totals.
pub proof fn totals_grow_by_a_record(records: Seq<Arc<Cdr>>, cdr: Arc<Cdr>)
    ensures
        segment_sum(seq![]) == 0 && cost_sum(seq![]) == 0 && revenue_sum(seq![]) == 0,
        segment_sum(records.push(cdr)) == segment_sum(records) + cdr.segments,
        cdr.cost matches Some(c) ==> cost_sum(records.push(cdr)) == cost_sum(records) + c,
        cdr.cost is None ==> cost_sum(records.push(cdr)) == cost_sum(records),
        cdr.revenue matches Some(r) ==> revenue_sum(records.push(cdr)) == revenue_sum(records) + r,
        cdr.revenue is None ==> revenue_sum(records.push(cdr)) == revenue_sum(records),
{
    assert(records.push(cdr).drop_last() =~= records);
}

/// A file of values separated by commas begins with their names; the file of
/// another day is closed before.
pub proof fn files_are_opened(w: FileCdrWriter, now: UtcTime, rotation: Option<Rotation>)
    requires
        call_ensures(FileCdrWriter::get_or_create_file, (&w, &now), rotation),
    ensures
        w.current() is None ==> rotation is Some,
        w.current() matches Some(file) ==> (rotation is Some <==> w.config().rotate_daily
            && file.day != now.secs as int / 86_400),
        rotation matches Some(r) ==> (r.close <==> w.current() is Some) && (r.header
            <==> w.config().format is Csv),
{
}

/// A record that is written is counted in the file that is open.
pub proof fn written_records_are_counted(w: &mut FileCdrWriter)
    requires
        call_ensures(FileCdrWriter::wrote, (w,), ()),
    ensures
        old(w).current() is None ==> final(w).current() is None,
        old(w).current() matches Some(file) ==> (final(w).current() matches Some(after) && after.day
            == file.day && (file.records < u64::MAX ==> after.records == file.records + 1)),
        final(w).config() == old(w).config(),
{
}

/// A record is written in the format of the file.
pub proof fn records_are_written_in_the_format(
    w: FileCdrWriter,
    cdr: Cdr,
    line: Option<String>,
)
    requires
        call_ensures(FileCdrWriter::format_cdr, (&w, &cdr), line),
    ensures
        w.config().format is Json <==> line is None,
        w.config().format is Csv ==> line->0@ == csv_line(cdr.csv_fields()),
        w.config().format matches CdrFormat::Delimited(delim) ==> line->0@ == delimited(cdr, delim),
{
}

} // verus!
