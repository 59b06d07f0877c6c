use smppd::cdr::types::{csv_escape, Cdr, CdrType};
use smppd::cdr::writer::{
    CdrConfig, CdrError, CdrFormat, CdrWriter, FileCdrWriter, MemoryCdrWriter,
};
use smppd::time::UtcTime;
use std::sync::Arc;

#[test]
fn test_submit_cdr() {
    let cdr = Cdr::submit("msg123", "esme1", "SENDER", "+1234567890")
        .with_content("Hello world", Some(50))
        .with_route("vodacom", Some("smsc1.vodacom:2775"))
        .with_pricing(100, 150, "MZN");

    assert_eq!(cdr.cdr_type, CdrType::Submit);
    assert_eq!(cdr.message_id, "msg123");
    assert_eq!(cdr.esme_id, "esme1");
    assert_eq!(cdr.margin(), Some(50));
}

#[test]
fn test_delivery_cdr() {
    let cdr = Cdr::delivery("msg123", "smsc456", "DELIVRD");

    assert_eq!(cdr.cdr_type, CdrType::Delivery);
    assert_eq!(cdr.smsc_message_id, Some("smsc456".to_string()));
    assert_eq!(cdr.delivery_status, Some("DELIVRD".to_string()));
}

#[test]
fn test_csv_output() {
    let cdr = Cdr::submit("msg123", "esme1", "SENDER", "+258841234567").with_route("vodacom", None);

    let csv = cdr.to_csv_line();
    assert!(csv.contains("msg123"));
    assert!(csv.contains("esme1"));
}

#[test]
fn test_csv_escaping() {
    let cdr = Cdr::submit("msg,123", "cust\"1", "SENDER", "+258841234567");
    let csv = cdr.to_csv_line();
    assert!(csv.contains("\"msg,123\""));
    assert!(csv.contains("\"cust\"\"1\""));
}

/// The values of one line, read back by the rules for quotes and commas.
fn values(line: &str) -> Vec<String> {
    let mut all = Vec::new();
    let mut value = String::new();
    let mut quoted = false;
    let mut chars = line.chars().peekable();
    while let Some(c) = chars.next() {
        if quoted {
            if c != '"' {
                value.push(c);
            } else if chars.peek() == Some(&'"') {
                value.push('"');
                chars.next();
            } else {
                quoted = false;
            }
        } else if c == '"' {
            quoted = true;
        } else if c == ',' {
            all.push(std::mem::take(&mut value));
        } else {
            value.push(c);
        }
    }
    all.push(value);
    all
}

#[test]
fn lines_read_back_as_their_values() {
    let t = UtcTime { secs: 86400, nanos: 0 };
    let cdr = Cdr::submit_at("m,1", "\"e\"", "a\nb", "\",\"\n", &t)
        .with_route("r", Some(""))
        .with_pricing(-5, 7, "M,Z\"N");
    let columns = values(Cdr::csv_header());
    let read = values(&cdr.to_csv_line());
    assert_eq!(columns.len(), 19);
    assert_eq!(read.len(), 19);
    let value = |name: &str| read[columns.iter().position(|c| c == name).unwrap()].as_str();
    assert_eq!(value("type"), "Submit");
    assert_eq!(value("message_id"), "m,1");
    assert_eq!(value("smsc_message_id"), "");
    assert_eq!(value("timestamp"), "1970-01-02T00:00:00+00:00");
    assert_eq!(value("esme_id"), "\"e\"");
    assert_eq!(value("source_addr"), "a\nb");
    assert_eq!(value("dest_addr"), "\",\"\n");
    assert_eq!(value("route"), "r");
    assert_eq!(value("cost"), "-5");
    assert_eq!(value("revenue"), "7");
    assert_eq!(value("currency"), "M,Z\"N");
    assert_eq!(value("network"), "");
}

#[test]
fn a_whole_line() {
    let t = UtcTime { secs: 86400, nanos: 0 };
    let cdr = Cdr::submit_at("m", "e", "S", "D", &t)
        .with_content("abc", None)
        .with_route("r", Some("ep"))
        .with_pricing(-5, 7, "MZN")
        .with_network("MZ", "643", "04", "Vodacom")
        .with_latency(12)
        .with_status(8, Some("error"))
        .with_custom("k", "v");
    assert_eq!(
        cdr.to_csv_line(),
        "Submit,m,,1970-01-02T00:00:00+00:00,e,S,D,3,1,r,ep,,8,12,-5,7,MZN,MZ,Vodacom"
    );
    assert_eq!(Cdr::csv_header().split(',').count(), 19);
    assert_eq!(cdr.custom.get("k").map(|s| s.as_str()), Some("v"));
    assert_eq!(cdr.mcc.as_deref(), Some("643"));
    assert_eq!(cdr.status_message.as_deref(), Some("error"));
}

#[test]
fn cells_are_escaped() {
    assert_eq!(csv_escape("plain"), "plain");
    assert_eq!(csv_escape(""), "");
    assert_eq!(csv_escape("a\nb"), "\"a\nb\"");
    assert_eq!(csv_escape("\""), "\"\"\"\"");
}

/// The value of a cell.
fn unescape(cell: &str) -> String {
    match cell.strip_prefix('"').and_then(|c| c.strip_suffix('"')) {
        Some(inner) => inner.replace("\"\"", "\""),
        None => cell.to_string(),
    }
}

#[test]
fn escaped_values_are_read_back() {
    for value in ["plain", "a,b", "say \"hi\"", "two\nlines", "\"", ",", ""] {
        assert_eq!(unescape(&csv_escape(value)), value);
    }
}

#[test]
fn long_contents_are_cut() {
    let cdr = Cdr::submit("m", "e", "S", "D").with_content("Hello world", Some(5));
    assert_eq!(cdr.content.as_deref(), Some("Hello..."));
    assert_eq!(cdr.message_length, 11);
    let whole = Cdr::submit("m", "e", "S", "D").with_content("Ol\u{e1}", Some(4));
    assert_eq!(whole.content.as_deref(), Some("Ol\u{e1}"));
    assert_eq!(whole.message_length, 4);
}

#[test]
fn margins_need_both_sides() {
    let mut cdr = Cdr::submit("m", "e", "S", "D");
    assert_eq!(cdr.margin(), None);
    cdr.cost = Some(5);
    assert_eq!(cdr.margin(), None);
}

#[test]
fn timestamps_are_read_back() {
    let t = UtcTime { secs: 1_700_000_000, nanos: 0 };
    let cdr = Cdr::submit_at("m", "e", "S", "D", &t);
    assert_eq!(cdr.timestamp_datetime(), Some(t));
    let mut broken = Cdr::submit_at("m", "e", "S", "D", &t);
    broken.timestamp = "yesterday".to_string();
    assert_eq!(broken.timestamp_datetime(), None);
}

#[test]
fn test_memory_writer() {
    let mut writer = MemoryCdrWriter::new("test", 100);

    let cdr = Arc::new(Cdr::submit("msg1", "esme1", "SENDER", "+1234567890"));
    writer.write(&cdr).unwrap();

    assert_eq!(writer.count(), 1);

    let recent = writer.recent(10);
    assert_eq!(recent.len(), 1);
    assert_eq!(recent[0].message_id, "msg1");
}

#[test]
fn test_memory_writer_max_records() {
    let mut writer = MemoryCdrWriter::new("test", 2);

    writer.write(&Arc::new(Cdr::submit("msg1", "c", "S", "D"))).unwrap();
    writer.write(&Arc::new(Cdr::submit("msg2", "c", "S", "D"))).unwrap();
    writer.write(&Arc::new(Cdr::submit("msg3", "c", "S", "D"))).unwrap();

    assert_eq!(writer.count(), 2);

    let recent = writer.recent(10);
    assert_eq!(recent[0].message_id, "msg3");
    assert_eq!(recent[1].message_id, "msg2");
    assert_eq!(writer.recent(1).len(), 1);
}

#[test]
fn test_totals() {
    let mut writer = MemoryCdrWriter::new("test", 100);

    let cdr1 = Cdr::submit("msg1", "c", "S", "D").with_pricing(100, 150, "MZN");
    let cdr2 = Cdr::submit("msg2", "c", "S", "D").with_pricing(100, 200, "MZN");

    writer.write(&Arc::new(cdr1)).unwrap();
    writer.write(&Arc::new(cdr2)).unwrap();

    let totals = writer.totals();
    assert_eq!(totals.count, 2);
    assert_eq!(totals.cost, 200);
    assert_eq!(totals.revenue, 350);
    assert_eq!(totals.margin, 150);
    assert_eq!(totals.segments, 2);
}

#[test]
fn contents_are_written_as_configured() {
    let cdr = Cdr::submit("m", "c", "S", "D").with_content("h\u{e9}llo", None);
    let file = |include_content: bool, max_content_length: usize| {
        let config = CdrConfig { include_content, max_content_length, ..CdrConfig::default() };
        FileCdrWriter::new("f", "/tmp".to_string(), config)
    };
    assert_eq!(file(false, 50).content_to_write(&cdr), None);
    assert_eq!(file(true, 50).content_to_write(&cdr), Some("h\u{e9}llo".to_string()));
    assert_eq!(file(true, 2).content_to_write(&cdr), Some("h\u{e9}".to_string()));
    let bare = Cdr::submit("m", "c", "S", "D");
    assert_eq!(file(true, 50).content_to_write(&bare), None);
}

#[test]
fn totals_are_those_of_the_listed_records() {
    let mut writer = MemoryCdrWriter::new("test", 3);
    for (cost, revenue) in [(1, 2), (30, 50), (-4, 9)] {
        let cdr = Cdr::submit("m", "c", "S", "D").with_pricing(cost, revenue, "MZN");
        writer.write(&Arc::new(cdr)).unwrap();
    }
    writer.write(&Arc::new(Cdr::submit("m", "c", "S", "D"))).unwrap();
    let all = writer.recent(usize::MAX);
    let totals = writer.totals();
    assert_eq!(totals.count, all.len() as u64);
    assert_eq!(totals.segments, all.iter().map(|c| c.segments as u64).sum::<u64>());
    assert_eq!(totals.cost, all.iter().filter_map(|c| c.cost).sum::<i64>());
    assert_eq!(totals.revenue, all.iter().filter_map(|c| c.revenue).sum::<i64>());
    assert_eq!((totals.cost, totals.revenue, totals.margin), (26, 59, 33));
}

#[test]
fn test_by_esme() {
    let mut writer = MemoryCdrWriter::new("test", 100);

    writer.write(&Arc::new(Cdr::submit("msg1", "esme1", "S", "D"))).unwrap();
    writer.write(&Arc::new(Cdr::submit("msg2", "esme2", "S", "D"))).unwrap();
    writer.write(&Arc::new(Cdr::submit("msg3", "esme1", "S", "D"))).unwrap();

    let esme1 = writer.by_esme("esme1", 10);
    assert_eq!(esme1.len(), 2);
    assert_eq!(esme1[0].message_id, "msg3");

    let esme2 = writer.by_esme("esme2", 10);
    assert_eq!(esme2.len(), 1);
}

#[test]
fn records_in_a_range() {
    let mut writer = MemoryCdrWriter::new("test", 100);
    for secs in [10i64, 20, 30] {
        let t = UtcTime { secs, nanos: 0 };
        writer.write(&Arc::new(Cdr::submit_at(&format!("m{}", secs), "c", "S", "D", &t))).unwrap();
    }
    let found =
        writer.in_range(&UtcTime { secs: 20, nanos: 0 }, &UtcTime { secs: 30, nanos: 0 });
    assert_eq!(found.len(), 2);
    assert_eq!(found[0].message_id, "m20");
    writer.clear();
    assert_eq!(writer.count(), 0);
    assert!(writer.flush().is_ok());
    assert_eq!(writer.name(), "test");
}

#[test]
fn files_change_with_the_day() {
    let config = CdrConfig { format: CdrFormat::Csv, ..CdrConfig::default() };
    let mut writer = FileCdrWriter::new("w", "/var/cdr".to_string(), config);
    let noon = UtcTime { secs: 43_200, nanos: 0 };
    let evening = UtcTime { secs: 80_000, nanos: 0 };
    let tomorrow = UtcTime { secs: 86_400, nanos: 0 };
    let first = writer.get_or_create_file(&noon).unwrap();
    assert_eq!(first.filename, "cdr_19700101.csv");
    assert!(!first.close);
    assert!(first.header);
    writer.opened(&noon);
    writer.wrote();
    assert!(writer.get_or_create_file(&evening).is_none());
    let second = writer.get_or_create_file(&tomorrow).unwrap();
    assert_eq!(second.filename, "cdr_19700102.csv");
    assert!(second.close);
    writer.closed();
    assert!(writer.get_or_create_file(&noon).is_some());
    assert_eq!(writer.name(), "w");
    assert_eq!(writer.base_path(), "/var/cdr");
}

#[test]
fn records_in_their_format() {
    let t = UtcTime { secs: 0, nanos: 0 };
    let cdr = Cdr::submit_at("m", "e", "S", "D", &t).with_status(3, None);
    let json = FileCdrWriter::new("w", String::new(), CdrConfig::default());
    assert!(json.format_cdr(&cdr).is_none());
    assert_eq!(json.filename_for_date(&t), "cdr_19700101.jsonl");
    let pipes = FileCdrWriter::new(
        "w",
        String::new(),
        CdrConfig { format: CdrFormat::Delimited('|'), ..CdrConfig::default() },
    );
    assert_eq!(
        pipes.format_cdr(&cdr),
        Some("1970-01-01T00:00:00+00:00|0|m|e|3".to_string())
    );
    assert_eq!(pipes.filename_for_date(&t), "cdr_19700101.txt");
    let csv = FileCdrWriter::new(
        "w",
        String::new(),
        CdrConfig { format: CdrFormat::Csv, ..CdrConfig::default() },
    );
    assert_eq!(csv.format_cdr(&cdr), Some(cdr.to_csv_line()));
}

#[test]
fn days_before_the_epoch() {
    assert_eq!(UtcTime { secs: -1, nanos: 0 }.day(), -1);
    assert_eq!(UtcTime { secs: -86_400, nanos: 0 }.day(), -1);
    assert_eq!(UtcTime { secs: -86_401, nanos: 0 }.day(), -2);
}

#[test]
fn cdr_errors_have_texts() {
    assert_eq!(CdrError::Io("full".to_string()).to_string(), "I/O error: full");
    assert_eq!(
        CdrError::Serialization("bad".to_string()).to_string(),
        "serialization error: bad"
    );
    assert_eq!(CdrError::Unavailable.to_string(), "writer not available");
}
