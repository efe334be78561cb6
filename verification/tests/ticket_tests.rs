use chrono::{Datelike, TimeZone, Utc};
use to_core::to_parser::parser_option::ToParserOption;
use to_core::to_ticket::to_ticket_error::ToTicketError;
use to_core::to_ticket::to_ticket_marker::ToMarker;
use to_core::to_ticket::to_ticket_option::ToTicketPrintOption;
use to_core::to_ticket::to_ticket_struct::ToTicket;
use to_core::to_ticket::to_ticket_time::ToTimestamp;
use to_core::to_ticket::to_ticket_utils::print_minimal_ticket;

fn moment(year: i32, month: u32, day: u32) -> ToTimestamp {
    let secs = Utc.with_ymd_and_hms(year, month, day, 0, 0, 0).unwrap().timestamp();
    ToTimestamp::from_timestamp(secs, 0).unwrap()
}

#[test]
fn test_create_ticket() {
    let ticket = ToTicket::default();
    assert_eq!(ticket.ticket_id.len(), 5);
    assert_eq!(ticket.values.len(), 0);
    assert_eq!(ticket.to_updated.num_days_from_ce(), Utc::now().num_days_from_ce());
    assert_eq!(ticket.to_store_url, None);
    assert_eq!(ticket.to_store_info, None);
    assert!(ticket.to_marker.left_marker.len() > 0);
}

#[test]
fn test_parse() {
    let mark_content = "key1:value1|key2:value2";
    let opt = ToParserOption::default();
    let to_ticket = ToTicket::parse(mark_content, &opt, None).unwrap();
    assert_eq!(to_ticket.values.len(), 2);
    assert_eq!(to_ticket.values.get("key1").unwrap(), "value1");
    assert_eq!(to_ticket.values.get("key2").unwrap(), "value2");
}

#[test]
fn test_parse_string_with_markers() {
    let opt = ToParserOption::default();
    let mark_content = format!(
        "{}key1:value1|key2:value2{}",
        opt.to_marker.left_marker, opt.to_marker.right_marker
    );
    let to_ticket = ToTicket::parse(&mark_content, &opt, None).unwrap();
    assert_eq!(to_ticket.values.len(), 2);
    assert_eq!(to_ticket.values.get("key1").unwrap(), "value1");
    assert_eq!(to_ticket.values.get("key2").unwrap(), "value2");
}

#[test]
fn test_parse_with_meta_data() {
    let opt = ToParserOption::default();
    let mark_content = format!("{}id:test_id|key1:value1|key2:value2|updated:2018-01-01 00:00:00|store_info:store_info|store_id:store_id{}", opt.to_marker.left_marker, opt.to_marker.right_marker);
    let to_ticket = ToTicket::parse(&mark_content, &opt, None).unwrap();
    assert_eq!(to_ticket.ticket_id, "test_id".to_string());
    assert_eq!(to_ticket.values.len(), 2);
    assert_eq!(to_ticket.values.get("key1").unwrap(), "value1");
    assert_eq!(to_ticket.values.get("key2").unwrap(), "value2");
    assert_eq!(
        to_ticket.to_updated.num_days_from_ce(),
        Utc.with_ymd_and_hms(2018, 1, 1, 0, 0, 0).unwrap().num_days_from_ce()
    );
    assert_eq!(to_ticket.to_store_url, Some("store_id".to_string()));
    assert_eq!(to_ticket.to_store_info, Some("store_info".to_string()));
}

#[test]
fn test_parse_with_missing_values() {
    let opt = ToParserOption::default();
    let mark_content = format!("{}id:test_id|key1:|key2|:value1|updated:2018-01-01 00:00:00|store_info:store_info{}", opt.to_marker.left_marker, opt.to_marker.right_marker);
    let to_ticket = ToTicket::parse(&mark_content, &opt, None).unwrap();
    assert_eq!(to_ticket.ticket_id, "test_id".to_string());
    assert_eq!(to_ticket.values.len(), 3);
    assert_eq!(to_ticket.values.get("key1").unwrap(), "");
    assert_eq!(to_ticket.values.get("key2").unwrap(), "");
    assert_eq!(
        to_ticket.to_updated.num_days_from_ce(),
        Utc.with_ymd_and_hms(2018, 1, 1, 0, 0, 0).unwrap().num_days_from_ce()
    );
    assert_eq!(to_ticket.to_store_url, None);
    assert_eq!(to_ticket.to_store_info, Some("store_info".to_string()));
}

#[test]
fn parse_entry_without_key_takes_value_as_key() {
    let opt = ToParserOption::default();
    let to_ticket = ToTicket::parse(":value_with_no_key", &opt, None).unwrap();
    assert_eq!(to_ticket.values.len(), 1);
    assert_eq!(to_ticket.values.get_index(0).unwrap().0, "value_with_no_key");
    assert_eq!(to_ticket.values.get("value_with_no_key").unwrap(), "");
}

#[test]
fn parse_skips_empty_entries_and_keeps_separators_in_values() {
    let opt = ToParserOption::default();
    let to_ticket = ToTicket::parse("||a:b:c||:|d", &opt, None).unwrap();
    assert_eq!(to_ticket.values.len(), 2);
    assert_eq!(to_ticket.values.get("a").unwrap(), "b:c");
    assert_eq!(to_ticket.values.get("d").unwrap(), "");
}

#[test]
fn parse_later_value_replaces_earlier_in_place() {
    let opt = ToParserOption::default();
    let to_ticket = ToTicket::parse("a:1|b:2|a:3", &opt, None).unwrap();
    assert_eq!(to_ticket.values.len(), 2);
    assert_eq!(to_ticket.values.get_index(0).unwrap(), (&"a".to_string(), &"3".to_string()));
    assert_eq!(to_ticket.values.get_index(1).unwrap(), (&"b".to_string(), &"2".to_string()));
}

#[test]
fn parse_without_id_takes_fresh_id_and_present_time() {
    let opt = ToParserOption::default();
    let to_ticket = ToTicket::parse("a:1", &opt, None).unwrap();
    assert_eq!(to_ticket.ticket_id.chars().count(), 5);
    assert_eq!(to_ticket.to_updated.num_days_from_ce(), Utc::now().num_days_from_ce());
    assert_eq!(to_ticket.id, "");
    assert!(to_ticket.to_intext_option.is_none());
}

#[test]
fn parse_with_takes_given_id_and_time() {
    let opt = ToParserOption::default();
    let to_ticket =
        ToTicket::parse_with("a:1", &opt, None, "fresh".to_string(), moment(2020, 2, 2)).unwrap();
    assert_eq!(to_ticket.ticket_id, "fresh");
    assert_eq!(to_ticket.to_updated.secs(), moment(2020, 2, 2).secs());
    let to_ticket =
        ToTicket::parse_with("id:x|updated:2018-01-01 00:00:01", &opt, None, "fresh".to_string(), moment(2020, 2, 2)).unwrap();
    assert_eq!(to_ticket.ticket_id, "x");
    assert_eq!(to_ticket.to_updated.secs(), 1514764801);
}

#[test]
fn parse_fails_on_malformed_timestamp() {
    let opt = ToParserOption::default();
    let read = ToTicket::parse("id:1|updated:2018-13-01 00:00:00|updated:never", &opt, None);
    match read {
        Err(ToTicketError::MalformedTimestamp { value }) => assert_eq!(value, "2018-13-01 00:00:00"),
        Ok(_) => panic!("expected an error"),
    }
}

#[test]
fn parse_in_another_format() {
    let opt = ToParserOption {
        to_marker: ToMarker::new("<<", ">>", ";", "=").unwrap(),
        date_format: "%d.%m.%Y %H:%M".to_string(),
    };
    let to_ticket = ToTicket::parse("<<id=7;a=b=c;updated=02.01.2018 00:00>>", &opt, None).unwrap();
    assert_eq!(to_ticket.ticket_id, "7");
    assert_eq!(to_ticket.values.get("a").unwrap(), "b=c");
    assert_eq!(to_ticket.to_updated.secs(), 1514851200);
    assert_eq!(to_ticket.to_marker.left_marker, "[[");
}

#[test]
fn marker_rejects_ambiguous_formats() {
    assert!(ToMarker::new("[[", "]]", "|", ":").is_some());
    assert!(ToMarker::new("", "]]", "|", ":").is_none());
    assert!(ToMarker::new("[[", "", "|", ":").is_none());
    assert!(ToMarker::new("[[", "]]", "", ":").is_none());
    assert!(ToMarker::new("[[", "]]", "|", "").is_none());
    assert!(ToMarker::new("[|[", "]]", "|", ":").is_none());
    assert!(ToMarker::new("[[", "]:]", "|", ":").is_none());
    assert!(ToMarker::default().is_valid());
}

#[test]
fn test_print_minimal_ticket() {
    let ticket_id = "test_id";
    let print_label = print_minimal_ticket(ticket_id, None);
    assert_eq!(print_label, format!("[[id: test_id]]"));
}

#[test]
fn print_minimal_ticket_in_another_format() {
    let marker = ToMarker::new("{", "}", ",", "=").unwrap();
    assert_eq!(print_minimal_ticket("x", Some(marker)), "{id: x}");
}

#[test]
fn test_print_ticket_empty() {
    let mut ticket = ToTicket::default();
    ticket.ticket_id = "test_id".to_string();
    let before = Utc::now();
    let print_label = ticket.print(None);
    let after = Utc::now();
    let expected_before =
        format!("[[id: test_id | updated: {}]]", before.format("%Y-%m-%d %H:%M:%S"));
    let expected_after =
        format!("[[id: test_id | updated: {}]]", after.format("%Y-%m-%d %H:%M:%S"));
    let expected_at = format!(
        "[[id: test_id | updated: {}]]",
        Utc.timestamp_opt(ticket.to_updated.secs(), 0).unwrap().format("%Y-%m-%d %H:%M:%S")
    );
    assert_eq!(print_label, expected_at);
    assert!(print_label == expected_before || print_label == expected_after || before != after);
}

#[test]
fn test_print_ticket_with_values() {
    let mut ticket = ToTicket::default();
    ticket.ticket_id = "test_id".to_string();
    ticket.values.insert("key1".to_string(), "value1".to_string());
    ticket.values.insert("key2".to_string(), "value2".to_string());
    let print_label = ticket.print(None);
    assert_eq!(
        print_label,
        format!(
            "[[id: test_id | key1: value1 | key2: value2 | updated: {}]]",
            Utc.timestamp_opt(ticket.to_updated.secs(), 0).unwrap().format("%Y-%m-%d %H:%M:%S")
        )
    );
}

#[test]
fn test_print_ticket_with_values_and_meta_data() {
    let mut ticket = ToTicket::default();
    ticket.ticket_id = "test_id".to_string();
    ticket.values.insert("key1".to_string(), "value1".to_string());
    ticket.values.insert("key2".to_string(), "value2".to_string());
    ticket.to_updated = moment(2019, 1, 1);
    ticket.to_store_url = Some("store_info_value".to_string());
    ticket.to_store_info = Some("store_id_value".to_string());
    let print_label = ticket.print(None);
    assert_eq!(print_label, format!("[[id: test_id | key1: value1 | key2: value2 | updated: 2019-01-01 00:00:00 | store_info: store_info_value | store_id: store_id_value]]"));
}

#[test]
fn test_print_ticket_with_values_and_meta_data_conflict() {
    let mut ticket = ToTicket::default();
    ticket.ticket_id = "test_id".to_string();
    ticket.values.insert("key1".to_string(), "value1".to_string());
    ticket.values.insert("key2".to_string(), "value2".to_string());
    ticket.to_updated = moment(2019, 1, 1);
    ticket.to_store_url = Some("correct_store_info_value".to_string());
    ticket.to_store_info = Some("correct_store_info_value".to_string());
    ticket.values.insert("to_store_id".to_string(), "wrong_store_id_value".to_string());
    ticket.values.insert("to_store_info".to_string(), "wrong_store_info_value".to_string());
    let print_label = ticket.print(None);
    assert_eq!(print_label, format!("[[id: test_id | key1: value1 | key2: value2 | updated: 2019-01-01 00:00:00 | store_info: correct_store_info_value | store_id: correct_store_info_value]]"));
}

#[test]
fn print_leaves_out_what_is_not_asked_for() {
    let mut ticket = ToTicket::blank("t".to_string(), moment(2019, 1, 1));
    ticket.values.insert("k".to_string(), "v".to_string());
    ticket.to_store_url = Some("".to_string());
    ticket.to_store_info = Some("info".to_string());
    let option = ToTicketPrintOption {
        include_updated: false,
        include_created: true,
        include_store_info: true,
        include_store_id: false,
        minimal: false,
    };
    assert_eq!(ticket.print(Some(option)), "[[id: t | k: v]]");
    let option = ToTicketPrintOption { include_store_id: true, ..option };
    assert_eq!(ticket.print(Some(option)), "[[id: t | k: v | store_id: info]]");
}

#[test]
fn print_minimal_shows_the_id_alone() {
    let mut ticket = ToTicket::blank("abc".to_string(), moment(2019, 1, 1));
    ticket.values.insert("k".to_string(), "v".to_string());
    ticket.to_store_url = Some("somewhere".to_string());
    assert_eq!(ticket.print_minimal(), "[[id: abc]]");
    let all = ToTicketPrintOption {
        include_updated: true,
        include_created: true,
        include_store_info: true,
        include_store_id: true,
        minimal: true,
    };
    assert_eq!(ticket.print(Some(all)), "[[id: abc]]");
}

#[test]
fn print_uses_the_format_of_the_ticket() {
    let mut ticket = ToTicket::blank("abc".to_string(), moment(2019, 1, 1));
    ticket.to_marker = ToMarker::new("<", ">", "/", "=").unwrap();
    ticket.values.insert("k".to_string(), "v".to_string());
    assert_eq!(ticket.print(None), "<id: abc / k: v / updated: 2019-01-01 00:00:00>");
}

#[test]
fn printed_ticket_reads_back_with_its_padding() {
    let mut ticket = ToTicket::blank("abc".to_string(), moment(2019, 1, 1));
    ticket.values.insert("k1".to_string(), "v1".to_string());
    ticket.values.insert("k2".to_string(), "v:2".to_string());
    let option = ToTicketPrintOption {
        include_updated: false,
        include_created: false,
        include_store_info: false,
        include_store_id: false,
        minimal: false,
    };
    let text = ticket.print(Some(option));
    let back = ToTicket::parse(&text, &ToParserOption::default(), None).unwrap();
    assert_eq!(back.ticket_id, " abc ");
    assert_eq!(back.values.len(), 2);
    assert_eq!(back.values.get_index(0).unwrap(), (&" k1".to_string(), &" v1 ".to_string()));
    assert_eq!(back.values.get_index(1).unwrap(), (&" k2".to_string(), &" v:2".to_string()));
}

#[test]
fn timestamp_bounds_and_days() {
    for (secs, nanos) in [
        (0i64, 0u32),
        (8_210_266_876_799, 999_999_999),
        (8_210_266_876_799, 1_999_999_999),
        (8_210_266_876_800, 0),
        (-8_334_601_228_800, 0),
        (-8_334_601_228_801, 0),
        (59, 1_500_000_000),
        (58, 1_500_000_000),
        (60, 1_000_000_000),
        (-1, 1_000_000_000),
        (-2, 1_000_000_000),
        (-61, 1_999_999_999),
        (0, 2_000_000_000),
        (59, 2_000_000_000),
        (i64::MAX, 0),
        (i64::MIN, 0),
    ] {
        assert_eq!(
            ToTimestamp::from_timestamp(secs, nanos).is_some(),
            chrono::DateTime::from_timestamp(secs, nanos).is_some(),
            "{} {}",
            secs,
            nanos
        );
    }
    assert!(ToTimestamp::from_timestamp(0, 0).is_some());
    assert!(ToTimestamp::from_timestamp(8_210_266_876_799, 999_999_999).is_some());
    assert!(ToTimestamp::from_timestamp(8_210_266_876_800, 0).is_none());
    assert!(ToTimestamp::from_timestamp(-8_334_601_228_800, 0).is_some());
    assert!(ToTimestamp::from_timestamp(-8_334_601_228_801, 0).is_none());
    assert!(ToTimestamp::from_timestamp(59, 1_500_000_000).is_some());
    assert!(ToTimestamp::from_timestamp(58, 1_500_000_000).is_none());
    assert!(ToTimestamp::from_timestamp(-1, 1_000_000_000).is_some());
    assert!(ToTimestamp::from_timestamp(0, 2_000_000_000).is_none());
    assert_eq!(ToTimestamp::from_timestamp(0, 0).unwrap().num_days_from_ce(), 719_163);
    assert_eq!(ToTimestamp::from_timestamp(-1, 0).unwrap().num_days_from_ce(), 719_162);
    assert_eq!(ToTimestamp::from_timestamp(86_400, 5).unwrap().num_days_from_ce(), 719_164);
    assert_eq!(ToTimestamp::from_timestamp(86_400, 5).unwrap().nanos(), 5);
    for secs in [-8_334_601_228_800i64, -86_401, -1, 0, 1_546_300_800, 8_210_266_876_799] {
        let ours = ToTimestamp::from_timestamp(secs, 0).unwrap();
        let theirs = chrono::DateTime::from_timestamp(secs, 0).unwrap();
        assert_eq!(ours.num_days_from_ce(), theirs.num_days_from_ce());
        assert_eq!(ours.format(), theirs.format("%Y-%m-%d %H:%M:%S").to_string());
    }
    assert_eq!(ToTimestamp::from_timestamp(1_546_300_800, 0).unwrap().format(), "2019-01-01 00:00:00");
    assert_eq!(
        ToTimestamp::parse("2019-01-01 00:00:00", "%Y-%m-%d %H:%M:%S").unwrap().secs(),
        1_546_300_800
    );
    assert!(ToTimestamp::parse("2019-01-01", "%Y-%m-%d %H:%M:%S").is_none());
}
