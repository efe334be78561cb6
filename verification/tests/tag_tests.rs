use to_core::to_parser::parser::ToParser;
use to_core::to_parser::parser_option::ToParserOption;
use to_core::to_tag::to_tag_struct::ToTag;
use to_core::to_ticket::to_ticket_marker::ToMarker;

#[test]
fn test_from_ticket_to_tag() {
    let raw_text = "[[KEY|VALUE|NOTE]]";
    let result = ToParser::scan_text_for_tickets(raw_text, ToParserOption::default()).unwrap();
    let first_ticket = result[0].clone();
    assert_eq!(result.len(), 1);
    assert_eq!(result[0].values.get("KEY").unwrap(), "");
    let tag = ToTag::from(first_ticket);
    assert_eq!(&tag.key, "KEY");
    assert_eq!(&tag.value.unwrap(), "VALUE");
    assert_eq!(&tag.note.unwrap(), "NOTE");
}

#[test]
fn test_noise_ticket_to_tag() {
    let raw_text = "[[KEY:value|VALUE:2|:3]]";
    let result = ToParser::scan_text_for_tickets(raw_text, ToParserOption::default()).unwrap();
    let first_ticket = result[0].clone();
    assert_eq!(result.len(), 1);
    let tag = ToTag::from(first_ticket);
    assert_eq!(&tag.key, "KEY");
    assert_eq!(&tag.value.as_ref().unwrap().clone(), "VALUE");
    assert_eq!(&tag.note.as_ref().unwrap().clone(), "3");
    let tag_print = tag.clone().print_tag(None);
    assert_eq!(tag_print, "[[KEY|VALUE|3]]");
}

#[test]
fn test_ticket_to_tag_key_value_only() {
    let raw_text = "[[KEY:value|VALUE:2]]";
    let result = ToParser::scan_text_for_tickets(raw_text, ToParserOption::default()).unwrap();
    let first_ticket = result[0].clone();
    assert_eq!(result.len(), 1);
    let tag = ToTag::from(first_ticket);
    assert_eq!(&tag.key, "KEY");
    assert_eq!(&tag.value.as_ref().unwrap().clone(), "VALUE");
    let tag_print = tag.clone().print_tag(None);
    assert_eq!(tag_print, "[[KEY|VALUE]]");
}

#[test]
fn test_ticket_to_tag_key_only() {
    let raw_text = "[[KEY:value]]";
    let result = ToParser::scan_text_for_tickets(raw_text, ToParserOption::default()).unwrap();
    let first_ticket = result[0].clone();
    assert_eq!(result.len(), 1);
    let tag = ToTag::from(first_ticket);
    assert_eq!(&tag.key, "KEY");
    let tag_print = tag.clone().print_tag(None);
    assert_eq!(tag_print, "[[KEY]]");
}

#[test]
fn test_scan_text_for_tags() {
    let raw_text = "1[[KEY|VALUE|NOTE]]\n2[[KEY2|VALUE2|NOTE2]]\n3[[KEY3|VALUE3|NOTE3]]";
    let _result = ToParser::scan_text_for_tickets(raw_text, ToParserOption::default()).unwrap();
    let (cleaned, tags) = ToTag::scan_text_for_tags(&raw_text).unwrap();
    assert_eq!(cleaned, "1\n2\n3");
    assert_eq!(tags.len(), 3);
}

#[test]
fn tag_note_joins_further_keys() {
    let result =
        ToParser::scan_text_for_tickets("[[A|B|C|D|E]]", ToParserOption::default()).unwrap();
    let tag = ToTag::from_ticket(&result[0]);
    assert_eq!(tag.key, "A");
    assert_eq!(tag.value.as_deref(), Some("B"));
    assert_eq!(tag.note.as_deref(), Some("C, D, E"));
    assert_eq!(tag.print_tag(None), "[[A|B|C, D, E]]");
    assert_eq!(tag.print_tag(Some(ToMarker::new("<", ">", ";", "=").unwrap())), "<A;B;C, D, E>");
}

#[test]
fn tag_of_ticket_without_values_is_empty() {
    let result = ToParser::scan_text_for_tickets("[[id:1]]", ToParserOption::default()).unwrap();
    let tag = ToTag::from_ticket(&result[0]);
    assert_eq!(tag.key, "");
    assert!(tag.value.is_none());
    assert!(tag.note.is_none());
    assert_eq!(tag.print_tag(None), "[[]]");
}
