use to_core::to_parser::parser::ToParser;
use to_core::to_parser::parser_option::ToParserOption;

#[test]
fn test_one_mark() {
    let raw_text = "[[id:1]]";
    let opt = ToParserOption::default();
    let result = ToParser::scan_text_for_tickets(raw_text, opt).unwrap();
    assert_eq!(result.len(), 1);
    assert_eq!(result[0].ticket_id, "1");
}

#[test]
fn test_two_marks() {
    let raw_text = "[[id:1]][[id:2]]";
    let opt = ToParserOption::default();
    let result = ToParser::scan_text_for_tickets(raw_text, opt).unwrap();
    assert_eq!(result.len(), 2);
    assert_eq!(result[0].ticket_id, "1");
    assert_eq!(result[1].ticket_id, "2");
}

#[test]
fn test_two_marks_different_positions() {
    let raw_text = "[[id:1]]\n[[id:2]]";
    let opt = ToParserOption::default();
    let result = ToParser::scan_text_for_tickets(raw_text, opt).unwrap();
    assert_eq!(result.len(), 2);
    assert_eq!(result[0].ticket_id, "1");
    assert_eq!(result[1].ticket_id, "2");
}

#[test]
fn test_three_marks_different_positions() {
    let raw_text = "[[id:1]]\n[[id:2]]\n[[id:3]]";
    let opt = ToParserOption::default();
    let result = ToParser::scan_text_for_tickets(raw_text, opt).unwrap();
    assert_eq!(result.len(), 3);
    assert_eq!(result[0].ticket_id, "1");
    assert_eq!(result[1].ticket_id, "2");
    assert_eq!(result[2].ticket_id, "3");
    assert_eq!(result[0].to_intext_option.as_ref().unwrap().line, 0);
    assert_eq!(result[1].to_intext_option.as_ref().unwrap().line, 1);
    assert_eq!(result[2].to_intext_option.as_ref().unwrap().line, 2);
}

#[test]
fn test_one_mark_position() {
    let indent = "12345";
    let text = "[[id:1]]";
    let raw_text = format!("{}{}", indent, text);
    let opt = ToParserOption::default();
    let result = ToParser::scan_text_for_tickets(&raw_text, opt).unwrap();
    assert_eq!(result.len(), 1);
    assert_eq!(result[0].ticket_id, "1");
    assert_eq!(result[0].to_intext_option.as_ref().unwrap().line, 0);
    assert_eq!(result[0].to_intext_option.as_ref().unwrap().column, indent.len());
    assert_eq!(result[0].to_intext_option.as_ref().unwrap().length, text.len());
    assert_eq!(result[0].to_intext_option.as_ref().unwrap().column, 5);
    assert_eq!(result[0].to_intext_option.as_ref().unwrap().length, 8);
    assert_eq!(result[0].to_intext_option.as_ref().unwrap().raw_text, "[[id:1]]");
}

#[test]
fn test_one_mark_position_in_second_line() {
    let indent = "12345";
    let text = "[[id:1]]";
    let raw_text = format!("\n{}{}", indent, text);
    let opt = ToParserOption::default();
    let result = ToParser::scan_text_for_tickets(&raw_text, opt).unwrap();
    assert_eq!(result.len(), 1);
    assert_eq!(result[0].ticket_id, "1");
    assert_eq!(result[0].to_intext_option.as_ref().unwrap().line, 1);
    assert_eq!(result[0].to_intext_option.as_ref().unwrap().column, indent.len());
    assert_eq!(result[0].to_intext_option.as_ref().unwrap().length, text.len());
}

#[test]
fn test_tag_scanning() {
    let raw_text = "[[IMPORTANT|RELEVANT|THIS is something that blahblah]]";
    let opt = ToParserOption::default();
    let result = ToParser::scan_text_for_tickets(raw_text, opt).unwrap();
    assert_eq!(result.len(), 1);
    assert_eq!(result[0].values.len(), 3);
    let first_key = result[0].values.keys().next().unwrap();
    assert_eq!(first_key, "IMPORTANT");
}

#[test]
fn scan_of_empty_text_finds_nothing() {
    let result = ToParser::scan_text_for_tickets("", ToParserOption::default()).unwrap();
    assert_eq!(result.len(), 0);
    let result = ToParser::scan_text_for_tickets("no marker here\nnor here", ToParserOption::default())
        .unwrap();
    assert_eq!(result.len(), 0);
}

#[test]
fn scan_does_not_join_lines() {
    let result = ToParser::scan_text_for_tickets("[[id:1\n]]", ToParserOption::default()).unwrap();
    assert_eq!(result.len(), 0);
}

#[test]
fn scan_takes_first_left_and_first_right_delimiter() {
    let result = ToParser::scan_text_for_tickets("a[[b[[id:7]]c]]", ToParserOption::default())
        .unwrap();
    assert_eq!(result.len(), 1);
    let position = result[0].to_intext_option.as_ref().unwrap();
    assert_eq!(position.column, 1);
    assert_eq!(position.raw_text, "[[b[[id:7]]");
    assert_eq!(result[0].ticket_id.len(), 5);
    assert_eq!(result[0].values.len(), 1);
    assert_eq!(result[0].values.get("bid").unwrap(), "7");
}

#[test]
fn scan_counts_bytes_for_the_column_and_characters_for_the_length() {
    let result = ToParser::scan_text_for_tickets("é[[id:ö]]", ToParserOption::default()).unwrap();
    assert_eq!(result.len(), 1);
    let position = result[0].to_intext_option.as_ref().unwrap();
    assert_eq!(position.column, 2);
    assert_eq!(position.length, 8);
    assert_eq!(position.raw_text, "[[id:ö]]");
}

#[test]
fn scan_strips_carriage_return_before_line_feed() {
    let result = ToParser::scan_text_for_tickets("x\r\n[[id:1]]\r\n", ToParserOption::default())
        .unwrap();
    assert_eq!(result.len(), 1);
    assert_eq!(result[0].to_intext_option.as_ref().unwrap().line, 1);
}

#[test]
fn scan_fails_on_malformed_timestamp() {
    let result =
        ToParser::scan_text_for_tickets("[[id:1]] [[id:2|updated:yesterday]]", ToParserOption::default());
    match result {
        Err(to_core::to_ticket::to_ticket_error::ToTicketError::MalformedTimestamp { value }) => {
            assert_eq!(value, "yesterday")
        }
        Ok(_) => panic!("expected an error"),
    }
}

#[test]
fn scan_agrees_with_regex() {
    let texts = [
        "",
        "[[id:1]]",
        "a[[b]]c[[d]]e",
        "[[[[x]]]]",
        "]] [[ a ]] [[",
        "[[]]",
        "[[a]\n]][[b]]",
        "one [[two|three]] four\nfive [[six]]\n\n[[seven",
        "é [[ü:ö]] 漢字 [[x]]",
        "[[a]]\r\n[[b]]\r",
    ];
    let re = regex::Regex::new(&format!(
        r"{}(.*?){}",
        regex::escape("[["),
        regex::escape("]]")
    ))
    .unwrap();
    for text in texts {
        let mut expected: Vec<(usize, usize, String, String)> = Vec::new();
        for (line_number, line) in text.lines().enumerate() {
            for m in re.captures_iter(line) {
                let whole = m.get(0).unwrap();
                expected.push((
                    line_number,
                    whole.start(),
                    whole.as_str().to_string(),
                    m.get(1).unwrap().as_str().to_string(),
                ));
            }
        }
        let found = ToParser::scan_text_for_tickets(text, ToParserOption::default()).unwrap();
        assert_eq!(found.len(), expected.len(), "{:?}", text);
        for (ticket, want) in found.iter().zip(expected.iter()) {
            let position = ticket.to_intext_option.as_ref().unwrap();
            assert_eq!(position.line, want.0);
            assert_eq!(position.column, want.1);
            assert_eq!(position.raw_text, want.2);
            assert_eq!(position.length, want.2.chars().count());
        }
    }
}

#[test]
fn parser_test_one_mark() {
    let raw_text = "[[id:1]]";
    let opt = to_core::to_ticket::parser::parser_option::ParserOption::default();
    let result = to_core::to_ticket::parser::parser::parse_all(raw_text, opt).unwrap();
    assert_eq!(result.len(), 1);
    assert_eq!(result[0].ticket_id, "1");
    let opt = to_core::to_ticket::parser::parser_option::ParserOption::default();
    let result = to_core::parser::parser::match_all_marks(raw_text, opt).unwrap();
    assert_eq!(result.len(), 1);
    assert_eq!(result[0].ticket_id, "1");
}

#[test]
fn parser_test_two_marks() {
    let raw_text = "[[id:1]][[id:2]]";
    let opt = to_core::to_ticket::parser::parser_option::ParserOption::default();
    let result = to_core::to_ticket::parser::parser::parse_all(raw_text, opt).unwrap();
    assert_eq!(result.len(), 2);
    assert_eq!(result[0].ticket_id, "1");
    assert_eq!(result[1].ticket_id, "2");
}

#[test]
fn parser_test_two_marks_different_positions() {
    let raw_text = "[[id:1]]\n[[id:2]]";
    let opt = to_core::to_ticket::parser::parser_option::ParserOption::default();
    let result = to_core::parser::parser::match_all_marks(raw_text, opt).unwrap();
    assert_eq!(result.len(), 2);
    assert_eq!(result[0].ticket_id, "1");
    assert_eq!(result[1].ticket_id, "2");
}

#[test]
fn parser_test_three_marks_different_positions() {
    let raw_text = "[[id:1]]\n[[id:2]]\n[[id:3]]";
    let opt = to_core::to_ticket::parser::parser_option::ParserOption::default();
    let result = to_core::to_ticket::parser::parser::parse_all(raw_text, opt).unwrap();
    assert_eq!(result.len(), 3);
    assert_eq!(result[0].ticket_id, "1");
    assert_eq!(result[1].ticket_id, "2");
    assert_eq!(result[2].ticket_id, "3");
}

#[test]
fn parser_test_one_mark_position() {
    let indent = "12345";
    let text = "[[id:1]]";
    let raw_text = format!("{}{}", indent, text);
    let opt = to_core::to_ticket::parser::parser_option::ParserOption::default();
    let result = to_core::parser::parser::match_all_marks(&raw_text, opt).unwrap();
    assert_eq!(result.len(), 1);
    assert_eq!(result[0].ticket_id, "1");
    assert_eq!(result[0].to_intext_option.as_ref().unwrap().line, 0);
    assert_eq!(result[0].to_intext_option.as_ref().unwrap().column, indent.len());
    assert_eq!(result[0].to_intext_option.as_ref().unwrap().length, text.len());
}

#[test]
fn parser_test_one_mark_position_in_second_line() {
    let indent = "12345";
    let text = "[[id:1]]";
    let raw_text = format!("\n{}{}", indent, text);
    let opt = to_core::to_ticket::parser::parser_option::ParserOption::default();
    let result = to_core::to_ticket::parser::parser::parse_all(&raw_text, opt).unwrap();
    assert_eq!(result.len(), 1);
    assert_eq!(result[0].ticket_id, "1");
    assert_eq!(result[0].to_intext_option.as_ref().unwrap().line, 1);
    assert_eq!(result[0].to_intext_option.as_ref().unwrap().column, indent.len());
    assert_eq!(result[0].to_intext_option.as_ref().unwrap().length, text.len());
}

#[test]
fn scan_finds_every_marker_of_a_text_made_of_markers() {
    let text = "a[[x]]b[[y|z]]c\n\n[[]] and [[id:9]]\nnothing here\nlast [[k:v]]";
    let found = ToParser::scan_text_for_tickets(text, ToParserOption::default()).unwrap();
    assert_eq!(found.len(), 5);
    let lines: Vec<usize> =
        found.iter().map(|t| t.to_intext_option.as_ref().unwrap().line).collect();
    assert_eq!(lines, vec![0, 0, 2, 2, 4]);
    let raw: Vec<&str> =
        found.iter().map(|t| t.to_intext_option.as_ref().unwrap().raw_text.as_str()).collect();
    assert_eq!(raw, vec!["[[x]]", "[[y|z]]", "[[]]", "[[id:9]]", "[[k:v]]"]);
    let columns: Vec<usize> =
        found.iter().map(|t| t.to_intext_option.as_ref().unwrap().column).collect();
    assert_eq!(columns, vec![1, 7, 0, 9, 5]);
    assert_eq!(found[3].ticket_id, "9");
    assert_eq!(found[4].values.get("k").unwrap(), "v");
}
