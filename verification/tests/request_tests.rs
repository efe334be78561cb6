use to_core::enums::store_type::StoreType;
use to_core::error::error_message::ToErrorMessage;
use to_core::error::{ToErrorPayload, ToErrors};
use to_core::to::to_dtos::to_add_dto::{
    TextualObjectAddDto, TextualObjectAddManyDto, TextualObjectStoredReceipt,
};
use to_core::to::to_dtos::to_find_dto::ToFindRequestDto;
use to_core::to::to_dtos::to_scan_dto::ToScanRequestDto;
use to_core::to::to_struct::TextualObject;
use to_core::to_card::to_card_convert_rule::TextualObjectCardConvertRule;
use to_core::to_card::to_card_struct::{ToCard, ToCardField};
use to_core::to_machine::to_machine_option::ToMachineOption;
use to_core::to_machine::to_machine_pub_op::{
    find_result, scan_result, sort_answers, stamp_for_store, ticket_ids,
};
use to_core::to_parser::parser::ToParser;
use to_core::to_parser::parser_option::ToParserOption;
use to_core::to_ticket::to_ticket_option::ToTicketPrintOption;
use to_core::to_ticket::to_ticket_struct::ToTicket;
use to_core::utils::check_if_file_exists::check_if_file_exists;
use to_core::utils::get_random_test_database_dir::get_random_test_database_dir;

fn sample_json() -> serde_json::Value {
    let mut inner = serde_json::Map::new();
    inner.insert("test_string".to_string(), serde_json::Value::from("test_string_value"));
    inner.insert("test_number".to_string(), serde_json::Value::from(1));
    inner.insert("test_boolean".to_string(), serde_json::Value::from(true));
    inner.insert("test_null".to_string(), serde_json::Value::Null);
    inner.insert("test_array".to_string(), serde_json::Value::from(vec![1, 2, 3]));
    let mut outer = inner.clone();
    outer.insert("test_object".to_string(), serde_json::Value::Object(inner));
    serde_json::Value::Object(outer)
}

fn get_sample() -> TextualObject {
    let mut to = TextualObject::default();
    to.json = sample_json();
    to
}

#[test]
fn test_find_request_validate() {
    let to_find_request_dto = ToFindRequestDto {
        store_url: "store_url".to_string(),
        ticket_ids: vec!["ticket_id_1".to_string(), "ticket_id_2".to_string()],
    };
    assert!(to_find_request_dto.validate().is_err());
}

#[test]
fn find_request_errors_and_success() {
    let none = ToFindRequestDto { store_url: ".".to_string(), ticket_ids: vec![] };
    match none.validate() {
        Err(ToErrors::FindRequestError(m)) => assert_eq!(m.message, "No ticket ids provided"),
        _ => panic!("expected an error"),
    }
    let gone = ToFindRequestDto {
        store_url: "no/such/store.db".to_string(),
        ticket_ids: vec!["a".to_string()],
    };
    match gone.validate() {
        Err(ToErrors::FindRequestError(m)) => {
            assert_eq!(m.message, "store_url does not exist");
            assert_eq!(m.suggestion, "");
            assert!(m.code.is_none());
        }
        _ => panic!("expected an error"),
    }
    assert!(gone.validate_with(true).is_ok());
    assert!(gone.validate_with(false).is_err());
    let here = ToFindRequestDto { store_url: ".".to_string(), ticket_ids: vec!["a".to_string()] };
    assert!(here.validate().is_ok());
}

#[test]
fn scan_request_errors_and_success() {
    let empty = ToScanRequestDto { store_url: ".".to_string(), text: "".to_string() };
    match empty.validate() {
        Err(ToErrors::FindRequestError(m)) => assert_eq!(m.message, "No text is provided"),
        _ => panic!("expected an error"),
    }
    let gone = ToScanRequestDto { store_url: "no/such/store.db".to_string(), text: "x".to_string() };
    match gone.validate() {
        Err(ToErrors::FindRequestError(m)) => assert_eq!(m.message, "store_url does not exist"),
        _ => panic!("expected an error"),
    }
    let here = ToScanRequestDto { store_url: ".".to_string(), text: "x".to_string() };
    assert!(here.validate().is_ok());
    assert!(check_if_file_exists("."));
    assert!(!check_if_file_exists("no/such/store.db"));
}

#[test]
fn error_messages_round_trip() {
    for message in [
        ToErrorMessage::FindRequestDtoNoTicketIds,
        ToErrorMessage::FindOrScanRequestDtoStoreUrlDoesNotExist,
        ToErrorMessage::ScanRequestDtoNoText,
    ] {
        assert_eq!(ToErrorMessage::from_str(&message.to_string()), Some(message));
    }
    assert_eq!(ToErrorMessage::from_str("something else"), None);
    let error = ToErrors::FindRequestError(Default::default());
    assert_eq!(ToErrors::generic_error_message(error), "Find Request DTO Error");
    let error = ToErrors::AddManyRequestError(Default::default());
    let message = ToErrors::default_with_generic_message(error);
    assert_eq!(message.message, "Add Many Request DTO Error");
    assert_eq!(message.suggestion, "");
}

#[test]
fn should_tell_if_card_field_is_valid() {
    let invalid_rule = TextualObjectCardConvertRule {
        card_field: "card_field".to_string(),
        source_fields: vec!["source_field".to_string()],
    };
    assert!(!invalid_rule.is_card_field_valid());

    let valid_rule = TextualObjectCardConvertRule {
        card_field: ToCardField::Id.to_string(),
        source_fields: vec!["source_field".to_string()],
    };
    assert!(valid_rule.is_card_field_valid());
}

#[test]
fn every_card_field_is_valid_under_its_name() {
    let fields = ToCardField::iter();
    assert_eq!(fields.len(), 10);
    let names: Vec<String> = fields.iter().map(|f| f.to_string()).collect();
    assert_eq!(
        names,
        vec![
            "id", "store_id", "store_ticket_id", "store_url", "store_info", "title",
            "description", "creators", "comments", "extra"
        ]
    );
    for name in names {
        let rule = TextualObjectCardConvertRule { card_field: name, source_fields: vec![] };
        assert!(rule.is_card_field_valid());
    }
    let card = ToCard::default();
    assert_eq!(card.store_ticket_id, "store_ticket_id_value");
    assert_eq!(card.creators.len(), 0);
}

#[test]
fn to_add_dto_test_from_dto_to_textual_object() {
    let dto = TextualObjectAddDto {
        source_id: Some("source_id_value".to_string()),
        source_id_type: Some("source_id_type_value".to_string()),
        source_path: Some("source_path_value".to_string()),
        source_name: "source_name_value".to_string(),
        json: sample_json(),
    };
    let textual_object = TextualObject::from(dto);
    assert_eq!(textual_object.source_id, "source_id_value");
    assert_eq!(textual_object.source_id_type, "source_id_type_value");
    assert_eq!(textual_object.source_path, "source_path_value");
    assert_eq!(textual_object.source_name, "source_name_value");
    assert_eq!(textual_object.store_info, String::from(""));
    assert_eq!(textual_object.ticket_minimal, format!("[[id: {}]]", textual_object.ticket_id));
    assert_eq!(textual_object.json, sample_json());
}

#[test]
fn test_are_textual_objects_valid() {
    let dto = TextualObjectAddManyDto { tos: vec![], ..Default::default() };
    assert!(dto.is_valid().is_err());
    match dto.is_valid() {
        Err(e) => match e {
            ToErrors::AddManyRequestError(e) => {
                assert_eq!(e.message, "No textual objects to add");
                assert!(true);
            }
            _ => {
                assert!(false);
            }
        },
        _ => panic!("Expected error"),
    }
}

#[test]
fn add_request_with_invalid_rules_names_them() {
    let rule = |name: &str| TextualObjectCardConvertRule {
        card_field: name.to_string(),
        source_fields: vec!["s".to_string()],
    };
    let mut dto = TextualObjectAddManyDto {
        tos: vec![TextualObjectAddDto::default()],
        card_map_rules: vec![rule("title"), rule("nope"), rule("extra"), rule("neither")],
        ..Default::default()
    };
    match dto.is_valid() {
        Err(ToErrors::AddManyRequestError(e)) => {
            assert_eq!(e.message, "Card map rules are not valid");
            assert_eq!(
                e.suggestion,
                "See card fields specifications and provide correct Textual Object Card fields"
            );
            match e.payload_for_user {
                ToErrorPayload::InvalidCardMapRules { all_valid, rules } => {
                    assert!(!all_valid);
                    assert_eq!(rules.len(), 2);
                    assert_eq!(rules[0].card_field, "nope");
                    assert_eq!(rules[1].card_field, "neither");
                }
                _ => panic!("expected the rules"),
            }
        }
        _ => panic!("expected an error"),
    }
    assert!(!dto.are_card_map_rules_valid());
    dto.card_map_rules = vec![rule("title")];
    assert!(dto.is_valid().is_ok());
    assert!(dto.are_card_map_rules_valid());
    assert!(!dto.is_empty());
    let receipt = TextualObjectStoredReceipt::from(TextualObjectAddManyDto {
        store_dir: "dir".to_string(),
        store_info: Some("info".to_string()),
        ..Default::default()
    });
    assert_eq!(receipt.store_url, "dir");
    assert_eq!(receipt.store_info, "info");
    assert_eq!(receipt.total_tos_stored, 0);
    assert_eq!(receipt.tos_stored.len(), 0);
}

#[test]
fn get_sample_test() {
    let textual_object = get_sample();
    assert!(textual_object.id != uuid::Uuid::new_v4());
    assert_eq!(textual_object.ticket_id.len(), 5);
    assert_eq!(textual_object.ticket_minimal, format!("[[id: {}]]", textual_object.ticket_id));
}

#[test]
fn textual_object_from_textual_object_ticket_test() {
    let sample_textual_object = get_sample();
    let textual_object_ticket = ToTicket::from(sample_textual_object.clone());
    assert_eq!(&textual_object_ticket.ticket_id, &sample_textual_object.ticket_id);
    assert_eq!(
        textual_object_ticket.to_store_info.as_ref().unwrap(),
        &sample_textual_object.store_info
    );
    assert_eq!(
        textual_object_ticket.to_store_url.as_ref().unwrap(),
        &sample_textual_object.store_url
    );
    let ticket = textual_object_ticket.print(None);
    assert!(ticket.len() > 0);
    assert_eq!(textual_object_ticket.values.len(), 6);
    assert_eq!(textual_object_ticket.values.get("test_string").unwrap(), "\"test_string_value\"");
    assert_eq!(textual_object_ticket.values.get("test_array").unwrap(), "[1,2,3]");
    assert_eq!(textual_object_ticket.to_updated.nanos(), 0);
    assert_eq!(textual_object_ticket.to_updated.secs(), sample_textual_object.updated.secs());
}

#[test]
fn ticket_of_object_without_json_object_has_no_values() {
    let object = TextualObject::default();
    let ticket = object.to_ticket();
    assert_eq!(ticket.values.len(), 0);
    assert_eq!(ticket.to_store_url, Some("".to_string()));
    assert_eq!(object.print_minimal_ticket(), format!("[[id: {}]]", object.ticket_id));
}

#[test]
fn test_print_minimal_ticket_with_only_id() {
    let to = get_sample();
    let ticket_id = to.ticket_id.clone();
    let ticket = ToTicket::from(to);
    let minimal_label = ticket.print(Some(ToTicketPrintOption {
        include_updated: true,
        include_store_info: true,
        include_store_id: true,
        include_created: true,
        minimal: true,
    }));
    assert_eq!(minimal_label, format!("[[id: {}]]", ticket_id));
    let _not_minimal_label = ticket.print(Some(ToTicketPrintOption {
        include_updated: true,
        include_store_info: true,
        include_store_id: true,
        include_created: true,
        minimal: false,
    }));
}

#[test]
fn update_minimal_ticket_follows_the_ticket_id() {
    let mut object = TextualObject::default();
    object.ticket_id = "abcde".to_string();
    let copy = object.update_minimal_ticket();
    assert_eq!(object.ticket_minimal, "[[id: abcde]]");
    assert_eq!(copy.ticket_minimal, "[[id: abcde]]");
    assert_eq!(copy.ticket_id, "abcde");
}

#[test]
fn machine_options() {
    let option = ToMachineOption::new();
    assert!(!option.use_random_file_name);
    assert_eq!(option.store_file_name, None);
    assert_eq!(option.store_info, Some("A TO Store".to_string()));
    assert_eq!(option.store_type, StoreType::SQLITE);
    let named = option.set_store_file_name(Some("mine.db"));
    assert_eq!(named.store_file_name, Some("mine.db".to_string()));
    assert_eq!(named.store_info, option.store_info);
    assert_eq!(named.set_store_file_name(None).store_file_name, None);
    assert_eq!(ToMachineOption::store_file_name_for(&None), "_to_store.db");
    assert_eq!(ToMachineOption::store_file_name_for(&Some(option.clone())), "_to_store.db");
    assert_eq!(ToMachineOption::store_file_name_for(&Some(named.clone())), "mine.db");
    let random = ToMachineOption { use_random_file_name: true, ..named.clone() };
    assert_eq!(ToMachineOption::store_file_name_for(&Some(random.clone())).len(), 5);
    assert_eq!(
        ToMachineOption::store_file_name_with(&Some(random), "rnd".to_string()),
        "rnd"
    );
    assert_eq!(ToMachineOption::store_info_for(&None), "A TO Store");
    assert_eq!(ToMachineOption::store_info_for(&Some(named)), "A TO Store");
    let silent = ToMachineOption { store_info: None, ..option };
    assert_eq!(ToMachineOption::store_info_for(&Some(silent)), "");
}

#[test]
fn answers_are_sorted_into_found_and_missing() {
    let mut a = TextualObject::default();
    a.ticket_id = "a".to_string();
    let mut c = TextualObject::default();
    c.ticket_id = "c".to_string();
    let ids = vec!["a".to_string(), "b".to_string(), "c".to_string(), "d".to_string()];
    let (found, missing) = sort_answers(&ids, vec![Some(a), None, Some(c), None]);
    assert_eq!(found.len(), 2);
    assert_eq!(found[0].ticket_id, "a");
    assert_eq!(found[1].ticket_id, "c");
    assert_eq!(missing, vec!["b".to_string(), "d".to_string()]);
    let result = find_result(found, missing, "store");
    assert_eq!(result.found_tos_count, 2);
    assert_eq!(result.missing_tos_count, 2);
    assert_eq!(result.store_url, "store");
    let result = scan_result(vec![], vec!["x".to_string()], "store", "text [[id:x]]");
    assert_eq!(result.found_tos_count, 0);
    assert_eq!(result.missing_tos_count, 1);
    assert_eq!(result.cleaned_text, "text [[id:x]]");
    let tickets =
        ToParser::scan_text_for_tickets("[[id:1]] and [[id:2]]", ToParserOption::default()).unwrap();
    assert_eq!(ticket_ids(&tickets), vec!["1".to_string(), "2".to_string()]);
    let mut object = TextualObject::default();
    stamp_for_store(&mut object, "uniq1", "a store", "/tmp/store.db");
    assert_eq!(object.ticket_id, "uniq1");
    assert_eq!(object.store_info, "a store");
    assert_eq!(object.store_url, "/tmp/store.db");
}

#[test]
fn test_database_dir_lies_below_the_package() {
    assert_eq!(get_random_test_database_dir("/pkg"), "/pkg/resources/test/db");
    assert_eq!(get_random_test_database_dir("/pkg/"), "/pkg/resources/test/db");
    assert_eq!(get_random_test_database_dir(""), "resources/test/db");
}
