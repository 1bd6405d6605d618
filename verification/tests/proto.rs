use substrait_textplan::proto::{
    load_plan_from_binary, load_plan_from_json, relation_type_to_string, save_plan_to_binary,
    save_plan_to_json, Relation, RelType,
};
use substrait_textplan::textplan::common::error::TextPlanError;
use substrait_textplan::textplan::converter::load_json::load_plan_from_json_str;
use substrait_textplan::textplan::converter::save_json::save_to_json;

fn protobuf_message(e: TextPlanError) -> String {
    match e {
        TextPlanError::ProtobufError(m) => m,
        other => panic!("expected a protobuf error, got {:?}", other),
    }
}

#[test]
fn relation_kinds_have_names() {
    assert_eq!(relation_type_to_string(&Relation { rel_type: Some(RelType::Read) }), "read");
    assert_eq!(relation_type_to_string(&Relation { rel_type: Some(RelType::SetOperation) }), "set");
    assert_eq!(relation_type_to_string(&Relation { rel_type: Some(RelType::Fetch) }), "fetch");
    assert_eq!(
        relation_type_to_string(&Relation { rel_type: Some(RelType::NestedLoopJoin) }),
        "nested_loop_join"
    );
    assert_eq!(relation_type_to_string(&Relation { rel_type: None }), "unknown");
}

#[test]
fn an_empty_buffer_is_an_empty_plan() {
    let plan = load_plan_from_binary(&[]).expect("no bytes encode the empty plan");
    let bytes = save_plan_to_binary(&plan).expect("encoding into a vector succeeds");
    assert!(bytes.is_empty());
}

#[test]
fn broken_bytes_are_a_protobuf_error() {
    let e = load_plan_from_binary(&[0xff, 0xff, 0xff]).unwrap_err();
    assert!(protobuf_message(e).starts_with("Failed to decode Plan: "));
}

#[test]
fn plans_go_through_json() {
    let plan = load_plan_from_json("{}").expect("an empty object is an empty plan");
    let text = save_plan_to_json(&plan).expect("a plan writes as JSON");
    let again = load_plan_from_json(&text).expect("written JSON reads back");
    assert_eq!(save_plan_to_binary(&again).unwrap(), save_plan_to_binary(&plan).unwrap());
    assert_eq!(save_to_json(&plan).unwrap(), text);
}

#[test]
fn a_leading_comment_line_is_skipped() {
    assert!(load_plan_from_json_str("# produced by hand\n{}").is_ok());
    let e = load_plan_from_json("# only a comment").unwrap_err();
    assert!(protobuf_message(e).starts_with("Invalid JSON syntax: "));
}

#[test]
fn bad_json_is_reported() {
    let e = load_plan_from_json("{ not json").unwrap_err();
    assert!(protobuf_message(e).starts_with("Invalid JSON syntax: "));
    let e = load_plan_from_json("[1, 2]").unwrap_err();
    let m = protobuf_message(e);
    assert!(m.starts_with("Failed to deserialize JSON to Substrait Plan. Error: "));
    assert!(m.ends_with('.'));
    let e = load_plan_from_json("{\"relations\": 5}").unwrap_err();
    let m = protobuf_message(e);
    assert!(m.starts_with("Failed to deserialize JSON to Substrait Plan. Error: "));
    assert!(m.ends_with(". Available fields: relations"));
}
