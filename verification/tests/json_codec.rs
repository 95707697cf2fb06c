use allure_report::codec::{from_json, status_string, to_json};
use allure_report::handle::{equal_json, result_file_name};
use allure_report::ids::Uuid;
use allure_report::json::{json_eq, json_to_string, JsonValue};
use allure_report::models::Status;

fn s(v: &str) -> JsonValue {
    JsonValue::Str(String::from(v))
}

fn n(v: u128) -> JsonValue {
    JsonValue::Num(v)
}

fn arr(items: Vec<JsonValue>) -> JsonValue {
    JsonValue::Arr(items)
}

fn obj(fields: Vec<(&str, JsonValue)>) -> JsonValue {
    JsonValue::Obj(fields.into_iter().map(|(k, v)| (String::from(k), v)).collect())
}

fn label(name: &str, value: &str) -> JsonValue {
    obj(vec![("name", s(name)), ("value", s(value))])
}

fn step(name: &str) -> JsonValue {
    obj(vec![
        ("name", s(name)),
        ("status", s("passed")),
        ("attachments", arr(vec![])),
        ("start", n(1682358426014)),
        ("stop", n(1682358426014)),
    ])
}

fn sample_doc() -> JsonValue {
    obj(vec![
        ("uuid", s("9d95e6e7-9cf6-4ca5-91b4-9b69ce0971f8")),
        ("historyId", s("2b35e31882061875031701ba05a3cd67")),
        ("testCaseId", s("43f8868a367ff70177a99838d39c5b33")),
        (
            "fullName",
            s("com.example.web.essentials.AuthenticationTest.testAuthentication"),
        ),
        ("name", s("testAuthentication()")),
        (
            "links",
            arr(vec![
                obj(vec![
                    ("type", s("link")),
                    ("name", s("Allure Examples")),
                    ("url", s("https://examples.com/")),
                ]),
                obj(vec![
                    ("type", s("issue")),
                    ("name", s("BUG-123")),
                    ("url", s("https://bugs.example.com/BUG-123")),
                ]),
            ]),
        ),
        (
            "labels",
            arr(vec![
                label("host", "machine-1"),
                label("thread", "306681-MainThread"),
                label("language", "java"),
                label("framework", "junit-platform"),
                label("epic", "Web interface"),
                label("feature", "Essential features"),
                label("story", "Authentication"),
            ]),
        ),
        ("status", s("passed")),
        ("start", n(1682358426014)),
        ("stop", n(1682358426014)),
        ("steps", arr(vec![step("Step 1"), step("Step 2")])),
        ("attachments", arr(vec![])),
    ])
}

#[test]
fn test_roundtrip() {
    let val = sample_doc();
    let parsed = from_json(&val).unwrap();
    let val2 = to_json(&parsed);
    assert!(json_eq(&val, &val2));
}

#[test]
fn lib_test_roundtrip() {
    let val = sample_doc();
    let parsed = from_json(&val).unwrap();
    let val2 = to_json(&parsed);
    assert!(json_eq(&val, &val2));
}

#[test]
fn parsed_sample_has_expected_fields() {
    let parsed = from_json(&sample_doc()).unwrap();
    assert_eq!(parsed.uuid.bits, 0x9d95e6e79cf64ca591b49b69ce0971f8);
    assert_eq!(parsed.history_id.bits, 0x2b35e31882061875031701ba05a3cd67);
    assert_eq!(parsed.test_case_id.bits, 0x43f8868a367ff70177a99838d39c5b33);
    assert_eq!(parsed.name, "testAuthentication()");
    assert!(matches!(parsed.status, Status::Passed));
    assert_eq!(parsed.start, 1682358426014);
    assert_eq!(parsed.links.len(), 2);
    assert_eq!(parsed.links[1].kind, "issue");
    assert_eq!(parsed.labels.len(), 7);
    assert_eq!(parsed.steps.len(), 2);
    assert_eq!(parsed.steps[1].name, "Step 2");
}

#[test]
fn built_result_roundtrips_through_json() {
    let mut b = allure_report::models::TestResultBuilder::new("t", "full.t", "s");
    b.start_step("a").unwrap();
    b.finalize_step(Status::Passed);
    let t = b.build();
    let parsed = from_json(&to_json(&t)).unwrap();
    assert_eq!(parsed.uuid, t.uuid);
    assert_eq!(parsed.history_id, t.history_id);
    assert_eq!(parsed.test_case_id, t.test_case_id);
    assert_eq!(parsed.name, t.name);
    assert_eq!(parsed.full_name, t.full_name);
    assert_eq!(parsed.start, t.start);
    assert_eq!(parsed.stop, t.stop);
    assert_eq!(parsed.labels.len(), 1);
    assert_eq!(parsed.steps.len(), 1);
    assert!(matches!(parsed.steps[0].status, Status::Passed));
    assert!(matches!(parsed.status, Status::Passed));
}

#[test]
fn from_json_rejects_malformed_documents() {
    assert!(from_json(&JsonValue::Null).is_none());
    assert!(from_json(&obj(vec![("uuid", s("nope"))])).is_none());
    // a wrong status word in an otherwise perfect document
    let mut bad = match sample_doc() {
        JsonValue::Obj(fs) => fs,
        _ => unreachable!(),
    };
    bad[7].1 = s("exploded");
    assert!(from_json(&JsonValue::Obj(bad)).is_none());
}

#[test]
fn json_text_is_compact_and_escaped() {
    assert_eq!(json_to_string(&JsonValue::Null), "null");
    assert_eq!(json_to_string(&JsonValue::Bool(true)), "true");
    assert_eq!(json_to_string(&n(0)), "0");
    assert_eq!(json_to_string(&n(1682358426014)), "1682358426014");
    assert_eq!(json_to_string(&s("a\"b\\c\nd")), "\"a\\\"b\\\\c\\nd\"");
    assert_eq!(json_to_string(&s("\u{1}")), "\"\\u0001\"");
    assert_eq!(
        json_to_string(&obj(vec![("a", s("b")), ("c", arr(vec![n(1), n(2)]))])),
        "{\"a\":\"b\",\"c\":[1,2]}"
    );
}

#[test]
fn json_eq_is_structural() {
    assert!(json_eq(&sample_doc(), &sample_doc()));
    assert!(!json_eq(&n(1), &n(2)));
    assert!(!json_eq(&s("a"), &JsonValue::Null));
    // field order matters in this representation
    assert!(!json_eq(
        &obj(vec![("a", n(1)), ("b", n(2))]),
        &obj(vec![("b", n(2)), ("a", n(1))])
    ));
}

#[test]
fn equal_json_yields_a_diff_on_mismatch() {
    assert!(equal_json(&sample_doc(), &sample_doc()).is_ok());
    let e = obj(vec![("a", n(1))]);
    let a = obj(vec![("a", n(2))]);
    let diff = equal_json(&e, &a).unwrap_err();
    assert!(diff.contains("-{\"a\":1}"));
    assert!(diff.contains("+{\"a\":2}"));
}

#[test]
fn status_words() {
    assert_eq!(status_string(Status::Passed), "passed");
    assert_eq!(status_string(Status::Failed), "failed");
    assert_eq!(status_string(Status::Pending), "pending");
}

#[test]
fn uuid_text_forms() {
    let u = Uuid { bits: 0x9d95e6e79cf64ca591b49b69ce0971f8 };
    assert_eq!(u.to_dashed_string(), "9d95e6e7-9cf6-4ca5-91b4-9b69ce0971f8");
    assert_eq!(u.to_simple_string(), "9d95e6e79cf64ca591b49b69ce0971f8");
    assert_eq!(
        Uuid::from_dashed_str("9d95e6e7-9cf6-4ca5-91b4-9b69ce0971f8"),
        Some(u)
    );
    assert_eq!(
        Uuid::from_simple_str("2b35e31882061875031701ba05a3cd67"),
        Some(Uuid { bits: 0x2b35e31882061875031701ba05a3cd67 })
    );
    assert_eq!(Uuid::from_simple_str("2b35e318"), None);
    assert_eq!(Uuid::from_dashed_str("9d95e6e7_9cf6_4ca5_91b4_9b69ce0971f8"), None);
    assert_eq!(Uuid::from_simple_str("2B35E31882061875031701BA05A3CD67"), None);
    let zero = Uuid { bits: 0 };
    assert_eq!(zero.to_simple_string(), "00000000000000000000000000000000");
    let max = Uuid { bits: u128::MAX };
    assert_eq!(max.to_dashed_string(), "ffffffff-ffff-ffff-ffff-ffffffffffff");
}

#[test]
fn result_file_names_use_the_dashed_form() {
    let u = Uuid { bits: 0x9d95e6e79cf64ca591b49b69ce0971f8 };
    assert_eq!(
        result_file_name(&u),
        "9d95e6e7-9cf6-4ca5-91b4-9b69ce0971f8-result.json"
    );
}
