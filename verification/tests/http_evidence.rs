use allure_report::evidence::{
    attachment_file_name, attachment_record, request_evidence, response_evidence, Mime,
};
use allure_report::ids::{fresh_uuid, Uuid};
use allure_report::models::{get_epoch_ms, Status, StepBuilder};

fn header(name: &str, value: &str) -> (Vec<u8>, Vec<u8>) {
    (name.as_bytes().to_vec(), value.as_bytes().to_vec())
}

#[test]
fn scenario_get_call_produces_four_attachments() {
    // A GET call with no request body and the response body {"a":"b"}: two
    // request attachments and two response attachments, the response body
    // detected as JSON and pretty-printed.
    let req_headers = vec![header("accept", "*/*")];
    let req = request_evidence(&req_headers, None);
    assert_eq!(req.len(), 2);
    assert_eq!(req[0].name, "Request Headers");
    assert!(matches!(req[0].mime, Mime::Txt));
    assert_eq!(req[0].content, b"accept: */*\n".to_vec());
    assert_eq!(req[1].name, "Request Body");
    assert!(matches!(req[1].mime, Mime::Txt));
    assert!(req[1].content.is_empty());

    let resp_headers = vec![header("content-type", "application/json")];
    let body = b"{\"a\":\"b\"}".to_vec();
    let resp = response_evidence(&resp_headers, Some(&body));
    assert_eq!(resp.len(), 2);
    assert_eq!(resp[0].name, "Response Headers");
    assert_eq!(resp[0].content, b"content-type: application/json\n".to_vec());
    assert_eq!(resp[1].name, "Response Body");
    assert!(matches!(resp[1].mime, Mime::ApplicationJson));
    assert_eq!(resp[1].content, b"{\n  \"a\": \"b\"\n}".to_vec());

    assert_eq!(req.len() + resp.len(), 4);
}

#[test]
fn non_json_body_is_attached_as_lossy_text() {
    let body = vec![0xff, 0x61];
    let ev = response_evidence(&vec![], Some(&body));
    assert!(ev[0].content.is_empty()); // no headers, no lines
    assert!(matches!(ev[1].mime, Mime::Txt));
    assert_eq!(ev[1].content, vec![0xef, 0xbf, 0xbd, 0x61]);
}

#[test]
fn empty_body_is_attached_as_empty_text() {
    let empty: Vec<u8> = Vec::new();
    let ev = request_evidence(&vec![], Some(&empty));
    assert!(matches!(ev[1].mime, Mime::Txt));
    assert!(ev[1].content.is_empty());
}

#[test]
fn header_values_are_decoded_lossily() {
    let ev = request_evidence(&vec![header("a", "x"), (b"b".to_vec(), vec![0xff])], None);
    assert_eq!(ev[0].content, b"a: x\nb: \xef\xbf\xbd\n".to_vec());
}

#[test]
fn mime_strings_and_extensions() {
    assert_eq!(Mime::ApplicationJson.as_ext(), "json");
    assert_eq!(Mime::Txt.as_ext(), "txt");
    assert_eq!(Mime::ApplicationJson.to_ext(), "json");
    assert_eq!(Mime::Txt.to_ext(), "txt");
    assert_eq!(Mime::ApplicationJson.as_mime(), "application/json");
    assert_eq!(Mime::Txt.as_mime(), "text/plain");
}

#[test]
fn attachment_file_names_use_id_and_extension() {
    let u = Uuid { bits: 0x9d95e6e79cf64ca591b49b69ce0971f8 };
    assert_eq!(
        attachment_file_name(&u, Mime::ApplicationJson),
        "9d95e6e7-9cf6-4ca5-91b4-9b69ce0971f8-attachment.json"
    );
    assert_eq!(
        attachment_file_name(&u, Mime::Txt),
        "9d95e6e7-9cf6-4ca5-91b4-9b69ce0971f8-attachment.txt"
    );
}

#[test]
fn attachment_records_carry_name_source_and_mime() {
    let a = attachment_record("Response Body", Mime::ApplicationJson, String::from("f.json"));
    assert_eq!(a.name, "Response Body");
    assert_eq!(a.source, "f.json");
    assert_eq!(a.mime, "application/json");
}

#[test]
fn fresh_uuids_differ() {
    let a = fresh_uuid();
    let b = fresh_uuid();
    assert_ne!(a.bits, b.bits);
}

#[test]
fn clock_reads_milliseconds_since_the_epoch() {
    let ms = get_epoch_ms();
    // after 2020-09-13 in milliseconds, and far below the year 300000
    assert!(ms > 1_600_000_000_000);
    assert!(ms < 10_000_000_000_000_000);
}

#[test]
fn into_step_stamps_a_stop_no_earlier_than_start() {
    let sb = StepBuilder {
        name: String::from("s"),
        attachments: Vec::new(),
        start: get_epoch_ms(),
    };
    let start = sb.start;
    let st = sb.into_step(Status::Pending);
    assert_eq!(st.name, "s");
    assert!(matches!(st.status, Status::Pending));
    assert_eq!(st.start, start);
    assert!(st.start <= st.stop);
}
