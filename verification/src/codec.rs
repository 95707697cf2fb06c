//! The report's JSON shape: how a test result is rendered as a JSON document
//! and how such a document is read back. Field names use camelCase, the
//! primary identifier keeps its dashed form, the history and test-case
//! identifiers are unpunctuated hex, and statuses are lowercase words.
//! Parsing inverts rendering, which is proved at the end of this module.

use vstd::prelude::*;

use crate::ids::{hex_decode, is_dashed_form, is_simple_form, undashed, Uuid};
use crate::json::{JsonSpec, JsonValue};
use crate::models::{
    Attachment, AttachmentView, Label, LabelView, Link, LinkView, Status, Step, StepView,
    TestResult, TestResultView,
};

verus! {

/// The lowercase word a status serializes to.
pub open spec fn status_str(s: Status) -> Seq<char> {
    match s {
        Status::Passed => "passed"@,
        Status::Failed => "failed"@,
        Status::Pending => "pending"@,
    }
}

pub open spec fn spec_parse_status(s: Seq<char>) -> Option<Status> {
    if s == "passed"@ {
        Some(Status::Passed)
    } else if s == "failed"@ {
        Some(Status::Failed)
    } else if s == "pending"@ {
        Some(Status::Pending)
    } else {
        None
    }
}

pub proof fn lemma_status_roundtrip(s: Status)
    ensures
        spec_parse_status(status_str(s)) == Some(s),
{
    reveal_strlit("passed");
    reveal_strlit("failed");
    reveal_strlit("pending");
    assert("passed"@ != "failed"@) by {
        assert("passed"@[0] != "failed"@[0]);
    }
    assert("passed"@ != "pending"@) by {
        assert("passed"@.len() != "pending"@.len());
    }
    assert("failed"@ != "pending"@) by {
        assert("failed"@.len() != "pending"@.len());
    }
}

pub open spec fn attachment_json(a: AttachmentView) -> JsonSpec {
    JsonSpec::Obj(
        seq![
            ("name"@, JsonSpec::Str(a.name)),
            ("source"@, JsonSpec::Str(a.source)),
            ("type"@, JsonSpec::Str(a.mime)),
        ],
    )
}

pub open spec fn spec_parse_attachment(j: JsonSpec) -> Option<AttachmentView> {
    match j {
        JsonSpec::Obj(fs) => {
            if fs.len() == 3 && fs[0].0 == "name"@ && fs[0].1 is Str && fs[1].0 == "source"@
                && fs[1].1 is Str && fs[2].0 == "type"@ && fs[2].1 is Str {
                Some(
                    AttachmentView {
                        name: fs[0].1->Str_0,
                        source: fs[1].1->Str_0,
                        mime: fs[2].1->Str_0,
                    },
                )
            } else {
                None
            }
        },
        _ => None,
    }
}

pub open spec fn label_json(l: LabelView) -> JsonSpec {
    JsonSpec::Obj(seq![("name"@, JsonSpec::Str(l.name)), ("value"@, JsonSpec::Str(l.value))])
}

pub open spec fn spec_parse_label(j: JsonSpec) -> Option<LabelView> {
    match j {
        JsonSpec::Obj(fs) => {
            if fs.len() == 2 && fs[0].0 == "name"@ && fs[0].1 is Str && fs[1].0 == "value"@
                && fs[1].1 is Str {
                Some(LabelView { name: fs[0].1->Str_0, value: fs[1].1->Str_0 })
            } else {
                None
            }
        },
        _ => None,
    }
}

pub open spec fn link_json(l: LinkView) -> JsonSpec {
    JsonSpec::Obj(
        seq![
            ("type"@, JsonSpec::Str(l.kind)),
            ("name"@, JsonSpec::Str(l.name)),
            ("url"@, JsonSpec::Str(l.url)),
        ],
    )
}

pub open spec fn spec_parse_link(j: JsonSpec) -> Option<LinkView> {
    match j {
        JsonSpec::Obj(fs) => {
            if fs.len() == 3 && fs[0].0 == "type"@ && fs[0].1 is Str && fs[1].0 == "name"@
                && fs[1].1 is Str && fs[2].0 == "url"@ && fs[2].1 is Str {
                Some(LinkView { kind: fs[0].1->Str_0, name: fs[1].1->Str_0, url: fs[2].1->Str_0 })
            } else {
                None
            }
        },
        _ => None,
    }
}

pub open spec fn attachments_json(s: Seq<AttachmentView>) -> JsonSpec {
    JsonSpec::Arr(s.map_values(|a: AttachmentView| attachment_json(a)))
}

pub open spec fn spec_parse_attachment_seq(items: Seq<JsonSpec>) -> Option<Seq<AttachmentView>> {
    if forall|i: int| 0 <= i < items.len() ==> spec_parse_attachment(#[trigger] items[i]) is Some {
        Some(Seq::new(items.len(), |i: int| spec_parse_attachment(items[i])->0))
    } else {
        None
    }
}

pub open spec fn spec_parse_attachments(j: JsonSpec) -> Option<Seq<AttachmentView>> {
    match j {
        JsonSpec::Arr(items) => spec_parse_attachment_seq(items),
        _ => None,
    }
}

pub open spec fn links_json(s: Seq<LinkView>) -> JsonSpec {
    JsonSpec::Arr(s.map_values(|l: LinkView| link_json(l)))
}

pub open spec fn spec_parse_link_seq(items: Seq<JsonSpec>) -> Option<Seq<LinkView>> {
    if forall|i: int| 0 <= i < items.len() ==> spec_parse_link(#[trigger] items[i]) is Some {
        Some(Seq::new(items.len(), |i: int| spec_parse_link(items[i])->0))
    } else {
        None
    }
}

pub open spec fn spec_parse_links(j: JsonSpec) -> Option<Seq<LinkView>> {
    match j {
        JsonSpec::Arr(items) => spec_parse_link_seq(items),
        _ => None,
    }
}

pub open spec fn labels_json(s: Seq<LabelView>) -> JsonSpec {
    JsonSpec::Arr(s.map_values(|l: LabelView| label_json(l)))
}

pub open spec fn spec_parse_label_seq(items: Seq<JsonSpec>) -> Option<Seq<LabelView>> {
    if forall|i: int| 0 <= i < items.len() ==> spec_parse_label(#[trigger] items[i]) is Some {
        Some(Seq::new(items.len(), |i: int| spec_parse_label(items[i])->0))
    } else {
        None
    }
}

pub open spec fn spec_parse_labels(j: JsonSpec) -> Option<Seq<LabelView>> {
    match j {
        JsonSpec::Arr(items) => spec_parse_label_seq(items),
        _ => None,
    }
}

pub open spec fn step_json(s: StepView) -> JsonSpec {
    JsonSpec::Obj(
        seq![
            ("name"@, JsonSpec::Str(s.name)),
            ("status"@, JsonSpec::Str(status_str(s.status))),
            ("attachments"@, attachments_json(s.attachments)),
            ("start"@, JsonSpec::Num(s.start)),
            ("stop"@, JsonSpec::Num(s.stop)),
        ],
    )
}

pub open spec fn spec_parse_step(j: JsonSpec) -> Option<StepView> {
    match j {
        JsonSpec::Obj(fs) => {
            if fs.len() == 5 && fs[0].0 == "name"@ && fs[0].1 is Str && fs[1].0 == "status"@
                && fs[1].1 is Str && spec_parse_status(fs[1].1->Str_0) is Some && fs[2].0
                == "attachments"@ && spec_parse_attachments(fs[2].1) is Some && fs[3].0
                == "start"@ && fs[3].1 is Num && fs[4].0 == "stop"@ && fs[4].1 is Num {
                Some(
                    StepView {
                        name: fs[0].1->Str_0,
                        status: spec_parse_status(fs[1].1->Str_0)->0,
                        attachments: spec_parse_attachments(fs[2].1)->0,
                        start: fs[3].1->Num_0,
                        stop: fs[4].1->Num_0,
                    },
                )
            } else {
                None
            }
        },
        _ => None,
    }
}

pub open spec fn steps_json(s: Seq<StepView>) -> JsonSpec {
    JsonSpec::Arr(s.map_values(|v: StepView| step_json(v)))
}

pub open spec fn spec_parse_step_seq(items: Seq<JsonSpec>) -> Option<Seq<StepView>> {
    if forall|i: int| 0 <= i < items.len() ==> spec_parse_step(#[trigger] items[i]) is Some {
        Some(Seq::new(items.len(), |i: int| spec_parse_step(items[i])->0))
    } else {
        None
    }
}

pub open spec fn spec_parse_steps(j: JsonSpec) -> Option<Seq<StepView>> {
    match j {
        JsonSpec::Arr(items) => spec_parse_step_seq(items),
        _ => None,
    }
}

pub open spec fn spec_parse_uuid_dashed(j: JsonSpec) -> Option<Uuid> {
    match j {
        JsonSpec::Str(s) => if is_dashed_form(s) {
            Some(Uuid { bits: hex_decode(undashed(s)) as u128 })
        } else {
            None
        },
        _ => None,
    }
}

pub open spec fn spec_parse_uuid_simple(j: JsonSpec) -> Option<Uuid> {
    match j {
        JsonSpec::Str(s) => if is_simple_form(s) {
            Some(Uuid { bits: hex_decode(s) as u128 })
        } else {
            None
        },
        _ => None,
    }
}

/// The JSON document a test result serializes to: twelve fields, in this
/// order, with camelCase names.
pub open spec fn test_result_json(t: TestResultView) -> JsonSpec {
    JsonSpec::Obj(
        seq![
            ("uuid"@, JsonSpec::Str(t.uuid.dashed_form())),
            ("historyId"@, JsonSpec::Str(t.history_id.simple_form())),
            ("testCaseId"@, JsonSpec::Str(t.test_case_id.simple_form())),
            ("fullName"@, JsonSpec::Str(t.full_name)),
            ("name"@, JsonSpec::Str(t.name)),
            ("links"@, links_json(t.links)),
            ("labels"@, labels_json(t.labels)),
            ("status"@, JsonSpec::Str(status_str(t.status))),
            ("start"@, JsonSpec::Num(t.start)),
            ("stop"@, JsonSpec::Num(t.stop)),
            ("steps"@, steps_json(t.steps)),
            ("attachments"@, attachments_json(t.attachments)),
        ],
    )
}

pub open spec fn test_result_json_wf(fs: Seq<(Seq<char>, JsonSpec)>) -> bool {
    fs.len() == 12 && fs[0].0 == "uuid"@ && spec_parse_uuid_dashed(fs[0].1) is Some && fs[1].0
        == "historyId"@ && spec_parse_uuid_simple(fs[1].1) is Some && fs[2].0 == "testCaseId"@
        && spec_parse_uuid_simple(fs[2].1) is Some && fs[3].0 == "fullName"@ && fs[3].1 is Str
        && fs[4].0 == "name"@ && fs[4].1 is Str && fs[5].0 == "links"@ && spec_parse_links(
        fs[5].1,
    ) is Some && fs[6].0 == "labels"@ && spec_parse_labels(fs[6].1) is Some && fs[7].0
        == "status"@ && fs[7].1 is Str && spec_parse_status(fs[7].1->Str_0) is Some && fs[8].0
        == "start"@ && fs[8].1 is Num && fs[9].0 == "stop"@ && fs[9].1 is Num && fs[10].0
        == "steps"@ && spec_parse_steps(fs[10].1) is Some && fs[11].0 == "attachments"@
        && spec_parse_attachments(fs[11].1) is Some
}

pub open spec fn spec_parse_test_result(j: JsonSpec) -> Option<TestResultView> {
    match j {
        JsonSpec::Obj(fs) => {
            if test_result_json_wf(fs) {
                Some(
                    TestResultView {
                        uuid: spec_parse_uuid_dashed(fs[0].1)->0,
                        history_id: spec_parse_uuid_simple(fs[1].1)->0,
                        test_case_id: spec_parse_uuid_simple(fs[2].1)->0,
                        full_name: fs[3].1->Str_0,
                        name: fs[4].1->Str_0,
                        links: spec_parse_links(fs[5].1)->0,
                        labels: spec_parse_labels(fs[6].1)->0,
                        status: spec_parse_status(fs[7].1->Str_0)->0,
                        start: fs[8].1->Num_0,
                        stop: fs[9].1->Num_0,
                        steps: spec_parse_steps(fs[10].1)->0,
                        attachments: spec_parse_attachments(fs[11].1)->0,
                    },
                )
            } else {
                None
            }
        },
        _ => None,
    }
}

pub proof fn lemma_attachment_roundtrip(a: AttachmentView)
    ensures
        spec_parse_attachment(attachment_json(a)) == Some(a),
{
}

pub proof fn lemma_attachments_roundtrip(s: Seq<AttachmentView>)
    ensures
        spec_parse_attachments(attachments_json(s)) == Some(s),
{
    let m = s.map_values(|a: AttachmentView| attachment_json(a));
    assert forall|i: int| 0 <= i < m.len() implies spec_parse_attachment(
        #[trigger] m[i],
    ) is Some by {
        lemma_attachment_roundtrip(s[i]);
    }
    assert(spec_parse_attachment_seq(m)->0 =~= s) by {
        assert forall|i: int| 0 <= i < m.len() implies spec_parse_attachment_seq(m)->0[i]
            == s[i] by {
            lemma_attachment_roundtrip(s[i]);
        }
    }
}

pub proof fn lemma_links_roundtrip(s: Seq<LinkView>)
    ensures
        spec_parse_links(links_json(s)) == Some(s),
{
    let m = s.map_values(|l: LinkView| link_json(l));
    assert(forall|i: int| 0 <= i < m.len() ==> spec_parse_link(#[trigger] m[i]) is Some);
    assert(spec_parse_link_seq(m)->0 =~= s);
}

pub proof fn lemma_labels_roundtrip(s: Seq<LabelView>)
    ensures
        spec_parse_labels(labels_json(s)) == Some(s),
{
    let m = s.map_values(|l: LabelView| label_json(l));
    assert(forall|i: int| 0 <= i < m.len() ==> spec_parse_label(#[trigger] m[i]) is Some);
    assert(spec_parse_label_seq(m)->0 =~= s);
}

pub proof fn lemma_step_roundtrip(s: StepView)
    ensures
        spec_parse_step(step_json(s)) == Some(s),
{
    lemma_status_roundtrip(s.status);
    lemma_attachments_roundtrip(s.attachments);
}

pub proof fn lemma_steps_roundtrip(s: Seq<StepView>)
    ensures
        spec_parse_steps(steps_json(s)) == Some(s),
{
    let m = s.map_values(|v: StepView| step_json(v));
    assert forall|i: int| 0 <= i < m.len() implies spec_parse_step(#[trigger] m[i]) is Some by {
        lemma_step_roundtrip(s[i]);
    }
    assert(spec_parse_step_seq(m)->0 =~= s) by {
        assert forall|i: int| 0 <= i < m.len() implies spec_parse_step_seq(m)->0[i] == s[i] by {
            lemma_step_roundtrip(s[i]);
        }
    }
}

pub proof fn lemma_uuid_dashed_roundtrip(u: Uuid)
    ensures
        spec_parse_uuid_dashed(JsonSpec::Str(u.dashed_form())) == Some(u),
{
    crate::ids::lemma_dashed_roundtrip(u);
}

pub proof fn lemma_uuid_simple_roundtrip(u: Uuid)
    ensures
        spec_parse_uuid_simple(JsonSpec::Str(u.simple_form())) == Some(u),
{
    crate::ids::lemma_simple_roundtrip(u);
}

/// The lowercase word a status serializes to.
pub fn status_string(s: Status) -> (r: String)
    ensures
        r@ == status_str(s),
{
    match s {
        Status::Passed => String::from_str("passed"),
        Status::Failed => String::from_str("failed"),
        Status::Pending => String::from_str("pending"),
    }
}

fn attachment_to_json(a: &Attachment) -> (r: JsonValue)
    ensures
        r@ == attachment_json(a@),
{
    let mut fs: Vec<(String, JsonValue)> = Vec::new();
    fs.push((String::from_str("name"), JsonValue::Str(a.name.clone())));
    fs.push((String::from_str("source"), JsonValue::Str(a.source.clone())));
    fs.push((String::from_str("type"), JsonValue::Str(a.mime.clone())));
    let r = JsonValue::Obj(fs);
    proof {
        reveal_with_fuel(crate::json::json_view, 3);
        assert(r@->Obj_0 =~~= attachment_json(a@)->Obj_0);
    }
    r
}

fn label_to_json(l: &Label) -> (r: JsonValue)
    ensures
        r@ == label_json(l@),
{
    let mut fs: Vec<(String, JsonValue)> = Vec::new();
    fs.push((String::from_str("name"), JsonValue::Str(l.name.clone())));
    fs.push((String::from_str("value"), JsonValue::Str(l.value.clone())));
    let r = JsonValue::Obj(fs);
    proof {
        reveal_with_fuel(crate::json::json_view, 3);
        assert(r@->Obj_0 =~~= label_json(l@)->Obj_0);
    }
    r
}

fn link_to_json(l: &Link) -> (r: JsonValue)
    ensures
        r@ == link_json(l@),
{
    let mut fs: Vec<(String, JsonValue)> = Vec::new();
    fs.push((String::from_str("type"), JsonValue::Str(l.kind.clone())));
    fs.push((String::from_str("name"), JsonValue::Str(l.name.clone())));
    fs.push((String::from_str("url"), JsonValue::Str(l.url.clone())));
    let r = JsonValue::Obj(fs);
    proof {
        reveal_with_fuel(crate::json::json_view, 3);
        assert(r@->Obj_0 =~~= link_json(l@)->Obj_0);
    }
    r
}

fn attachments_to_json(xs: &Vec<Attachment>) -> (r: JsonValue)
    ensures
        r@ == attachments_json(xs@.map_values(|a: Attachment| a@)),
{
    let mut items: Vec<JsonValue> = Vec::new();
    for i in 0..xs.len()
        invariant
            items@.len() == i,
            forall|j: int|
                0 <= j < i ==> crate::json::json_view(#[trigger] items@[j]) == attachment_json(
                    xs@[j]@,
                ),
    {
        items.push(attachment_to_json(&xs[i]));
    }
    let r = JsonValue::Arr(items);
    proof {
        assert(r@->Arr_0 =~= attachments_json(xs@.map_values(|a: Attachment| a@))->Arr_0);
    }
    r
}

fn links_to_json(xs: &Vec<Link>) -> (r: JsonValue)
    ensures
        r@ == links_json(xs@.map_values(|l: Link| l@)),
{
    let mut items: Vec<JsonValue> = Vec::new();
    for i in 0..xs.len()
        invariant
            items@.len() == i,
            forall|j: int|
                0 <= j < i ==> crate::json::json_view(#[trigger] items@[j]) == link_json(xs@[j]@),
    {
        items.push(link_to_json(&xs[i]));
    }
    let r = JsonValue::Arr(items);
    proof {
        assert(r@->Arr_0 =~= links_json(xs@.map_values(|l: Link| l@))->Arr_0);
    }
    r
}

fn labels_to_json(xs: &Vec<Label>) -> (r: JsonValue)
    ensures
        r@ == labels_json(xs@.map_values(|l: Label| l@)),
{
    let mut items: Vec<JsonValue> = Vec::new();
    for i in 0..xs.len()
        invariant
            items@.len() == i,
            forall|j: int|
                0 <= j < i ==> crate::json::json_view(#[trigger] items@[j]) == label_json(
                    xs@[j]@,
                ),
    {
        items.push(label_to_json(&xs[i]));
    }
    let r = JsonValue::Arr(items);
    proof {
        assert(r@->Arr_0 =~= labels_json(xs@.map_values(|l: Label| l@))->Arr_0);
    }
    r
}

fn step_to_json(s: &Step) -> (r: JsonValue)
    ensures
        r@ == step_json(s@),
{
    let mut fs: Vec<(String, JsonValue)> = Vec::new();
    fs.push((String::from_str("name"), JsonValue::Str(s.name.clone())));
    fs.push((String::from_str("status"), JsonValue::Str(status_string(s.status))));
    fs.push((String::from_str("attachments"), attachments_to_json(&s.attachments)));
    fs.push((String::from_str("start"), JsonValue::Num(s.start)));
    fs.push((String::from_str("stop"), JsonValue::Num(s.stop)));
    let r = JsonValue::Obj(fs);
    proof {
        assert(s.attachments@.map_values(|a: Attachment| a@) =~= s@.attachments);
        reveal_with_fuel(crate::json::json_view, 3);
        assert(r@->Obj_0 =~~= step_json(s@)->Obj_0);
    }
    r
}

fn steps_to_json(xs: &Vec<Step>) -> (r: JsonValue)
    ensures
        r@ == steps_json(xs@.map_values(|s: Step| s@)),
{
    let mut items: Vec<JsonValue> = Vec::new();
    for i in 0..xs.len()
        invariant
            items@.len() == i,
            forall|j: int|
                0 <= j < i ==> crate::json::json_view(#[trigger] items@[j]) == step_json(xs@[j]@),
    {
        items.push(step_to_json(&xs[i]));
    }
    let r = JsonValue::Arr(items);
    proof {
        assert(r@->Arr_0 =~= steps_json(xs@.map_values(|s: Step| s@))->Arr_0);
    }
    r
}

/// Render a test result as its JSON document.
pub fn to_json(t: &TestResult) -> (r: JsonValue)
    ensures
        r@ == test_result_json(t@),
{
    let mut fs: Vec<(String, JsonValue)> = Vec::new();
    fs.push((String::from_str("uuid"), JsonValue::Str(t.uuid.to_dashed_string())));
    fs.push((String::from_str("historyId"), JsonValue::Str(t.history_id.to_simple_string())));
    fs.push((String::from_str("testCaseId"), JsonValue::Str(t.test_case_id.to_simple_string())));
    fs.push((String::from_str("fullName"), JsonValue::Str(t.full_name.clone())));
    fs.push((String::from_str("name"), JsonValue::Str(t.name.clone())));
    fs.push((String::from_str("links"), links_to_json(&t.links)));
    fs.push((String::from_str("labels"), labels_to_json(&t.labels)));
    fs.push((String::from_str("status"), JsonValue::Str(status_string(t.status))));
    fs.push((String::from_str("start"), JsonValue::Num(t.start)));
    fs.push((String::from_str("stop"), JsonValue::Num(t.stop)));
    fs.push((String::from_str("steps"), steps_to_json(&t.steps)));
    fs.push((String::from_str("attachments"), attachments_to_json(&t.attachments)));
    let r = JsonValue::Obj(fs);
    proof {
        assert(t.links@.map_values(|l: Link| l@) =~= t@.links);
        assert(t.labels@.map_values(|l: Label| l@) =~= t@.labels);
        assert(t.steps@.map_values(|s: Step| s@) =~= t@.steps);
        assert(t.attachments@.map_values(|a: Attachment| a@) =~= t@.attachments);
        reveal_with_fuel(crate::json::json_view, 3);
        assert(r@->Obj_0 =~~= test_result_json(t@)->Obj_0);
    }
    r
}

fn string_is(s: &String, lit: &str) -> (r: bool)
    ensures
        r == (s@ == lit@),
{
    let t = String::from_str(lit);
    *s == t
}

fn parse_status_value(j: &JsonValue) -> (r: Option<Status>)
    ensures
        j@ is Str ==> r == spec_parse_status(j@->Str_0),
        !(j@ is Str) ==> r is None,
{
    match j {
        JsonValue::Str(s) => {
            if string_is(s, "passed") {
                Some(Status::Passed)
            } else if string_is(s, "failed") {
                Some(Status::Failed)
            } else if string_is(s, "pending") {
                Some(Status::Pending)
            } else {
                None
            }
        },
        _ => None,
    }
}

fn parse_uuid_dashed_value(j: &JsonValue) -> (r: Option<Uuid>)
    ensures
        r == spec_parse_uuid_dashed(j@),
{
    match j {
        JsonValue::Str(s) => Uuid::from_dashed_str(s.as_str()),
        _ => None,
    }
}

fn parse_uuid_simple_value(j: &JsonValue) -> (r: Option<Uuid>)
    ensures
        r == spec_parse_uuid_simple(j@),
{
    match j {
        JsonValue::Str(s) => Uuid::from_simple_str(s.as_str()),
        _ => None,
    }
}

fn parse_attachment_value(j: &JsonValue) -> (r: Option<Attachment>)
    ensures
        match r {
            Some(a) => spec_parse_attachment(j@) == Some(a@),
            None => spec_parse_attachment(j@) is None,
        },
{
    match j {
        JsonValue::Obj(fs) => {
            let ghost fsv = j@->Obj_0;
            proof {
                reveal_with_fuel(crate::json::json_view, 3);
                assert(j@ == JsonSpec::Obj(fsv) && fsv.len() == fs@.len());
                assert(forall|i: int|
                    0 <= i < fsv.len() ==> fsv[i] == (
                        fs@[i].0@,
                        crate::json::json_view(#[trigger] fs@[i].1),
                    ));
            }
            if fs.len() != 3 {
                return None;
            }
            if !string_is(&fs[0].0, "name") {
                return None;
            }
            if !string_is(&fs[1].0, "source") {
                return None;
            }
            if !string_is(&fs[2].0, "type") {
                return None;
            }
            let name = match &fs[0].1 {
                JsonValue::Str(s) => s.clone(),
                _ => {
                    return None;
                },
            };
            let source = match &fs[1].1 {
                JsonValue::Str(s) => s.clone(),
                _ => {
                    return None;
                },
            };
            let mime = match &fs[2].1 {
                JsonValue::Str(s) => s.clone(),
                _ => {
                    return None;
                },
            };
            let a = Attachment { name, source, mime };
            proof {
                assert(spec_parse_attachment(j@) == Some(a@));
            }
            Some(a)
        },
        _ => None,
    }
}

fn parse_label_value(j: &JsonValue) -> (r: Option<Label>)
    ensures
        match r {
            Some(l) => spec_parse_label(j@) == Some(l@),
            None => spec_parse_label(j@) is None,
        },
{
    match j {
        JsonValue::Obj(fs) => {
            let ghost fsv = j@->Obj_0;
            proof {
                reveal_with_fuel(crate::json::json_view, 3);
                assert(j@ == JsonSpec::Obj(fsv) && fsv.len() == fs@.len());
                assert(forall|i: int|
                    0 <= i < fsv.len() ==> fsv[i] == (
                        fs@[i].0@,
                        crate::json::json_view(#[trigger] fs@[i].1),
                    ));
            }
            if fs.len() != 2 {
                return None;
            }
            if !string_is(&fs[0].0, "name") {
                return None;
            }
            if !string_is(&fs[1].0, "value") {
                return None;
            }
            let name = match &fs[0].1 {
                JsonValue::Str(s) => s.clone(),
                _ => {
                    return None;
                },
            };
            let value = match &fs[1].1 {
                JsonValue::Str(s) => s.clone(),
                _ => {
                    return None;
                },
            };
            let l = Label { name, value };
            proof {
                assert(spec_parse_label(j@) == Some(l@));
            }
            Some(l)
        },
        _ => None,
    }
}

fn parse_link_value(j: &JsonValue) -> (r: Option<Link>)
    ensures
        match r {
            Some(l) => spec_parse_link(j@) == Some(l@),
            None => spec_parse_link(j@) is None,
        },
{
    match j {
        JsonValue::Obj(fs) => {
            let ghost fsv = j@->Obj_0;
            proof {
                reveal_with_fuel(crate::json::json_view, 3);
                assert(j@ == JsonSpec::Obj(fsv) && fsv.len() == fs@.len());
                assert(forall|i: int|
                    0 <= i < fsv.len() ==> fsv[i] == (
                        fs@[i].0@,
                        crate::json::json_view(#[trigger] fs@[i].1),
                    ));
            }
            if fs.len() != 3 {
                return None;
            }
            if !string_is(&fs[0].0, "type") {
                return None;
            }
            if !string_is(&fs[1].0, "name") {
                return None;
            }
            if !string_is(&fs[2].0, "url") {
                return None;
            }
            let kind = match &fs[0].1 {
                JsonValue::Str(s) => s.clone(),
                _ => {
                    return None;
                },
            };
            let name = match &fs[1].1 {
                JsonValue::Str(s) => s.clone(),
                _ => {
                    return None;
                },
            };
            let url = match &fs[2].1 {
                JsonValue::Str(s) => s.clone(),
                _ => {
                    return None;
                },
            };
            let l = Link { kind, name, url };
            proof {
                assert(spec_parse_link(j@) == Some(l@));
            }
            Some(l)
        },
        _ => None,
    }
}

fn parse_attachments_value(j: &JsonValue) -> (r: Option<Vec<Attachment>>)
    ensures
        match r {
            Some(xs) => spec_parse_attachments(j@) == Some(
                xs@.map_values(|a: Attachment| a@),
            ),
            None => spec_parse_attachments(j@) is None,
        },
{
    match j {
        JsonValue::Arr(items) => {
            let ghost itv = j@->Arr_0;
            proof {
                assert(j@ == JsonSpec::Arr(itv) && itv.len() == items@.len());
                assert(forall|i: int|
                    0 <= i < itv.len() ==> itv[i] == crate::json::json_view(
                        #[trigger] items@[i],
                    ));
            }
            let mut out: Vec<Attachment> = Vec::new();
            for i in 0..items.len()
                invariant
                    itv.len() == items@.len(),
                    j@ == JsonSpec::Arr(itv),
                    forall|k: int|
                        0 <= k < itv.len() ==> itv[k] == crate::json::json_view(
                            #[trigger] items@[k],
                        ),
                    out@.len() == i,
                    forall|k: int|
                        0 <= k < i ==> spec_parse_attachment(#[trigger] itv[k]) == Some(
                            out@[k]@,
                        ),
            {
                match parse_attachment_value(&items[i]) {
                    Some(a) => {
                        out.push(a);
                    },
                    None => {
                        proof {
                            assert(spec_parse_attachment(itv[i as int]) is None);
                        }
                        return None;
                    },
                }
            }
            proof {
                assert(spec_parse_attachment_seq(itv)->0 =~= out@.map_values(
                    |a: Attachment| a@,
                ));
            }
            Some(out)
        },
        _ => None,
    }
}

fn parse_links_value(j: &JsonValue) -> (r: Option<Vec<Link>>)
    ensures
        match r {
            Some(xs) => spec_parse_links(j@) == Some(xs@.map_values(|l: Link| l@)),
            None => spec_parse_links(j@) is None,
        },
{
    match j {
        JsonValue::Arr(items) => {
            let ghost itv = j@->Arr_0;
            proof {
                assert(j@ == JsonSpec::Arr(itv) && itv.len() == items@.len());
                assert(forall|i: int|
                    0 <= i < itv.len() ==> itv[i] == crate::json::json_view(
                        #[trigger] items@[i],
                    ));
            }
            let mut out: Vec<Link> = Vec::new();
            for i in 0..items.len()
                invariant
                    itv.len() == items@.len(),
                    j@ == JsonSpec::Arr(itv),
                    forall|k: int|
                        0 <= k < itv.len() ==> itv[k] == crate::json::json_view(
                            #[trigger] items@[k],
                        ),
                    out@.len() == i,
                    forall|k: int|
                        0 <= k < i ==> spec_parse_link(#[trigger] itv[k]) == Some(out@[k]@),
            {
                match parse_link_value(&items[i]) {
                    Some(l) => {
                        out.push(l);
                    },
                    None => {
                        proof {
                            assert(spec_parse_link(itv[i as int]) is None);
                        }
                        return None;
                    },
                }
            }
            proof {
                assert(spec_parse_link_seq(itv)->0 =~= out@.map_values(|l: Link| l@));
            }
            Some(out)
        },
        _ => None,
    }
}

fn parse_labels_value(j: &JsonValue) -> (r: Option<Vec<Label>>)
    ensures
        match r {
            Some(xs) => spec_parse_labels(j@) == Some(xs@.map_values(|l: Label| l@)),
            None => spec_parse_labels(j@) is None,
        },
{
    match j {
        JsonValue::Arr(items) => {
            let ghost itv = j@->Arr_0;
            proof {
                assert(j@ == JsonSpec::Arr(itv) && itv.len() == items@.len());
                assert(forall|i: int|
                    0 <= i < itv.len() ==> itv[i] == crate::json::json_view(
                        #[trigger] items@[i],
                    ));
            }
            let mut out: Vec<Label> = Vec::new();
            for i in 0..items.len()
                invariant
                    itv.len() == items@.len(),
                    j@ == JsonSpec::Arr(itv),
                    forall|k: int|
                        0 <= k < itv.len() ==> itv[k] == crate::json::json_view(
                            #[trigger] items@[k],
                        ),
                    out@.len() == i,
                    forall|k: int|
                        0 <= k < i ==> spec_parse_label(#[trigger] itv[k]) == Some(out@[k]@),
            {
                match parse_label_value(&items[i]) {
                    Some(l) => {
                        out.push(l);
                    },
                    None => {
                        proof {
                            assert(spec_parse_label(itv[i as int]) is None);
                        }
                        return None;
                    },
                }
            }
            proof {
                assert(spec_parse_label_seq(itv)->0 =~= out@.map_values(|l: Label| l@));
            }
            Some(out)
        },
        _ => None,
    }
}

fn parse_step_value(j: &JsonValue) -> (r: Option<Step>)
    ensures
        match r {
            Some(s) => spec_parse_step(j@) == Some(s@),
            None => spec_parse_step(j@) is None,
        },
{
    match j {
        JsonValue::Obj(fs) => {
            let ghost fsv = j@->Obj_0;
            proof {
                reveal_with_fuel(crate::json::json_view, 3);
                assert(j@ == JsonSpec::Obj(fsv) && fsv.len() == fs@.len());
                assert(forall|i: int|
                    0 <= i < fsv.len() ==> fsv[i] == (
                        fs@[i].0@,
                        crate::json::json_view(#[trigger] fs@[i].1),
                    ));
            }
            if fs.len() != 5 {
                return None;
            }
            if !string_is(&fs[0].0, "name") {
                return None;
            }
            if !string_is(&fs[1].0, "status") {
                return None;
            }
            if !string_is(&fs[2].0, "attachments") {
                return None;
            }
            if !string_is(&fs[3].0, "start") {
                return None;
            }
            if !string_is(&fs[4].0, "stop") {
                return None;
            }
            let name = match &fs[0].1 {
                JsonValue::Str(s) => s.clone(),
                _ => {
                    return None;
                },
            };
            let status = match parse_status_value(&fs[1].1) {
                Some(st) => st,
                None => {
                    return None;
                },
            };
            let attachments = match parse_attachments_value(&fs[2].1) {
                Some(xs) => xs,
                None => {
                    return None;
                },
            };
            let start = match &fs[3].1 {
                JsonValue::Num(n) => *n,
                _ => {
                    return None;
                },
            };
            let stop = match &fs[4].1 {
                JsonValue::Num(n) => *n,
                _ => {
                    return None;
                },
            };
            let s = Step { name, status, attachments, start, stop };
            proof {
                assert(attachments@.map_values(|a: Attachment| a@) =~= s@.attachments);
                assert(spec_parse_step(j@) == Some(s@));
            }
            Some(s)
        },
        _ => None,
    }
}

fn parse_steps_value(j: &JsonValue) -> (r: Option<Vec<Step>>)
    ensures
        match r {
            Some(xs) => spec_parse_steps(j@) == Some(xs@.map_values(|s: Step| s@)),
            None => spec_parse_steps(j@) is None,
        },
{
    match j {
        JsonValue::Arr(items) => {
            let ghost itv = j@->Arr_0;
            proof {
                assert(j@ == JsonSpec::Arr(itv) && itv.len() == items@.len());
                assert(forall|i: int|
                    0 <= i < itv.len() ==> itv[i] == crate::json::json_view(
                        #[trigger] items@[i],
                    ));
            }
            let mut out: Vec<Step> = Vec::new();
            for i in 0..items.len()
                invariant
                    itv.len() == items@.len(),
                    j@ == JsonSpec::Arr(itv),
                    forall|k: int|
                        0 <= k < itv.len() ==> itv[k] == crate::json::json_view(
                            #[trigger] items@[k],
                        ),
                    out@.len() == i,
                    forall|k: int|
                        0 <= k < i ==> spec_parse_step(#[trigger] itv[k]) == Some(out@[k]@),
            {
                match parse_step_value(&items[i]) {
                    Some(s) => {
                        out.push(s);
                    },
                    None => {
                        proof {
                            assert(spec_parse_step(itv[i as int]) is None);
                        }
                        return None;
                    },
                }
            }
            proof {
                assert(spec_parse_step_seq(itv)->0 =~= out@.map_values(|s: Step| s@));
            }
            Some(out)
        },
        _ => None,
    }
}

/// Read a test result back from its JSON document. Returns None unless the
/// document has exactly the documented shape: the twelve fields in order,
/// with well-formed identifiers, statuses, steps and attachments.
#[verifier::rlimit(50)]
pub fn from_json(v: &JsonValue) -> (r: Option<TestResult>)
    ensures
        match r {
            Some(t) => spec_parse_test_result(v@) == Some(t@),
            None => spec_parse_test_result(v@) is None,
        },
{
    match v {
        JsonValue::Obj(fs) => {
            let ghost fsv = v@->Obj_0;
            proof {
                reveal_with_fuel(crate::json::json_view, 3);
                assert(v@ == JsonSpec::Obj(fsv) && fsv.len() == fs@.len());
                assert(forall|i: int|
                    0 <= i < fsv.len() ==> fsv[i] == (
                        fs@[i].0@,
                        crate::json::json_view(#[trigger] fs@[i].1),
                    ));
            }
            if fs.len() != 12 {
                return None;
            }
            if !string_is(&fs[0].0, "uuid") {
                return None;
            }
            if !string_is(&fs[1].0, "historyId") {
                return None;
            }
            if !string_is(&fs[2].0, "testCaseId") {
                return None;
            }
            if !string_is(&fs[3].0, "fullName") {
                return None;
            }
            if !string_is(&fs[4].0, "name") {
                return None;
            }
            if !string_is(&fs[5].0, "links") {
                return None;
            }
            if !string_is(&fs[6].0, "labels") {
                return None;
            }
            if !string_is(&fs[7].0, "status") {
                return None;
            }
            if !string_is(&fs[8].0, "start") {
                return None;
            }
            if !string_is(&fs[9].0, "stop") {
                return None;
            }
            if !string_is(&fs[10].0, "steps") {
                return None;
            }
            if !string_is(&fs[11].0, "attachments") {
                return None;
            }
            let uuid = match parse_uuid_dashed_value(&fs[0].1) {
                Some(u) => u,
                None => {
                    return None;
                },
            };
            let history_id = match parse_uuid_simple_value(&fs[1].1) {
                Some(u) => u,
                None => {
                    return None;
                },
            };
            let test_case_id = match parse_uuid_simple_value(&fs[2].1) {
                Some(u) => u,
                None => {
                    return None;
                },
            };
            let full_name = match &fs[3].1 {
                JsonValue::Str(s) => s.clone(),
                _ => {
                    return None;
                },
            };
            let name = match &fs[4].1 {
                JsonValue::Str(s) => s.clone(),
                _ => {
                    return None;
                },
            };
            let links = match parse_links_value(&fs[5].1) {
                Some(xs) => xs,
                None => {
                    return None;
                },
            };
            let labels = match parse_labels_value(&fs[6].1) {
                Some(xs) => xs,
                None => {
                    return None;
                },
            };
            let status = match parse_status_value(&fs[7].1) {
                Some(st) => st,
                None => {
                    return None;
                },
            };
            let start = match &fs[8].1 {
                JsonValue::Num(n) => *n,
                _ => {
                    return None;
                },
            };
            let stop = match &fs[9].1 {
                JsonValue::Num(n) => *n,
                _ => {
                    return None;
                },
            };
            let steps = match parse_steps_value(&fs[10].1) {
                Some(xs) => xs,
                None => {
                    return None;
                },
            };
            let attachments = match parse_attachments_value(&fs[11].1) {
                Some(xs) => xs,
                None => {
                    return None;
                },
            };
            let t = TestResult {
                uuid,
                history_id,
                test_case_id,
                full_name,
                name,
                links,
                labels,
                status,
                start,
                stop,
                steps,
                attachments,
            };
            proof {
                assert(test_result_json_wf(fsv));
                assert(links@.map_values(|l: Link| l@) =~= t@.links);
                assert(labels@.map_values(|l: Label| l@) =~= t@.labels);
                assert(steps@.map_values(|s: Step| s@) =~= t@.steps);
                assert(attachments@.map_values(|a: Attachment| a@) =~= t@.attachments);
                assert(spec_parse_test_result(v@) == Some(t@));
            }
            Some(t)
        },
        _ => None,
    }
}

/// Rendering a test result as its JSON document and parsing the document
/// back yields the very same result: identifiers (dashed and unpunctuated
/// hex alike), names, links, labels, status, timestamps, steps and
/// attachments all survive the round trip.
pub proof fn lemma_test_result_roundtrip(t: TestResultView)
    ensures
        spec_parse_test_result(test_result_json(t)) == Some(t),
{
    lemma_uuid_dashed_roundtrip(t.uuid);
    lemma_uuid_simple_roundtrip(t.history_id);
    lemma_uuid_simple_roundtrip(t.test_case_id);
    lemma_links_roundtrip(t.links);
    lemma_labels_roundtrip(t.labels);
    lemma_status_roundtrip(t.status);
    lemma_steps_roundtrip(t.steps);
    lemma_attachments_roundtrip(t.attachments);
    let fs = test_result_json(t)->Obj_0;
    assert(test_result_json_wf(fs));
}

} // verus!
