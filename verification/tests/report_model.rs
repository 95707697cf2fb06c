use allure_report::handle::ResultSlot;
use allure_report::models::{Attachment, Status, TestResultBuilder};
use allure_report::reporter::{Message, Reporter, ReporterStep};
use allure_report::ReportError;

fn running(step: ReporterStep) -> Reporter {
    match step {
        ReporterStep::Running(r) => r,
        ReporterStep::Finished(_) => panic!("aggregator finished early"),
    }
}

fn finished(step: ReporterStep) -> allure_report::models::TestResult {
    match step {
        ReporterStep::Running(_) => panic!("aggregator still running"),
        ReporterStep::Finished(t) => t,
    }
}

fn attachment(name: &str) -> Attachment {
    Attachment {
        name: String::from(name),
        source: String::from("x-attachment.json"),
        mime: String::from("application/json"),
    }
}

#[test]
fn step_count_matches_effective_finalizes() {
    let mut b = TestResultBuilder::new("t", "full.t", "suite");
    assert!(b.start_step("a").is_ok());
    b.finalize_step(Status::Passed);
    b.finalize_step(Status::Failed); // no open step: no-op
    assert!(b.start_step("b").is_ok());
    assert!(b.start_step("c").is_err()); // already open: no new step
    b.finalize_step(Status::Passed);
    b.finalize_step(Status::Passed); // no-op again
    let t = b.build();
    assert_eq!(t.steps.len(), 2);
}

#[test]
fn double_finalize_is_idempotent() {
    let mut b = TestResultBuilder::new("t", "full.t", "suite");
    assert!(b.start_step("only").is_ok());
    b.finalize_step(Status::Passed);
    assert_eq!(b.steps.len(), 1);
    b.finalize_step(Status::Failed);
    assert_eq!(b.steps.len(), 1);
    assert!(b.current_step().is_none());
}

#[test]
fn status_failed_iff_some_step_failed() {
    let empty = TestResultBuilder::new("t", "full.t", "s").build();
    assert!(matches!(empty.status, Status::Passed));

    let mut ok = TestResultBuilder::new("t", "full.t", "s");
    ok.start_step("a").unwrap();
    ok.finalize_step(Status::Passed);
    ok.start_step("b").unwrap();
    ok.finalize_step(Status::Pending);
    let ok = ok.build();
    assert!(matches!(ok.status, Status::Passed));

    let mut bad = TestResultBuilder::new("t", "full.t", "s");
    bad.start_step("a").unwrap();
    bad.finalize_step(Status::Passed);
    bad.start_step("b").unwrap();
    bad.finalize_step(Status::Failed);
    let bad = bad.build();
    assert!(matches!(bad.status, Status::Failed));
}

#[test]
fn start_step_while_open_reports_error() {
    let mut b = TestResultBuilder::new("t", "full.t", "s");
    b.start_step("first").unwrap();
    assert_eq!(b.start_step("second"), Err(ReportError::StepAlreadyOpen));
    // the open step is untouched
    assert_eq!(b.current_step().unwrap().name, "first");
}

#[test]
fn scenario_two_steps_second_fails() {
    // Step "A" passes with one JSON attachment; step "B" fails; the result
    // has exactly those two steps and is Failed overall.
    let r = Reporter::new("test", "full.test", "suite");
    let r = running(r.handle_message(Message::StartStep(String::from("A"))));
    let r = running(r.handle_message(Message::AddAttachment(attachment("payload"))));
    let r = running(r.handle_message(Message::FinalizeStep(Status::Passed)));
    let r = running(r.handle_message(Message::StartStep(String::from("B"))));
    let r = running(r.handle_message(Message::FinalizeStep(Status::Failed)));
    let t = finished(r.handle_message(Message::Result));
    assert_eq!(t.steps.len(), 2);
    assert_eq!(t.steps[0].name, "A");
    assert!(matches!(t.steps[0].status, Status::Passed));
    assert_eq!(t.steps[0].attachments.len(), 1);
    assert_eq!(t.steps[0].attachments[0].name, "payload");
    assert_eq!(t.steps[1].name, "B");
    assert!(matches!(t.steps[1].status, Status::Failed));
    assert!(matches!(t.status, Status::Failed));
    assert!(t.attachments.is_empty());
}

#[test]
fn attachment_with_no_open_step_is_top_level() {
    let r = Reporter::new("test", "full.test", "suite");
    let r = running(r.handle_message(Message::AddAttachment(attachment("loose"))));
    let t = finished(r.handle_message(Message::Result));
    assert_eq!(t.attachments.len(), 1);
    assert_eq!(t.attachments[0].name, "loose");
    assert!(t.steps.is_empty());
}

#[test]
fn builder_carries_identity_and_suite_label() {
    let b = TestResultBuilder::new("name", "full.name", "the-suite");
    assert_eq!(b.name, "name");
    assert_eq!(b.full_name, "full.name");
    assert_eq!(b.labels.len(), 1);
    assert_eq!(b.labels[0].name, "suite");
    assert_eq!(b.labels[0].value, "the-suite");
    let t = b.build();
    assert_eq!(t.name, "name");
    assert!(t.start <= t.stop);
}

#[test]
fn fetch_then_write() {
    let mut slot = ResultSlot::new();
    assert!(!slot.is_fetched());
    let t = TestResultBuilder::new("t", "full.t", "s").build();
    slot.store(t);
    assert!(slot.is_fetched());
    let payload = slot.write_payload().unwrap();
    assert!(payload.starts_with("{\"uuid\":\""));
    assert!(payload.ends_with("\"attachments\":[]}"));
}

#[test]
fn scenario_write_before_fetch_fails() {
    // write_result before fetch_result: the "not fetched" condition, and no
    // payload at all to write.
    let slot = ResultSlot::new();
    assert_eq!(slot.write_payload(), Err(ReportError::ResultNotFetched));
    assert!(slot.result().is_none());
}
