//! The report aggregator: the sole owner and mutator of one in-progress
//! report. It is driven by an ordered stream of messages; each message moves
//! the report by exactly one event of the model in `models`, and the
//! `Result` message finalizes the report and ends the aggregator — its only
//! terminal transition.

use vstd::prelude::*;

use crate::models::{
    apply_event, built_from, route_attachment_model, start_step_model, Attachment, BuilderView,
    LabelView, LinkView, ReportEvent, Status, StepView, TestResult, TestResultBuilder,
};

verus! {

/// One event of the aggregator's inbound stream.
pub enum Message {
    StartStep(String),
    FinalizeStep(Status),
    AddAttachment(Attachment),
    Result,
}

/// The aggregator. It alone touches the builder; everything else only sends
/// messages.
pub struct Reporter {
    pub test: TestResultBuilder,
}

/// What one processed message leaves behind: the aggregator still running,
/// or the finished report.
pub enum ReporterStep {
    Running(Reporter),
    Finished(TestResult),
}

impl View for Reporter {
    type V = BuilderView;

    open spec fn view(&self) -> BuilderView {
        self.test@
    }
}

impl Reporter {
    /// A fresh aggregator for one test: a new builder with a generated
    /// identity and a single `suite` label.
    pub fn new(name: &str, full_name: &str, suite: &str) -> (r: Reporter)
        ensures
            r@.full_name == full_name@,
            r@.name == name@,
            r@.links == Seq::<LinkView>::empty(),
            r@.labels == seq![LabelView { name: "suite"@, value: suite@ }],
            r@.current_step is None,
            r@.steps == Seq::<StepView>::empty(),
            r@.attachments == Seq::<crate::models::AttachmentView>::empty(),
    {
        Reporter { test: TestResultBuilder::new(name, full_name, suite) }
    }

    /// Open a step. A start while a step is already open is observed and
    /// dropped: the report goes on unchanged, as the event model says.
    pub fn start_step(&mut self, name: &str)
        ensures
            exists|at: u128|
                final(self)@ == apply_event(
                    old(self)@,
                    ReportEvent::StartStep { name: name@, at },
                ),
    {
        let ghost pre = self@;
        let _ = self.test.start_step(name);
        proof {
            if pre.current_step is Some {
                assert(self@ == apply_event(pre, ReportEvent::StartStep { name: name@, at: 0 }));
            } else {
                let at = choose|at: u128| self@ == start_step_model(pre, name@, at);
                assert(self@ == apply_event(pre, ReportEvent::StartStep { name: name@, at }));
            }
        }
    }

    /// Finalize the open step; with none open, nothing changes.
    pub fn finalize_step(&mut self, status: Status)
        ensures
            exists|at: u128|
                final(self)@ == apply_event(old(self)@, ReportEvent::FinalizeStep { status, at }),
    {
        let ghost pre = self@;
        self.test.finalize_step(status);
        proof {
            let at = choose|at: u128| self@ == crate::models::finalize_model(pre, status, at);
            assert(self@ == apply_event(pre, ReportEvent::FinalizeStep { status, at }));
        }
    }

    /// Route an attachment: onto the open step when one exists, else onto
    /// the test itself.
    pub fn route_attachment(&mut self, attachment: Attachment)
        ensures
            final(self)@ == route_attachment_model(old(self)@, attachment@),
    {
        let ghost pre = self@;
        let ghost av = attachment@;
        match self.test.current_step.take() {
            Some(mut sb) => {
                let ghost sbv = sb@;
                sb.attachments.push(attachment);
                proof {
                    assert(sb@.attachments =~= sbv.attachments.push(av));
                }
                self.test.current_step = Some(sb);
                proof {
                    assert(self@ == route_attachment_model(pre, av));
                }
            },
            None => {
                self.test.add_attachment(attachment);
                proof {
                    assert(self@ == route_attachment_model(pre, av));
                }
            },
        }
    }

    /// Process one message: the loop body of the aggregator. The three
    /// report events each apply one transition of the event model; `Result`
    /// finalizes the report and is the only terminal transition.
    pub fn handle_message(self, msg: Message) -> (r: ReporterStep)
        ensures
            msg matches Message::StartStep(name) ==> r is Running && exists|at: u128|
                r->Running_0@ == apply_event(self@, ReportEvent::StartStep { name: name@, at }),
            msg matches Message::FinalizeStep(status) ==> r is Running && exists|at: u128|
                r->Running_0@ == apply_event(self@, ReportEvent::FinalizeStep { status, at }),
            msg matches Message::AddAttachment(a) ==> r is Running && r->Running_0@
                == route_attachment_model(self@, a@),
            msg is Result ==> r is Finished && built_from(self@, r->Finished_0@),
    {
        match msg {
            Message::StartStep(name) => {
                let mut rp = self;
                rp.start_step(name.as_str());
                ReporterStep::Running(rp)
            },
            Message::FinalizeStep(status) => {
                let mut rp = self;
                rp.finalize_step(status);
                ReporterStep::Running(rp)
            },
            Message::AddAttachment(attachment) => {
                let mut rp = self;
                rp.route_attachment(attachment);
                ReporterStep::Running(rp)
            },
            Message::Result => {
                let Reporter { test } = self;
                ReporterStep::Finished(test.build())
            },
        }
    }

    /// Finalize the report directly, outside the message loop.
    pub fn get_result(self) -> (r: TestResult)
        ensures
            built_from(self@, r@),
    {
        let Reporter { test } = self;
        test.build()
    }
}

} // verus!
