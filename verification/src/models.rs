//! The report model: statuses, labels, links, attachments, steps, and the
//! mutable test-result builder together with its finalization into an
//! immutable result.
//!
//! Every transition is specified against ghost views, and the aggregate
//! behaviour of whole event sequences is stated by the lemmas at the end of
//! this module.

use vstd::prelude::*;

use crate::ids::{fresh_uuid, Uuid};
use crate::ReportError;

verus! {

/// Relies on `std::time::SystemTime::now`, `SystemTime::duration_since` and
/// `Duration::as_millis`: reads the wall clock as whole milliseconds since the
/// Unix epoch (0 if the clock stands before it). The clock may move
/// arbitrarily between calls, so nothing is assumed of the value.
#[verifier::external_body]
pub fn get_epoch_ms() -> u128 {
    std::time::SystemTime::now()
        .duration_since(std::time::UNIX_EPOCH)
        .map(|d| d.as_millis())
        .unwrap_or(0)
}

/// The outcome of a step, and of a whole test.
#[derive(Clone, Copy, Debug, PartialEq, Eq, Structural)]
pub enum Status {
    Passed,
    Failed,
    Pending,
}

/// One piece of evidence: a file already written under the output directory.
pub struct Attachment {
    pub name: String,
    /// Path of the evidence file, relative to the output directory.
    pub source: String,
    /// The MIME type of the evidence, such as `application/json`.
    pub mime: String,
}

/// A name/value pair attached to the whole test result.
pub struct Label {
    pub name: String,
    pub value: String,
}

/// A named, typed URL attached to the whole test result.
pub struct Link {
    pub kind: String,
    pub name: String,
    pub url: String,
}

/// A finalized step: a sub-action of the test with its own outcome.
pub struct Step {
    pub name: String,
    pub status: Status,
    pub attachments: Vec<Attachment>,
    pub start: u128,
    pub stop: u128,
}

/// A step still in progress: it has a start time but no outcome yet.
pub struct StepBuilder {
    pub name: String,
    pub attachments: Vec<Attachment>,
    pub start: u128,
}

pub struct AttachmentView {
    pub name: Seq<char>,
    pub source: Seq<char>,
    pub mime: Seq<char>,
}

pub struct LabelView {
    pub name: Seq<char>,
    pub value: Seq<char>,
}

pub struct LinkView {
    pub kind: Seq<char>,
    pub name: Seq<char>,
    pub url: Seq<char>,
}

pub struct StepView {
    pub name: Seq<char>,
    pub status: Status,
    pub attachments: Seq<AttachmentView>,
    pub start: u128,
    pub stop: u128,
}

pub struct StepBuilderView {
    pub name: Seq<char>,
    pub attachments: Seq<AttachmentView>,
    pub start: u128,
}

impl View for Attachment {
    type V = AttachmentView;

    open spec fn view(&self) -> AttachmentView {
        AttachmentView { name: self.name@, source: self.source@, mime: self.mime@ }
    }
}

impl View for Label {
    type V = LabelView;

    open spec fn view(&self) -> LabelView {
        LabelView { name: self.name@, value: self.value@ }
    }
}

impl View for Link {
    type V = LinkView;

    open spec fn view(&self) -> LinkView {
        LinkView { kind: self.kind@, name: self.name@, url: self.url@ }
    }
}

impl View for Step {
    type V = StepView;

    open spec fn view(&self) -> StepView {
        StepView {
            name: self.name@,
            status: self.status,
            attachments: self.attachments@.map_values(|a: Attachment| a@),
            start: self.start,
            stop: self.stop,
        }
    }
}

impl View for StepBuilder {
    type V = StepBuilderView;

    open spec fn view(&self) -> StepBuilderView {
        StepBuilderView {
            name: self.name@,
            attachments: self.attachments@.map_values(|a: Attachment| a@),
            start: self.start,
        }
    }
}

/// A step's stop time: the clock reading, but never before the step's own
/// start, so that `start <= stop` holds of every finalized object.
pub open spec fn step_stop(start: u128, at: u128) -> u128 {
    if at < start {
        start
    } else {
        at
    }
}

/// The step that a builder becomes when it is finalized with `status` at
/// clock reading `at`.
pub open spec fn finalized_step_view(sb: StepBuilderView, status: Status, at: u128) -> StepView {
    StepView {
        name: sb.name,
        status,
        attachments: sb.attachments,
        start: sb.start,
        stop: step_stop(sb.start, at),
    }
}

impl StepBuilder {
    /// Finalize this step with the given status, stamping the stop time from
    /// the wall clock (clamped so that `start <= stop`).
    pub fn into_step(self, status: Status) -> (r: Step)
        ensures
            exists|at: u128| r@ == finalized_step_view(self@, status, at),
            r@.name == self@.name,
            r@.status == status,
            r@.attachments == self@.attachments,
            r@.start == self@.start,
            r@.start <= r@.stop,
    {
        let ghost pre = self@;
        let now = get_epoch_ms();
        let stop = if now < self.start {
            self.start
        } else {
            now
        };
        let r = Step {
            name: self.name,
            status,
            attachments: self.attachments,
            start: self.start,
            stop,
        };
        proof {
            assert(r@ == finalized_step_view(pre, status, now));
        }
        r
    }
}

pub struct TestResultView {
    pub uuid: Uuid,
    pub history_id: Uuid,
    pub test_case_id: Uuid,
    pub full_name: Seq<char>,
    pub name: Seq<char>,
    pub links: Seq<LinkView>,
    pub labels: Seq<LabelView>,
    pub status: Status,
    pub start: u128,
    pub stop: u128,
    pub steps: Seq<StepView>,
    pub attachments: Seq<AttachmentView>,
}

pub struct BuilderView {
    pub uuid: Uuid,
    pub full_name: Seq<char>,
    pub name: Seq<char>,
    pub links: Seq<LinkView>,
    pub labels: Seq<LabelView>,
    pub start: u128,
    pub current_step: Option<StepBuilderView>,
    pub steps: Seq<StepView>,
    pub attachments: Seq<AttachmentView>,
}

/// The immutable report of one finished test.
pub struct TestResult {
    pub uuid: Uuid,
    pub history_id: Uuid,
    pub test_case_id: Uuid,
    pub full_name: String,
    pub name: String,
    pub links: Vec<Link>,
    pub labels: Vec<Label>,
    pub status: Status,
    pub start: u128,
    pub stop: u128,
    pub steps: Vec<Step>,
    pub attachments: Vec<Attachment>,
}

/// The mutable, in-progress report of one running test. At most one step is
/// open at a time.
pub struct TestResultBuilder {
    pub uuid: Uuid,
    pub full_name: String,
    pub name: String,
    pub links: Vec<Link>,
    pub labels: Vec<Label>,
    pub start: u128,
    pub current_step: Option<StepBuilder>,
    pub steps: Vec<Step>,
    pub attachments: Vec<Attachment>,
}

impl View for TestResult {
    type V = TestResultView;

    open spec fn view(&self) -> TestResultView {
        TestResultView {
            uuid: self.uuid,
            history_id: self.history_id,
            test_case_id: self.test_case_id,
            full_name: self.full_name@,
            name: self.name@,
            links: self.links@.map_values(|l: Link| l@),
            labels: self.labels@.map_values(|l: Label| l@),
            status: self.status,
            start: self.start,
            stop: self.stop,
            steps: self.steps@.map_values(|s: Step| s@),
            attachments: self.attachments@.map_values(|a: Attachment| a@),
        }
    }
}

impl View for TestResultBuilder {
    type V = BuilderView;

    open spec fn view(&self) -> BuilderView {
        BuilderView {
            uuid: self.uuid,
            full_name: self.full_name@,
            name: self.name@,
            links: self.links@.map_values(|l: Link| l@),
            labels: self.labels@.map_values(|l: Label| l@),
            start: self.start,
            current_step: match self.current_step {
                Some(sb) => Some(sb@),
                None => None,
            },
            steps: self.steps@.map_values(|s: Step| s@),
            attachments: self.attachments@.map_values(|a: Attachment| a@),
        }
    }
}

/// True when some step of the list is Failed.
pub open spec fn has_failed_step(steps: Seq<StepView>) -> bool {
    exists|i: int| 0 <= i < steps.len() && steps[i].status is Failed
}

/// The status a built result derives from its steps: Failed when at least one
/// step is Failed, Passed otherwise. Never set by the caller.
pub open spec fn derived_status(steps: Seq<StepView>) -> Status {
    if has_failed_step(steps) {
        Status::Failed
    } else {
        Status::Passed
    }
}

/// What building a result from a builder guarantees: identity and content
/// carry over, the status derives from the steps alone, and the stop time
/// never precedes the start.
pub open spec fn built_from(b: BuilderView, t: TestResultView) -> bool {
    &&& t.uuid == b.uuid
    &&& t.full_name == b.full_name
    &&& t.name == b.name
    &&& t.links == b.links
    &&& t.labels == b.labels
    &&& t.status == derived_status(b.steps)
    &&& t.start == b.start
    &&& t.start <= t.stop
    &&& t.steps == b.steps
    &&& t.attachments == b.attachments
}

impl TestResult {
    /// A blank result with fresh identifiers: Pending, started now, with no
    /// links, labels, steps or attachments.
    pub fn new(full_name: String, name: String) -> (r: TestResult)
        ensures
            r@.full_name == full_name@,
            r@.name == name@,
            r@.links == Seq::<LinkView>::empty(),
            r@.labels == Seq::<LabelView>::empty(),
            r@.status is Pending,
            r@.stop == 0,
            r@.steps == Seq::<StepView>::empty(),
            r@.attachments == Seq::<AttachmentView>::empty(),
    {
        let r = TestResult {
            uuid: fresh_uuid(),
            history_id: fresh_uuid(),
            test_case_id: fresh_uuid(),
            full_name,
            name,
            links: Vec::new(),
            labels: Vec::new(),
            status: Status::Pending,
            start: get_epoch_ms(),
            stop: 0,
            steps: Vec::new(),
            attachments: Vec::new(),
        };
        proof {
            assert(r@.links =~= Seq::<LinkView>::empty());
            assert(r@.labels =~= Seq::<LabelView>::empty());
            assert(r@.steps =~= Seq::<StepView>::empty());
            assert(r@.attachments =~= Seq::<AttachmentView>::empty());
        }
        r
    }
}

/// The builder after a step named `name` is opened at clock reading `at`.
/// Only meaningful when no step is open.
pub open spec fn start_step_model(b: BuilderView, name: Seq<char>, at: u128) -> BuilderView {
    BuilderView {
        current_step: Some(StepBuilderView { name, attachments: Seq::empty(), start: at }),
        ..b
    }
}

/// The builder after a finalize at clock reading `at`: the open step, if any,
/// moves finalized to the step list; with no open step nothing changes.
pub open spec fn finalize_model(b: BuilderView, status: Status, at: u128) -> BuilderView {
    match b.current_step {
        Some(sb) => BuilderView {
            current_step: None,
            steps: b.steps.push(finalized_step_view(sb, status, at)),
            ..b
        },
        None => b,
    }
}

/// The builder after an attachment is routed to it: onto the open step when
/// one exists, else onto the top-level list.
pub open spec fn route_attachment_model(b: BuilderView, a: AttachmentView) -> BuilderView {
    match b.current_step {
        Some(sb) => BuilderView {
            current_step: Some(StepBuilderView { attachments: sb.attachments.push(a), ..sb }),
            ..b
        },
        None => BuilderView { attachments: b.attachments.push(a), ..b },
    }
}

impl TestResultBuilder {
    /// A fresh builder: a generated identity, a single `suite` label, no open
    /// step, started now.
    pub fn new(name: &str, full_name: &str, suite: &str) -> (r: TestResultBuilder)
        ensures
            r@.full_name == full_name@,
            r@.name == name@,
            r@.links == Seq::<LinkView>::empty(),
            r@.labels == seq![LabelView { name: "suite"@, value: suite@ }],
            r@.current_step is None,
            r@.steps == Seq::<StepView>::empty(),
            r@.attachments == Seq::<AttachmentView>::empty(),
    {
        let mut labels: Vec<Label> = Vec::new();
        labels.push(Label { name: "suite".to_owned(), value: suite.to_owned() });
        let r = TestResultBuilder {
            uuid: fresh_uuid(),
            full_name: full_name.to_owned(),
            name: name.to_owned(),
            links: Vec::new(),
            labels,
            start: get_epoch_ms(),
            current_step: None,
            steps: Vec::new(),
            attachments: Vec::new(),
        };
        proof {
            assert(r@.links =~= Seq::<LinkView>::empty());
            assert(r@.labels =~= seq![LabelView { name: "suite"@, value: suite@ }]);
            assert(r@.steps =~= Seq::<StepView>::empty());
            assert(r@.attachments =~= Seq::<AttachmentView>::empty());
        }
        r
    }

    /// Open a step named `name`. Fails with `StepAlreadyOpen`, changing
    /// nothing, when a step is already open.
    pub fn start_step(&mut self, name: &str) -> (r: Result<(), ReportError>)
        ensures
            old(self)@.current_step is Some ==> r == Result::<(), ReportError>::Err(
                ReportError::StepAlreadyOpen,
            ) && final(self)@ == old(self)@,
            old(self)@.current_step is None ==> r is Ok && exists|at: u128|
                final(self)@ == start_step_model(old(self)@, name@, at),
    {
        if self.current_step.is_some() {
            return Err(ReportError::StepAlreadyOpen);
        }
        let ghost pre = self@;
        let now = get_epoch_ms();
        self.current_step = Some(
            StepBuilder { name: name.to_owned(), attachments: Vec::new(), start: now },
        );
        proof {
            assert(self@.current_step->0.attachments =~= Seq::<AttachmentView>::empty());
            assert(self@ == start_step_model(pre, name@, now));
        }
        Ok(())
    }

    /// The step currently open, if any.
    pub fn current_step(&self) -> (r: Option<&StepBuilder>)
        ensures
            match r {
                Some(sb) => self@.current_step == Some(sb@),
                None => self@.current_step is None,
            },
    {
        self.current_step.as_ref()
    }

    /// Finalize the open step with `status`, appending it to the step list.
    /// With no open step this is a no-op, not an error.
    pub fn finalize_step(&mut self, status: Status)
        ensures
            exists|at: u128| final(self)@ == finalize_model(old(self)@, status, at),
            final(self)@.current_step is None,
            old(self)@.current_step is None ==> final(self)@ == old(self)@,
            old(self)@.current_step matches Some(sb) ==> {
                &&& final(self)@ == (BuilderView {
                    current_step: None,
                    steps: final(self)@.steps,
                    ..old(self)@
                })
                &&& final(self)@.steps.len() == old(self)@.steps.len() + 1
                &&& final(self)@.steps.drop_last() == old(self)@.steps
                &&& final(self)@.steps.last().name == sb.name
                &&& final(self)@.steps.last().status == status
                &&& final(self)@.steps.last().attachments == sb.attachments
                &&& final(self)@.steps.last().start == sb.start
                &&& final(self)@.steps.last().start <= final(self)@.steps.last().stop
            },
    {
        let ghost pre = self@;
        match self.current_step.take() {
            Some(sb) => {
                let ghost sbv = sb@;
                let step = sb.into_step(status);
                let ghost at = choose|at: u128| step@ == finalized_step_view(sbv, status, at);
                self.steps.push(step);
                proof {
                    assert(self@.steps =~= pre.steps.push(finalized_step_view(sbv, status, at)));
                    assert(self@ == finalize_model(pre, status, at));
                }
            },
            None => {
                proof {
                    assert(self@ == finalize_model(pre, status, 0));
                }
            },
        }
    }

    /// Record an attachment on the test itself (not on any step).
    pub fn add_attachment(&mut self, attachment: Attachment)
        ensures
            final(self)@ == (BuilderView {
                attachments: old(self)@.attachments.push(attachment@),
                ..old(self)@
            }),
    {
        let ghost pre = self@;
        let ghost av = attachment@;
        self.attachments.push(attachment);
        proof {
            assert(self@.attachments =~= pre.attachments.push(av));
        }
    }

    /// Consume the builder into an immutable result: the status derives from
    /// the steps alone, the stop time is stamped now (never before the start),
    /// and fresh history and test-case identifiers are drawn. An open step
    /// that was never finalized is discarded.
    pub fn build(self) -> (r: TestResult)
        ensures
            built_from(self@, r@),
            r@.uuid == self@.uuid,
            r@.full_name == self@.full_name,
            r@.name == self@.name,
            r@.links == self@.links,
            r@.labels == self@.labels,
            r@.status == derived_status(self@.steps),
            r@.status is Failed <==> has_failed_step(self@.steps),
            r@.start == self@.start,
            r@.start <= r@.stop,
            r@.steps == self@.steps,
            r@.attachments == self@.attachments,
    {
        let ghost pre = self@;
        let TestResultBuilder {
            uuid,
            full_name,
            name,
            links,
            labels,
            start,
            current_step: _,
            steps,
            attachments,
        } = self;
        let mut failed = false;
        let mut i: usize = 0;
        while i < steps.len()
            invariant
                0 <= i <= steps.len(),
                pre.steps == steps@.map_values(|s: Step| s@),
                failed == exists|j: int| 0 <= j < i && pre.steps[j].status is Failed,
            decreases steps.len() - i,
        {
            if matches!(steps[i].status, Status::Failed) {
                proof {
                    assert(pre.steps[i as int].status is Failed);
                }
                failed = true;
            }
            i += 1;
        }
        proof {
            assert(failed == has_failed_step(pre.steps));
        }
        let now = get_epoch_ms();
        let stop = if now < start {
            start
        } else {
            now
        };
        TestResult {
            uuid,
            history_id: fresh_uuid(),
            test_case_id: fresh_uuid(),
            full_name,
            name,
            links,
            labels,
            status: if failed {
                Status::Failed
            } else {
                Status::Passed
            },
            start,
            stop,
            steps,
            attachments,
        }
    }
}

/// One event of the aggregator's inbound stream, seen abstractly: the clock
/// reading that accompanies a step boundary is part of the event.
pub enum ReportEvent {
    StartStep { name: Seq<char>, at: u128 },
    FinalizeStep { status: Status, at: u128 },
    AddAttachment { attachment: AttachmentView },
}

/// How one event changes the builder. A start while a step is open changes
/// nothing (the error is reported to the sender, the report goes on);
/// a finalize with no open step changes nothing.
pub open spec fn apply_event(b: BuilderView, e: ReportEvent) -> BuilderView {
    match e {
        ReportEvent::StartStep { name, at } => if b.current_step is Some {
            b
        } else {
            start_step_model(b, name, at)
        },
        ReportEvent::FinalizeStep { status, at } => finalize_model(b, status, at),
        ReportEvent::AddAttachment { attachment } => route_attachment_model(b, attachment),
    }
}

/// The builder after a whole event sequence, first event first.
pub open spec fn apply_events(b: BuilderView, es: Seq<ReportEvent>) -> BuilderView
    decreases es.len(),
{
    if es.len() == 0 {
        b
    } else {
        apply_events(apply_event(b, es[0]), es.skip(1))
    }
}

/// How many finalize events of `es` meet an open step when the stream is
/// played against `b`.
pub open spec fn effective_finalizes(b: BuilderView, es: Seq<ReportEvent>) -> nat
    decreases es.len(),
{
    if es.len() == 0 {
        0
    } else {
        let hit: nat = if es[0] is FinalizeStep && b.current_step is Some {
            1
        } else {
            0
        };
        hit + effective_finalizes(apply_event(b, es[0]), es.skip(1))
    }
}

/// For every event sequence, the step list grows by exactly the number of
/// finalize events that met an open step: no other event produces a step.
pub proof fn lemma_step_count(b: BuilderView, es: Seq<ReportEvent>)
    ensures
        apply_events(b, es).steps.len() == b.steps.len() + effective_finalizes(b, es),
    decreases es.len(),
{
    if es.len() != 0 {
        lemma_step_count(apply_event(b, es[0]), es.skip(1));
    }
}

/// For every event sequence, a result built after the whole stream holds
/// exactly one step per finalize event that met an open step.
pub proof fn lemma_built_step_count(b: BuilderView, es: Seq<ReportEvent>, t: TestResultView)
    requires
        built_from(apply_events(b, es), t),
    ensures
        t.steps.len() == b.steps.len() + effective_finalizes(b, es),
{
    lemma_step_count(b, es);
}

/// Finalizing twice in a row without an intervening start is idempotent: the
/// second finalize meets no open step and changes nothing.
pub proof fn lemma_finalize_twice(b: BuilderView, s1: Status, t1: u128, s2: Status, t2: u128)
    ensures
        apply_event(
            apply_event(b, ReportEvent::FinalizeStep { status: s1, at: t1 }),
            ReportEvent::FinalizeStep { status: s2, at: t2 },
        ) == apply_event(b, ReportEvent::FinalizeStep { status: s1, at: t1 }),
{
}

/// A result's status is Failed exactly when at least one step is Failed, and
/// Passed otherwise, for empty and non-empty step lists alike.
pub proof fn lemma_derived_status(steps: Seq<StepView>)
    ensures
        derived_status(steps) is Failed <==> exists|i: int|
            0 <= i < steps.len() && steps[i].status is Failed,
        derived_status(steps) is Passed <==> !exists|i: int|
            0 <= i < steps.len() && steps[i].status is Failed,
        steps.len() == 0 ==> derived_status(steps) is Passed,
{
}

} // verus!
