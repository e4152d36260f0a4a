//! Readiness: what each wait condition asks of the engine, and how it takes
//! the answers.

use crate::engine::{EngineRequest, EngineResponse, RequestView, ResponseView, RunError};
use crate::image::{LogStream, WaitFor, WaitView};
use crate::inspect::{ContainerInspect, HealthStatus, InspectView};
use crate::text::{contains, occurs_in};
use vstd::prelude::*;

verus! {

/// The time between two looks at a container whose health check is still
/// starting, in milliseconds.
pub const HEALTH_BACKOFF_MILLIS: u64 = 100;

/// Where the wait for one condition stands.
#[derive(Clone, Copy, Debug, PartialEq, Eq, Structural)]
pub enum WaitStage {
    /// A log stream is open and a line of it is awaited.
    Reading,
    /// The fixed length of time is passing.
    Sleeping,
    /// A report on the container is awaited.
    Inspecting,
    /// The time before the next look at the container's health is passing.
    BackingOff,
}

/// What a report says of the container's health.
#[derive(Clone, Copy, Debug, PartialEq, Eq, Structural)]
pub enum Verdict {
    Healthy,
    Starting,
    Failed { error: RunError },
}

/// How a report is read for health: a state, a health in it and a status in
/// that are needed, and a status that says nothing means that the container
/// has no health check.
pub open spec fn health_verdict(report: InspectView) -> Verdict {
    match report.state {
        None => Verdict::Failed { error: RunError::StateUnavailable },
        Some(state) => match state.health {
            None => Verdict::Failed { error: RunError::HealthUnavailable },
            Some(health) => match health.status {
                Some(HealthStatus::Healthy) => Verdict::Healthy,
                Some(HealthStatus::Starting) => Verdict::Starting,
                Some(HealthStatus::Unhealthy) => Verdict::Failed { error: RunError::Unhealthy },
                _ => Verdict::Failed { error: RunError::HealthcheckNotConfigured },
            },
        },
    }
}

/// Reads `report` for the container's health.
pub fn read_health(report: &ContainerInspect) -> (verdict: Verdict)
    ensures
        verdict == health_verdict(report@),
{
    match report.state {
        None => Verdict::Failed { error: RunError::StateUnavailable },
        Some(state) => match state.health {
            None => Verdict::Failed { error: RunError::HealthUnavailable },
            Some(health) => match health.status {
                Some(HealthStatus::Healthy) => Verdict::Healthy,
                Some(HealthStatus::Starting) => Verdict::Starting,
                Some(HealthStatus::Unhealthy) => Verdict::Failed { error: RunError::Unhealthy },
                _ => Verdict::Failed { error: RunError::HealthcheckNotConfigured },
            },
        },
    }
}

/// One step of the wait for a condition.
#[derive(Debug, PartialEq, Eq)]
pub enum WaitStep {
    /// The condition is met.
    Met,
    /// The condition is not decided yet: `request` is to be made, and its
    /// response handed in at `stage`.
    Pending { stage: WaitStage, request: EngineRequest },
    /// The condition cannot be met any more.
    Failed { error: RunError },
}

pub enum WaitStepView {
    Met,
    Pending { stage: WaitStage, request: RequestView },
    Failed { error: RunError },
}

impl View for WaitStep {
    type V = WaitStepView;

    open spec fn view(&self) -> WaitStepView {
        match self {
            WaitStep::Met => WaitStepView::Met,
            WaitStep::Pending { stage, request } => WaitStepView::Pending {
                stage: *stage,
                request: request@,
            },
            WaitStep::Failed { error } => WaitStepView::Failed { error: *error },
        }
    }
}

/// How the wait for `condition` on the container `id` begins.
pub open spec fn opening(condition: WaitView, id: Seq<char>) -> WaitStepView {
    match condition {
        WaitView::Nothing => WaitStepView::Met,
        WaitView::LogMessage { stream, pattern } => WaitStepView::Pending {
            stage: WaitStage::Reading,
            request: RequestView::FollowLogs { id, stream },
        },
        WaitView::Duration { millis } => WaitStepView::Pending {
            stage: WaitStage::Sleeping,
            request: RequestView::Sleep { millis },
        },
        WaitView::Healthcheck => WaitStepView::Pending {
            stage: WaitStage::Inspecting,
            request: RequestView::Inspect { id },
        },
    }
}

/// How the wait for a line with `pattern` takes `response`.
pub open spec fn log_reaction(pattern: Seq<char>, response: ResponseView) -> WaitStepView {
    match response {
        ResponseView::LogLine { line } => if occurs_in(line, pattern) {
            WaitStepView::Met
        } else {
            WaitStepView::Pending { stage: WaitStage::Reading, request: RequestView::AwaitLogLine }
        },
        ResponseView::LogsEnded => WaitStepView::Failed { error: RunError::LogsEnded },
        ResponseView::Failed { status_code } => WaitStepView::Failed { error: RunError::Logs },
        _ => WaitStepView::Failed { error: RunError::UnexpectedResponse },
    }
}

/// How the wait for health takes the response to an inspection.
pub open spec fn health_reaction(response: ResponseView) -> WaitStepView {
    match response {
        ResponseView::Inspected { report } => match health_verdict(report) {
            Verdict::Healthy => WaitStepView::Met,
            Verdict::Starting => WaitStepView::Pending {
                stage: WaitStage::BackingOff,
                request: RequestView::Sleep { millis: HEALTH_BACKOFF_MILLIS },
            },
            Verdict::Failed { error } => WaitStepView::Failed { error },
        },
        ResponseView::Failed { status_code } => WaitStepView::Failed { error: RunError::Inspect },
        _ => WaitStepView::Failed { error: RunError::UnexpectedResponse },
    }
}

/// How the wait for `condition` on the container `id`, standing at `stage`,
/// takes `response`.
pub open spec fn reaction(
    condition: WaitView,
    stage: WaitStage,
    id: Seq<char>,
    response: ResponseView,
) -> WaitStepView {
    match (condition, stage) {
        (WaitView::LogMessage { stream, pattern }, WaitStage::Reading) => log_reaction(
            pattern,
            response,
        ),
        (WaitView::Duration { millis }, WaitStage::Sleeping) => match response {
            ResponseView::Slept => WaitStepView::Met,
            _ => WaitStepView::Failed { error: RunError::UnexpectedResponse },
        },
        (WaitView::Healthcheck, WaitStage::Inspecting) => health_reaction(response),
        (WaitView::Healthcheck, WaitStage::BackingOff) => match response {
            ResponseView::Slept => WaitStepView::Pending {
                stage: WaitStage::Inspecting,
                request: RequestView::Inspect { id },
            },
            _ => WaitStepView::Failed { error: RunError::UnexpectedResponse },
        },
        _ => WaitStepView::Failed { error: RunError::UnexpectedResponse },
    }
}

impl WaitFor {
    /// Begins the wait for this condition on the container `id`.
    pub fn begin(&self, id: &String) -> (step: WaitStep)
        ensures
            step@ == opening(self@, id@),
    {
        match self {
            WaitFor::Nothing => WaitStep::Met,
            WaitFor::LogMessage { stream, pattern } => WaitStep::Pending {
                stage: WaitStage::Reading,
                request: EngineRequest::FollowLogs { id: id.clone(), stream: *stream },
            },
            WaitFor::Duration { millis } => WaitStep::Pending {
                stage: WaitStage::Sleeping,
                request: EngineRequest::Sleep { millis: *millis },
            },
            WaitFor::Healthcheck => WaitStep::Pending {
                stage: WaitStage::Inspecting,
                request: EngineRequest::Inspect { id: id.clone() },
            },
        }
    }

    /// Takes `response` into the wait for this condition on the container
    /// `id`, which stands at `stage`.
    pub fn react(&self, stage: WaitStage, id: &String, response: &EngineResponse) -> (step:
        WaitStep)
        ensures
            step@ == reaction(self@, stage, id@, response@),
    {
        let unexpected = WaitStep::Failed { error: RunError::UnexpectedResponse };
        match self {
            WaitFor::LogMessage { stream, pattern } => match stage {
                WaitStage::Reading => match response {
                    EngineResponse::LogLine { line } => {
                        if contains(line.as_str(), pattern.as_str()) {
                            WaitStep::Met
                        } else {
                            WaitStep::Pending {
                                stage: WaitStage::Reading,
                                request: EngineRequest::AwaitLogLine,
                            }
                        }
                    },
                    EngineResponse::LogsEnded => WaitStep::Failed { error: RunError::LogsEnded },
                    EngineResponse::Failed { status_code } => WaitStep::Failed {
                        error: RunError::Logs,
                    },
                    _ => unexpected,
                },
                _ => unexpected,
            },
            WaitFor::Duration { millis } => match stage {
                WaitStage::Sleeping => match response {
                    EngineResponse::Slept => WaitStep::Met,
                    _ => unexpected,
                },
                _ => unexpected,
            },
            WaitFor::Healthcheck => match stage {
                WaitStage::Inspecting => match response {
                    EngineResponse::Inspected { report } => match read_health(report) {
                        Verdict::Healthy => WaitStep::Met,
                        Verdict::Starting => WaitStep::Pending {
                            stage: WaitStage::BackingOff,
                            request: EngineRequest::Sleep { millis: HEALTH_BACKOFF_MILLIS },
                        },
                        Verdict::Failed { error } => WaitStep::Failed { error },
                    },
                    EngineResponse::Failed { status_code } => WaitStep::Failed {
                        error: RunError::Inspect,
                    },
                    _ => unexpected,
                },
                WaitStage::BackingOff => match response {
                    EngineResponse::Slept => WaitStep::Pending {
                        stage: WaitStage::Inspecting,
                        request: EngineRequest::Inspect { id: id.clone() },
                    },
                    _ => unexpected,
                },
                _ => unexpected,
            },
            WaitFor::Nothing => unexpected,
        }
    }
}

/// How the wait for one condition stands after a run of responses.
pub enum WaitEnd {
    Met,
    Failed { error: RunError },
    Pending { stage: WaitStage },
}

/// The wait for `condition` on the container `id`, from `stage` on, fed with
/// `responses` one after the other until it is met or has failed: the
/// requests that it makes on the way, and how it stands in the end.
pub open spec fn wait_run(
    condition: WaitView,
    stage: WaitStage,
    id: Seq<char>,
    responses: Seq<ResponseView>,
) -> (Seq<RequestView>, WaitEnd)
    decreases responses.len(),
{
    if responses.len() == 0 {
        (Seq::empty(), WaitEnd::Pending { stage })
    } else {
        match reaction(condition, stage, id, responses[0]) {
            WaitStepView::Met => (Seq::empty(), WaitEnd::Met),
            WaitStepView::Failed { error } => (Seq::empty(), WaitEnd::Failed { error }),
            WaitStepView::Pending { stage: next, request } => {
                let rest = wait_run(condition, next, id, responses.drop_first());
                (seq![request] + rest.0, rest.1)
            },
        }
    }
}

/// The responses to a health wait that finds each of `reports` in turn, with
/// the backoff between them and after the last.
pub open spec fn polling(reports: Seq<InspectView>) -> Seq<ResponseView>
    decreases reports.len(),
{
    if reports.len() == 0 {
        Seq::empty()
    } else {
        seq![ResponseView::Inspected { report: reports[0] }, ResponseView::Slept] + polling(
            reports.drop_first(),
        )
    }
}

/// The requests of `cycles` backoff cycles on the container `id`: each is a
/// sleep of the fixed backoff and a new inspection.
pub open spec fn backoff_cycles(cycles: nat, id: Seq<char>) -> Seq<RequestView>
    decreases cycles,
{
    if cycles == 0 {
        Seq::empty()
    } else {
        seq![
            RequestView::Sleep { millis: HEALTH_BACKOFF_MILLIS },
            RequestView::Inspect { id },
        ] + backoff_cycles((cycles - 1) as nat, id)
    }
}

/// How a health wait ends on a report that does not say "starting".
pub open spec fn health_end(verdict: Verdict) -> WaitEnd {
    match verdict {
        Verdict::Healthy => WaitEnd::Met,
        Verdict::Failed { error } => WaitEnd::Failed { error },
        Verdict::Starting => WaitEnd::Pending { stage: WaitStage::BackingOff },
    }
}

/// A health wait that finds the container starting some number of times and
/// then finds something else goes through as many backoff cycles as it found
/// "starting", each a sleep of the fixed backoff, and ends by what it found
/// last: met on "healthy", failed on "unhealthy" and on a report from which
/// the health cannot be read.
pub proof fn lemma_health_wait(id: Seq<char>, starting: Seq<InspectView>, last: InspectView)
    requires
        forall|i: int|
            0 <= i < starting.len() ==> health_verdict(#[trigger] starting[i]) == Verdict::Starting,
        health_verdict(last) != Verdict::Starting,
    ensures
        wait_run(
            WaitView::Healthcheck,
            WaitStage::Inspecting,
            id,
            polling(starting) + seq![ResponseView::Inspected { report: last }],
        ) == (backoff_cycles(starting.len(), id), health_end(health_verdict(last))),
    decreases starting.len(),
{
    let tail = seq![ResponseView::Inspected { report: last }];
    let all = polling(starting) + tail;
    if starting.len() == 0 {
        assert(polling(starting) =~= Seq::empty());
        assert(all =~= tail);
        assert(all[0] == ResponseView::Inspected { report: last });
        assert(wait_run(WaitView::Healthcheck, WaitStage::Inspecting, id, all).0
            =~= backoff_cycles(0, id));
    } else {
        let rest = starting.drop_first();
        assert forall|i: int| 0 <= i < rest.len() implies health_verdict(#[trigger] rest[i])
            == Verdict::Starting by {
            assert(rest[i] == starting[i + 1]);
        }
        lemma_health_wait(id, rest, last);
        let inner = polling(rest) + tail;
        assert(all[0] == ResponseView::Inspected { report: starting[0] });
        assert(all[1] == ResponseView::Slept);
        let after_first = all.drop_first();
        assert(after_first[0] == ResponseView::Slept);
        assert(after_first.drop_first() =~= inner);
        let second = wait_run(WaitView::Healthcheck, WaitStage::BackingOff, id, after_first);
        let third = wait_run(WaitView::Healthcheck, WaitStage::Inspecting, id, inner);
        assert(second.0 == seq![RequestView::Inspect { id }] + third.0);
        let first = wait_run(WaitView::Healthcheck, WaitStage::Inspecting, id, all);
        assert(first.0 == seq![RequestView::Sleep { millis: HEALTH_BACKOFF_MILLIS }] + second.0);
        assert(first.0 =~= backoff_cycles(starting.len(), id));
    }
}

/// The responses of a log stream that yields `lines`.
pub open spec fn log_lines(lines: Seq<Seq<char>>) -> Seq<ResponseView> {
    Seq::new(lines.len(), |i: int| ResponseView::LogLine { line: lines[i] })
}

/// A wait for a line that holds `pattern` is met at the first such line, having
/// asked for one more line after each line before it; what the stream yields
/// after that line plays no part.
pub proof fn lemma_log_wait_first_match(
    pattern: Seq<char>,
    stream: LogStream,
    id: Seq<char>,
    lines: Seq<Seq<char>>,
    first: int,
)
    requires
        0 <= first < lines.len(),
        occurs_in(lines[first], pattern),
        forall|j: int| 0 <= j < first ==> !occurs_in(#[trigger] lines[j], pattern),
    ensures
        wait_run(
            WaitView::LogMessage { stream, pattern },
            WaitStage::Reading,
            id,
            log_lines(lines),
        ) == (Seq::new(first as nat, |i: int| RequestView::AwaitLogLine), WaitEnd::Met),
    decreases first,
{
    let condition = WaitView::LogMessage { stream, pattern };
    let all = log_lines(lines);
    let run = wait_run(condition, WaitStage::Reading, id, all);
    assert(all[0] == ResponseView::LogLine { line: lines[0] });
    if first == 0 {
        assert(run.0 =~= Seq::new(0, |i: int| RequestView::AwaitLogLine));
    } else {
        let rest = lines.drop_first();
        assert(!occurs_in(lines[0], pattern));
        assert(rest[first - 1] == lines[first]);
        assert forall|j: int| 0 <= j < first - 1 implies !occurs_in(#[trigger] rest[j], pattern) by {
            assert(rest[j] == lines[j + 1]);
        }
        lemma_log_wait_first_match(pattern, stream, id, rest, first - 1);
        assert(all.drop_first() =~= log_lines(rest));
        assert(run.0 =~= Seq::new(first as nat, |i: int| RequestView::AwaitLogLine));
    }
}

/// A wait for a line that holds `pattern` goes on for as long as no line
/// holds it.
pub proof fn lemma_log_wait_goes_on(
    pattern: Seq<char>,
    stream: LogStream,
    id: Seq<char>,
    lines: Seq<Seq<char>>,
)
    requires
        forall|j: int| 0 <= j < lines.len() ==> !occurs_in(#[trigger] lines[j], pattern),
    ensures
        wait_run(
            WaitView::LogMessage { stream, pattern },
            WaitStage::Reading,
            id,
            log_lines(lines),
        ) == (
            Seq::new(lines.len(), |i: int| RequestView::AwaitLogLine),
            WaitEnd::Pending { stage: WaitStage::Reading },
        ),
    decreases lines.len(),
{
    let condition = WaitView::LogMessage { stream, pattern };
    let all = log_lines(lines);
    let run = wait_run(condition, WaitStage::Reading, id, all);
    if lines.len() == 0 {
        assert(run.0 =~= Seq::new(0, |i: int| RequestView::AwaitLogLine));
    } else {
        let rest = lines.drop_first();
        assert(all[0] == ResponseView::LogLine { line: lines[0] });
        assert(!occurs_in(lines[0], pattern));
        assert forall|j: int| 0 <= j < rest.len() implies !occurs_in(#[trigger] rest[j], pattern) by {
            assert(rest[j] == lines[j + 1]);
        }
        lemma_log_wait_goes_on(pattern, stream, id, rest);
        assert(all.drop_first() =~= log_lines(rest));
        assert(run.0 =~= Seq::new(lines.len(), |i: int| RequestView::AwaitLogLine));
    }
}

} // verus!
