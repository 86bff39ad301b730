//! The status line below the prompt.

use vstd::prelude::*;

use super::layout::{push_span, span, span_view};
use super::state::{UiState, UiView};
use super::style::{dim_style, plain_style, Color, Line, SpanView, Style};
use super::markdown::spans_are_safe;
use super::widgets::{lemma_sanitized_line_has_no_control, sanitize_line, sanitized_line};
use crate::client::session::{ChatProjection, ProjectionView};
use crate::session::{
    reasoning_name, JobSnapshotDto, JobState, ModelCatalogState, PlanItem, PlanStatus,
    SessionSnapshot, TranscriptItem,
};
use crate::snapshot::{JobView, PlanView, SnapshotView, TranscriptView};
use crate::text::{
    decimal, decimal_text, is_terminal_safe, lemma_decimal_is_terminal_safe, text_from_utf8_lossy,
    utf8_lossy,
};

verus! {

/// The tokens that a model can take into account.
pub const CONTEXT_WINDOW_TOKENS: u64 = 256_000;

/// The state of a chat by the last item of its transcript.
#[derive(Clone, Copy, Debug, PartialEq, Eq, Structural)]
pub enum TranscriptStatus {
    Thinking,
    Ready,
    Error,
}

/// The state that an item leaves the chat in.
pub open spec fn item_status(item: TranscriptView) -> TranscriptStatus {
    match item {
        TranscriptView::User(_) => TranscriptStatus::Thinking,
        TranscriptView::ToolStarted { .. } => TranscriptStatus::Thinking,
        TranscriptView::Assistant(_) => TranscriptStatus::Ready,
        TranscriptView::Cancelled { .. } => TranscriptStatus::Ready,
        TranscriptView::Failed { .. } => TranscriptStatus::Error,
    }
}

/// The state by the last item; `None` where there is no item.
pub open spec fn last_status(transcript: Seq<TranscriptView>) -> Option<TranscriptStatus> {
    if transcript.len() == 0 {
        None
    } else {
        Some(item_status(transcript.last()))
    }
}

/// Finds the state of a chat by the last item of its transcript.
pub fn transcript_status(transcript: &Vec<TranscriptItem>) -> (status: Option<TranscriptStatus>)
    ensures
        status == last_status(transcript.deep_view()),
{
    let count: usize = transcript.len();
    if count == 0 {
        return None;
    }
    assert(transcript.deep_view().last() == transcript@[count - 1].deep_view());
    Some(
        match &transcript[count - 1] {
            TranscriptItem::User(_) => TranscriptStatus::Thinking,
            TranscriptItem::ToolStarted { .. } => TranscriptStatus::Thinking,
            TranscriptItem::Assistant(_) => TranscriptStatus::Ready,
            TranscriptItem::Cancelled { .. } => TranscriptStatus::Ready,
            TranscriptItem::Failed { .. } => TranscriptStatus::Error,
        },
    )
}

/// The items that are wanted.
pub open spec fn count_of<T>(items: Seq<T>, wanted: spec_fn(T) -> bool) -> nat
    decreases items.len(),
{
    if items.len() == 0 {
        0
    } else {
        count_of(items.drop_last(), wanted) + if wanted(items.last()) {
            1nat
        } else {
            0
        }
    }
}

/// The jobs that run.
pub open spec fn running_jobs(jobs: Seq<JobView>) -> nat {
    count_of(jobs, |job: JobView| job.state == JobState::Running)
}

/// The steps of a plan that are done.
pub open spec fn completed_steps(plan: Seq<PlanView>) -> nat {
    count_of(plan, |item: PlanView| item.status == PlanStatus::Completed)
}

/// The steps of a plan that count.
pub open spec fn active_steps(plan: Seq<PlanView>) -> nat {
    count_of(plan, |item: PlanView| item.status != PlanStatus::Cancelled)
}

/// What is done counts.
pub proof fn lemma_completed_steps_are_active(plan: Seq<PlanView>)
    ensures
        completed_steps(plan) <= active_steps(plan),
    decreases plan.len(),
{
    if plan.len() > 0 {
        lemma_completed_steps_are_active(plan.drop_last());
    }
}

fn count_running(jobs: &Vec<JobSnapshotDto>) -> (count: usize)
    ensures
        count == running_jobs(jobs.deep_view()),
{
    let mut count: usize = 0;
    let mut index: usize = 0;
    let ghost all = jobs.deep_view();
    while index < jobs.len()
        invariant
            all == jobs.deep_view(),
            count <= index <= jobs@.len(),
            count == running_jobs(all.take(index as int)),
        decreases jobs@.len() - index,
    {
        proof {
            let longer = all.take(index + 1);
            assert(longer.drop_last() =~= all.take(index as int));
            assert(longer.last() == jobs@[index as int].deep_view());
        }
        if jobs[index].state == JobState::Running {
            count += 1;
        }
        index += 1;
    }
    assert(all.take(index as int) =~= all);
    count
}

fn count_steps(plan: &Vec<PlanItem>) -> (counts: (usize, usize))
    ensures
        counts.0 == completed_steps(plan.deep_view()),
        counts.1 == active_steps(plan.deep_view()),
{
    let mut completed: usize = 0;
    let mut active: usize = 0;
    let mut index: usize = 0;
    let ghost all = plan.deep_view();
    while index < plan.len()
        invariant
            all == plan.deep_view(),
            completed <= index <= plan@.len(),
            active <= index,
            completed == completed_steps(all.take(index as int)),
            active == active_steps(all.take(index as int)),
        decreases plan@.len() - index,
    {
        proof {
            let longer = all.take(index + 1);
            assert(longer.drop_last() =~= all.take(index as int));
            assert(longer.last() == plan@[index as int].deep_view());
        }
        if plan[index].status == PlanStatus::Completed {
            completed += 1;
        }
        if plan[index].status != PlanStatus::Cancelled {
            active += 1;
        }
        index += 1;
    }
    assert(all.take(index as int) =~= all);
    (completed, active)
}

/// How much of the context window is used, in percent.
pub open spec fn context_percentage(tokens: u64) -> int {
    (if tokens * 100 > u64::MAX {
        u64::MAX as int
    } else {
        tokens * 100
    }) / (CONTEXT_WINDOW_TOKENS as int)
}

/// The name of a chat in the status line.
pub open spec fn chat_label(projection: ProjectionView) -> Seq<char> {
    match projection {
        ProjectionView::Draft(_) => "new chat"@,
        ProjectionView::Session(snapshot) => sanitized_line(snapshot.summary.title),
    }
}

/// The working directory in the status line.
pub open spec fn shown_directory(projection: ProjectionView) -> Seq<char> {
    match projection {
        ProjectionView::Draft(draft) => sanitized_line(utf8_lossy(draft.cwd)),
        ProjectionView::Session(snapshot) => sanitized_line(snapshot.summary.cwd_display),
    }
}

/// A session shows an error: its last item, its catalog or its store.
pub open spec fn shows_error(snapshot: SnapshotView) -> bool {
    ||| snapshot.catalog is Failed
    ||| snapshot.persistence_warning is Some
    ||| last_status(snapshot.transcript) == Some(TranscriptStatus::Error)
}

/// A session shows that it thinks: by its last item, else by what it says.
pub open spec fn shows_thinking(snapshot: SnapshotView) -> bool {
    match last_status(snapshot.transcript) {
        Some(status) => status == TranscriptStatus::Thinking,
        None => snapshot.busy || snapshot.summary.busy || snapshot.active_run is Some,
    }
}

/// The state in the status line, with its color.
pub open spec fn shown_status(projection: ProjectionView, ui: UiView) -> (Color, Seq<char>) {
    if ui.local_error || (projection is Session && shows_error(projection->Session_0)) {
        (Color::Red, "error"@)
    } else if projection is Session && shows_thinking(projection->Session_0) {
        (Color::Yellow, "thinking..."@)
    } else {
        (Color::Green, "ready"@)
    }
}

/// The part of the status line about processes.
pub open spec fn process_segment(projection: ProjectionView) -> Seq<char> {
    match projection {
        ProjectionView::Session(snapshot) if running_jobs(snapshot.jobs) > 0 => " · "@ + decimal(
            running_jobs(snapshot.jobs),
        ) + " processes"@,
        _ => Seq::empty(),
    }
}

/// The part of the status line about the plan.
pub open spec fn plan_segment(projection: ProjectionView) -> Seq<char> {
    match projection {
        ProjectionView::Session(snapshot) if snapshot.plan.len() > 0 => " · plan "@ + decimal(
            completed_steps(snapshot.plan),
        ) + "/"@ + decimal(active_steps(snapshot.plan)),
        _ => Seq::empty(),
    }
}

/// The status line.
pub open spec fn status_spans(projection: ProjectionView, ui: UiView) -> Seq<SpanView> {
    let settings = projection.settings();
    seq![
        span_view("╰─ "@, dim_style()),
        span_view(
            sanitized_line(settings.model),
            Style { fg: Some(Color::Cyan), ..plain_style() },
        ),
        span_view(" · "@ + chat_label(projection), dim_style()),
        span_view(
            " · "@ + reasoning_name(settings.reasoning) + " · "@ + decimal(
                context_percentage(settings.context_tokens) as nat,
            ) + "%/256K · "@,
            dim_style(),
        ),
        span_view(
            shown_status(projection, ui).1,
            Style { fg: Some(shown_status(projection, ui).0), ..plain_style() },
        ),
        span_view(
            process_segment(projection) + plan_segment(projection) + " · "@ + shown_directory(
                projection,
            ),
            dim_style(),
        ),
    ]
}

fn activity_segment(snapshot: &SessionSnapshot) -> (text: String)
    ensures
        text@ == process_segment(ProjectionView::Session(snapshot.deep_view())) + plan_segment(
            ProjectionView::Session(snapshot.deep_view()),
        ),
{
    let ghost projection = ProjectionView::Session(snapshot.deep_view());
    let mut text = String::new();
    let running: usize = count_running(&snapshot.jobs);
    if running > 0 {
        let running = decimal_text(running as u64);
        text.push_str(" · ");
        text.push_str(&running);
        text.push_str(" processes");
    }
    assert(text@ =~= process_segment(projection));
    if snapshot.plan.len() > 0 {
        let (completed, active) = count_steps(&snapshot.plan);
        let completed = decimal_text(completed as u64);
        let active = decimal_text(active as u64);
        text.push_str(" · plan ");
        text.push_str(&completed);
        text.push_str("/");
        text.push_str(&active);
    }
    assert(text@ =~= process_segment(projection) + plan_segment(projection));
    text
}

fn session_error(snapshot: &SessionSnapshot) -> (error: bool)
    ensures
        error == shows_error(snapshot.deep_view()),
{
    let failed = match &snapshot.catalog {
        ModelCatalogState::Failed(_) => true,
        _ => false,
    };
    let error = match transcript_status(&snapshot.transcript) {
        Some(TranscriptStatus::Error) => true,
        _ => false,
    };
    failed || snapshot.persistence_warning.is_some() || error
}

fn session_thinking(snapshot: &SessionSnapshot) -> (thinking: bool)
    ensures
        thinking == shows_thinking(snapshot.deep_view()),
{
    match transcript_status(&snapshot.transcript) {
        Some(status) => status == TranscriptStatus::Thinking,
        None => snapshot.busy || snapshot.summary.busy || snapshot.active_run.is_some(),
    }
}

/// Composes the status line.
pub fn status_line(projection: &ChatProjection, ui: &UiState) -> (line: Line)
    ensures
        line.deep_view() == status_spans(projection.deep_view(), ui.state()),
{
    let settings = match projection {
        ChatProjection::Draft(draft) => &draft.settings,
        ChatProjection::Session(snapshot) => &snapshot.settings,
    };
    let mut label = " · ".to_owned();
    let mut tail = String::new();
    let mut error = ui.local_error();
    let mut thinking = false;
    match projection {
        ChatProjection::Draft(draft) => {
            label.push_str("new chat");
            let directory = text_from_utf8_lossy(draft.cwd.as_slice());
            let directory = sanitize_line(&directory);
            tail.push_str(" · ");
            tail.push_str(&directory);
        },
        ChatProjection::Session(snapshot) => {
            let title = sanitize_line(&snapshot.summary.title.value);
            label.push_str(&title);
            tail = activity_segment(snapshot);
            let directory = sanitize_line(&snapshot.summary.cwd_display);
            tail.push_str(" · ");
            tail.push_str(&directory);
            error = error || session_error(snapshot);
            thinking = session_thinking(snapshot);
        },
    }
    let (color, status) = if error {
        (Color::Red, "error")
    } else if thinking {
        (Color::Yellow, "thinking...")
    } else {
        (Color::Green, "ready")
    };
    let hundredfold: u64 = if settings.context_tokens > u64::MAX / 100 {
        u64::MAX
    } else {
        settings.context_tokens * 100
    };
    let percentage = decimal_text(hundredfold / CONTEXT_WINDOW_TOKENS);
    let mut usage = " · ".to_owned();
    usage.push_str(settings.reasoning.as_str());
    usage.push_str(" · ");
    usage.push_str(&percentage);
    usage.push_str("%/256K · ");
    let model = sanitize_line(&settings.model);
    let ghost shown = projection.deep_view();
    assert(tail@ =~= process_segment(shown) + plan_segment(shown) + " · "@ + shown_directory(shown));
    let mut line = Line { spans: Vec::new() };
    push_span(&mut line, span("╰─ ".to_owned(), Style::dimmed()));
    push_span(&mut line, span(model, Style::plain().with_fg(Color::Cyan)));
    push_span(&mut line, span(label, Style::dimmed()));
    push_span(&mut line, span(usage, Style::dimmed()));
    push_span(&mut line, span(status.to_owned(), Style::plain().with_fg(color)));
    push_span(&mut line, span(tail, Style::dimmed()));
    assert(line.deep_view() =~= status_spans(shown, ui.state()));
    line
}

/// An error is shown before anything else, and a chat with no error that thinks is not shown as
/// ready.
pub proof fn lemma_errors_take_precedence(projection: ProjectionView, ui: UiView)
    ensures
        ui.local_error ==> shown_status(projection, ui) == (Color::Red, "error"@),
        projection is Session && shows_error(projection->Session_0) ==> shown_status(projection, ui)
            == (Color::Red, "error"@),
        shown_status(projection, ui).0 == Color::Green ==> !ui.local_error && (
        projection is Session ==> !shows_error(projection->Session_0) && !shows_thinking(
            projection->Session_0,
        )),
{
}

/// Whatever a session says, the status line cannot control the terminal.
pub proof fn lemma_status_cannot_control_the_terminal(projection: ProjectionView, ui: UiView)
    ensures
        spans_are_safe(status_spans(projection, ui)),
{
    let settings = projection.settings();
    reveal_strlit("╰─ ");
    reveal_strlit(" · ");
    reveal_strlit("%/256K · ");
    reveal_strlit("new chat");
    reveal_strlit("error");
    reveal_strlit("thinking...");
    reveal_strlit("ready");
    reveal_strlit(" processes");
    reveal_strlit(" · plan ");
    reveal_strlit("/");
    reveal_strlit("none");
    reveal_strlit("minimal");
    reveal_strlit("low");
    reveal_strlit("medium");
    reveal_strlit("high");
    reveal_strlit("xhigh");
    reveal_strlit("max");
    lemma_sanitized_line_has_no_control(settings.model);
    lemma_decimal_is_terminal_safe(context_percentage(settings.context_tokens) as nat);
    match projection {
        ProjectionView::Draft(draft) => {
            lemma_sanitized_line_has_no_control(utf8_lossy(draft.cwd));
        },
        ProjectionView::Session(snapshot) => {
            lemma_sanitized_line_has_no_control(snapshot.summary.title);
            lemma_sanitized_line_has_no_control(snapshot.summary.cwd_display);
            lemma_decimal_is_terminal_safe(running_jobs(snapshot.jobs));
            lemma_decimal_is_terminal_safe(completed_steps(snapshot.plan));
            lemma_decimal_is_terminal_safe(active_steps(snapshot.plan));
        },
    }
    assert(is_terminal_safe(chat_label(projection)));
    assert(is_terminal_safe(shown_directory(projection)));
    assert(is_terminal_safe(process_segment(projection)));
    assert(is_terminal_safe(plan_segment(projection)));
    assert(is_terminal_safe(reasoning_name(settings.reasoning)));
}

/// A plan counts its completed steps against all but the cancelled ones, and the processes are the
/// running jobs.
pub proof fn lemma_steps_and_jobs_are_counted(
    plan: Seq<PlanView>,
    item: PlanView,
    jobs: Seq<JobView>,
    job: JobView,
)
    ensures
        item.status == PlanStatus::Completed ==> completed_steps(plan.push(item)) == completed_steps(
            plan,
        ) + 1,
        item.status != PlanStatus::Completed ==> completed_steps(plan.push(item))
            == completed_steps(plan),
        item.status == PlanStatus::Cancelled ==> active_steps(plan.push(item)) == active_steps(
            plan,
        ),
        item.status != PlanStatus::Cancelled ==> active_steps(plan.push(item)) == active_steps(plan)
            + 1,
        job.state == JobState::Running ==> running_jobs(jobs.push(job)) == running_jobs(jobs) + 1,
        job.state != JobState::Running ==> running_jobs(jobs.push(job)) == running_jobs(jobs),
        completed_steps(Seq::empty()) == 0 && active_steps(Seq::empty()) == 0 && running_jobs(
            Seq::empty(),
        ) == 0,
{
    assert(plan.push(item).drop_last() =~= plan);
    assert(jobs.push(job).drop_last() =~= jobs);
}

/// What the status says: an error wherever there is one; after the user has spoken, or while a
/// tool runs, that the chat thinks; and that it is ready after an answer and in a new chat.
pub proof fn lemma_the_status_tells_the_state(projection: ProjectionView, ui: UiView)
    ensures
        ({
            let shown = shown_status(projection, ui).1;
            let snapshot = projection->Session_0;
            let last = snapshot.transcript.last();
            let failed = ui.local_error || projection is Session && (snapshot.catalog is Failed
                || snapshot.persistence_warning is Some || snapshot.transcript.len() > 0
                && last is Failed);
            &&& failed ==> shown == "error"@
            &&& !failed && projection is Draft ==> shown == "ready"@
            &&& !failed && projection is Session && snapshot.transcript.len() > 0 && (last is User
                || last is ToolStarted) ==> shown == "thinking..."@
            &&& !failed && projection is Session && snapshot.transcript.len() > 0 && (
            last is Assistant || last is Cancelled) ==> shown == "ready"@
            &&& !failed && projection is Session && snapshot.transcript.len() == 0 ==> (if snapshot.busy
                || snapshot.summary.busy || snapshot.active_run is Some {
                shown == "thinking..."@
            } else {
                shown == "ready"@
            })
        }),
        forall|transcript: &Vec<TranscriptItem>, status: Option<TranscriptStatus>| #[trigger]
            call_ensures(transcript_status, (transcript,), status) ==> (status is None
                <==> transcript.deep_view().len() == 0),
{
}

/// The context is told as the share of 256,000 tokens that is in use, in whole percent.
pub proof fn lemma_the_context_is_told_in_percent(tokens: u64)
    requires
        tokens * 100 <= u64::MAX,
    ensures
        256_000 * context_percentage(tokens) <= 100 * tokens < 256_000 * (context_percentage(tokens)
            + 1),
{
}

/// The status line shows the model, the chat, the effort and the context, the status and where the
/// chat works; running processes and the plan only where there are any.
pub proof fn lemma_the_status_line_shows_the_chat(projection: ProjectionView, ui: UiView)
    ensures
        ({
            let spans = status_spans(projection, ui);
            let snapshot = projection->Session_0;
            &&& spans.len() == 6
            &&& spans[1].content == sanitized_line(projection.settings().model)
            &&& projection is Draft ==> spans[2].content == " · "@ + "new chat"@
            &&& projection is Session ==> spans[2].content == " · "@ + sanitized_line(
                snapshot.summary.title,
            )
            &&& spans[3].content == " · "@ + reasoning_name(projection.settings().reasoning)
                + " · "@ + decimal(context_percentage(projection.settings().context_tokens) as nat)
                + "%/256K · "@
            &&& spans[4].content == shown_status(projection, ui).1
            &&& projection is Session && running_jobs(snapshot.jobs) == 0 && snapshot.plan.len()
                == 0 ==> spans[5].content == " · "@ + sanitized_line(
                snapshot.summary.cwd_display,
            )
            &&& projection is Session && running_jobs(snapshot.jobs) > 0 && snapshot.plan.len() == 0
                ==> spans[5].content == " · "@ + decimal(running_jobs(snapshot.jobs))
                + " processes"@ + " · "@ + sanitized_line(snapshot.summary.cwd_display)
            &&& projection is Session && running_jobs(snapshot.jobs) == 0 && snapshot.plan.len() > 0
                ==> spans[5].content == " · plan "@ + decimal(completed_steps(snapshot.plan))
                + "/"@ + decimal(active_steps(snapshot.plan)) + " · "@ + sanitized_line(
                snapshot.summary.cwd_display,
            )
        }),
{
    let spans = status_spans(projection, ui);
    if projection is Session {
        let snapshot = projection->Session_0;
        let place = " · "@ + sanitized_line(snapshot.summary.cwd_display);
        let jobs = process_segment(projection);
        let plan = plan_segment(projection);
        let none = Seq::<char>::empty();
        assert(none + none + " · "@ =~= " · "@);
        assert(jobs + none + " · "@ =~= jobs + " · "@);
        assert(none + plan + " · "@ =~= plan + " · "@);
    }
}

} // verus!
