//! Bookkeeping of background runs: run status, the numbered event log of
//! each run, resumable streaming, cursor pagination and cleanup. The tasks
//! themselves are driven by the caller, which reports their progress here.
use vstd::prelude::*;
use std::collections::HashMap;
use crate::error::{is_config_error, Error};
use crate::json::{json_str, member_views, push_member, Json, JsonView};
use crate::text::{owned, push_str};
use crate::types::{fresh_uuid, is_v4_uuid, now_millis, uuid_string, uuid_text};

verus! {

/// Identifier of a background run.
#[derive(Debug, Clone, Copy, PartialEq, Eq, Hash, Structural)]
pub struct RunId(pub u128);

impl RunId {
    /// A fresh random run identifier.
    pub fn new() -> (id: RunId)
        ensures
            is_v4_uuid(id.0),
    {
        RunId(fresh_uuid())
    }

    /// Text of this identifier.
    pub fn to_text(&self) -> (s: String)
        ensures
            s@ == uuid_text(self.0),
    {
        uuid_string(self.0)
    }
}

/// Position of an event within its run.
#[derive(Debug, Clone, Copy, PartialEq, Eq, PartialOrd, Ord, Hash, Structural)]
pub struct SeqId(pub u64);

impl SeqId {
    /// The sequence id `id`.
    pub fn new(id: u64) -> (s: SeqId)
        ensures
            s.0 == id,
    {
        SeqId(id)
    }

    /// The following sequence id.
    pub fn next(&self) -> (s: SeqId)
        requires
            self.0 < u64::MAX,
        ensures
            s.0 == self.0 + 1,
    {
        SeqId(self.0 + 1)
    }

    /// The underlying number.
    pub fn value(&self) -> (v: u64)
        ensures
            v == self.0,
    {
        self.0
    }
}

impl Default for SeqId {
    fn default() -> (s: SeqId)
        ensures
            s.0 == 0,
    {
        SeqId(0)
    }
}

/// Status of a background run.
#[derive(Debug)]
pub enum RunStatus {
    /// Queued but not started.
    Queued,
    /// Executing.
    Running,
    /// Completed successfully.
    Completed,
    /// Failed with an error.
    Failed { error: String },
    /// Cancelled.
    Cancelled,
}

/// Mathematical view of a run status.
pub enum StatusView {
    Queued,
    Running,
    Completed,
    Failed(Seq<char>),
    Cancelled,
}

impl View for RunStatus {
    type V = StatusView;

    open spec fn view(&self) -> StatusView {
        match self {
            RunStatus::Queued => StatusView::Queued,
            RunStatus::Running => StatusView::Running,
            RunStatus::Completed => StatusView::Completed,
            RunStatus::Failed { error } => StatusView::Failed(error@),
            RunStatus::Cancelled => StatusView::Cancelled,
        }
    }
}

impl Clone for RunStatus {
    fn clone(&self) -> (r: Self)
        ensures
            r@ == self@,
    {
        match self {
            RunStatus::Queued => RunStatus::Queued,
            RunStatus::Running => RunStatus::Running,
            RunStatus::Completed => RunStatus::Completed,
            RunStatus::Failed { error } => RunStatus::Failed { error: error.clone() },
            RunStatus::Cancelled => RunStatus::Cancelled,
        }
    }
}

/// Kind of a run event.
#[derive(Debug, Clone, Copy, PartialEq, Eq, Structural)]
pub enum RunEventType {
    /// Agent started processing.
    Started,
    /// Agent produced a thought.
    Thought,
    /// Agent is executing a tool.
    ToolCall,
    /// Tool execution completed.
    ToolResult,
    /// Agent produced its final output.
    Output,
    /// Run completed.
    Completed,
    /// Run failed.
    Failed,
    /// Progress update.
    Progress,
}

/// One event of a run. The timestamp is in milliseconds since the Unix epoch.
#[derive(Debug)]
pub struct RunEvent {
    /// Position in the run.
    pub seq_id: SeqId,
    /// When the event was recorded.
    pub timestamp: i64,
    /// Kind of event.
    pub event_type: RunEventType,
    /// Event data.
    pub data: Json,
}

/// Mathematical view of an event.
pub struct EventView {
    pub seq_id: SeqId,
    pub timestamp: i64,
    pub event_type: RunEventType,
    pub data: JsonView,
}

impl View for RunEvent {
    type V = EventView;

    open spec fn view(&self) -> EventView {
        EventView {
            seq_id: self.seq_id,
            timestamp: self.timestamp,
            event_type: self.event_type,
            data: self.data@,
        }
    }
}

impl Clone for RunEvent {
    fn clone(&self) -> (r: Self)
        ensures
            r@ == self@,
    {
        RunEvent {
            seq_id: self.seq_id,
            timestamp: self.timestamp,
            event_type: self.event_type,
            data: self.data.deep_copy(),
        }
    }
}

/// Metadata of a background run. Times are milliseconds since the Unix epoch.
#[derive(Debug)]
pub struct RunMetadata {
    /// Run id.
    pub run_id: RunId,
    /// Name of the agent.
    pub agent_name: String,
    /// Input that started the run.
    pub input: String,
    /// Current status.
    pub status: RunStatus,
    /// Creation time.
    pub created_at: i64,
    /// Start time.
    pub started_at: Option<i64>,
    /// Completion time.
    pub completed_at: Option<i64>,
    /// Number of events recorded.
    pub total_events: usize,
    /// Sequence id the next event gets.
    pub last_seq_id: SeqId,
    /// Custom fields.
    pub metadata: HashMap<String, String>,
}

/// Mathematical view of run metadata.
pub struct MetaView {
    pub run_id: RunId,
    pub agent_name: Seq<char>,
    pub input: Seq<char>,
    pub status: StatusView,
    pub created_at: i64,
    pub started_at: Option<i64>,
    pub completed_at: Option<i64>,
    pub total_events: usize,
    pub last_seq_id: SeqId,
    pub metadata: Map<String, String>,
}

impl View for RunMetadata {
    type V = MetaView;

    open spec fn view(&self) -> MetaView {
        MetaView {
            run_id: self.run_id,
            agent_name: self.agent_name@,
            input: self.input@,
            status: self.status@,
            created_at: self.created_at,
            started_at: self.started_at,
            completed_at: self.completed_at,
            total_events: self.total_events,
            last_seq_id: self.last_seq_id,
            metadata: self.metadata@,
        }
    }
}

impl Clone for RunMetadata {
    fn clone(&self) -> (r: Self)
        ensures
            r@ == self@,
    {
        RunMetadata {
            run_id: self.run_id,
            agent_name: self.agent_name.clone(),
            input: self.input.clone(),
            status: self.status.clone(),
            created_at: self.created_at,
            started_at: self.started_at,
            completed_at: self.completed_at,
            total_events: self.total_events,
            last_seq_id: self.last_seq_id,
            metadata: self.metadata.clone(),
        }
    }
}

/// One page of events.
#[derive(Debug)]
pub struct PaginatedEvents {
    /// Events of this page.
    pub events: Vec<RunEvent>,
    /// Sequence id of the last event of the page, if the page is not empty.
    pub next_cursor: Option<SeqId>,
    /// Whether events follow this page.
    pub has_more: bool,
    /// Number of events of the run.
    pub total_events: usize,
}

/// Data of the event that starts a run.
pub open spec fn started_data(agent: Seq<char>, input: Seq<char>) -> JsonView {
    JsonView::Object(seq![("agent"@, JsonView::Str(agent)), ("input"@, JsonView::Str(input))])
}

/// Data of the event that carries the final output.
pub open spec fn output_data(content: Seq<char>, tool_calls: u64) -> JsonView {
    JsonView::Object(
        seq![("content"@, JsonView::Str(content)), ("tool_calls"@, JsonView::UInt(tool_calls))],
    )
}

/// Data of an event that reports an error.
pub open spec fn error_data(error: Seq<char>) -> JsonView {
    JsonView::Object(seq![("error"@, JsonView::Str(error))])
}

/// Data of the event that closes a successful run.
pub open spec fn empty_data() -> JsonView {
    JsonView::Object(seq![])
}

fn make_started_data(agent: &str, input: &str) -> (j: Json)
    ensures
        j@ == started_data(agent@, input@),
{
    let mut m: Vec<(String, Json)> = Vec::new();
    assert(member_views(m@) =~= Seq::<(Seq<char>, JsonView)>::empty());
    push_member(&mut m, "agent", json_str(agent));
    push_member(&mut m, "input", json_str(input));
    let j = Json::Object(m);
    assert(member_views(m@) =~= seq![("agent"@, JsonView::Str(agent@)), ("input"@, JsonView::Str(input@))]);
    j
}

fn make_output_data(content: &str, tool_calls: u64) -> (j: Json)
    ensures
        j@ == output_data(content@, tool_calls),
{
    let mut m: Vec<(String, Json)> = Vec::new();
    assert(member_views(m@) =~= Seq::<(Seq<char>, JsonView)>::empty());
    push_member(&mut m, "content", json_str(content));
    push_member(&mut m, "tool_calls", Json::UInt(tool_calls));
    assert(member_views(m@) =~= seq![
        ("content"@, JsonView::Str(content@)),
        ("tool_calls"@, JsonView::UInt(tool_calls)),
    ]);
    Json::Object(m)
}

fn make_error_data(error: &str) -> (j: Json)
    ensures
        j@ == error_data(error@),
{
    let mut m: Vec<(String, Json)> = Vec::new();
    assert(member_views(m@) =~= Seq::<(Seq<char>, JsonView)>::empty());
    push_member(&mut m, "error", json_str(error));
    assert(member_views(m@) =~= seq![("error"@, JsonView::Str(error@))]);
    Json::Object(m)
}

fn make_empty_data() -> (j: Json)
    ensures
        j@ == empty_data(),
{
    let m: Vec<(String, Json)> = Vec::new();
    assert(member_views(m@) =~= Seq::<(Seq<char>, JsonView)>::empty());
    Json::Object(m)
}

/// The state of one run: its metadata, its events in order, and whether the
/// task that executes it can still be awaited or aborted.
struct BackgroundRun {
    metadata: RunMetadata,
    events: Vec<RunEvent>,
    has_task: bool,
}

/// Mathematical view of a run.
pub struct RunView {
    pub meta: MetaView,
    pub events: Seq<EventView>,
    pub has_task: bool,
}

/// Views of a sequence of events.
pub open spec fn event_views(v: Seq<RunEvent>) -> Seq<EventView> {
    v.map_values(|e: RunEvent| e@)
}

/// Views of a sequence of metadata records.
pub open spec fn meta_views(v: Seq<RunMetadata>) -> Seq<MetaView> {
    v.map_values(|m: RunMetadata| m@)
}

impl View for BackgroundRun {
    type V = RunView;

    closed spec fn view(&self) -> RunView {
        RunView { meta: self.metadata@, events: event_views(self.events@), has_task: self.has_task }
    }
}

/// The events of a run are numbered 0, 1, 2, ... in order, and the counters
/// of its metadata agree with the log.
pub open spec fn log_wf(r: RunView) -> bool {
    &&& r.meta.total_events == r.events.len()
    &&& r.meta.last_seq_id.0 == r.events.len()
    &&& forall|i: int| 0 <= i < r.events.len() ==> (#[trigger] r.events[i]).seq_id.0 == i
}

/// The log is not empty and its last event is of kind `t`.
pub open spec fn ends_with(evs: Seq<EventView>, t: RunEventType) -> bool {
    evs.len() > 0 && evs.last().event_type == t
}

/// The status of a run agrees with its log: a queued run has no events; a
/// running one last recorded its start; a completed one ends with its output
/// and the completion; a failed or cancelled one ends with a failure event.
/// So a finished run never has an empty log.
pub open spec fn lifecycle_wf(r: RunView) -> bool {
    match r.meta.status {
        StatusView::Queued => r.events.len() == 0,
        StatusView::Running => ends_with(r.events, RunEventType::Started),
        StatusView::Completed => r.events.len() >= 2 && ends_with(r.events, RunEventType::Completed)
            && r.events[r.events.len() - 2].event_type == RunEventType::Output,
        StatusView::Failed(_) => ends_with(r.events, RunEventType::Failed),
        StatusView::Cancelled => ends_with(r.events, RunEventType::Failed),
    }
}

/// A finished run never has an empty log: a completed run's log ends with its
/// output and the completion, and a failed or cancelled run's log ends with a
/// failure event.
pub proof fn lemma_finished_log(r: RunView)
    requires
        run_wf(r),
        finished(r.meta.status),
    ensures
        r.events.len() > 0,
        r.meta.status is Completed ==> r.events.len() >= 2 && r.events.last().event_type
            == RunEventType::Completed && r.events[r.events.len() - 2].event_type
            == RunEventType::Output,
        !(r.meta.status is Completed) ==> r.events.last().event_type == RunEventType::Failed,
{
}

/// A run's log is well numbered and agrees with its status.
pub open spec fn run_wf(r: RunView) -> bool {
    log_wf(r) && lifecycle_wf(r)
}

/// No two runs share an id and every run is well formed.
pub open spec fn runs_wf(rs: Seq<RunView>) -> bool {
    &&& forall|i: int, j: int|
        0 <= i < rs.len() && 0 <= j < rs.len() && #[trigger] rs[i].meta.run_id
            == #[trigger] rs[j].meta.run_id ==> i == j
    &&& forall|i: int| 0 <= i < rs.len() ==> run_wf(#[trigger] rs[i])
}

/// Some run has this id.
pub open spec fn has_run(rs: Seq<RunView>, id: RunId) -> bool {
    exists|i: int| 0 <= i < rs.len() && #[trigger] rs[i].meta.run_id == id
}

/// Position of the run with this id.
pub open spec fn run_index(rs: Seq<RunView>, id: RunId) -> int {
    choose|i: int| 0 <= i < rs.len() && #[trigger] rs[i].meta.run_id == id
}

/// The run with this id, if any.
pub open spec fn find_run(rs: Seq<RunView>, id: RunId) -> Option<RunView> {
    if has_run(rs, id) {
        Some(rs[run_index(rs, id)])
    } else {
        None
    }
}

/// The run with this id can take `n` more events.
pub open spec fn has_room(rs: Seq<RunView>, id: RunId, n: nat) -> bool {
    match find_run(rs, id) {
        Some(r) => r.events.len() + n <= u64::MAX && r.events.len() + n <= usize::MAX,
        None => true,
    }
}

/// The run after appending an event of kind `t` with `data` at time `te`.
pub open spec fn push_event(r: RunView, t: RunEventType, data: JsonView, te: i64) -> RunView {
    RunView {
        meta: MetaView {
            total_events: (r.meta.total_events + 1) as usize,
            last_seq_id: SeqId((r.meta.last_seq_id.0 + 1) as u64),
            ..r.meta
        },
        events: r.events.push(
            EventView { seq_id: r.meta.last_seq_id, timestamp: te, event_type: t, data },
        ),
        ..r
    }
}

/// A queued run that nothing has reported on yet.
pub open spec fn queued_run(id: RunId, agent: Seq<char>, input: Seq<char>, t: i64) -> RunView {
    RunView {
        meta: MetaView {
            run_id: id,
            agent_name: agent,
            input,
            status: StatusView::Queued,
            created_at: t,
            started_at: None,
            completed_at: None,
            total_events: 0,
            last_seq_id: SeqId(0),
            metadata: Map::empty(),
        },
        events: seq![],
        has_task: true,
    }
}

/// The run once its task has started, at time `ts`; the start event is
/// stamped `te`.
pub open spec fn started_run(r: RunView, ts: i64, te: i64) -> RunView {
    let p = push_event(
        r,
        RunEventType::Started,
        started_data(r.meta.agent_name, r.meta.input),
        te,
    );
    RunView { meta: MetaView { status: StatusView::Running, started_at: Some(ts), ..p.meta }, ..p }
}

/// The run once its task produced `content` after `tool_calls` tool calls.
pub open spec fn succeeded_run(
    r: RunView,
    content: Seq<char>,
    tool_calls: u64,
    tc: i64,
    t1: i64,
    t2: i64,
) -> RunView {
    let p = push_event(
        push_event(r, RunEventType::Output, output_data(content, tool_calls), t1),
        RunEventType::Completed,
        empty_data(),
        t2,
    );
    RunView {
        meta: MetaView { status: StatusView::Completed, completed_at: Some(tc), ..p.meta },
        ..p
    }
}

/// The run once its task failed with `error`.
pub open spec fn failed_run(r: RunView, error: Seq<char>, tc: i64, te: i64) -> RunView {
    let p = push_event(r, RunEventType::Failed, error_data(error), te);
    RunView {
        meta: MetaView { status: StatusView::Failed(error), completed_at: Some(tc), ..p.meta },
        ..p
    }
}

/// The run once cancelled: its task is given up and a failure event records
/// the cancellation.
pub open spec fn cancelled_run(r: RunView, tc: i64, te: i64) -> RunView {
    let p = push_event(r, RunEventType::Failed, error_data("Cancelled by user"@), te);
    RunView {
        meta: MetaView { status: StatusView::Cancelled, completed_at: Some(tc), ..p.meta },
        has_task: false,
        ..p
    }
}

/// The kinds of the events of a log, in order.
pub open spec fn event_kinds(evs: Seq<EventView>) -> Seq<RunEventType> {
    evs.map_values(|e: EventView| e.event_type)
}

/// A run that is queued, then started, then finishes without being cancelled
/// ends either completed, with the events `Started`, `Output`, `Completed`
/// numbered 0, 1, 2, or failed with the task's error, with the events
/// `Started`, `Failed` numbered 0, 1; either way its log is well formed.
pub proof fn lemma_run_lifecycle(
    id: RunId,
    agent: Seq<char>,
    input: Seq<char>,
    t: i64,
    ts: i64,
    te: i64,
    content: Seq<char>,
    tool_calls: u64,
    error: Seq<char>,
    tc: i64,
    t1: i64,
    t2: i64,
)
    ensures
        ({
            let r = started_run(queued_run(id, agent, input, t), ts, te);
            let ok = succeeded_run(r, content, tool_calls, tc, t1, t2);
            let bad = failed_run(r, error, tc, t1);
            &&& run_wf(ok) && ok.meta.status == StatusView::Completed
            &&& event_kinds(ok.events) == seq![RunEventType::Started, RunEventType::Output, RunEventType::Completed]
            &&& ok.events[0].seq_id.0 == 0 && ok.events[1].seq_id.0 == 1 && ok.events[2].seq_id.0 == 2
            &&& run_wf(bad) && bad.meta.status == StatusView::Failed(error)
            &&& event_kinds(bad.events) == seq![RunEventType::Started, RunEventType::Failed]
            &&& bad.events[0].seq_id.0 == 0 && bad.events[1].seq_id.0 == 1
        }),
{
    let r = started_run(queued_run(id, agent, input, t), ts, te);
    let ok = succeeded_run(r, content, tool_calls, tc, t1, t2);
    let bad = failed_run(r, error, tc, t1);
    assert(event_kinds(ok.events) =~= seq![RunEventType::Started, RunEventType::Output, RunEventType::Completed]);
    assert(event_kinds(bad.events) =~= seq![RunEventType::Started, RunEventType::Failed]);
}

/// The events whose sequence id is above `after`, in order.
pub open spec fn events_after(evs: Seq<EventView>, after: u64) -> Seq<EventView>
    decreases evs.len(),
{
    if evs.len() == 0 {
        seq![]
    } else if evs.last().seq_id.0 > after {
        events_after(evs.drop_last(), after).push(evs.last())
    } else {
        events_after(evs.drop_last(), after)
    }
}

/// What a stream from `starting_after` delivers.
pub open spec fn streamed(evs: Seq<EventView>, starting_after: Option<SeqId>) -> Seq<EventView> {
    match starting_after {
        Some(s) => events_after(evs, s.0),
        None => evs,
    }
}

/// Index of the first event whose sequence id is above `after`, or the
/// number of events when there is none.
pub open spec fn first_after(evs: Seq<EventView>, after: u64) -> nat
    decreases evs.len(),
{
    if evs.len() == 0 {
        0
    } else if evs[0].seq_id.0 > after {
        0
    } else {
        1 + first_after(evs.drop_first(), after)
    }
}

/// Where a page that follows `cursor` starts.
pub open spec fn page_start(evs: Seq<EventView>, cursor: Option<SeqId>) -> nat {
    match cursor {
        Some(c) => first_after(evs, c.0),
        None => 0,
    }
}

/// Where a page of at most `limit` events starting at `start` ends.
pub open spec fn page_end(len: nat, start: nat, limit: nat) -> nat {
    if start + limit <= len {
        start + limit
    } else {
        len
    }
}

/// The message of the error raised for an unknown run.
pub open spec fn run_not_found_message(id: RunId) -> Seq<char> {
    "Run "@ + uuid_text(id.0) + " not found"@
}

/// A run has finished: it completed, failed or was cancelled.
pub open spec fn finished(s: StatusView) -> bool {
    s is Completed || s is Failed || s is Cancelled
}

/// A run is finished (completed, failed or cancelled) before `cutoff`.
pub open spec fn expired(r: RunView, cutoff: i64) -> bool {
    &&& (r.meta.status is Completed || r.meta.status is Failed || r.meta.status is Cancelled)
    &&& r.meta.completed_at matches Some(t) && t < cutoff
}

/// The runs that a cleanup with `cutoff` keeps, in order.
pub open spec fn kept_runs(rs: Seq<RunView>, cutoff: i64) -> Seq<RunView>
    decreases rs.len(),
{
    if rs.len() == 0 {
        seq![]
    } else if expired(rs.last(), cutoff) {
        kept_runs(rs.drop_last(), cutoff)
    } else {
        kept_runs(rs.drop_last(), cutoff).push(rs.last())
    }
}

/// Tracks background runs.
pub struct BackgroundExecutor {
    runs: Vec<BackgroundRun>,
}

impl View for BackgroundExecutor {
    type V = Seq<RunView>;

    closed spec fn view(&self) -> Seq<RunView> {
        self.runs@.map_values(|r: BackgroundRun| r@)
    }
}

impl BackgroundRun {
    /// Whether the run has finished.
    fn is_finished(&self) -> (b: bool)
        ensures
            b == finished(self@.meta.status),
    {
        match self.metadata.status {
            RunStatus::Completed => true,
            RunStatus::Failed { .. } => true,
            RunStatus::Cancelled => true,
            _ => false,
        }
    }

    /// Appends an event with the next sequence id.
    fn push(&mut self, t: RunEventType, data: Json)
        requires
            old(self)@.events.len() + 1 <= u64::MAX,
            old(self)@.events.len() + 1 <= usize::MAX,
            log_wf(old(self)@),
        ensures
            final(self)@ == push_event(old(self)@, t, data@, final(self)@.events.last().timestamp),
            log_wf(final(self)@),
    {
        let ghost before = self@;
        let ev = RunEvent {
            seq_id: self.metadata.last_seq_id,
            timestamp: now_millis(),
            event_type: t,
            data,
        };
        let ghost ev_view = ev@;
        self.events.push(ev);
        self.metadata.last_seq_id = self.metadata.last_seq_id.next();
        self.metadata.total_events = self.metadata.total_events + 1;
        assert(self@.events =~= before.events.push(ev_view));
    }
}

/// The view of the runs after the run at `i` changed into `r`.
proof fn lemma_runs_set(rs: Seq<BackgroundRun>, i: int, r: BackgroundRun)
    requires
        0 <= i < rs.len(),
    ensures
        rs.update(i, r).map_values(|x: BackgroundRun| x@) == rs.map_values(
            |x: BackgroundRun| x@,
        ).update(i, r@),
{
    assert(rs.update(i, r).map_values(|x: BackgroundRun| x@) =~= rs.map_values(
        |x: BackgroundRun| x@,
    ).update(i, r@));
}

impl BackgroundExecutor {
    /// The executor's state is well formed.
    pub open spec fn wf(&self) -> bool {
        runs_wf(self@)
    }

    /// An executor with no runs.
    pub fn new() -> (e: BackgroundExecutor)
        ensures
            e.wf(),
            e@ == Seq::<RunView>::empty(),
    {
        let e = BackgroundExecutor { runs: Vec::new() };
        assert(e@ =~= Seq::<RunView>::empty());
        e
    }

    /// Position of the run with this id.
    fn position(&self, id: RunId) -> (r: Option<usize>)
        requires
            self.wf(),
        ensures
            match r {
                Some(i) => i < self@.len() && has_run(self@, id) && run_index(self@, id) == i
                    && self@[i as int].meta.run_id == id,
                None => !has_run(self@, id),
            },
    {
        let ghost rs = self@;
        let mut i: usize = 0;
        while i < self.runs.len()
            invariant
                i <= rs.len(),
                rs == self@,
                runs_wf(rs),
                rs.len() == self.runs@.len(),
                forall|j: int| 0 <= j < i ==> rs[j].meta.run_id != id,
            decreases rs.len() - i,
        {
            assert(rs[i as int] == self.runs@[i as int]@);
            if self.runs[i].metadata.run_id == id {
                let ghost k = run_index(rs, id);
                assert(rs[k].meta.run_id == rs[i as int].meta.run_id);
                return Some(i);
            }
            i = i + 1;
        }
        None
    }

    /// Registers a queued run of `agent_name` on `input` whose task the
    /// caller starts, and returns its fresh id.
    pub fn register_run(&mut self, agent_name: String, input: String) -> (id: RunId)
        requires
            old(self).wf(),
        ensures
            final(self).wf(),
            find_run(final(self)@, id) == Some(
                queued_run(id, agent_name@, input@, find_run(final(self)@, id)->0.meta.created_at),
            ),
            final(self)@ == upsert_run(old(self)@, find_run(final(self)@, id)->0),
    {
        let id = RunId::new();
        let metadata = RunMetadata {
            run_id: id,
            agent_name,
            input,
            status: RunStatus::Queued,
            created_at: now_millis(),
            started_at: None,
            completed_at: None,
            total_events: 0,
            last_seq_id: SeqId(0),
            metadata: HashMap::new(),
        };
        let run = BackgroundRun { metadata, events: Vec::new(), has_task: true };
        let ghost rv = run@;
        assert(rv.events =~= Seq::<EventView>::empty());
        let ghost rs = self@;
        match self.position(id) {
            Some(i) => {
                proof {
                    lemma_runs_set(self.runs@, i as int, run);
                }
                self.runs.set(i, run);
                proof {
                    lemma_wf_update(rs, i as int, rv);
                    lemma_find_at(self@, i as int);
                }
            },
            None => {
                self.runs.push(run);
                assert(self@ =~= rs.push(rv));
                proof {
                    lemma_wf_push(rs, rv);
                    lemma_find_at(self@, rs.len() as int);
                }
            },
        }
        id
    }

    /// A copy of the metadata of a run.
    pub fn get_run_metadata(&self, run_id: RunId) -> (r: Result<RunMetadata, Error>)
        requires
            self.wf(),
        ensures
            match find_run(self@, run_id) {
                Some(run) => r matches Ok(m) && m@ == run.meta,
                None => is_config_error(r, run_not_found_message(run_id)),
            },
    {
        match self.position(run_id) {
            Some(i) => Ok(self.runs[i].metadata.clone()),
            None => Err(run_not_found(run_id)),
        }
    }

    /// Records that the task of a run started: the run becomes `Running` and
    /// its first event carries the agent's name and the input. An unknown or
    /// finished run is left alone.
    pub fn mark_started(&mut self, run_id: RunId)
        requires
            old(self).wf(),
            has_room(old(self)@, run_id, 1),
        ensures
            final(self).wf(),
            match find_run(old(self)@, run_id) {
                None => final(self)@ == old(self)@,
                Some(r) => if finished(r.meta.status) {
                    final(self)@ == old(self)@
                } else {
                    let k = run_index(old(self)@, run_id);
                    let n = final(self)@[k];
                    final(self)@ == old(self)@.update(
                        k,
                        started_run(r, n.meta.started_at->0, n.events.last().timestamp),
                    )
                },
            },
    {
        let ghost rs = self@;
        match self.position(run_id) {
            None => {},
            Some(i) => {
                if self.runs[i].is_finished() {
                    return;
                }
                let mut run = self.runs.remove(i);
                assert(run@ == rs[i as int]);
                run.metadata.status = RunStatus::Running;
                run.metadata.started_at = Some(now_millis());
                let data = make_started_data(run.metadata.agent_name.as_str(), run.metadata.input.as_str());
                run.push(RunEventType::Started, data);
                let ghost rv = run@;
                self.runs.insert(i, run);
                proof {
                    assert(self@ =~= rs.update(i as int, rv));
                    lemma_wf_update(rs, i as int, rv);
                }
            },
        }
    }

    /// Records that the task of a run produced `content` after `tool_calls`
    /// tool calls: the run becomes `Completed`, with an output event and a
    /// completion event. An unknown or finished (so also a cancelled) run is
    /// left alone.
    pub fn record_output(&mut self, run_id: RunId, content: &str, tool_calls: u64)
        requires
            old(self).wf(),
            has_room(old(self)@, run_id, 2),
        ensures
            final(self).wf(),
            match find_run(old(self)@, run_id) {
                None => final(self)@ == old(self)@,
                Some(r) => if finished(r.meta.status) {
                    final(self)@ == old(self)@
                } else {
                    let k = run_index(old(self)@, run_id);
                    let n = final(self)@[k];
                    let len = r.events.len() as int;
                    final(self)@ == old(self)@.update(
                        k,
                        succeeded_run(
                            r,
                            content@,
                            tool_calls,
                            n.meta.completed_at->0,
                            n.events[len].timestamp,
                            n.events[len + 1].timestamp,
                        ),
                    )
                },
            },
    {
        let ghost rs = self@;
        match self.position(run_id) {
            None => {},
            Some(i) => {
                if self.runs[i].is_finished() {
                    return;
                }
                let mut run = self.runs.remove(i);
                assert(run@ == rs[i as int]);
                run.metadata.completed_at = Some(now_millis());
                run.metadata.status = RunStatus::Completed;
                run.push(RunEventType::Output, make_output_data(content, tool_calls));
                let ghost mid = run@;
                run.push(RunEventType::Completed, make_empty_data());
                let ghost rv = run@;
                assert(rv.events[mid.events.len() - 1] == mid.events.last());
                self.runs.insert(i, run);
                proof {
                    assert(self@ =~= rs.update(i as int, rv));
                    lemma_wf_update(rs, i as int, rv);
                }
            },
        }
    }

    /// Records that the task of a run failed with `error`: the run becomes
    /// `Failed`, with a failure event carrying the error. An unknown or
    /// finished (so also a cancelled) run is left alone.
    pub fn record_failure(&mut self, run_id: RunId, error: &str)
        requires
            old(self).wf(),
            has_room(old(self)@, run_id, 1),
        ensures
            final(self).wf(),
            match find_run(old(self)@, run_id) {
                None => final(self)@ == old(self)@,
                Some(r) => if finished(r.meta.status) {
                    final(self)@ == old(self)@
                } else {
                    let k = run_index(old(self)@, run_id);
                    let n = final(self)@[k];
                    final(self)@ == old(self)@.update(
                        k,
                        failed_run(r, error@, n.meta.completed_at->0, n.events.last().timestamp),
                    )
                },
            },
    {
        let ghost rs = self@;
        match self.position(run_id) {
            None => {},
            Some(i) => {
                if self.runs[i].is_finished() {
                    return;
                }
                let mut run = self.runs.remove(i);
                assert(run@ == rs[i as int]);
                run.metadata.completed_at = Some(now_millis());
                run.metadata.status = RunStatus::Failed { error: error.to_string() };
                run.push(RunEventType::Failed, make_error_data(error));
                let ghost rv = run@;
                self.runs.insert(i, run);
                proof {
                    assert(self@ =~= rs.update(i as int, rv));
                    lemma_wf_update(rs, i as int, rv);
                }
            },
        }
    }

    /// Claims the task of a run for awaiting it. Fails for an unknown run and
    /// for a run whose task was already claimed or cancelled.
    pub fn take_task(&mut self, run_id: RunId) -> (r: Result<(), Error>)
        requires
            old(self).wf(),
        ensures
            final(self).wf(),
            match find_run(old(self)@, run_id) {
                None => final(self)@ == old(self)@ && is_config_error(
                    r,
                    run_not_found_message(run_id),
                ),
                Some(run) => if run.has_task {
                    r is Ok && final(self)@ == old(self)@.update(
                        run_index(old(self)@, run_id),
                        RunView { has_task: false, ..run },
                    )
                } else {
                    final(self)@ == old(self)@ && is_config_error(
                        r,
                        "Run already completed or handle taken"@,
                    )
                },
            },
    {
        let ghost rs = self@;
        match self.position(run_id) {
            None => Err(run_not_found(run_id)),
            Some(i) => {
                if !self.runs[i].has_task {
                    return Err(Error::Config(owned("Run already completed or handle taken")));
                }
                let mut run = self.runs.remove(i);
                assert(run@ == rs[i as int]);
                run.has_task = false;
                let ghost rv = run@;
                self.runs.insert(i, run);
                proof {
                    assert(self@ =~= rs.update(i as int, rv));
                    lemma_wf_update(rs, i as int, rv);
                }
                Ok(())
            },
        }
    }

    /// Cancels a running execution. When the run has not finished and its
    /// task can still be aborted, the run becomes `Cancelled` with a failure
    /// event, and `Ok(true)` tells the caller to abort the task; a finished
    /// run, or one whose task was claimed, is left as it is and the answer is
    /// `Ok(false)`. Fails for an unknown run.
    pub fn cancel_run(&mut self, run_id: RunId) -> (r: Result<bool, Error>)
        requires
            old(self).wf(),
            has_room(old(self)@, run_id, 1),
        ensures
            final(self).wf(),
            match find_run(old(self)@, run_id) {
                None => final(self)@ == old(self)@ && is_config_error(
                    r,
                    run_not_found_message(run_id),
                ),
                Some(run) => if run.has_task && !finished(run.meta.status) {
                    let k = run_index(old(self)@, run_id);
                    let n = final(self)@[k];
                    r == Ok::<bool, Error>(true) && final(self)@ == old(self)@.update(
                        k,
                        cancelled_run(run, n.meta.completed_at->0, n.events.last().timestamp),
                    )
                } else {
                    r == Ok::<bool, Error>(false) && final(self)@ == old(self)@
                },
            },
    {
        let ghost rs = self@;
        match self.position(run_id) {
            None => Err(run_not_found(run_id)),
            Some(i) => {
                if !self.runs[i].has_task || self.runs[i].is_finished() {
                    return Ok(false);
                }
                let mut run = self.runs.remove(i);
                assert(run@ == rs[i as int]);
                run.has_task = false;
                run.metadata.status = RunStatus::Cancelled;
                run.metadata.completed_at = Some(now_millis());
                run.push(RunEventType::Failed, make_error_data("Cancelled by user"));
                let ghost rv = run@;
                self.runs.insert(i, run);
                proof {
                    assert(self@ =~= rs.update(i as int, rv));
                    lemma_wf_update(rs, i as int, rv);
                }
                Ok(true)
            },
        }
    }

    /// Copies of the events of a run, all of them or those after
    /// `starting_after`. Fails for an unknown run.
    pub fn stream_events(&self, run_id: RunId, starting_after: Option<SeqId>) -> (r: Result<
        Vec<RunEvent>,
        Error,
    >)
        requires
            self.wf(),
        ensures
            match find_run(self@, run_id) {
                Some(run) => r matches Ok(v) && event_views(v@) == streamed(
                    run.events,
                    starting_after,
                ),
                None => is_config_error(r, run_not_found_message(run_id)),
            },
    {
        match self.position(run_id) {
            None => Err(run_not_found(run_id)),
            Some(i) => {
                let events = &self.runs[i].events;
                let ghost evs = event_views(events@);
                let mut out: Vec<RunEvent> = Vec::new();
                let mut k: usize = 0;
                while k < events.len()
                    invariant
                        k <= events@.len(),
                        evs == event_views(events@),
                        event_views(out@) == streamed(evs.take(k as int), starting_after),
                    decreases events@.len() - k,
                {
                    let ghost before = event_views(out@);
                    assert(evs.take(k + 1).drop_last() =~= evs.take(k as int));
                    let keep = match starting_after {
                        Some(s) => events[k].seq_id.0 > s.0,
                        None => true,
                    };
                    if keep {
                        out.push(events[k].clone());
                        assert(event_views(out@) =~= before.push(evs[k as int]));
                    }
                    assert(evs.take(k + 1) =~= evs.take(k as int).push(evs[k as int]));
                    k = k + 1;
                }
                assert(evs.take(events@.len() as int) =~= evs);
                Ok(out)
            },
        }
    }

    /// A page of at most `limit` events of a run, starting after `cursor`
    /// (at the first event when there is none). The next cursor is the last
    /// event of the page when more events follow, and `None` on the last page
    /// (and on an empty page). Fails for an unknown run.
    pub fn get_events_paginated(&self, run_id: RunId, cursor: Option<SeqId>, limit: usize) -> (r:
        Result<PaginatedEvents, Error>)
        requires
            self.wf(),
        ensures
            match find_run(self@, run_id) {
                Some(run) => r matches Ok(p) && {
                    let start = page_start(run.events, cursor);
                    let end = page_end(run.events.len(), start, limit as nat);
                    &&& event_views(p.events@) == run.events.subrange(start as int, end as int)
                    &&& p.next_cursor == if end < run.events.len() && end > start {
                        Some(run.events[end - 1].seq_id)
                    } else {
                        None
                    }
                    &&& p.has_more == (end < run.events.len())
                    &&& p.total_events == run.meta.total_events
                },
                None => is_config_error(r, run_not_found_message(run_id)),
            },
    {
        match self.position(run_id) {
            None => Err(run_not_found(run_id)),
            Some(i) => {
                let events = &self.runs[i].events;
                let ghost evs = event_views(events@);
                let len = events.len();
                let start: usize = match cursor {
                    None => 0,
                    Some(c) => {
                        let mut k: usize = 0;
                        assert(evs.skip(0) =~= evs);
                        while k < len && events[k].seq_id.0 <= c.0
                            invariant
                                k <= len,
                                len == events@.len(),
                                evs == event_views(events@),
                                first_after(evs, c.0) == k + first_after(evs.skip(k as int), c.0),
                            decreases len - k,
                        {
                            assert(evs.skip(k as int).drop_first() =~= evs.skip(k + 1));
                            k = k + 1;
                        }
                        proof {
                            if k < len {
                                assert(evs.skip(k as int)[0] == evs[k as int]);
                            }
                        }
                        k
                    },
                };
                let end = if limit <= len - start {
                    start + limit
                } else {
                    len
                };
                let mut page: Vec<RunEvent> = Vec::new();
                let mut k: usize = start;
                while k < end
                    invariant
                        start <= k <= end,
                        end <= len,
                        len == events@.len(),
                        evs == event_views(events@),
                        event_views(page@) == evs.subrange(start as int, k as int),
                    decreases end - k,
                {
                    let ghost before = event_views(page@);
                    page.push(events[k].clone());
                    assert(event_views(page@) =~= before.push(evs[k as int]));
                    assert(evs.subrange(start as int, k + 1) =~= evs.subrange(
                        start as int,
                        k as int,
                    ).push(evs[k as int]));
                    k = k + 1;
                }
                let next_cursor = if end < len && end > start {
                    Some(events[end - 1].seq_id)
                } else {
                    None
                };
                Ok(
                    PaginatedEvents {
                        events: page,
                        next_cursor,
                        has_more: end < len,
                        total_events: self.runs[i].metadata.total_events,
                    },
                )
            },
        }
    }

    /// Copies of the metadata of all runs.
    pub fn list_runs(&self) -> (r: Vec<RunMetadata>)
        ensures
            meta_views(r@) == self@.map_values(|x: RunView| x.meta),
    {
        let ghost rs = self@;
        let mut out: Vec<RunMetadata> = Vec::new();
        let mut k: usize = 0;
        while k < self.runs.len()
            invariant
                k <= self.runs@.len(),
                rs == self@,
                rs.len() == self.runs@.len(),
                meta_views(out@) == rs.map_values(|x: RunView| x.meta).take(k as int),
            decreases self.runs@.len() - k,
        {
            let ghost before = meta_views(out@);
            out.push(self.runs[k].metadata.clone());
            assert(meta_views(out@) =~= before.push(rs[k as int].meta));
            assert(rs.map_values(|x: RunView| x.meta).take(k + 1) =~= rs.map_values(
                |x: RunView| x.meta,
            ).take(k as int).push(rs[k as int].meta));
            k = k + 1;
        }
        assert(rs.map_values(|x: RunView| x.meta).take(rs.len() as int) =~= rs.map_values(
            |x: RunView| x.meta,
        ));
        out
    }

    /// Removes the runs that finished before `cutoff` (milliseconds since the
    /// Unix epoch) and returns how many were removed.
    pub fn cleanup_before(&mut self, cutoff: i64) -> (n: usize)
        requires
            old(self).wf(),
        ensures
            final(self).wf(),
            final(self)@ == kept_runs(old(self)@, cutoff),
            n == old(self)@.len() - final(self)@.len(),
    {
        let ghost rs = self@;
        let mut runs: Vec<BackgroundRun> = Vec::new();
        std::mem::swap(&mut runs, &mut self.runs);
        let ghost orig = runs@;
        assert(orig.map_values(|r: BackgroundRun| r@) == rs);
        let total = runs.len();
        // Reverse the runs, so that popping gives them back in order.
        let mut rev: Vec<BackgroundRun> = Vec::new();
        while runs.len() > 0
            invariant
                runs@.len() + rev@.len() == total,
                total == orig.len(),
                runs@ == orig.take(runs@.len() as int),
                forall|j: int| 0 <= j < rev@.len() ==> rev@[j] == orig[total - 1 - j],
            decreases runs@.len(),
        {
            let ghost m = runs@.len() as int;
            let r = runs.pop().unwrap();
            assert(orig.take(m - 1) =~= orig.take(m).drop_last());
            rev.push(r);
        }
        let mut kept: Vec<BackgroundRun> = Vec::new();
        let mut removed: usize = 0;
        while rev.len() > 0
            invariant
                rev@.len() <= total,
                total == orig.len(),
                orig.map_values(|r: BackgroundRun| r@) == rs,
                forall|j: int| 0 <= j < rev@.len() ==> rev@[j] == orig[total - 1 - j],
                kept@.map_values(|r: BackgroundRun| r@) == kept_runs(
                    rs.take(total - rev@.len()),
                    cutoff,
                ),
                removed + kept@.len() == total - rev@.len(),
            decreases rev@.len(),
        {
            let ghost k = total - rev@.len();
            let r = rev.pop().unwrap();
            assert(r == orig[k]);
            assert(r@ == rs[k]);
            assert(rs.take(k + 1).drop_last() =~= rs.take(k));
            assert(rs.take(k + 1).last() == rs[k]);
            let done = match r.metadata.status {
                RunStatus::Completed => true,
                RunStatus::Failed { .. } => true,
                RunStatus::Cancelled => true,
                _ => false,
            };
            let old_enough = match r.metadata.completed_at {
                Some(t) => t < cutoff,
                None => false,
            };
            if done && old_enough {
                removed = removed + 1;
            } else {
                let ghost before = kept@;
                kept.push(r);
                assert(kept@.map_values(|x: BackgroundRun| x@) =~= before.map_values(
                    |x: BackgroundRun| x@,
                ).push(rs[k]));
            }
        }
        assert(rs.take(total as int) =~= rs);
        self.runs = kept;
        proof {
            lemma_kept_wf(rs, cutoff);
        }
        removed
    }

    /// Removes the runs that finished more than `older_than_ms` milliseconds
    /// ago and returns how many were removed.
    pub fn cleanup_old_runs(&mut self, older_than_ms: i64) -> (n: usize)
        requires
            old(self).wf(),
        ensures
            final(self).wf(),
            exists|now: i64|
                final(self)@ == kept_runs(old(self)@, #[trigger] clamp_i64(now - older_than_ms)),
            n == old(self)@.len() - final(self)@.len(),
    {
        let now = now_millis();
        let diff: i128 = now as i128 - older_than_ms as i128;
        let cutoff: i64 = if diff < i64::MIN as i128 {
            i64::MIN
        } else if diff > i64::MAX as i128 {
            i64::MAX
        } else {
            diff as i64
        };
        assert(cutoff == clamp_i64(now - older_than_ms));
        self.cleanup_before(cutoff)
    }
}

/// `n` clamped to the range of `i64`.
pub open spec fn clamp_i64(n: int) -> i64 {
    if n < i64::MIN {
        i64::MIN
    } else if n > i64::MAX {
        i64::MAX
    } else {
        n as i64
    }
}

/// Every run that a cleanup keeps is one of the runs it was given.
proof fn lemma_kept_sub(rs: Seq<RunView>, cutoff: i64)
    ensures
        forall|i: int|
            0 <= i < kept_runs(rs, cutoff).len() ==> exists|j: int|
                0 <= j < rs.len() && #[trigger] kept_runs(rs, cutoff)[i] == rs[j],
        kept_runs(rs, cutoff).len() <= rs.len(),
    decreases rs.len(),
{
    if rs.len() > 0 {
        let d = rs.drop_last();
        lemma_kept_sub(d, cutoff);
        let kd = kept_runs(d, cutoff);
        let k = kept_runs(rs, cutoff);
        assert forall|i: int| 0 <= i < k.len() implies exists|j: int|
            0 <= j < rs.len() && #[trigger] k[i] == rs[j] by {
            if i < kd.len() {
                let j = choose|j: int| 0 <= j < d.len() && kd[i] == d[j];
                assert(k[i] == kd[i]);
                assert(rs[j] == d[j]);
            } else {
                assert(k[i] == rs[rs.len() - 1]);
            }
        }
    }
}

/// What a cleanup keeps of well-formed runs is well formed.
proof fn lemma_kept_wf(rs: Seq<RunView>, cutoff: i64)
    requires
        runs_wf(rs),
    ensures
        runs_wf(kept_runs(rs, cutoff)),
    decreases rs.len(),
{
    if rs.len() > 0 {
        let d = rs.drop_last();
        assert(runs_wf(d)) by {
            assert forall|a: int, b: int|
                0 <= a < d.len() && 0 <= b < d.len() && #[trigger] d[a].meta.run_id
                    == #[trigger] d[b].meta.run_id implies a == b by {
                assert(rs[a].meta.run_id == rs[b].meta.run_id);
            }
            assert forall|a: int| 0 <= a < d.len() implies run_wf(#[trigger] d[a]) by {
                assert(d[a] == rs[a]);
            }
        }
        lemma_kept_wf(d, cutoff);
        lemma_kept_sub(d, cutoff);
        let kd = kept_runs(d, cutoff);
        if !expired(rs.last(), cutoff) {
            let last = rs.last();
            assert(run_wf(rs[rs.len() - 1]));
            assert forall|i: int| 0 <= i < kd.len() implies (#[trigger] kd[i]).meta.run_id
                != last.meta.run_id by {
                let j = choose|j: int| 0 <= j < d.len() && kd[i] == d[j];
                assert(rs[j] == d[j]);
                assert(rs[j].meta.run_id != rs[rs.len() - 1].meta.run_id);
            }
            assert(!has_run(kd, last.meta.run_id));
            lemma_wf_push(kd, last);
        }
    }
}

/// The runs after inserting `r`: a run with the same id is replaced in place,
/// otherwise `r` is added at the end.
pub open spec fn upsert_run(rs: Seq<RunView>, r: RunView) -> Seq<RunView> {
    if has_run(rs, r.meta.run_id) {
        rs.update(run_index(rs, r.meta.run_id), r)
    } else {
        rs.push(r)
    }
}

/// The error for an unknown run.
fn run_not_found(id: RunId) -> (e: Error)
    ensures
        e matches Error::Config(m) && m@ == run_not_found_message(id),
{
    let mut m = owned("Run ");
    let t = id.to_text();
    push_str(&mut m, t.as_str());
    push_str(&mut m, " not found");
    Error::Config(m)
}

/// Replacing a run by a well-formed run with the same id keeps the runs well
/// formed.
proof fn lemma_wf_update(rs: Seq<RunView>, i: int, r: RunView)
    requires
        runs_wf(rs),
        0 <= i < rs.len(),
        r.meta.run_id == rs[i].meta.run_id,
        run_wf(r),
    ensures
        runs_wf(rs.update(i, r)),
{
    let u = rs.update(i, r);
    assert forall|a: int, b: int|
        0 <= a < u.len() && 0 <= b < u.len() && #[trigger] u[a].meta.run_id
            == #[trigger] u[b].meta.run_id implies a == b by {
        assert(u[a].meta.run_id == rs[a].meta.run_id);
        assert(u[b].meta.run_id == rs[b].meta.run_id);
    }
    assert forall|a: int| 0 <= a < u.len() implies run_wf(#[trigger] u[a]) by {
        if a != i {
            assert(u[a] == rs[a]);
        }
    }
}

/// Adding a well-formed run with a new id keeps the runs well formed.
proof fn lemma_wf_push(rs: Seq<RunView>, r: RunView)
    requires
        runs_wf(rs),
        !has_run(rs, r.meta.run_id),
        run_wf(r),
    ensures
        runs_wf(rs.push(r)),
{
    let u = rs.push(r);
    assert forall|a: int, b: int|
        0 <= a < u.len() && 0 <= b < u.len() && #[trigger] u[a].meta.run_id
            == #[trigger] u[b].meta.run_id implies a == b by {
        if a == rs.len() as int && b < rs.len() {
            assert(rs[b].meta.run_id == r.meta.run_id);
        }
        if b == rs.len() as int && a < rs.len() {
            assert(rs[a].meta.run_id == r.meta.run_id);
        }
    }
    assert forall|a: int| 0 <= a < u.len() implies run_wf(#[trigger] u[a]) by {
        if a < rs.len() {
            assert(u[a] == rs[a]);
        }
    }
}

/// In well-formed runs, the run at `i` is the one found under its id.
proof fn lemma_find_at(rs: Seq<RunView>, i: int)
    requires
        runs_wf(rs),
        0 <= i < rs.len(),
    ensures
        has_run(rs, rs[i].meta.run_id),
        run_index(rs, rs[i].meta.run_id) == i,
        find_run(rs, rs[i].meta.run_id) == Some(rs[i]),
{
    assert(rs[i].meta.run_id == rs[i].meta.run_id);
    let k = run_index(rs, rs[i].meta.run_id);
    assert(rs[k].meta.run_id == rs[i].meta.run_id);
}

/// The events are numbered consecutively from `base`.
pub open spec fn numbered_from(evs: Seq<EventView>, base: int) -> bool {
    forall|i: int| 0 <= i < evs.len() ==> (#[trigger] evs[i]).seq_id.0 == base + i
}

/// `n` clamped to `[0, hi]`.
pub open spec fn clamp_nat(n: int, hi: nat) -> nat {
    if n < 0 {
        0
    } else if n > hi {
        hi
    } else {
        n as nat
    }
}

proof fn lemma_first_after_numbered(evs: Seq<EventView>, base: int, c: u64)
    requires
        numbered_from(evs, base),
    ensures
        first_after(evs, c) == clamp_nat(c + 1 - base, evs.len()),
    decreases evs.len(),
{
    if evs.len() > 0 {
        assert(evs[0].seq_id.0 == base);
        let d = evs.drop_first();
        assert(numbered_from(d, base + 1)) by {
            assert forall|i: int| 0 <= i < d.len() implies (#[trigger] d[i]).seq_id.0 == base + 1
                + i by {
                assert(d[i] == evs[i + 1]);
            }
        }
        lemma_first_after_numbered(d, base + 1, c);
    }
}

proof fn lemma_events_after_numbered(evs: Seq<EventView>, c: u64)
    requires
        numbered_from(evs, 0),
    ensures
        events_after(evs, c) == evs.skip(clamp_nat(c + 1, evs.len()) as int),
    decreases evs.len(),
{
    if evs.len() > 0 {
        let d = evs.drop_last();
        assert(numbered_from(d, 0)) by {
            assert forall|i: int| 0 <= i < d.len() implies (#[trigger] d[i]).seq_id.0 == i by {
                assert(d[i] == evs[i]);
            }
        }
        lemma_events_after_numbered(d, c);
        assert(evs.last().seq_id.0 == evs.len() - 1);
        let k = clamp_nat(c + 1, evs.len());
        if evs.last().seq_id.0 > c {
            assert(evs.skip(k as int) =~= d.skip(k as int).push(evs.last()));
        } else {
            assert(evs.skip(k as int) =~= d.skip(clamp_nat(c + 1, d.len()) as int));
        }
    }
}

/// In a well-formed run, a stream that resumes after sequence id `s` gives
/// exactly the events numbered above `s`, in order, with none left out.
pub proof fn lemma_resume_after(r: RunView, s: SeqId)
    requires
        run_wf(r),
    ensures
        streamed(r.events, Some(s)) == r.events.skip(clamp_nat(s.0 + 1, r.events.len()) as int),
{
    lemma_events_after_numbered(r.events, s.0);
}

/// Paging loses and repeats nothing: a page read after `cursor`, followed by
/// a stream that resumes after the page's last event (at `cursor` again when
/// the page is empty), gives exactly the stream that resumes at `cursor`; and
/// the page is the first `limit` events of that stream.
pub proof fn lemma_page_then_resume(r: RunView, cursor: Option<SeqId>, limit: nat)
    requires
        run_wf(r),
    ensures
        ({
            let evs = r.events;
            let start = page_start(evs, cursor);
            let end = page_end(evs.len(), start, limit);
            let next = if end > start {
                Some(evs[end - 1].seq_id)
            } else {
                cursor
            };
            &&& evs.subrange(start as int, end as int) + streamed(evs, next) == streamed(
                evs,
                cursor,
            )
            &&& evs.subrange(start as int, end as int) == streamed(evs, cursor).take(
                (end - start) as int,
            )
        }),
{
    let evs = r.events;
    assert(numbered_from(evs, 0));
    let start = page_start(evs, cursor);
    match cursor {
        Some(c) => {
            lemma_first_after_numbered(evs, 0, c.0);
            lemma_events_after_numbered(evs, c.0);
        },
        None => {
            assert(evs.skip(0) =~= evs);
        },
    }
    assert(streamed(evs, cursor) == evs.skip(start as int));
    let end = page_end(evs.len(), start, limit);
    if end > start {
        let s = evs[end - 1].seq_id;
        assert(s.0 == end - 1);
        lemma_events_after_numbered(evs, s.0);
        assert(streamed(evs, Some(s)) == evs.skip(end as int));
    }
    assert(evs.subrange(start as int, end as int) + evs.skip(end as int) =~= evs.skip(
        start as int,
    ));
    assert(evs.subrange(start as int, end as int) =~= evs.skip(start as int).take(
        (end - start) as int,
    ));
}

} // verus!
