//! Bookkeeping of background render tasks: their status, progress and results.

use vstd::prelude::*;

use crate::format::opt_text;
use crate::text::{push_text, text_eq};

verus! {

/// Lifecycle state of a render task.
#[derive(Debug, Clone, Copy, PartialEq, Eq, Structural)]
pub enum TaskStatus {
    /// Registered, not started.
    Queued,
    /// Frames are being rendered.
    Rendering,
    /// The output file is complete.
    Completed,
    /// Rendering stopped with an error.
    Failed,
}

/// One task's record.
#[derive(Debug)]
pub struct TaskInfo {
    /// Task identifier.
    pub id: String,
    /// Current status.
    pub status: TaskStatus,
    /// Where the rendered video is written.
    pub output_path: String,
    /// Number of frames the task renders.
    pub total_frames: u32,
    /// Last frame reported as rendered.
    pub current_frame: u32,
    /// Error message of a failed task.
    pub error: Option<String>,
}

/// A progress notification for the task's subscribers. Its percentage is
/// `frame / total_frames`, computed by whoever displays it.
#[derive(Debug)]
pub struct ProgressEvent {
    /// Frames done.
    pub frame: u32,
    /// Frames in total.
    pub total_frames: u32,
    /// Status the task is in.
    pub status: TaskStatus,
    /// Error message, for a failed task.
    pub error: Option<String>,
}

/// Abstract state of one task.
pub struct TaskState {
    pub status: TaskStatus,
    pub output_path: Seq<char>,
    pub total_frames: u32,
    pub current_frame: u32,
    pub error: Option<Seq<char>>,
}

/// Abstract content of a progress event.
pub struct EventState {
    pub frame: u32,
    pub total_frames: u32,
    pub status: TaskStatus,
    pub error: Option<Seq<char>>,
}

/// Why a task's output cannot be downloaded.
#[derive(Debug, Clone, Copy, PartialEq, Eq, Structural)]
pub enum DownloadRefusal {
    /// No task has this id.
    NotFound,
    /// The task has not completed; it is in the given status.
    NotCompleted(TaskStatus),
}

impl TaskInfo {
    /// The record's abstract state.
    pub open spec fn state(&self) -> TaskState {
        TaskState {
            status: self.status,
            output_path: self.output_path@,
            total_frames: self.total_frames,
            current_frame: self.current_frame,
            error: opt_text(self.error),
        }
    }
}

impl ProgressEvent {
    /// The event's abstract content.
    pub open spec fn state(&self) -> EventState {
        EventState {
            frame: self.frame,
            total_frames: self.total_frames,
            status: self.status,
            error: opt_text(self.error),
        }
    }
}

/// Map from task ids to states, the later record of an id winning.
pub open spec fn tasks_map(s: Seq<TaskInfo>) -> Map<Seq<char>, TaskState>
    decreases s.len(),
{
    if s.len() == 0 {
        Map::empty()
    } else {
        tasks_map(s.drop_last()).insert(s.last().id@, s.last().state())
    }
}

/// No two records share an id.
pub open spec fn ids_distinct(s: Seq<TaskInfo>) -> bool {
    forall|i: int, j: int| 0 <= i < s.len() && 0 <= j < s.len() && i != j ==> s[i].id@ != s[j].id@
}

/// State of a newly registered task.
pub open spec fn queued_state(output_path: Seq<char>, total_frames: u32) -> TaskState {
    TaskState { status: TaskStatus::Queued, output_path, total_frames, current_frame: 0, error: None }
}

/// Table after registering task `id`; an existing task of that id is replaced.
pub open spec fn after_create(m: Map<Seq<char>, TaskState>, id: Seq<char>, output_path: Seq<char>, total_frames: u32) -> Map<Seq<char>, TaskState> {
    m.insert(id, queued_state(output_path, total_frames))
}

/// Table after frame `frame` of task `id` is reported; unknown ids change nothing.
pub open spec fn after_progress(m: Map<Seq<char>, TaskState>, id: Seq<char>, frame: u32) -> Map<Seq<char>, TaskState> {
    if m.contains_key(id) {
        m.insert(id, TaskState { status: TaskStatus::Rendering, current_frame: frame, ..m[id] })
    } else {
        m
    }
}

/// Table after task `id` completes; unknown ids change nothing.
pub open spec fn after_complete(m: Map<Seq<char>, TaskState>, id: Seq<char>) -> Map<Seq<char>, TaskState> {
    if m.contains_key(id) {
        m.insert(id, TaskState { status: TaskStatus::Completed, ..m[id] })
    } else {
        m
    }
}

/// Table after task `id` fails with `error`; unknown ids change nothing.
pub open spec fn after_fail(m: Map<Seq<char>, TaskState>, id: Seq<char>, error: Seq<char>) -> Map<Seq<char>, TaskState> {
    if m.contains_key(id) {
        m.insert(id, TaskState { status: TaskStatus::Failed, error: Some(error), ..m[id] })
    } else {
        m
    }
}

/// What a download of task `id` gives: the output path of a completed task, or why not.
pub open spec fn download_decision(m: Map<Seq<char>, TaskState>, id: Seq<char>) -> Result<Seq<char>, DownloadRefusal> {
    if !m.contains_key(id) {
        Err(DownloadRefusal::NotFound)
    } else if m[id].status != TaskStatus::Completed {
        Err(DownloadRefusal::NotCompleted(m[id].status))
    } else {
        Ok(m[id].output_path)
    }
}

proof fn lemma_tasks_map_lookup(s: Seq<TaskInfo>, i: int)
    requires
        ids_distinct(s),
        0 <= i < s.len(),
    ensures
        tasks_map(s).contains_key(s[i].id@),
        tasks_map(s)[s[i].id@] == s[i].state(),
    decreases s.len(),
{
    if i < s.len() - 1 {
        lemma_tasks_map_lookup(s.drop_last(), i);
        assert(s.drop_last()[i] == s[i]);
    }
}

proof fn lemma_tasks_map_absent(s: Seq<TaskInfo>, k: Seq<char>)
    requires
        forall|i: int| 0 <= i < s.len() ==> s[i].id@ != k,
    ensures
        !tasks_map(s).contains_key(k),
    decreases s.len(),
{
    if s.len() > 0 {
        lemma_tasks_map_absent(s.drop_last(), k);
        assert(s.last().id@ != k);
    }
}

proof fn lemma_tasks_map_update(s: Seq<TaskInfo>, i: int, r: TaskInfo)
    requires
        ids_distinct(s),
        0 <= i < s.len(),
        r.id@ == s[i].id@,
    ensures
        tasks_map(s.update(i, r)) == tasks_map(s).insert(r.id@, r.state()),
    decreases s.len(),
{
    let u = s.update(i, r);
    if i == s.len() - 1 {
        assert(u.drop_last() =~= s.drop_last());
        assert(tasks_map(u) =~= tasks_map(s).insert(r.id@, r.state()));
    } else {
        assert(u.drop_last() =~= s.drop_last().update(i, r));
        lemma_tasks_map_update(s.drop_last(), i, r);
        assert(s.last().id@ != r.id@);
        assert(tasks_map(u) =~= tasks_map(s).insert(r.id@, r.state()));
    }
}

/// The table of all render tasks, keyed by id.
pub struct TaskTable {
    tasks: Vec<TaskInfo>,
}

impl View for TaskTable {
    type V = Map<Seq<char>, TaskState>;

    closed spec fn view(&self) -> Map<Seq<char>, TaskState> {
        tasks_map(self.tasks@)
    }
}

impl TaskTable {
    #[verifier::type_invariant]
    closed spec fn wf(self) -> bool {
        ids_distinct(self.tasks@)
    }

    /// An empty table.
    pub fn new() -> (res: Self)
        ensures
            res@ == Map::<Seq<char>, TaskState>::empty(),
    {
        TaskTable { tasks: Vec::new() }
    }

    /// Position of the task `id`.
    fn find_index(&self, id: &str) -> (res: Option<usize>)
        ensures
            match res {
                Some(i) => i < self.tasks@.len() && self.tasks@[i as int].id@ == id@,
                None => forall|i: int| 0 <= i < self.tasks@.len() ==> self.tasks@[i].id@ != id@,
            },
    {
        let mut i: usize = 0;
        while i < self.tasks.len()
            invariant
                i <= self.tasks@.len(),
                forall|j: int| 0 <= j < i ==> self.tasks@[j].id@ != id@,
            decreases self.tasks@.len() - i,
        {
            if text_eq(self.tasks[i].id.as_str(), id) {
                return Some(i);
            }
            i = i + 1;
        }
        None
    }

    /// Registers a new queued task; a task with the same id is replaced.
    pub fn create_task(&mut self, id: String, output_path: String, total_frames: u32)
        ensures
            final(self)@ == after_create(old(self)@, id@, output_path@, total_frames),
    {
        proof { use_type_invariant(&*self); }
        let record = TaskInfo {
            id: id,
            status: TaskStatus::Queued,
            output_path: output_path,
            total_frames: total_frames,
            current_frame: 0,
            error: None,
        };
        let ghost k = record.id@;
        match self.find_index(record.id.as_str()) {
            Some(i) => {
                proof { lemma_tasks_map_update(self.tasks@, i as int, record); }
                let ghost s = self.tasks@;
                let mut tasks: Vec<TaskInfo> = Vec::new();
                std::mem::swap(&mut tasks, &mut self.tasks);
                tasks.set(i, record);
                assert(tasks@ == s.update(i as int, record));
                assert(ids_distinct(tasks@));
                self.tasks = tasks;
            },
            None => {
                let ghost s = self.tasks@;
                let mut tasks: Vec<TaskInfo> = Vec::new();
                std::mem::swap(&mut tasks, &mut self.tasks);
                tasks.push(record);
                assert(tasks@ == s.push(record));
                assert(tasks@.drop_last() =~= s);
                assert(ids_distinct(tasks@));
                self.tasks = tasks;
            },
        }
    }

    /// The record of task `id`, if it is registered.
    pub fn get(&self, id: &str) -> (res: Option<&TaskInfo>)
        ensures
            match res {
                Some(t) => self@.contains_key(id@) && t.id@ == id@ && t.state() == self@[id@],
                None => !self@.contains_key(id@),
            },
    {
        proof { use_type_invariant(self); }
        match self.find_index(id) {
            Some(i) => {
                proof { lemma_tasks_map_lookup(self.tasks@, i as int); }
                Some(&self.tasks[i])
            },
            None => {
                proof { lemma_tasks_map_absent(self.tasks@, id@); }
                None
            },
        }
    }

    /// Records that frame `frame` of `total_frames` of task `id` is done and
    /// returns the event to broadcast; an unknown id changes nothing.
    pub fn update_progress(&mut self, id: &str, frame: u32, total_frames: u32) -> (res: Option<ProgressEvent>)
        ensures
            final(self)@ == after_progress(old(self)@, id@, frame),
            old(self)@.contains_key(id@) ==> final(self)@.contains_key(id@)
                && final(self)@[id@].current_frame == frame
                && final(self)@[id@].status == TaskStatus::Rendering,
            match res {
                Some(e) => old(self)@.contains_key(id@) && e.state() == (EventState {
                    frame: frame,
                    total_frames: total_frames,
                    status: TaskStatus::Rendering,
                    error: None,
                }),
                None => !old(self)@.contains_key(id@),
            },
    {
        proof { use_type_invariant(&*self); }
        match self.find_index(id) {
            Some(i) => {
                let ghost s = self.tasks@;
                proof { lemma_tasks_map_lookup(s, i as int); }
                let mut tasks: Vec<TaskInfo> = Vec::new();
                std::mem::swap(&mut tasks, &mut self.tasks);
                tasks[i].current_frame = frame;
                tasks[i].status = TaskStatus::Rendering;
                proof {
                    lemma_tasks_map_update(s, i as int, tasks@[i as int]);
                    assert(tasks@ =~= s.update(i as int, tasks@[i as int]));
                }
                self.tasks = tasks;
                Some(ProgressEvent { frame, total_frames, status: TaskStatus::Rendering, error: None })
            },
            None => {
                proof { lemma_tasks_map_absent(self.tasks@, id@); }
                None
            },
        }
    }

    /// Marks task `id` completed and returns the event to broadcast, which reports
    /// all of the task's frames done; an unknown id changes nothing.
    pub fn complete_task(&mut self, id: &str) -> (res: Option<ProgressEvent>)
        ensures
            final(self)@ == after_complete(old(self)@, id@),
            match res {
                Some(e) => old(self)@.contains_key(id@) && e.state() == (EventState {
                    frame: old(self)@[id@].total_frames,
                    total_frames: old(self)@[id@].total_frames,
                    status: TaskStatus::Completed,
                    error: None,
                }),
                None => !old(self)@.contains_key(id@),
            },
    {
        proof { use_type_invariant(&*self); }
        match self.find_index(id) {
            Some(i) => {
                let ghost s = self.tasks@;
                proof { lemma_tasks_map_lookup(s, i as int); }
                let mut tasks: Vec<TaskInfo> = Vec::new();
                std::mem::swap(&mut tasks, &mut self.tasks);
                tasks[i].status = TaskStatus::Completed;
                let total = tasks[i].total_frames;
                proof {
                    lemma_tasks_map_update(s, i as int, tasks@[i as int]);
                    assert(tasks@ =~= s.update(i as int, tasks@[i as int]));
                }
                self.tasks = tasks;
                Some(ProgressEvent { frame: total, total_frames: total, status: TaskStatus::Completed, error: None })
            },
            None => {
                proof { lemma_tasks_map_absent(self.tasks@, id@); }
                None
            },
        }
    }

    /// Marks task `id` failed with `error` and returns the event to broadcast,
    /// which reports the frames done so far; an unknown id changes nothing.
    pub fn fail_task(&mut self, id: &str, error: String) -> (res: Option<ProgressEvent>)
        ensures
            final(self)@ == after_fail(old(self)@, id@, error@),
            match res {
                Some(e) => old(self)@.contains_key(id@) && e.state() == (EventState {
                    frame: old(self)@[id@].current_frame,
                    total_frames: old(self)@[id@].total_frames,
                    status: TaskStatus::Failed,
                    error: Some(error@),
                }),
                None => !old(self)@.contains_key(id@),
            },
    {
        proof { use_type_invariant(&*self); }
        match self.find_index(id) {
            Some(i) => {
                let ghost s = self.tasks@;
                proof { lemma_tasks_map_lookup(s, i as int); }
                let mut tasks: Vec<TaskInfo> = Vec::new();
                std::mem::swap(&mut tasks, &mut self.tasks);
                let message = error.clone();
                tasks[i].status = TaskStatus::Failed;
                tasks[i].error = Some(error);
                let frame = tasks[i].current_frame;
                let total = tasks[i].total_frames;
                proof {
                    lemma_tasks_map_update(s, i as int, tasks@[i as int]);
                    assert(tasks@ =~= s.update(i as int, tasks@[i as int]));
                }
                self.tasks = tasks;
                Some(ProgressEvent { frame, total_frames: total, status: TaskStatus::Failed, error: Some(message) })
            },
            None => {
                proof { lemma_tasks_map_absent(self.tasks@, id@); }
                None
            },
        }
    }

    /// The output path of task `id` if it has completed, or why it cannot be downloaded.
    pub fn download_target(&self, id: &str) -> (res: Result<String, DownloadRefusal>)
        ensures
            match res {
                Ok(p) => download_decision(self@, id@) == Ok::<Seq<char>, DownloadRefusal>(p@),
                Err(r) => download_decision(self@, id@) == Err::<Seq<char>, DownloadRefusal>(r),
            },
    {
        match self.get(id) {
            None => Err(DownloadRefusal::NotFound),
            Some(t) => {
                if t.status != TaskStatus::Completed {
                    Err(DownloadRefusal::NotCompleted(t.status))
                } else {
                    Ok(t.output_path.clone())
                }
            },
        }
    }
}

/// The name a status is printed with (`{:?}`).
pub open spec fn status_name(s: TaskStatus) -> Seq<char> {
    match s {
        TaskStatus::Queued => "Queued"@,
        TaskStatus::Rendering => "Rendering"@,
        TaskStatus::Completed => "Completed"@,
        TaskStatus::Failed => "Failed"@,
    }
}

/// The message of a request naming an unknown task.
pub open spec fn not_found_text(task_id: Seq<char>) -> Seq<char> {
    "タスクが見つかりません: "@ + task_id
}

/// The message of a refused download.
pub open spec fn refusal_text(r: DownloadRefusal, task_id: Seq<char>) -> Seq<char> {
    match r {
        DownloadRefusal::NotFound => not_found_text(task_id),
        DownloadRefusal::NotCompleted(s) => "タスクはまだ完了していません (現在の状態: "@ + status_name(s) + ")"@,
    }
}

impl TaskStatus {
    /// The name the status is printed with.
    pub fn name(&self) -> (res: &'static str)
        ensures
            res@ == status_name(*self),
    {
        match self {
            TaskStatus::Queued => "Queued",
            TaskStatus::Rendering => "Rendering",
            TaskStatus::Completed => "Completed",
            TaskStatus::Failed => "Failed",
        }
    }
}

/// The message answered for a request that names an unknown task.
pub fn task_not_found_message(task_id: &str) -> (res: String)
    ensures
        res@ == not_found_text(task_id@),
{
    let mut out = "タスクが見つかりません: ".to_owned();
    push_text(&mut out, task_id);
    out
}

impl DownloadRefusal {
    /// The HTTP status a refused download is answered with: 404 for an
    /// unknown task, 400 for one that has not completed.
    pub fn status_code(&self) -> (res: u16)
        ensures
            res == (if *self == DownloadRefusal::NotFound { 404u16 } else { 400u16 }),
    {
        match self {
            DownloadRefusal::NotFound => 404,
            DownloadRefusal::NotCompleted(_) => 400,
        }
    }

    /// The error message a refused download of task `task_id` is answered with.
    pub fn message(&self, task_id: &str) -> (res: String)
        ensures
            res@ == refusal_text(*self, task_id@),
    {
        match self {
            DownloadRefusal::NotFound => task_not_found_message(task_id),
            DownloadRefusal::NotCompleted(s) => {
                let mut out = "タスクはまだ完了していません (現在の状態: ".to_owned();
                push_text(&mut out, s.name());
                push_text(&mut out, ")");
                out
            },
        }
    }
}

/// A task reads back as registered: queued, no frame done, no error, with the
/// output path and frame count it was registered with, whatever the table held
/// before under that id.
pub proof fn law_registered_task_reads_back(
    m: Map<Seq<char>, TaskState>,
    id: Seq<char>,
    output_path: Seq<char>,
    total_frames: u32,
)
    ensures
        after_create(m, id, output_path, total_frames).contains_key(id),
        after_create(m, id, output_path, total_frames)[id] == queued_state(output_path, total_frames),
        after_create(m, id, output_path, total_frames)[id].status == TaskStatus::Queued,
        after_create(m, id, output_path, total_frames)[id].current_frame == 0,
        after_create(m, id, output_path, total_frames)[id].error is None,
{
}

/// Every progress report on a registered task records its frame, whatever
/// state the task was in: the task reads back as rendering at the reported
/// frame, with its output path, frame count and error kept, and a later report
/// replaces an earlier one.
pub proof fn law_progress_records_every_report(
    m: Map<Seq<char>, TaskState>,
    id: Seq<char>,
    first: u32,
    second: u32,
)
    requires
        m.contains_key(id),
    ensures
        after_progress(m, id, first).contains_key(id),
        after_progress(m, id, first)[id].current_frame == first,
        after_progress(m, id, first)[id].status == TaskStatus::Rendering,
        after_progress(m, id, first)[id].output_path == m[id].output_path,
        after_progress(m, id, first)[id].total_frames == m[id].total_frames,
        after_progress(m, id, first)[id].error == m[id].error,
        after_progress(after_progress(m, id, first), id, second)[id].current_frame == second,
        after_progress(after_progress(m, id, first), id, second)[id].status == TaskStatus::Rendering,
{
}

/// Each task operation changes only the task it names: every other task keeps
/// its presence and its state.
pub proof fn law_operations_touch_only_their_task(
    m: Map<Seq<char>, TaskState>,
    id: Seq<char>,
    other: Seq<char>,
    output_path: Seq<char>,
    total_frames: u32,
    frame: u32,
    error: Seq<char>,
)
    requires
        other != id,
    ensures
        after_create(m, id, output_path, total_frames).contains_key(other) == m.contains_key(other),
        after_progress(m, id, frame).contains_key(other) == m.contains_key(other),
        after_complete(m, id).contains_key(other) == m.contains_key(other),
        after_fail(m, id, error).contains_key(other) == m.contains_key(other),
        m.contains_key(other) ==> {
            &&& after_create(m, id, output_path, total_frames)[other] == m[other]
            &&& after_progress(m, id, frame)[other] == m[other]
            &&& after_complete(m, id)[other] == m[other]
            &&& after_fail(m, id, error)[other] == m[other]
        },
{
}

/// Reporting progress on, completing or failing a task that was never
/// registered leaves the table as it was.
pub proof fn law_unknown_task_is_ignored(m: Map<Seq<char>, TaskState>, id: Seq<char>, frame: u32, error: Seq<char>)
    requires
        !m.contains_key(id),
    ensures
        after_progress(m, id, frame) == m,
        after_complete(m, id) == m,
        after_fail(m, id, error) == m,
{
}

/// A registered task's output can be downloaded once it completes, whatever
/// progress was reported before, and the download is the output path it was
/// registered with; before completion, or after a failure, it is refused
/// with the task's status.
pub proof fn law_download_after_completion(
    m: Map<Seq<char>, TaskState>,
    id: Seq<char>,
    output_path: Seq<char>,
    total_frames: u32,
    frame: u32,
    error: Seq<char>,
)
    ensures
        download_decision(after_complete(after_create(m, id, output_path, total_frames), id), id)
            == Ok::<Seq<char>, DownloadRefusal>(output_path),
        download_decision(
            after_complete(after_progress(after_create(m, id, output_path, total_frames), id, frame), id),
            id,
        ) == Ok::<Seq<char>, DownloadRefusal>(output_path),
        download_decision(after_create(m, id, output_path, total_frames), id)
            == Err::<Seq<char>, DownloadRefusal>(DownloadRefusal::NotCompleted(TaskStatus::Queued)),
        download_decision(after_progress(after_create(m, id, output_path, total_frames), id, frame), id)
            == Err::<Seq<char>, DownloadRefusal>(DownloadRefusal::NotCompleted(TaskStatus::Rendering)),
        download_decision(after_fail(after_create(m, id, output_path, total_frames), id, error), id)
            == Err::<Seq<char>, DownloadRefusal>(DownloadRefusal::NotCompleted(TaskStatus::Failed)),
{
}

/// A failed task keeps the failure message and the frames it had reached.
pub proof fn law_failure_is_recorded(
    m: Map<Seq<char>, TaskState>,
    id: Seq<char>,
    output_path: Seq<char>,
    total_frames: u32,
    frame: u32,
    error: Seq<char>,
)
    ensures
        ({
            let t = after_fail(after_progress(after_create(m, id, output_path, total_frames), id, frame), id, error)[id];
            t.status == TaskStatus::Failed && t.error == Some(error) && t.current_frame == frame
                && t.total_frames == total_frames && t.output_path == output_path
        }),
{
}

} // verus!
