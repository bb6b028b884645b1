//! The download registry: the task list that the downloads panel shows, the
//! control flags of the running transfers, and the request waiting for the user
//! to pick a folder. Transfers themselves (HTTP, files, threads) run outside and
//! report back through `record_response`, `record_progress` and `finish`.
use vstd::prelude::*;
use std::collections::HashMap;
use crate::filenames::{sanitize, sanitized, unique_path, is_candidate};
use crate::paths::{join_path, path_exists};
use crate::text::{chars_of, dec, dec_u64, owned, push_all, str_eq, string_of, trim, trim_chars};
use crate::util::{parse_uint, parse_unsigned};

verus! {

/// State names as the panel and the saved list spell them.
pub open spec fn st_downloading() -> Seq<char> {
    "downloading"@
}

pub open spec fn st_paused() -> Seq<char> {
    "paused"@
}

pub open spec fn st_done() -> Seq<char> {
    "done"@
}

pub open spec fn st_canceled() -> Seq<char> {
    "canceled"@
}

pub open spec fn st_error() -> Seq<char> {
    "error"@
}

/// A task that has not finished: still transferring, or paused.
pub open spec fn is_active(state: Seq<char>) -> bool {
    state == st_downloading() || state == st_paused()
}

/// Error recorded for a transfer that the program's restart cut off.
pub open spec fn interrupted_msg() -> Seq<char> {
    "程序重启，下载中断"@
}

/// One download, as listed and saved.
#[derive(Debug, Clone)]
pub struct DownloadTask {
    pub id: u64,
    pub name: String,
    pub url: String,
    pub file: String,
    pub state: String,
    pub bytes: u64,
    pub total: Option<u64>,
    pub error: Option<String>,
    /// Version of the remote resource (ETag or Last-Modified), checked on resume.
    pub etag: Option<String>,
    /// Whether the file is still on disk (computed when listing).
    pub exists: bool,
    /// Current speed in bytes per second.
    pub speed: u64,
}

/// A task with its strings taken by their characters.
pub struct TaskView {
    pub id: u64,
    pub name: Seq<char>,
    pub url: Seq<char>,
    pub file: Seq<char>,
    pub state: Seq<char>,
    pub bytes: u64,
    pub total: Option<u64>,
    pub error: Option<Seq<char>>,
    pub etag: Option<Seq<char>>,
    pub exists: bool,
    pub speed: u64,
}

pub open spec fn opt_view(o: Option<String>) -> Option<Seq<char>> {
    match o {
        Some(s) => Some(s@),
        None => None,
    }
}

impl View for DownloadTask {
    type V = TaskView;

    open spec fn view(&self) -> TaskView {
        TaskView {
            id: self.id,
            name: self.name@,
            url: self.url@,
            file: self.file@,
            state: self.state@,
            bytes: self.bytes,
            total: self.total,
            error: opt_view(self.error),
            etag: opt_view(self.etag),
            exists: self.exists,
            speed: self.speed,
        }
    }
}

/// Copies an optional string.
pub fn copy_opt(o: &Option<String>) -> (r: Option<String>)
    ensures
        opt_view(r) == opt_view(*o),
{
    match o {
        Some(s) => Some(s.clone()),
        None => None,
    }
}

impl DownloadTask {
    /// A copy with the same contents.
    pub fn copy(&self) -> (r: DownloadTask)
        ensures
            r@ == self@,
    {
        DownloadTask {
            id: self.id,
            name: self.name.clone(),
            url: self.url.clone(),
            file: self.file.clone(),
            state: self.state.clone(),
            bytes: self.bytes,
            total: self.total,
            error: copy_opt(&self.error),
            etag: copy_opt(&self.etag),
            exists: self.exists,
            speed: self.speed,
        }
    }
}

impl Default for DownloadTask {
    /// The empty task that a saved entry's missing fields default to.
    fn default() -> (r: DownloadTask)
        ensures
            r@ == (TaskView {
                id: 0,
                name: Seq::empty(),
                url: Seq::empty(),
                file: Seq::empty(),
                state: st_error(),
                bytes: 0,
                total: None,
                error: None,
                etag: None,
                exists: false,
                speed: 0,
            }),
    {
        DownloadTask {
            id: 0,
            name: String::new(),
            url: String::new(),
            file: String::new(),
            state: owned("error"),
            bytes: 0,
            total: None,
            error: None,
            etag: None,
            exists: false,
            speed: 0,
        }
    }
}

/// The control flags of a running transfer.
#[derive(Debug, Clone, Copy, PartialEq, Eq, Structural)]
pub struct Worker {
    pub cancel: bool,
    pub pause: bool,
}

/// The download registry.
pub struct Downloads {
    tasks: Vec<DownloadTask>,
    next_id: u64,
    workers: HashMap<u64, Worker>,
    pending: Option<(String, String)>,
}

/// The registry's contents: tasks (newest first), the next id to hand out, the
/// flags of running transfers, and the request waiting for a folder (url, name).
pub struct DlView {
    pub tasks: Seq<TaskView>,
    pub next_id: u64,
    pub workers: Map<u64, Worker>,
    pub pending: Option<(Seq<char>, Seq<char>)>,
}

pub open spec fn pending_view(p: Option<(String, String)>) -> Option<(Seq<char>, Seq<char>)> {
    match p {
        Some(x) => Some((x.0@, x.1@)),
        None => None,
    }
}

impl View for Downloads {
    type V = DlView;

    closed spec fn view(&self) -> DlView {
        DlView {
            tasks: self.tasks@.map_values(|t: DownloadTask| t@),
            next_id: self.next_id,
            workers: self.workers@,
            pending: pending_view(self.pending),
        }
    }
}

// ───────────────────────────── lookups ─────────────────────────────

/// Index of the first task with `id`, from `i` on.
pub open spec fn task_index_from(ts: Seq<TaskView>, id: u64, i: int) -> Option<int>
    decreases ts.len() - i,
{
    if i < 0 || i >= ts.len() {
        None
    } else if ts[i].id == id {
        Some(i)
    } else {
        task_index_from(ts, id, i + 1)
    }
}

/// Index of the first task with `id`.
pub open spec fn task_index(ts: Seq<TaskView>, id: u64) -> Option<int> {
    task_index_from(ts, id, 0)
}

pub proof fn lemma_task_index_from(ts: Seq<TaskView>, id: u64, i: int)
    requires
        0 <= i,
    ensures
        task_index_from(ts, id, i) matches Some(k) ==> i <= k < ts.len() && ts[k].id == id
            && forall|j: int| i <= j < k ==> ts[j].id != id,
        task_index_from(ts, id, i) is None ==> forall|j: int| i <= j < ts.len() ==> ts[j].id != id,
    decreases ts.len() - i,
{
    if i < ts.len() && ts[i].id != id {
        lemma_task_index_from(ts, id, i + 1);
    }
}

pub proof fn lemma_task_index(ts: Seq<TaskView>, id: u64)
    ensures
        task_index(ts, id) matches Some(k) ==> 0 <= k < ts.len() && ts[k].id == id && forall|
            j: int,
        |
            0 <= j < k ==> ts[j].id != id,
        task_index(ts, id) is None ==> forall|j: int| 0 <= j < ts.len() ==> ts[j].id != id,
{
    lemma_task_index_from(ts, id, 0);
}

/// Some unfinished task already downloads `url`.
pub open spec fn has_dup(ts: Seq<TaskView>, url: Seq<char>) -> bool {
    exists|i: int| 0 <= i < ts.len() && ts[i].url == url && is_active(ts[i].state)
}

/// Some task is unfinished.
pub open spec fn any_active(ts: Seq<TaskView>) -> bool {
    exists|i: int| 0 <= i < ts.len() && is_active(#[trigger] ts[i].state)
}

/// The registry's invariant: ids handed out so far, of tasks and of running
/// transfers, are below `next_id`.
pub open spec fn wf(m: DlView) -> bool {
    &&& forall|i: int| 0 <= i < m.tasks.len() ==> #[trigger] m.tasks[i].id < m.next_id
    &&& forall|id: u64| #[trigger] m.workers.contains_key(id) ==> id < m.next_id
}

/// No two tasks share an id.
pub open spec fn unique_ids(ts: Seq<TaskView>) -> bool {
    forall|a: int, b: int| 0 <= a < b < ts.len() ==> #[trigger] ts[a].id != #[trigger] ts[b].id
}

// ───────────────────────────── operations as specs ─────────────────────────────

/// Fresh flags for a transfer about to start.
pub open spec fn fresh_worker() -> Worker {
    Worker { cancel: false, pause: false }
}

/// `cancel(id)`: raises the cancel flag of a running transfer.
pub open spec fn spec_cancel(m: DlView, id: u64) -> (DlView, bool) {
    if m.workers.contains_key(id) {
        (DlView { workers: m.workers.insert(id, Worker { cancel: true, ..m.workers[id] }), ..m }, true)
    } else {
        (m, false)
    }
}

/// `pause(id, on)`: pauses or resumes a running transfer; resuming a task
/// without a running transfer starts one for it.
pub open spec fn spec_pause(m: DlView, id: u64, on: bool) -> (DlView, bool) {
    if m.workers.contains_key(id) {
        let ws = m.workers.insert(id, Worker { pause: on, ..m.workers[id] });
            let ts = match task_index(m.tasks, id) {
                Some(k) => m.tasks.update(
                    k,
                    TaskView {
                        state: if on { st_paused() } else { st_downloading() },
                        speed: if on { 0 } else { m.tasks[k].speed },
                        ..m.tasks[k]
                    },
                ),
                None => m.tasks,
            };
            (DlView { tasks: ts, workers: ws, ..m }, true)
    } else {
        if on {
            (m, false)
        } else {
            match task_index(m.tasks, id) {
                Some(k) => (
                    DlView {
                        tasks: m.tasks.update(
                            k,
                            TaskView { state: st_downloading(), error: None, ..m.tasks[k] },
                        ),
                        workers: m.workers.insert(id, fresh_worker()),
                        ..m
                    },
                    true,
                ),
                None => (m, false),
            }
        }
    }
}

/// The ids of the tasks that are transferring, newest first.
pub open spec fn downloading_ids(ts: Seq<TaskView>) -> Seq<u64>
    decreases ts.len(),
{
    if ts.len() == 0 {
        Seq::empty()
    } else if ts.last().state == st_downloading() {
        downloading_ids(ts.drop_last()).push(ts.last().id)
    } else {
        downloading_ids(ts.drop_last())
    }
}

/// Pauses each of `ids` in turn.
pub open spec fn pause_each(m: DlView, ids: Seq<u64>) -> DlView
    decreases ids.len(),
{
    if ids.len() == 0 {
        m
    } else {
        spec_pause(pause_each(m, ids.drop_last()), ids.last(), true).0
    }
}

/// `offer(url, name, .., true)`: keeps the request until the user picks a folder,
/// unless the url is already being downloaded.
pub open spec fn spec_offer_ask(m: DlView, url: Seq<char>, name: Seq<char>) -> (DlView, bool) {
    if has_dup(m.tasks, url) {
        (m, false)
    } else {
        (DlView { pending: Some((url, name)), ..m }, true)
    }
}

/// `take_pending()`: hands out the waiting request and forgets it.
pub open spec fn spec_take_pending(m: DlView) -> (DlView, Option<(Seq<char>, Seq<char>)>) {
    (DlView { pending: None, ..m }, m.pending)
}

/// `remove(id)`: drops the first task with `id` from the list (keeping its file);
/// an unfinished task's transfer is told to cancel.
pub open spec fn spec_remove(m: DlView, id: u64) -> (DlView, bool) {
    match task_index(m.tasks, id) {
        Some(k) => {
            let ws = if is_active(m.tasks[k].state) {
                spec_cancel(m, id).0.workers
            } else {
                m.workers
            };
            (DlView { tasks: m.tasks.remove(k), workers: ws, ..m }, true)
        },
        None => (m, false),
    }
}

/// `retry(id)`: restarts a task that has no running transfer, in place, from zero.
pub open spec fn spec_retry(m: DlView, id: u64) -> (DlView, bool) {
    if m.workers.contains_key(id) {
        (m, false)
    } else {
        match task_index(m.tasks, id) {
            Some(k) => (
                DlView {
                    tasks: m.tasks.update(
                        k,
                        TaskView {
                            state: st_downloading(),
                            error: None,
                            bytes: 0,
                            speed: 0,
                            etag: None,
                            ..m.tasks[k]
                        },
                    ),
                    workers: m.workers.insert(id, fresh_worker()),
                    ..m
                },
                true,
            ),
            None => (m, false),
        }
    }
}

/// The new task that `start` puts at the head of the list.
pub open spec fn new_task(id: u64, url: Seq<char>, file: Seq<char>, name: Seq<char>) -> TaskView {
    TaskView {
        id,
        name,
        url,
        file,
        state: st_downloading(),
        bytes: 0,
        total: None,
        error: None,
        etag: None,
        exists: false,
        speed: 0,
    }
}

/// Registration of a new transfer for `url` saved at `file` and shown as `name`.
pub open spec fn spec_register(m: DlView, url: Seq<char>, file: Seq<char>, name: Seq<char>) -> DlView {
    DlView {
        tasks: seq![new_task(m.next_id, url, file, name)] + m.tasks,
        next_id: (m.next_id + 1) as u64,
        workers: m.workers.insert(m.next_id, fresh_worker()),
        pending: m.pending,
    }
}

/// What a running transfer does next.
#[derive(Clone, Copy, Debug, PartialEq, Eq, Structural)]
pub enum TransferStep {
    /// Stop: remove the partial file and end as canceled.
    Cancel,
    /// Wait while paused.
    Hold,
    /// Go on transferring.
    Go,
}

/// The error a canceled transfer ends with.
pub open spec fn canceled_msg() -> Seq<char> {
    "已取消"@
}

/// The error a canceled transfer ends with.
pub fn canceled_error() -> (r: String)
    ensures
        r@ == canceled_msg(),
{
    owned("已取消")
}

/// How a finished transfer ended.
pub enum Outcome {
    /// All bytes arrived: (bytes received, total size).
    Completed(u64, u64),
    /// The transfer stopped with this message.
    Failed(String),
}

/// `finish(id, outcome)`: records the end of the transfer for `id` and drops its flags.
/// A failure after a cancel request counts as canceled. Returns the name to
/// announce when a download completed.
pub open spec fn spec_finish(m: DlView, id: u64, ok: bool, bytes: u64, total: u64, err: Seq<char>) -> (
    DlView,
    Option<Seq<char>>,
) {
    let canceled = m.workers.contains_key(id) && m.workers[id].cancel;
    let state = if ok {
        st_done()
    } else if canceled {
        st_canceled()
    } else {
        st_error()
    };
    let ws = m.workers.remove(id);
    match task_index(m.tasks, id) {
        Some(k) => {
            let t = m.tasks[k];
            let t2 = if ok {
                TaskView { state, error: None, speed: 0, bytes, total: Some(total), ..t }
            } else {
                TaskView { state, error: Some(err), speed: 0, ..t }
            };
            (
                DlView { tasks: m.tasks.update(k, t2), workers: ws, ..m },
                if ok && t.name.len() > 0 {
                    Some(t.name)
                } else {
                    None
                },
            )
        },
        None => (DlView { workers: ws, ..m }, None),
    }
}

/// A saved task as it comes back after a restart, given the size of its file on disk:
/// an unfinished task with bytes on disk becomes a paused task that can resume
/// from them; one without becomes failed.
pub open spec fn restored(t: TaskView, on_disk: u64) -> TaskView {
    if is_active(t.state) {
        if on_disk > 0 {
            TaskView { bytes: on_disk, state: st_paused(), error: None, speed: 0, ..t }
        } else {
            TaskView {
                state: st_error(),
                error: if t.error is None {
                    Some(interrupted_msg())
                } else {
                    t.error
                },
                speed: 0,
                ..t
            }
        }
    } else {
        TaskView { speed: 0, ..t }
    }
}

/// The largest id among the tasks (0 when there are none).
pub open spec fn max_id(ts: Seq<TaskView>) -> u64
    decreases ts.len(),
{
    if ts.len() == 0 {
        0
    } else {
        let rest = max_id(ts.drop_last());
        if ts.last().id > rest {
            ts.last().id
        } else {
            rest
        }
    }
}

pub proof fn lemma_max_id(ts: Seq<TaskView>)
    ensures
        forall|i: int| 0 <= i < ts.len() ==> ts[i].id <= max_id(ts),
    decreases ts.len(),
{
    if ts.len() > 0 {
        lemma_max_id(ts.drop_last());
        assert forall|i: int| 0 <= i < ts.len() implies ts[i].id <= max_id(ts) by {
            if i < ts.len() - 1 {
                assert(ts[i] == ts.drop_last()[i]);
            }
        }
    }
}


// ───────────────────────────── the registry ─────────────────────────────

impl Downloads {
    /// Index of the first task with `id`.
    fn find_task(&self, id: u64) -> (r: Option<usize>)
        ensures
            r matches Some(k) ==> task_index(self@.tasks, id) == Some(k as int) && k
                < self@.tasks.len() && k < self.tasks@.len() && self@.tasks[k as int].id == id,
            r is None ==> task_index(self@.tasks, id) is None,
    {
        proof {
            lemma_task_index(self@.tasks, id);
        }
        let mut i: usize = 0;
        while i < self.tasks.len()
            invariant
                i <= self@.tasks.len(),
                self@.tasks.len() == self.tasks@.len(),
                task_index(self@.tasks, id) == task_index_from(self@.tasks, id, i as int),
            decreases self@.tasks.len() - i,
        {
            if self.tasks[i].id == id {
                return Some(i);
            }
            i = i + 1;
        }
        None
    }

    /// Index of the flags of the transfer for `id`.
    /// The flags of the transfer for `id`, if one runs.
    fn flags_of(&self, id: u64) -> (r: Option<Worker>)
        ensures
            r == (if self@.workers.contains_key(id) {
                Some(self@.workers[id])
            } else {
                None
            }),
    {
        match self.workers.get(&id) {
            Some(w) => Some(*w),
            None => None,
        }
    }

    fn replace_task(&mut self, k: usize, t: DownloadTask)
        requires
            k < old(self)@.tasks.len(),
        ensures
            final(self)@ == (DlView { tasks: old(self)@.tasks.update(k as int, t@), ..old(self)@ }),
    {
        self.tasks.set(k, t);
        assert(self@.tasks =~= old(self)@.tasks.update(k as int, t@));
    }

    fn put_worker(&mut self, id: u64, w: Worker)
        ensures
            final(self)@ == (DlView { workers: old(self)@.workers.insert(id, w), ..old(self)@ }),
    {
        self.workers.insert(id, w);
    }

    /// The registry restored from the saved list. `on_disk[i]` is the size of the
    /// file of `saved[i]` as found now (0 when it is missing).
    pub fn new(saved: Vec<DownloadTask>, on_disk: Vec<u64>) -> (r: Downloads)
        requires
            saved@.len() == on_disk@.len(),
            max_id(saved@.map_values(|t: DownloadTask| t@)) < u64::MAX,
        ensures
            wf(r@),
            r@.tasks.len() == saved@.len(),
            forall|i: int|
                0 <= i < saved@.len() ==> #[trigger] r@.tasks[i] == restored(saved@[i]@, on_disk@[i]),
            r@.next_id == max_id(saved@.map_values(|t: DownloadTask| t@)) + 1,
            r@.workers == Map::<u64, Worker>::empty(),
            r@.pending is None,
    {
        let ghost sv = saved@.map_values(|t: DownloadTask| t@);
        let mut tasks: Vec<DownloadTask> = Vec::new();
        let mut max: u64 = 0;
        let mut i: usize = 0;
        while i < saved.len()
            invariant
                i <= saved@.len(),
                saved@.len() == on_disk@.len(),
                sv == saved@.map_values(|t: DownloadTask| t@),
                tasks@.len() == i,
                forall|j: int| 0 <= j < i ==> #[trigger] tasks@[j]@ == restored(saved@[j]@, on_disk@[j]),
                max == max_id(sv.take(i as int)),
            decreases saved@.len() - i,
        {
            let mut t = saved[i].copy();
            let st = t.state.as_str();
            let active = str_eq(st, "downloading") || str_eq(st, "paused");
            if active {
                if on_disk[i] > 0 {
                    t.bytes = on_disk[i];
                    t.state = owned("paused");
                    t.error = None;
                } else {
                    t.state = owned("error");
                    if t.error.is_none() {
                        t.error = Some(owned("程序重启，下载中断"));
                    }
                }
            }
            t.speed = 0;
            if t.id > max {
                max = t.id;
            }
            tasks.push(t);
            i = i + 1;
            assert(sv.take(i as int).drop_last() =~= sv.take(i - 1));
        }
        assert(sv.take(saved@.len() as int) =~= sv);
        proof {
            lemma_max_id(sv);
        }
        let r = Downloads { tasks, next_id: max + 1, workers: HashMap::new(), pending: None };
        assert forall|j: int| 0 <= j < r@.tasks.len() implies #[trigger] r@.tasks[j].id < r@.next_id by {
            assert(r@.tasks[j].id == sv[j].id);
        }
        r
    }

    /// The id the next download will get.
    pub fn next_id(&self) -> (r: u64)
        ensures
            r == self@.next_id,
    {
        self.next_id
    }

    /// Whether some unfinished task already downloads `url`.
    pub fn find_dup(&self, url: &str) -> (r: bool)
        ensures
            r == has_dup(self@.tasks, url@),
            r <==> exists|i: int| 0 <= i < self@.tasks.len() && #[trigger] self@.tasks[i].url == url@ && (
                self@.tasks[i].state == "downloading"@ || self@.tasks[i].state == "paused"@),
    {
        let mut i: usize = 0;
        while i < self.tasks.len()
            invariant
                i <= self@.tasks.len(),
                self@.tasks.len() == self.tasks@.len(),
                forall|j: int|
                    0 <= j < i ==> !(self@.tasks[j].url == url@ && is_active(self@.tasks[j].state)),
            decreases self@.tasks.len() - i,
        {
            let t = &self.tasks[i];
            assert(self@.tasks[i as int] == self.tasks@[i as int]@);
            if str_eq(t.url.as_str(), url) {
                let st = t.state.as_str();
                if str_eq(st, "downloading") || str_eq(st, "paused") {
                    assert(self@.tasks[i as int].url == url@ && is_active(self@.tasks[i as int].state));
                    return true;
                }
            }
            i = i + 1;
        }
        false
    }

    /// Whether some task is unfinished (downloading or paused).
    pub fn has_active(&self) -> (r: bool)
        ensures
            r == any_active(self@.tasks),
    {
        let mut i: usize = 0;
        while i < self.tasks.len()
            invariant
                i <= self@.tasks.len(),
                self@.tasks.len() == self.tasks@.len(),
                forall|j: int| 0 <= j < i ==> !is_active(#[trigger] self@.tasks[j].state),
            decreases self@.tasks.len() - i,
        {
            let st = self.tasks[i].state.as_str();
            assert(self@.tasks[i as int] == self.tasks@[i as int]@);
            if str_eq(st, "downloading") || str_eq(st, "paused") {
                assert(is_active(self@.tasks[i as int].state));
                return true;
            }
            i = i + 1;
        }
        false
    }

    /// Whether a transfer is running for `id`.
    pub fn has_worker(&self, id: u64) -> (r: bool)
        ensures
            r == self@.workers.contains_key(id),
    {
        self.flags_of(id).is_some()
    }

    /// Whether the transfer for `id` was told to cancel.
    pub fn is_canceled(&self, id: u64) -> (r: bool)
        ensures
            r == (self@.workers.contains_key(id) && self@.workers[id].cancel),
    {
        match self.flags_of(id) {
            Some(w) => w.cancel,
            None => false,
        }
    }

    /// Whether the transfer for `id` was told to pause.
    pub fn is_paused(&self, id: u64) -> (r: bool)
        ensures
            r == (self@.workers.contains_key(id) && self@.workers[id].pause),
    {
        match self.flags_of(id) {
            Some(w) => w.pause,
            None => false,
        }
    }

    /// What the transfer for `id` does next: stop as canceled (it removes its
    /// partial file) once told to cancel, else hold while paused, else go on.
    pub fn transfer_step(&self, id: u64) -> (r: TransferStep)
        ensures
            r == (if !self@.workers.contains_key(id) {
                TransferStep::Go
            } else if self@.workers[id].cancel {
                TransferStep::Cancel
            } else if self@.workers[id].pause {
                TransferStep::Hold
            } else {
                TransferStep::Go
            }),
    {
        match self.flags_of(id) {
            Some(w) => if w.cancel {
                TransferStep::Cancel
            } else if w.pause {
                TransferStep::Hold
            } else {
                TransferStep::Go
            },
            None => TransferStep::Go,
        }
    }

    /// The file of the first task with `id`.
    pub fn file_of(&self, id: u64) -> (r: Option<String>)
        ensures
            opt_view(r) == (match task_index(self@.tasks, id) {
                Some(k) => Some(self@.tasks[k].file),
                None => None,
            }),
    {
        match self.find_task(id) {
            Some(k) => Some(self.tasks[k].file.clone()),
            None => None,
        }
    }

    /// The url of the first task with `id`.
    pub fn url_of(&self, id: u64) -> (r: Option<String>)
        ensures
            opt_view(r) == (match task_index(self@.tasks, id) {
                Some(k) => Some(self@.tasks[k].url),
                None => None,
            }),
    {
        match self.find_task(id) {
            Some(k) => Some(self.tasks[k].url.clone()),
            None => None,
        }
    }

    /// The recorded resource version of the first task with `id`.
    pub fn etag_of(&self, id: u64) -> (r: Option<String>)
        ensures
            opt_view(r) == (match task_index(self@.tasks, id) {
                Some(k) => self@.tasks[k].etag,
                None => None,
            }),
    {
        match self.find_task(id) {
            Some(k) => copy_opt(&self.tasks[k].etag),
            None => None,
        }
    }

    /// The tasks as kept (for saving).
    pub fn snapshot(&self) -> (r: Vec<DownloadTask>)
        ensures
            r@.map_values(|t: DownloadTask| t@) == self@.tasks,
    {
        let mut r: Vec<DownloadTask> = Vec::new();
        let mut i: usize = 0;
        while i < self.tasks.len()
            invariant
                i <= self@.tasks.len(),
                self@.tasks.len() == self.tasks@.len(),
                r@.len() == i,
                forall|j: int| 0 <= j < i ==> #[trigger] r@[j]@ == self@.tasks[j],
            decreases self@.tasks.len() - i,
        {
            r.push(self.tasks[i].copy());
            i = i + 1;
        }
        assert(r@.map_values(|t: DownloadTask| t@) =~= self@.tasks);
        r
    }

    /// The tasks, newest first, each marked with whether its file is still on
    /// disk (never for an empty path).
    pub fn list(&self) -> (r: Vec<DownloadTask>)
        ensures
            r@.len() == self@.tasks.len(),
            forall|i: int|
                0 <= i < r@.len() ==> #[trigger] r@[i]@ == (TaskView {
                    exists: r@[i]@.exists,
                    ..self@.tasks[i]
                }),
            forall|i: int| 0 <= i < r@.len() && self@.tasks[i].file.len() == 0 ==> !#[trigger] r@[i]@.exists,
    {
        let mut r: Vec<DownloadTask> = Vec::new();
        let mut i: usize = 0;
        while i < self.tasks.len()
            invariant
                i <= self@.tasks.len(),
                self@.tasks.len() == self.tasks@.len(),
                r@.len() == i,
                forall|j: int|
                    0 <= j < i ==> #[trigger] r@[j]@ == (TaskView {
                        exists: r@[j]@.exists,
                        ..self@.tasks[j]
                    }),
                forall|j: int| 0 <= j < i && self@.tasks[j].file.len() == 0 ==> !#[trigger] r@[j]@.exists,
            decreases self@.tasks.len() - i,
        {
            let mut t = self.tasks[i].copy();
            let f = t.file.as_str();
            t.exists = !f.is_empty() && path_exists(f);
            r.push(t);
            i = i + 1;
        }
        r
    }

    /// Raises the cancel flag of the transfer for `id`; `false` when none runs.
    pub fn cancel(&mut self, id: u64) -> (r: bool)
        requires
            wf(old(self)@),
        ensures
            wf(final(self)@),
            (final(self)@, r) == spec_cancel(old(self)@, id),
    {
        match self.flags_of(id) {
            Some(cur) => {
                self.put_worker(id, Worker { cancel: true, ..cur });
                true
            },
            None => false,
        }
    }

    /// Pauses (`on`) or resumes a download. A running transfer gets its pause flag
    /// and the task its state; resuming a task that has no running transfer (one
    /// restored after a restart) registers a new transfer for it, to continue from
    /// the bytes on disk. `false` when there is nothing to pause or resume.
    pub fn pause(&mut self, id: u64, on: bool) -> (r: bool)
        requires
            wf(old(self)@),
        ensures
            wf(final(self)@),
            (final(self)@, r) == spec_pause(old(self)@, id, on),
    {
        proof {
            lemma_task_index(self@.tasks, id);
        }
        match self.flags_of(id) {
            Some(cur) => {
                self.put_worker(id, Worker { pause: on, ..cur });
                match self.find_task(id) {
                    Some(k) => {
                        let mut t = self.tasks[k].copy();
                        t.state = if on { owned("paused") } else { owned("downloading") };
                        if on {
                            t.speed = 0;
                        }
                        self.replace_task(k, t);
                    },
                    None => {},
                }
                true
            },
            None => {
                if on {
                    return false;
                }
                match self.find_task(id) {
                    Some(k) => {
                        let mut t = self.tasks[k].copy();
                        t.state = owned("downloading");
                        t.error = None;
                        self.replace_task(k, t);
                        self.put_worker(id, Worker { cancel: false, pause: false });
                        true
                    },
                    None => false,
                }
            },
        }
    }

    /// Pauses every transferring task; returns how many there were.
    pub fn pause_all(&mut self) -> (r: usize)
        requires
            wf(old(self)@),
        ensures
            wf(final(self)@),
            r == downloading_ids(old(self)@.tasks).len(),
            final(self)@ == pause_each(old(self)@, downloading_ids(old(self)@.tasks)),
    {
        let ghost ts = self@.tasks;
        let mut ids: Vec<u64> = Vec::new();
        let mut i: usize = 0;
        while i < self.tasks.len()
            invariant
                i <= ts.len(),
                self@.tasks == ts,
                ts.len() == self.tasks@.len(),
                ids@ == downloading_ids(ts.take(i as int)),
            decreases ts.len() - i,
        {
            if str_eq(self.tasks[i].state.as_str(), "downloading") {
                ids.push(self.tasks[i].id);
            }
            i = i + 1;
            assert(ts.take(i as int).drop_last() =~= ts.take(i - 1));
        }
        assert(ts.take(ts.len() as int) =~= ts);
        let ghost start = self@;
        let mut j: usize = 0;
        while j < ids.len()
            invariant
                j <= ids@.len(),
                wf(self@),
                self@ == pause_each(start, ids@.take(j as int)),
            decreases ids@.len() - j,
        {
            self.pause(ids[j], true);
            j = j + 1;
            assert(ids@.take(j as int).drop_last() =~= ids@.take(j - 1));
        }
        assert(ids@.take(ids@.len() as int) =~= ids@);
        ids.len()
    }

    /// Drops the first task with `id` from the list, keeping its file; an
    /// unfinished task's transfer is told to cancel. `false` when there is no such task.
    pub fn remove(&mut self, id: u64) -> (r: bool)
        requires
            wf(old(self)@),
        ensures
            wf(final(self)@),
            (final(self)@, r) == spec_remove(old(self)@, id),
    {
        proof {
            lemma_task_index(self@.tasks, id);
        }
        match self.find_task(id) {
            Some(k) => {
                let st = self.tasks[k].state.as_str();
                let active = str_eq(st, "downloading") || str_eq(st, "paused");
                let ghost before = self@;
                self.tasks.remove(k);
                assert(self@.tasks =~= before.tasks.remove(k as int));
                assert forall|j: int| 0 <= j < self@.tasks.len() implies #[trigger] self@.tasks[j].id
                    < self@.next_id by {
                    if j >= k {
                        assert(self@.tasks[j] == before.tasks[j + 1]);
                    }
                }
                assert(self@.workers == before.workers);
                assert(self@.next_id == before.next_id);
                assert(wf(self@));
                if active {
                    self.cancel(id);
                }
                true
            },
            None => false,
        }
    }

    /// Drops the first task with `id` like `remove`, and hands back its file and
    /// whether a running transfer of it was told to stop: that transfer removes
    /// the file when it ends; otherwise the caller deletes the file.
    pub fn delete(&mut self, id: u64) -> (r: Option<(String, bool)>)
        requires
            wf(old(self)@),
        ensures
            wf(final(self)@),
            final(self)@ == spec_remove(old(self)@, id).0,
            r is None <==> task_index(old(self)@.tasks, id) is None,
            r matches Some(x) ==> (match task_index(old(self)@.tasks, id) {
                Some(k) => x.0@ == old(self)@.tasks[k].file && x.1 == (is_active(
                    old(self)@.tasks[k].state,
                ) && old(self)@.workers.contains_key(id)),
                None => false,
            }),
    {
        proof {
            lemma_task_index(self@.tasks, id);
        }
        match self.find_task(id) {
            Some(k) => {
                let file = self.tasks[k].file.clone();
                let st = self.tasks[k].state.as_str();
                let active = str_eq(st, "downloading") || str_eq(st, "paused");
                let ghost before = self@;
                self.tasks.remove(k);
                assert(self@.tasks =~= before.tasks.remove(k as int));
                assert forall|j: int| 0 <= j < self@.tasks.len() implies #[trigger] self@.tasks[j].id
                    < self@.next_id by {
                    if j >= k {
                        assert(self@.tasks[j] == before.tasks[j + 1]);
                    }
                }
                assert(self@.workers == before.workers);
                assert(self@.next_id == before.next_id);
                assert(wf(self@));
                let handed = if active {
                    self.cancel(id)
                } else {
                    false
                };
                Some((file, handed))
            },
            None => None,
        }
    }

    /// Restarts a failed or canceled task in place, from zero. `false` when its
    /// transfer still runs or there is no such task.
    pub fn retry(&mut self, id: u64) -> (r: bool)
        requires
            wf(old(self)@),
        ensures
            wf(final(self)@),
            (final(self)@, r) == spec_retry(old(self)@, id),
    {
        proof {
            lemma_task_index(self@.tasks, id);
        }
        if self.has_worker(id) {
            return false;
        }
        match self.find_task(id) {
            Some(k) => {
                let mut t = self.tasks[k].copy();
                t.state = owned("downloading");
                t.error = None;
                t.bytes = 0;
                t.speed = 0;
                t.etag = None;
                self.replace_task(k, t);
                self.put_worker(id, Worker { cancel: false, pause: false });
                true
            },
            None => false,
        }
    }

    /// Records what the server answered: total size, resource version and the
    /// byte count the transfer continues from.
    pub fn record_response(&mut self, id: u64, total: Option<u64>, etag: Option<String>, bytes: u64)
        requires
            wf(old(self)@),
        ensures
            wf(final(self)@),
            final(self)@ == (match task_index(old(self)@.tasks, id) {
                Some(k) => DlView {
                    tasks: old(self)@.tasks.update(
                        k,
                        TaskView { total, etag: opt_view(etag), bytes, ..old(self)@.tasks[k] },
                    ),
                    ..old(self)@
                },
                None => old(self)@,
            }),
    {
        proof {
            lemma_task_index(self@.tasks, id);
        }
        match self.find_task(id) {
            Some(k) => {
                let mut t = self.tasks[k].copy();
                t.total = total;
                t.etag = etag;
                t.bytes = bytes;
                self.replace_task(k, t);
            },
            None => {},
        }
    }

    /// Records progress: bytes so far, total size, and the speed when measured.
    pub fn record_progress(&mut self, id: u64, bytes: u64, total: Option<u64>, speed: Option<u64>)
        requires
            wf(old(self)@),
        ensures
            wf(final(self)@),
            final(self)@ == (match task_index(old(self)@.tasks, id) {
                Some(k) => DlView {
                    tasks: old(self)@.tasks.update(
                        k,
                        TaskView {
                            bytes,
                            total,
                            speed: match speed {
                                Some(v) => v,
                                None => old(self)@.tasks[k].speed,
                            },
                            ..old(self)@.tasks[k]
                        },
                    ),
                    ..old(self)@
                },
                None => old(self)@,
            }),
    {
        proof {
            lemma_task_index(self@.tasks, id);
        }
        match self.find_task(id) {
            Some(k) => {
                let mut t = self.tasks[k].copy();
                t.bytes = bytes;
                t.total = total;
                match speed {
                    Some(v) => {
                        t.speed = v;
                    },
                    None => {},
                }
                self.replace_task(k, t);
            },
            None => {},
        }
    }

    /// Sets the speed of the first task with `id` to zero (its transfer paused).
    pub fn clear_speed(&mut self, id: u64)
        requires
            wf(old(self)@),
        ensures
            wf(final(self)@),
            final(self)@ == (match task_index(old(self)@.tasks, id) {
                Some(k) => DlView {
                    tasks: old(self)@.tasks.update(k, TaskView { speed: 0, ..old(self)@.tasks[k] }),
                    ..old(self)@
                },
                None => old(self)@,
            }),
    {
        proof {
            lemma_task_index(self@.tasks, id);
        }
        match self.find_task(id) {
            Some(k) => {
                let mut t = self.tasks[k].copy();
                t.speed = 0;
                self.replace_task(k, t);
            },
            None => {},
        }
    }

    /// Records the end of the transfer for `id` and drops its flags; returns the
    /// name to announce when the download completed.
    pub fn finish(&mut self, id: u64, outcome: Outcome) -> (r: Option<String>)
        requires
            wf(old(self)@),
        ensures
            wf(final(self)@),
            (final(self)@, opt_view(r)) == (match outcome {
                Outcome::Completed(b, t) => spec_finish(old(self)@, id, true, b, t, Seq::empty()),
                Outcome::Failed(e) => spec_finish(old(self)@, id, false, 0, 0, e@),
            }),
    {
        proof {
            lemma_task_index(self@.tasks, id);
        }
        let canceled = self.is_canceled(id);
        let (ok, bytes, total, err) = match outcome {
            Outcome::Completed(b, t) => (true, b, t, String::new()),
            Outcome::Failed(e) => (false, 0u64, 0u64, e),
        };
        let mut done_name: Option<String> = None;
        match self.find_task(id) {
            Some(k) => {
                let mut t = self.tasks[k].copy();
                t.state = if ok {
                    owned("done")
                } else if canceled {
                    owned("canceled")
                } else {
                    owned("error")
                };
                t.speed = 0;
                if ok {
                    t.error = None;
                    t.bytes = bytes;
                    t.total = Some(total);
                    if !t.name.as_str().is_empty() {
                        done_name = Some(t.name.clone());
                    }
                } else {
                    t.error = Some(err);
                }
                self.replace_task(k, t);
            },
            None => {},
        }
        self.workers.remove(&id);
        done_name
    }

    fn register(&mut self, url: &str, file: String, name: String) -> (r: u64)
        requires
            wf(old(self)@),
            old(self)@.next_id < u64::MAX,
        ensures
            wf(final(self)@),
            r == old(self)@.next_id,
            final(self)@ == spec_register(old(self)@, url@, file@, name@),
    {
        let id = self.next_id;
        let t = DownloadTask {
            id,
            name,
            url: owned(url),
            file,
            state: owned("downloading"),
            bytes: 0,
            total: None,
            error: None,
            etag: None,
            exists: false,
            speed: 0,
        };
        let ghost before = self@;
        self.tasks.insert(0, t);
        assert(self@.tasks =~= seq![t@] + before.tasks);
        self.next_id = id + 1;
        self.put_worker(id, Worker { cancel: false, pause: false });
        assert forall|j: int| 0 <= j < self@.tasks.len() implies #[trigger] self@.tasks[j].id
            < self@.next_id by {
            if j > 0 {
                assert(self@.tasks[j] == before.tasks[j - 1]);
            }
        }
        id
    }

    /// Starts downloading `url` into `dir` under a cleaned form of `name` that
    /// overwrites no existing file. `None` when an unfinished task already
    /// downloads `url`; else the new task's id, the old `next_id`. The transfer
    /// itself is started by the caller.
    pub fn start(&mut self, url: &str, name: &str, dir: &str) -> (r: Option<u64>)
        requires
            wf(old(self)@),
            old(self)@.next_id < u64::MAX,
        ensures
            wf(final(self)@),
            r is None <==> has_dup(old(self)@.tasks, url@),
            (forall|i: int| 0 <= i < old(self)@.tasks.len() && #[trigger] old(self)@.tasks[i].url == url@ ==> old(
                self,
            )@.tasks[i].state != "downloading"@ && old(self)@.tasks[i].state != "paused"@) ==> r == Some(
                old(self)@.next_id,
            ),
            r is None ==> final(self)@ == old(self)@,
            r matches Some(id) ==> id == old(self)@.next_id && exists|shown: Seq<char>|
                is_candidate(sanitized(name@), shown) && final(self)@ == spec_register(
                    old(self)@,
                    url@,
                    join_path(dir@, shown),
                    shown,
                ),
    {
        if self.find_dup(url) {
            return None;
        }
        let clean = sanitize(name);
        let (file, shown) = unique_path(dir, clean.as_str());
        let ghost sh = shown@;
        let id = self.register(url, file, shown);
        assert(is_candidate(sanitized(name@), sh));
        Some(id)
    }

    /// A download request: with `ask`, it waits for the user to pick a folder
    /// (`take_pending`); without, it starts at once in `dir`. `false` when an
    /// unfinished task already downloads `url`.
    pub fn offer(&mut self, url: &str, name: &str, dir: &str, ask: bool) -> (r: bool)
        requires
            wf(old(self)@),
            old(self)@.next_id < u64::MAX,
        ensures
            wf(final(self)@),
            ask ==> (final(self)@, r) == spec_offer_ask(old(self)@, url@, name@),
            !ask ==> r == !has_dup(old(self)@.tasks, url@),
            !ask && !r ==> final(self)@ == old(self)@,
            !ask && r ==> exists|shown: Seq<char>|
                is_candidate(sanitized(name@), shown) && final(self)@ == spec_register(
                    old(self)@,
                    url@,
                    join_path(dir@, shown),
                    shown,
                ),
    {
        if ask {
            if self.find_dup(url) {
                return false;
            }
            self.pending = Some((owned(url), owned(name)));
            assert(self@.tasks == old(self)@.tasks);
            assert(self@.workers == old(self)@.workers);
            assert(self@.next_id == old(self)@.next_id);
            assert(wf(self@));
            true
        } else {
            self.start(url, name, dir).is_some()
        }
    }

    /// Hands out the request waiting for a folder (url, name) and forgets it.
    pub fn take_pending(&mut self) -> (r: Option<(String, String)>)
        ensures
            (final(self)@, pending_view(r)) == spec_take_pending(old(self)@),
    {
        self.pending.take()
    }

    /// Forgets the request waiting for a folder.
    pub fn clear_pending(&mut self)
        ensures
            final(self)@ == (DlView { pending: None, ..old(self)@ }),
    {
        self.pending = None;
    }

    /// The name of the request waiting for a folder.
    pub fn pending_name(&self) -> (r: Option<String>)
        ensures
            opt_view(r) == (match self@.pending {
                Some(p) => Some(p.1),
                None => None,
            }),
    {
        match &self.pending {
            Some(p) => Some(p.1.clone()),
            None => None,
        }
    }
}


// ───────────────────────────── the transfer's decisions ─────────────────────────────

/// A `Content-Length` value: a `u64` after trimming.
pub open spec fn content_length(h: Option<Seq<char>>) -> Option<u64> {
    match h {
        Some(v) => match parse_unsigned(trim(v), u64::MAX as nat) {
            Some(n) => Some(n as u64),
            None => None,
        },
        None => None,
    }
}

/// Reads a `Content-Length` header.
pub fn parse_content_length(h: &Option<String>) -> (r: Option<u64>)
    ensures
        r == content_length(opt_view(*h)),
{
    match h {
        Some(v) => match parse_uint(&trim_chars(&chars_of(v.as_str())), u64::MAX) {
            Some(n) => Some(n),
            None => None,
        },
        None => None,
    }
}

/// The resource version a response gives: its `ETag`, else its `Last-Modified`.
pub open spec fn response_version(etag: Option<Seq<char>>, last_modified: Option<Seq<char>>) -> Option<Seq<char>> {
    match etag {
        Some(e) => Some(e),
        None => last_modified,
    }
}

/// The headers of a request that continues from byte `bytes`: a `Range` from
/// there, and an `If-Range` with the known version (a changed resource is then
/// sent whole). A request from the start has none.
pub open spec fn resume_headers_of(bytes: u64, version: Option<Seq<char>>) -> Seq<(Seq<char>, Seq<char>)> {
    if bytes == 0 {
        Seq::empty()
    } else {
        seq![("Range"@, "bytes="@ + dec(bytes as nat) + "-"@)] + match version {
            Some(v) => seq![("If-Range"@, v)],
            None => Seq::empty(),
        }
    }
}

/// The headers of a request that continues from byte `bytes`.
pub fn resume_headers(bytes: u64, version: &Option<String>) -> (r: Vec<(String, String)>)
    ensures
        r@.map_values(|h: (String, String)| (h.0@, h.1@)) == resume_headers_of(bytes, opt_view(*version)),
{
    let mut r: Vec<(String, String)> = Vec::new();
    if bytes == 0 {
        assert(r@.map_values(|h: (String, String)| (h.0@, h.1@)) =~= Seq::<(Seq<char>, Seq<char>)>::empty());
        return r;
    }
    let mut range = chars_of("bytes=");
    push_all(&mut range, &dec_u64(bytes));
    push_all(&mut range, &chars_of("-"));
    r.push((owned("Range"), string_of(&range)));
    if let Some(v) = version {
        r.push((owned("If-Range"), v.clone()));
    }
    assert(r@.map_values(|h: (String, String)| (h.0@, h.1@)) =~= resume_headers_of(bytes, opt_view(*version)));
    r
}

/// What the transfer does with a response: whether it continues the file,
/// from which byte, the total size and the resource version it now knows.
pub struct ResponsePlan {
    /// The server sent the rest (206) and bytes were already there: append.
    pub append: bool,
    pub bytes: u64,
    pub total: Option<u64>,
    pub version: Option<String>,
}

/// The plan for a response with `status`, asked from byte `bytes`, knowing
/// `total` and `version` so far. A server that does not send the rest
/// restarts the file from 0; an unknown total is taken from `Content-Length`
/// (for the rest, added to the bytes there); an unknown version from the
/// response.
pub open spec fn response_plan_of(
    bytes: u64,
    status: u16,
    length: Option<u64>,
    etag: Option<Seq<char>>,
    last_modified: Option<Seq<char>>,
    total: Option<u64>,
    version: Option<Seq<char>>,
) -> (bool, u64, Option<u64>, Option<Seq<char>>) {
    let resuming = status == 206;
    let b = if bytes > 0 && !resuming { 0 } else { bytes };
    let t = match total {
        Some(x) => Some(x),
        None => match length {
            Some(len) => Some(if resuming { (b + len) as u64 } else { len }),
            None => None,
        },
    };
    let v = match version {
        Some(x) => Some(x),
        None => response_version(etag, last_modified),
    };
    (resuming && b > 0, b, t, v)
}

/// Decides how to continue after a response (the size of a continued file is
/// summed with wrap-around at 2^64; no real file comes near it).
pub fn plan_response(
    bytes: u64,
    status: u16,
    content_length_header: &Option<String>,
    etag: &Option<String>,
    last_modified: &Option<String>,
    total: Option<u64>,
    version: &Option<String>,
) -> (r: ResponsePlan)
    ensures
        (r.append, r.bytes, r.total, opt_view(r.version)) == response_plan_of(
            bytes,
            status,
            content_length(opt_view(*content_length_header)),
            opt_view(*etag),
            opt_view(*last_modified),
            total,
            opt_view(*version),
        ),
{
    let resuming = status == 206;
    let b: u64 = if bytes > 0 && !resuming { 0 } else { bytes };
    let t = match total {
        Some(x) => Some(x),
        None => match parse_content_length(content_length_header) {
            Some(len) => {
                if resuming {
                    let sum = b.wrapping_add(len);
                    assert(sum == (b + len) as u64) by (bit_vector)
                        requires
                            sum == b.wrapping_add(len);
                    Some(sum)
                } else {
                    Some(len)
                }
            },
            None => None,
        },
    };
    let v = match version {
        Some(x) => Some(x.clone()),
        None => match etag {
            Some(e) => Some(e.clone()),
            None => copy_opt(last_modified),
        },
    };
    ResponsePlan { append: resuming && b > 0, bytes: b, total: t, version: v }
}

/// The result of a transfer that read to the end: the bytes written and the
/// total (the bytes, when the total was never known).
pub fn completed(bytes: u64, total: Option<u64>) -> (r: Outcome)
    ensures
        r == Outcome::Completed(bytes, match total {
            Some(t) => t,
            None => bytes,
        }),
{
    Outcome::Completed(bytes, match total {
        Some(t) => t,
        None => bytes,
    })
}

} // verus!
