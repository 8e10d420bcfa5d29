//! Bookkeeping of long-running batch tasks: their counters, their status,
//! and the events that report their progress.

use vstd::prelude::*;
use crate::json::{deep_members, push_member, Json, JsonV};
use crate::processor::{count_json, opt_view};
use crate::ext::{is_hyphenated_uuid, new_uuid_hyphenated, unix_now_millis};

verus! {

/// How long a finished task is kept, in milliseconds.
pub const TASK_TTL_MS: i64 = 1800000;

/// The mathematical content of a task.
pub struct BatchView {
    pub id: Seq<char>,
    pub total: nat,
    pub processed: nat,
    pub ok: nat,
    pub fail: nat,
    pub status: Seq<char>,
    pub warning: Option<Seq<char>>,
    pub result: Option<JsonV>,
    pub error: Option<Seq<char>>,
    pub created_at_ms: int,
    pub cancelled: bool,
    pub final_event: Option<JsonV>,
}

/// A batch task.
pub struct BatchTask {
    pub id: String,
    pub total: usize,
    pub processed: usize,
    pub ok: usize,
    pub fail: usize,
    pub status: String,
    pub warning: Option<String>,
    pub result: Option<Json>,
    pub error: Option<String>,
    pub created_at_ms: i64,
    pub cancelled: bool,
    final_event: Option<Json>,
}

pub open spec fn opt_deep_owned(o: Option<Json>) -> Option<JsonV> {
    match o {
        Some(j) => Some(j.deep()),
        None => None,
    }
}

impl View for BatchTask {
    type V = BatchView;

    closed spec fn view(&self) -> BatchView {
        BatchView {
            id: self.id@,
            total: self.total as nat,
            processed: self.processed as nat,
            ok: self.ok as nat,
            fail: self.fail as nat,
            status: self.status@,
            warning: opt_view(self.warning),
            result: opt_deep_owned(self.result),
            error: opt_view(self.error),
            created_at_ms: self.created_at_ms as int,
            cancelled: self.cancelled,
            final_event: opt_deep_owned(self.final_event),
        }
    }
}

/// A JSON string, or `null`.
pub open spec fn opt_str_json(o: Option<Seq<char>>) -> JsonV {
    match o {
        Some(s) => JsonV::Str(s),
        None => JsonV::Null,
    }
}

/// The members every event of a task starts with.
pub open spec fn event_head(t: BatchView, kind: Seq<char>) -> Seq<(Seq<char>, JsonV)> {
    seq![
        ("type"@, JsonV::Str(kind)),
        ("task_id"@, JsonV::Str(t.id)),
        ("total"@, count_json(t.total)),
        ("processed"@, count_json(t.processed)),
        ("ok"@, count_json(t.ok)),
        ("fail"@, count_json(t.fail)),
    ]
}

/// The snapshot of a task.
pub open spec fn snapshot_json(t: BatchView) -> JsonV {
    JsonV::Object(
        seq![
            ("task_id"@, JsonV::Str(t.id)),
            ("status"@, JsonV::Str(t.status)),
            ("total"@, count_json(t.total)),
            ("processed"@, count_json(t.processed)),
            ("ok"@, count_json(t.ok)),
            ("fail"@, count_json(t.fail)),
            ("warning"@, opt_str_json(t.warning)),
        ],
    )
}

/// The task after one more item is recorded.
pub open spec fn recorded(t: BatchView, ok: bool) -> BatchView {
    BatchView {
        processed: t.processed + 1,
        ok: if ok {
            t.ok + 1
        } else {
            t.ok
        },
        fail: if ok {
            t.fail
        } else {
            t.fail + 1
        },
        ..t
    }
}

/// The progress event of a recorded item.
pub open spec fn progress_event(
    t: BatchView,
    item: Option<JsonV>,
    detail: Option<JsonV>,
    error: Option<Seq<char>>,
) -> JsonV {
    JsonV::Object(
        event_head(t, "progress"@) + match item {
            Some(i) => seq![("item"@, i)],
            None => Seq::empty(),
        } + match detail {
            Some(d) => seq![("detail"@, d)],
            None => Seq::empty(),
        } + match error {
            Some(e) => seq![("error"@, JsonV::Str(e))],
            None => Seq::empty(),
        },
    )
}

/// The event of a finished task.
pub open spec fn done_event(t: BatchView, result: JsonV, warning: Option<Seq<char>>) -> JsonV {
    JsonV::Object(
        event_head(t, "done"@) + seq![
            ("warning"@, opt_str_json(warning)),
            ("result"@, result),
        ],
    )
}

/// The event of a failed task.
pub open spec fn error_event(t: BatchView, error: Seq<char>) -> JsonV {
    JsonV::Object(event_head(t, "error"@) + seq![("error"@, JsonV::Str(error))])
}

/// The event of a cancelled task.
pub open spec fn cancelled_event(t: BatchView) -> JsonV {
    JsonV::Object(event_head(t, "cancelled"@))
}

/// A task in a final status is dropped once its time to live has passed
/// since its creation; a running one after twice that time.
pub open spec fn expired(t: BatchView, now_ms: int) -> bool {
    let age = now_ms - t.created_at_ms;
    ((t.status == "done"@ || t.status == "error"@ || t.status == "cancelled"@) && age > TASK_TTL_MS)
        || (t.status == "running"@ && age > 2 * TASK_TTL_MS)
}

fn count_member(m: &mut Vec<(String, Json)>, key: &str, n: usize)
    ensures
        deep_members(final(m)@) == deep_members(old(m)@).push((key@, count_json(n as nat))),
{
    push_member(m, key, crate::processor::count_json_pub(n));
}

fn opt_str_json_exec(o: &Option<String>) -> (r: Json)
    ensures
        r.deep() == opt_str_json(opt_view(*o)),
{
    match o {
        Some(s) => Json::from_str(s.as_str()),
        None => Json::Null,
    }
}

impl BatchTask {
    /// A running task of `total` items, created at `now_ms`.
    pub fn new_at(total: usize, now_ms: i64) -> (r: BatchTask)
        ensures
            is_hyphenated_uuid(r@.id),
            r@.total == total,
            r@.processed == 0 && r@.ok == 0 && r@.fail == 0,
            r@.status == "running"@,
            r@.warning is None && r@.result is None && r@.error is None,
            r@.created_at_ms == now_ms,
            !r@.cancelled,
            r@.final_event is None,
    {
        BatchTask {
            id: new_uuid_hyphenated(),
            total,
            processed: 0,
            ok: 0,
            fail: 0,
            status: String::from_str("running"),
            warning: None,
            result: None,
            error: None,
            created_at_ms: now_ms,
            cancelled: false,
            final_event: None,
        }
    }

    /// A running task of `total` items, created now.
    pub fn new(total: usize) -> (r: BatchTask)
        ensures
            is_hyphenated_uuid(r@.id),
            r@.total == total,
            r@.processed == 0 && r@.ok == 0 && r@.fail == 0,
            r@.status == "running"@,
            r@.warning is None && r@.result is None && r@.error is None,
            !r@.cancelled,
            r@.final_event is None,
    {
        BatchTask::new_at(total, unix_now_millis())
    }

    /// The public state of the task.
    pub fn snapshot(&self) -> (r: Json)
        ensures
            r.deep() == snapshot_json(self@),
    {
        let mut m: Vec<(String, Json)> = Vec::new();
        assert(deep_members(m@) =~= Seq::empty());
        push_member(&mut m, "task_id", Json::from_str(self.id.as_str()));
        push_member(&mut m, "status", Json::from_str(self.status.as_str()));
        count_member(&mut m, "total", self.total);
        count_member(&mut m, "processed", self.processed);
        count_member(&mut m, "ok", self.ok);
        count_member(&mut m, "fail", self.fail);
        push_member(&mut m, "warning", opt_str_json_exec(&self.warning));
        assert(deep_members(m@) =~= snapshot_json(self@)->Object_0);
        Json::object(m)
    }

    fn event_head(&self, kind: &str) -> (r: Vec<(String, Json)>)
        ensures
            deep_members(r@) == event_head(self@, kind@),
    {
        let mut m: Vec<(String, Json)> = Vec::new();
        assert(deep_members(m@) =~= Seq::empty());
        push_member(&mut m, "type", Json::from_str(kind));
        push_member(&mut m, "task_id", Json::from_str(self.id.as_str()));
        count_member(&mut m, "total", self.total);
        count_member(&mut m, "processed", self.processed);
        count_member(&mut m, "ok", self.ok);
        count_member(&mut m, "fail", self.fail);
        assert(deep_members(m@) =~= event_head(self@, kind@));
        m
    }

    /// Records one processed item, a success or a failure; returns the
    /// progress event to publish.
    pub fn record(&mut self, ok: bool, item: Option<Json>, detail: Option<Json>, error: Option<String>) -> (r: Json)
        requires
            old(self)@.processed < usize::MAX,
            old(self)@.ok < usize::MAX,
            old(self)@.fail < usize::MAX,
        ensures
            final(self)@ == recorded(old(self)@, ok),
            r.deep() == progress_event(
                final(self)@,
                opt_deep_owned(item),
                opt_deep_owned(detail),
                opt_view(error),
            ),
    {
        self.processed = self.processed + 1;
        if ok {
            self.ok = self.ok + 1;
        } else {
            self.fail = self.fail + 1;
        }
        let mut m = self.event_head("progress");
        let ghost head = deep_members(m@);
        let ghost iv = opt_deep_owned(item);
        let ghost dv = opt_deep_owned(detail);
        let ghost ev = opt_view(error);
        if let Some(i) = item {
            push_member(&mut m, "item", i);
        }
        let ghost h1 = deep_members(m@);
        assert(h1 =~= head + match iv {
            Some(i) => seq![("item"@, i)],
            None => Seq::empty(),
        });
        if let Some(d) = detail {
            push_member(&mut m, "detail", d);
        }
        let ghost h2 = deep_members(m@);
        assert(h2 =~= h1 + match dv {
            Some(d) => seq![("detail"@, d)],
            None => Seq::empty(),
        });
        if let Some(e) = error {
            push_member(&mut m, "error", Json::from_str(e.as_str()));
        }
        assert(deep_members(m@) =~= h2 + match ev {
            Some(e) => seq![("error"@, JsonV::Str(e))],
            None => Seq::empty(),
        });
        Json::object(m)
    }

    /// Marks the task done with `result`; returns the final event, which the
    /// task also keeps.
    pub fn finish(&mut self, result: Json, warning: Option<String>) -> (r: Json)
        ensures
            final(self)@ == (BatchView {
                status: "done"@,
                result: Some(result.deep()),
                warning: opt_view(warning),
                final_event: Some(done_event(old(self)@, result.deep(), opt_view(warning))),
                ..old(self)@
            }),
            r.deep() == done_event(old(self)@, result.deep(), opt_view(warning)),
    {
        let mut m = self.event_head("done");
        let ghost head = deep_members(m@);
        push_member(&mut m, "warning", opt_str_json_exec(&warning));
        push_member(&mut m, "result", result.clone_json());
        assert(deep_members(m@) =~= head + seq![
            ("warning"@, opt_str_json(opt_view(warning))),
            ("result"@, result.deep()),
        ]);
        let event = Json::object(m);
        self.status = String::from_str("done");
        self.result = Some(result);
        self.warning = warning;
        self.final_event = Some(event.clone_json());
        event
    }

    /// Marks the task failed with `error`; returns the final event, which
    /// the task also keeps.
    pub fn fail_task(&mut self, error: String) -> (r: Json)
        ensures
            final(self)@ == (BatchView {
                status: "error"@,
                error: Some(error@),
                final_event: Some(error_event(old(self)@, error@)),
                ..old(self)@
            }),
            r.deep() == error_event(old(self)@, error@),
    {
        let mut m = self.event_head("error");
        let ghost head = deep_members(m@);
        push_member(&mut m, "error", Json::from_str(error.as_str()));
        assert(deep_members(m@) =~= head + seq![("error"@, JsonV::Str(error@))]);
        let event = Json::object(m);
        self.status = String::from_str("error");
        self.error = Some(error);
        self.final_event = Some(event.clone_json());
        event
    }

    /// Asks the task to stop.
    pub fn cancel(&mut self)
        ensures
            final(self)@ == (BatchView { cancelled: true, ..old(self)@ }),
    {
        self.cancelled = true;
    }

    /// Marks the task cancelled; returns the final event, which the task
    /// also keeps.
    pub fn finish_cancelled(&mut self) -> (r: Json)
        ensures
            final(self)@ == (BatchView {
                status: "cancelled"@,
                final_event: Some(cancelled_event(old(self)@)),
                ..old(self)@
            }),
            r.deep() == cancelled_event(old(self)@),
    {
        let m = self.event_head("cancelled");
        let event = Json::object(m);
        self.status = String::from_str("cancelled");
        self.final_event = Some(event.clone_json());
        event
    }

    /// The final event of the task, once it has one.
    pub fn final_event(&self) -> (r: Option<Json>)
        ensures
            opt_deep_owned(r) == self@.final_event,
    {
        match &self.final_event {
            Some(e) => Some(e.clone_json()),
            None => None,
        }
    }

    /// Whether the task is to be dropped at `now_ms`.
    pub fn expired_at(&self, now_ms: i64) -> (b: bool)
        ensures
            b == expired(self@, now_ms as int),
    {
        let age = now_ms as i128 - self.created_at_ms as i128;
        let terminal = crate::text::str_eq(self.status.as_str(), "done") || crate::text::str_eq(
            self.status.as_str(),
            "error",
        ) || crate::text::str_eq(self.status.as_str(), "cancelled");
        let running = crate::text::str_eq(self.status.as_str(), "running");
        (terminal && age > TASK_TTL_MS as i128) || (running && age > 2 * (TASK_TTL_MS as i128))
    }
}

/// Every recorded item counts once, as a success or as a failure: a task
/// whose processed count is the sum of its successes and failures keeps it
/// so when an item is recorded.
pub proof fn lemma_record_counts(t: BatchView, ok: bool)
    requires
        t.processed == t.ok + t.fail,
    ensures
        recorded(t, ok).processed == recorded(t, ok).ok + recorded(t, ok).fail,
        recorded(t, ok).processed == t.processed + 1,
{
}

} // verus!
