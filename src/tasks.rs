use crate::status::Status;
use vstd::prelude::*;

verus! {

/// An instant: seconds since the Unix epoch (UTC), the sub-second part, and
/// the UTC offset in seconds under which it was recorded.
#[derive(Debug, Clone, Copy, PartialEq, Eq, Structural)]
pub struct Timestamp {
    pub seconds: i64,
    pub nanos: u32,
    pub offset: i32,
}

impl Timestamp {
    /// Nanoseconds reach up to two seconds' worth to carry a leap second.
    pub open spec fn wf(self) -> bool {
        &&& self.nanos < 2_000_000_000
        &&& -86_400 < self.offset < 86_400
    }
}

/// Relies on chrono's `From<SystemTime> for DateTime<Utc>`, applied to the
/// system clock: the current time, as seconds and the sub-second part, at
/// offset zero. A clock set before 1970 gives negative seconds.
#[verifier::external_body]
fn clock_now() -> (r: Timestamp)
    ensures
        r.wf(),
        r.offset == 0,
{
    let now = chrono::DateTime::<chrono::Utc>::from(std::time::SystemTime::now());
    Timestamp { seconds: now.timestamp(), nanos: now.timestamp_subsec_nanos(), offset: 0 }
}

/// The body of a task creation: only these fields are supplied.
pub struct RequstTask {
    pub title: String,
    pub priority: Option<String>,
    pub description: Option<String>,
}

/// A stored task. It is live while `deleted_at` is absent.
pub struct TaskRow {
    pub id: i32,
    pub title: String,
    pub priority: Option<String>,
    pub description: Option<String>,
    pub completed_at: Option<Timestamp>,
    pub deleted_at: Option<Timestamp>,
    pub user_id: Option<i32>,
    pub is_default: Option<bool>,
}

/// A task as the read paths return it.
pub struct RespondTask {
    pub id: i32,
    pub title: String,
    pub priority: Option<String>,
    pub description: Option<String>,
    pub delete_at: Option<Timestamp>,
}

/// The priority filter of a listing: absent means no constraint, an empty
/// string means "priority absent", anything else an exact match.
pub struct TaskQueryParams {
    pub priority: Option<String>,
}

/// A full replacement of a task's mutable fields: an absent optional field
/// clears the stored one. `id` is ignored; the id of the request path counts.
pub struct UpdateTask {
    pub id: Option<i32>,
    pub priority: Option<String>,
    pub title: String,
    pub completed_at: Option<Timestamp>,
    pub description: Option<String>,
    pub deleted_at: Option<Timestamp>,
    pub user_id: Option<i32>,
    pub is_default: Option<bool>,
}

/// One field of a partial update: left out, explicitly null, or a value.
pub enum FieldUpdate<T> {
    Absent,
    Null,
    Value(T),
}

/// A sparse update document over each mutable field of a task.
pub struct TaskPatch {
    pub priority: FieldUpdate<String>,
    pub title: FieldUpdate<String>,
    pub completed_at: FieldUpdate<Timestamp>,
    pub description: FieldUpdate<String>,
    pub deleted_at: FieldUpdate<Timestamp>,
    pub user_id: FieldUpdate<i32>,
    pub is_default: FieldUpdate<bool>,
}

/// The stored value of an optional field after `u` is merged into `cur`.
pub open spec fn merged<T>(cur: Option<T>, u: FieldUpdate<T>) -> Option<T> {
    match u {
        FieldUpdate::Absent => cur,
        FieldUpdate::Null => None,
        FieldUpdate::Value(v) => Some(v),
    }
}

/// Merges one tri-state field into the stored value.
pub fn merge_field<T>(cur: Option<T>, u: FieldUpdate<T>) -> (r: Option<T>)
    ensures
        r == merged(cur, u),
{
    match u {
        FieldUpdate::Absent => cur,
        FieldUpdate::Null => None,
        FieldUpdate::Value(v) => Some(v),
    }
}

/// The row `t` after `p` is merged into it; the required title changes only
/// when `p` carries a value for it.
pub open spec fn patched(t: TaskRow, p: TaskPatch) -> TaskRow {
    TaskRow {
        id: t.id,
        title: match p.title {
            FieldUpdate::Value(v) => v,
            _ => t.title,
        },
        priority: merged(t.priority, p.priority),
        description: merged(t.description, p.description),
        completed_at: merged(t.completed_at, p.completed_at),
        deleted_at: merged(t.deleted_at, p.deleted_at),
        user_id: merged(t.user_id, p.user_id),
        is_default: merged(t.is_default, p.is_default),
    }
}

/// The row with id `id` that a full replacement `u` writes.
pub open spec fn replaced(id: i32, u: UpdateTask) -> TaskRow {
    TaskRow {
        id: id,
        title: u.title,
        priority: u.priority,
        description: u.description,
        completed_at: u.completed_at,
        deleted_at: u.deleted_at,
        user_id: u.user_id,
        is_default: u.is_default,
    }
}

/// The row `t` soft-deleted at `now`.
pub open spec fn stamped(t: TaskRow, now: Timestamp) -> TaskRow {
    TaskRow { deleted_at: Some(now), ..t }
}

pub open spec fn respond_of(t: TaskRow) -> RespondTask {
    RespondTask {
        id: t.id,
        title: t.title,
        priority: t.priority,
        description: t.description,
        delete_at: t.deleted_at,
    }
}

pub open spec fn is_live(t: TaskRow) -> bool {
    t.deleted_at is None
}

pub open spec fn priority_filter(q: TaskQueryParams) -> Option<Seq<char>> {
    match q.priority {
        Some(p) => Some(p@),
        None => None,
    }
}

/// Whether a listing with priority filter `q` includes `t`.
pub open spec fn selected(t: TaskRow, q: Option<Seq<char>>) -> bool {
    &&& is_live(t)
    &&& match q {
        None => true,
        Some(p) => if p.len() == 0 {
            t.priority is None
        } else {
            t.priority is Some && t.priority->0@ == p
        },
    }
}

/// The tasks a listing returns, in stored order.
pub open spec fn listed(rows: Seq<TaskRow>, q: Option<Seq<char>>) -> Seq<RespondTask>
    decreases rows.len(),
{
    if rows.len() == 0 {
        Seq::empty()
    } else {
        let rest = listed(rows.drop_last(), q);
        if selected(rows.last(), q) {
            rest.push(respond_of(rows.last()))
        } else {
            rest
        }
    }
}

pub open spec fn has_id(rows: Seq<TaskRow>, id: i32) -> bool {
    exists|i: int| 0 <= i < rows.len() && #[trigger] rows[i].id == id
}

pub open spec fn ids_unique(rows: Seq<TaskRow>) -> bool {
    forall|i: int, j: int|
        0 <= i < rows.len() && 0 <= j < rows.len() && i != j ==> (#[trigger] rows[i]).id != (
        #[trigger] rows[j]).id
}

fn copy_text(t: &Option<String>) -> (r: Option<String>)
    ensures
        r == *t,
{
    match t {
        Some(s) => Some(s.clone()),
        None => None,
    }
}

impl TaskRow {
    pub fn respond(&self) -> (r: RespondTask)
        ensures
            r == respond_of(*self),
    {
        RespondTask {
            id: self.id,
            title: self.title.clone(),
            priority: copy_text(&self.priority),
            description: copy_text(&self.description),
            delete_at: self.deleted_at,
        }
    }
}

/// The persisted tasks.
pub struct TaskTable {
    rows: Vec<TaskRow>,
    next_id: i32,
}

impl View for TaskTable {
    type V = Seq<TaskRow>;

    closed spec fn view(&self) -> Seq<TaskRow> {
        self.rows@
    }
}

impl TaskTable {
    /// The id the next created task receives.
    pub closed spec fn next_id(&self) -> int {
        self.next_id as int
    }

    pub open spec fn wf(&self) -> bool {
        &&& ids_unique(self@)
        &&& 1 <= self.next_id() <= i32::MAX
        &&& forall|i: int| 0 <= i < self@.len() ==> 1 <= #[trigger] self@[i].id < self.next_id()
    }

    pub fn new() -> (r: TaskTable)
        ensures
            r.wf(),
            r@.len() == 0,
            r.next_id() == 1,
    {
        TaskTable { rows: Vec::new(), next_id: 1 }
    }

    pub fn len(&self) -> (r: usize)
        ensures
            r == self@.len(),
    {
        self.rows.len()
    }

    /// The stored tasks, soft-deleted ones included, in creation order.
    pub fn rows(&self) -> (r: &Vec<TaskRow>)
        ensures
            r@ == self@,
    {
        &self.rows
    }

    /// The position of the row with id `id`, live or not.
    pub fn find(&self, id: i32) -> (r: Option<usize>)
        ensures
            r is Some ==> r->0 < self@.len() && self@[r->0 as int].id == id,
            r is None ==> !has_id(self@, id),
    {
        let mut i: usize = 0;
        while i < self.rows.len()
            invariant
                i <= self.rows@.len(),
                forall|j: int| 0 <= j < i ==> (#[trigger] self.rows@[j]).id != id,
            decreases self.rows@.len() - i,
        {
            if self.rows[i].id == id {
                return Some(i);
            }
            i = i + 1;
        }
        None
    }

    /// Stores a new task from title, priority and description; every other
    /// field starts absent. Exhausted ids are an internal error.
    pub fn create_task(&mut self, req: RequstTask) -> (r: Result<i32, Status>)
        requires
            old(self).wf(),
        ensures
            final(self).wf(),
            old(self).next_id() == i32::MAX ==> r == Err::<i32, Status>(Status::InternalError)
                && final(self)@ == old(self)@,
            old(self).next_id() == i32::MAX ==> final(self).next_id() == old(self).next_id(),
            old(self).next_id() < i32::MAX ==> final(self).next_id() == old(self).next_id() + 1,
            old(self).next_id() < i32::MAX ==> r == Ok::<i32, Status>(old(self).next_id() as i32)
                && final(self)@ == old(self)@.push(
                (TaskRow {
                    id: old(self).next_id() as i32,
                    title: req.title,
                    priority: req.priority,
                    description: req.description,
                    completed_at: None,
                    deleted_at: None,
                    user_id: None,
                    is_default: None,
                }),
            ),
    {
        if self.next_id == i32::MAX {
            return Err(Status::InternalError);
        }
        let id = self.next_id;
        let row = TaskRow {
            id: id,
            title: req.title,
            priority: req.priority,
            description: req.description,
            completed_at: None,
            deleted_at: None,
            user_id: None,
            is_default: None,
        };
        self.rows.push(row);
        self.next_id = id + 1;
        Ok(id)
    }

    /// Reads a live task by id; a missing or soft-deleted one is not found.
    pub fn get_task(&self, id: i32) -> (r: Result<RespondTask, Status>)
        requires
            self.wf(),
        ensures
            r is Ok <==> exists|i: int|
                0 <= i < self@.len() && #[trigger] self@[i].id == id && is_live(self@[i]),
            r is Err ==> r == Err::<RespondTask, Status>(Status::NotFound),
            r is Ok ==> exists|i: int|
                0 <= i < self@.len() && #[trigger] self@[i].id == id && r->Ok_0 == respond_of(
                    self@[i],
                ),
    {
        match self.find(id) {
            None => Err(Status::NotFound),
            Some(i) => {
                if self.rows[i].deleted_at.is_some() {
                    proof {
                        assert forall|k: int|
                            0 <= k < self@.len() && #[trigger] self@[k].id == id implies !is_live(
                            self@[k],
                        ) by {
                            if k != i {
                                assert(self@[k].id != self@[i as int].id);
                            }
                        }
                    }
                    Err(Status::NotFound)
                } else {
                    Ok(self.rows[i].respond())
                }
            },
        }
    }

    /// Lists the live tasks that match the priority filter, in stored order.
    pub fn get_tasks(&self, params: &TaskQueryParams) -> (r: Vec<RespondTask>)
        ensures
            r@ == listed(self@, priority_filter(*params)),
    {
        let mut out: Vec<RespondTask> = Vec::new();
        let mut i: usize = 0;
        while i < self.rows.len()
            invariant
                i <= self.rows@.len(),
                out@ == listed(self.rows@.subrange(0, i as int), priority_filter(*params)),
            decreases self.rows@.len() - i,
        {
            let row = &self.rows[i];
            let keep = row.deleted_at.is_none() && match &params.priority {
                None => true,
                Some(p) => if p.as_str().is_empty() {
                    row.priority.is_none()
                } else {
                    match &row.priority {
                        Some(v) => v.eq(p),
                        None => false,
                    }
                },
            };
            assert(self.rows@.subrange(0, i + 1).drop_last() =~= self.rows@.subrange(0, i as int));
            if keep {
                out.push(row.respond());
            }
            i = i + 1;
        }
        assert(self.rows@.subrange(0, self.rows@.len() as int) =~= self.rows@);
        out
    }

    /// Replaces every mutable field of task `id` with `update`; optional
    /// fields left out are cleared. An unknown id is not found.
    pub fn update_task_atomic(&mut self, id: i32, update: UpdateTask) -> (r: Result<(), Status>)
        requires
            old(self).wf(),
        ensures
            final(self).wf(),
            final(self).next_id() == old(self).next_id(),
            !has_id(old(self)@, id) ==> r == Err::<(), Status>(Status::NotFound) && final(self)@
                == old(self)@,
            forall|i: int|
                0 <= i < old(self)@.len() && #[trigger] old(self)@[i].id == id ==> r == Ok::<
                    (),
                    Status,
                >(()) && final(self)@ == old(self)@.update(i, replaced(id, update)),
    {
        match self.find(id) {
            None => Err(Status::NotFound),
            Some(i) => {
                let row = TaskRow {
                    id: id,
                    title: update.title,
                    priority: update.priority,
                    description: update.description,
                    completed_at: update.completed_at,
                    deleted_at: update.deleted_at,
                    user_id: update.user_id,
                    is_default: update.is_default,
                };
                self.rows.set(i, row);
                proof {
                    self.lemma_unique_index(*old(self), i as int, id);
                }
                Ok(())
            },
        }
    }

    /// Merges a tri-state patch into task `id`: an absent field keeps its
    /// stored value, a null clears it, a value sets it. The title is
    /// required, so a null title keeps the stored one. An unknown id is not
    /// found.
    pub fn partial_update_task(&mut self, id: i32, patch: TaskPatch) -> (r: Result<(), Status>)
        requires
            old(self).wf(),
        ensures
            final(self).wf(),
            final(self).next_id() == old(self).next_id(),
            !has_id(old(self)@, id) ==> r == Err::<(), Status>(Status::NotFound) && final(self)@
                == old(self)@,
            forall|i: int|
                0 <= i < old(self)@.len() && #[trigger] old(self)@[i].id == id ==> r == Ok::<
                    (),
                    Status,
                >(()) && final(self)@ == old(
                self,
            )@.update(i, patched(old(self)@[i], patch)),
    {
        let i = match self.find(id) {
            None => return Err(Status::NotFound),
            Some(i) => i,
        };
        let cur = &self.rows[i];
        let title = match patch.title {
            FieldUpdate::Value(v) => v,
            _ => cur.title.clone(),
        };
        let row = TaskRow {
            id: cur.id,
            title: title,
            priority: merge_field(copy_text(&cur.priority), patch.priority),
            description: merge_field(copy_text(&cur.description), patch.description),
            completed_at: merge_field(cur.completed_at, patch.completed_at),
            deleted_at: merge_field(cur.deleted_at, patch.deleted_at),
            user_id: merge_field(cur.user_id, patch.user_id),
            is_default: merge_field(cur.is_default, patch.is_default),
        };
        self.rows.set(i, row);
        proof {
            self.lemma_unique_index(*old(self), i as int, id);
        }
        Ok(())
    }

    /// Deletes task `id` outright, soft-deleted or not; returns how many rows
    /// went (none for an unknown id).
    pub fn delete_task(&mut self, id: i32) -> (r: u64)
        requires
            old(self).wf(),
        ensures
            final(self).wf(),
            final(self).next_id() == old(self).next_id(),
            !has_id(old(self)@, id) ==> r == 0 && final(self)@ == old(self)@,
            forall|i: int|
                0 <= i < old(self)@.len() && #[trigger] old(self)@[i].id == id ==> r == 1
                    && final(self)@ == old(self)@.remove(i),
    {
        match self.find(id) {
            None => 0,
            Some(i) => {
                let _ = self.rows.remove(i);
                proof {
                    assert forall|k: int|
                        0 <= k < old(self)@.len() && #[trigger] old(self)@[k].id == id implies k
                        == i by {
                        if k != i {
                            assert(old(self)@[k].id != old(self)@[i as int].id);
                        }
                    }
                    assert(ids_unique(self@)) by {
                        assert forall|a: int, b: int|
                            0 <= a < self@.len() && 0 <= b < self@.len() && a != b implies (
                            #[trigger] self@[a]).id != (#[trigger] self@[b]).id by {
                            let oa = if a < i { a } else { a + 1 };
                            let ob = if b < i { b } else { b + 1 };
                            assert(self@[a] == old(self)@[oa]);
                            assert(self@[b] == old(self)@[ob]);
                        }
                    }
                    assert forall|k: int| 0 <= k < self@.len() implies 1 <= #[trigger] self@[k].id
                        < self.next_id() by {
                        let ok = if k < i { k } else { k + 1 };
                        assert(self@[k] == old(self)@[ok]);
                    }
                }
                1
            },
        }
    }

    /// Soft-deletes task `id` at `now`: only its `deleted_at` changes, also
    /// when it was already soft-deleted. An unknown id is not found.
    pub fn soft_delete_task_at(&mut self, id: i32, now: Timestamp) -> (r: Result<(), Status>)
        requires
            old(self).wf(),
        ensures
            final(self).wf(),
            final(self).next_id() == old(self).next_id(),
            !has_id(old(self)@, id) ==> r == Err::<(), Status>(Status::NotFound) && final(self)@
                == old(self)@,
            forall|i: int|
                0 <= i < old(self)@.len() && #[trigger] old(self)@[i].id == id ==> r == Ok::<
                    (),
                    Status,
                >(()) && final(self)@ == old(self)@.update(i, stamped(old(self)@[i], now)),
    {
        let i = match self.find(id) {
            None => return Err(Status::NotFound),
            Some(i) => i,
        };
        let cur = &self.rows[i];
        let row = TaskRow {
            id: cur.id,
            title: cur.title.clone(),
            priority: copy_text(&cur.priority),
            description: copy_text(&cur.description),
            completed_at: cur.completed_at,
            deleted_at: Some(now),
            user_id: cur.user_id,
            is_default: cur.is_default,
        };
        self.rows.set(i, row);
        proof {
            self.lemma_unique_index(*old(self), i as int, id);
        }
        Ok(())
    }

    /// Soft-deletes task `id` at the current time.
    pub fn soft_delete_task(&mut self, id: i32) -> (r: Result<(), Status>)
        requires
            old(self).wf(),
        ensures
            final(self).wf(),
            final(self).next_id() == old(self).next_id(),
            !has_id(old(self)@, id) ==> r == Err::<(), Status>(Status::NotFound) && final(self)@
                == old(self)@,
            forall|i: int|
                0 <= i < old(self)@.len() && #[trigger] old(self)@[i].id == id ==> r == Ok::<
                    (),
                    Status,
                >(()) && exists|now: Timestamp|
                    now.wf() && final(self)@ == old(self)@.update(i, stamped(old(self)@[i], now)),
    {
        let now = clock_now();
        self.soft_delete_task_at(id, now)
    }

    /// After row `i` of `old` (whose id is `id`) was rewritten in place with
    /// its id kept, the table is well formed and `i` is the only row with `id`.
    proof fn lemma_unique_index(&self, old: TaskTable, i: int, id: i32)
        requires
            old.wf(),
            0 <= i < old@.len(),
            old@[i].id == id,
            self@.len() == old@.len(),
            self.next_id() == old.next_id(),
            self@[i].id == id,
            forall|j: int| 0 <= j < old@.len() && j != i ==> self@[j] == old@[j],
        ensures
            self.wf(),
            forall|k: int| 0 <= k < old@.len() && #[trigger] old@[k].id == id ==> k == i,
    {
        assert forall|k: int| 0 <= k < old@.len() && #[trigger] old@[k].id == id implies k == i by {
            if k != i {
                assert(old@[k].id != old@[i].id);
            }
        }
        assert forall|a: int, b: int|
            0 <= a < self@.len() && 0 <= b < self@.len() && a != b implies (
            #[trigger] self@[a]).id != (#[trigger] self@[b]).id by {
            assert(old@[a].id != old@[b].id);
        }
        assert forall|k: int| 0 <= k < self@.len() implies 1 <= #[trigger] self@[k].id
            < self.next_id() by {
            assert(old@[k].id == self@[k].id);
        }
    }
}


/// A field left out of a partial update keeps its stored value, a field
/// present as null is cleared, a field present with a value takes it; each
/// mutable field of a task is merged on its own. The title is required: a
/// null leaves it as stored.
pub proof fn lemma_patch_fields(t: TaskRow, p: TaskPatch)
    ensures
        p.priority is Absent ==> patched(t, p).priority == t.priority,
        p.priority is Null ==> patched(t, p).priority is None,
        p.priority is Value ==> patched(t, p).priority == Some(p.priority->Value_0),
        p.description is Absent ==> patched(t, p).description == t.description,
        p.description is Null ==> patched(t, p).description is None,
        p.description is Value ==> patched(t, p).description == Some(p.description->Value_0),
        p.completed_at is Absent ==> patched(t, p).completed_at == t.completed_at,
        p.completed_at is Null ==> patched(t, p).completed_at is None,
        p.completed_at is Value ==> patched(t, p).completed_at == Some(p.completed_at->Value_0),
        p.deleted_at is Absent ==> patched(t, p).deleted_at == t.deleted_at,
        p.deleted_at is Null ==> patched(t, p).deleted_at is None,
        p.deleted_at is Value ==> patched(t, p).deleted_at == Some(p.deleted_at->Value_0),
        p.user_id is Absent ==> patched(t, p).user_id == t.user_id,
        p.user_id is Null ==> patched(t, p).user_id is None,
        p.user_id is Value ==> patched(t, p).user_id == Some(p.user_id->Value_0),
        p.is_default is Absent ==> patched(t, p).is_default == t.is_default,
        p.is_default is Null ==> patched(t, p).is_default is None,
        p.is_default is Value ==> patched(t, p).is_default == Some(p.is_default->Value_0),
        p.title is Absent ==> patched(t, p).title == t.title,
        p.title is Null ==> patched(t, p).title == t.title,
        p.title is Value ==> patched(t, p).title == p.title->Value_0,
        patched(t, p).id == t.id,
{
}

/// Every task that a listing returns is live.
pub proof fn lemma_listed_live(rows: Seq<TaskRow>, q: Option<Seq<char>>)
    ensures
        forall|k: int| 0 <= k < listed(rows, q).len() ==> (#[trigger] listed(rows, q)[k]).delete_at
            is None,
    decreases rows.len(),
{
    if rows.len() > 0 {
        lemma_listed_live(rows.drop_last(), q);
    }
}

/// A soft-deleted task is never read: a listing never holds it, and reading
/// its id finds no live task.
pub proof fn lemma_deleted_never_read(rows: Seq<TaskRow>, q: Option<Seq<char>>, i: int)
    requires
        ids_unique(rows),
        0 <= i < rows.len(),
        rows[i].deleted_at is Some,
    ensures
        !listed(rows, q).contains(respond_of(rows[i])),
        !exists|j: int| 0 <= j < rows.len() && #[trigger] rows[j].id == rows[i].id && is_live(rows[j]),
{
    lemma_listed_live(rows, q);
    assert forall|j: int| 0 <= j < rows.len() && #[trigger] rows[j].id == rows[i].id implies !is_live(
        rows[j],
    ) by {
        if j != i {
            assert(rows[j].id != rows[i].id);
        }
    }
}

/// Soft-deleting a task that is already soft-deleted again succeeds and
/// leaves the table as one soft delete at the later time would: only the
/// timestamp differs from the first.
pub proof fn lemma_soft_delete_twice(rows: Seq<TaskRow>, i: int, first: Timestamp, second: Timestamp)
    requires
        0 <= i < rows.len(),
    ensures
        rows.update(i, stamped(rows[i], first))[i].deleted_at is Some,
        rows.update(i, stamped(rows[i], first)).update(
            i,
            stamped(rows.update(i, stamped(rows[i], first))[i], second),
        ) == rows.update(i, stamped(rows[i], second)),
{
    assert(rows.update(i, stamped(rows[i], first)).update(
        i,
        stamped(rows.update(i, stamped(rows[i], first))[i], second),
    ) =~= rows.update(i, stamped(rows[i], second)));
}

} // verus!
