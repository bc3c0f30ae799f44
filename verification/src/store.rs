//! The task store: every known task under its identifier, and the counter
//! that hands identifiers out.

use crate::task::{Task, TaskView};
use std::collections::HashMap;
use vstd::prelude::*;
use vstd::std_specs::hash::*;

verus! {

broadcast use vstd::std_specs::hash::group_hash_axioms;

/// The first identifier a store hands out. 0 stands for "not assigned yet".
pub const FIRST_ID: u32 = 1;

/// What a store holds, as plain mathematical values.
pub struct StoreView {
    pub tasks: Map<u32, TaskView>,
    pub next_id: int,
}

impl StoreView {
    /// Every task is stored under its own identifier, which the counter has
    /// already passed, and ends after it starts.
    pub open spec fn wf(self) -> bool {
        &&& FIRST_ID <= self.next_id <= u32::MAX
        &&& self.tasks.dom().finite()
        &&& forall|id: u32| #[trigger]
            self.tasks.contains_key(id) ==> {
                &&& FIRST_ID <= id < self.next_id
                &&& self.tasks[id].id == id
                &&& self.tasks[id].wf()
            }
    }

    /// The identifiers in use that are less than `bound`.
    pub open spec fn ids_below(self, bound: int) -> Set<u32> {
        self.tasks.dom().filter(|k: u32| k < bound)
    }

    /// The store before anything was added.
    pub open spec fn empty() -> StoreView {
        StoreView { tasks: Map::empty(), next_id: FIRST_ID as int }
    }

    /// Whether the counter can still hand out an identifier.
    pub open spec fn has_room(self) -> bool {
        self.next_id < u32::MAX
    }

    /// The store after `task` was added under the next identifier.
    pub open spec fn add(self, task: TaskView) -> StoreView {
        StoreView {
            tasks: self.tasks.insert(self.next_id as u32, task.with_id(self.next_id as u32)),
            next_id: self.next_id + 1,
        }
    }

    /// The store after the task under `id`, if any, was taken out. The counter
    /// stays where it was.
    pub open spec fn remove(self, id: u32) -> StoreView {
        StoreView { tasks: self.tasks.remove(id), next_id: self.next_id }
    }

    /// The store after the next occurrence of `done` was added, where there is
    /// one and the counter has room; else the store as it was.
    pub open spec fn continue_chain(self, done: TaskView) -> StoreView {
        if done.successor().is_some() && self.has_room() {
            self.add(done.successor().unwrap())
        } else {
            self
        }
    }
}

/// The tasks of a map, each as plain values.
spec fn views(m: Map<u32, Task>) -> Map<u32, TaskView> {
    m.map_values(|t: Task| t@)
}

/// `views` keeps the identifiers and takes each task to its view.
proof fn lemma_views(m: Map<u32, Task>)
    ensures
        views(m).dom() == m.dom(),
        forall|k: u32| #[trigger] m.contains_key(k) ==> views(m)[k] == m[k]@,
        m.dom().finite() ==> views(m).dom().finite(),
        m == Map::<u32, Task>::empty() ==> views(m) == Map::<u32, TaskView>::empty(),
{
    assert(views(m).dom() =~= m.dom());
    if m == Map::<u32, Task>::empty() {
        assert(views(m) =~= Map::<u32, TaskView>::empty());
    }
}

/// `views` of a map with one more task.
proof fn lemma_views_insert(m: Map<u32, Task>, k: u32, t: Task)
    ensures
        views(m.insert(k, t)) == views(m).insert(k, t@),
{
    assert(views(m.insert(k, t)) =~= views(m).insert(k, t@));
}

/// `views` of a map with one task less.
proof fn lemma_views_remove(m: Map<u32, Task>, k: u32)
    ensures
        views(m.remove(k)) == views(m).remove(k),
        !m.contains_key(k) ==> views(m).remove(k) == views(m),
{
    assert(views(m.remove(k)) =~= views(m).remove(k));
    if !m.contains_key(k) {
        assert(views(m).remove(k) =~= views(m));
    }
}

/// How the identifiers below a bound grow as the bound moves past `id`.
proof fn lemma_ids_below_step(s: StoreView, id: u32)
    requires
        s.tasks.dom().finite(),
    ensures
        s.ids_below(id as int).finite(),
        s.ids_below(id + 1).finite(),
        s.ids_below(id + 1).len() == s.ids_below(id as int).len() + if s.tasks.contains_key(id) {
            1int
        } else {
            0int
        },
{
    let dom = s.tasks.dom();
    let below = |k: u32| k < id as int;
    let upto = |k: u32| k < id + 1;
    dom.lemma_len_filter(below);
    dom.lemma_len_filter(upto);
    assert(s.ids_below(id as int) =~= dom.filter(below));
    assert(s.ids_below(id + 1) =~= dom.filter(upto));
    if s.tasks.contains_key(id) {
        assert(s.ids_below(id + 1) =~= s.ids_below(id as int).insert(id));
    } else {
        assert(s.ids_below(id + 1) =~= s.ids_below(id as int));
    }
}

/// The task store.
pub struct AppState {
    tasks: HashMap<u32, Task>,
    next_id: u32,
}

impl View for AppState {
    type V = StoreView;

    closed spec fn view(&self) -> StoreView {
        StoreView { tasks: views(self.tasks@), next_id: self.next_id as int }
    }
}

impl Default for AppState {
    fn default() -> (r: Self)
        ensures
            r@ == StoreView::empty(),
    {
        AppState::new()
    }
}

impl AppState {
    #[verifier::type_invariant]
    pub(crate) open spec fn inv(self) -> bool {
        self@.wf()
    }

    /// An empty store whose first identifier will be 1.
    pub fn new() -> (r: Self)
        ensures
            r@ == StoreView::empty(),
            r@.wf(),
    {
        let tasks: HashMap<u32, Task> = HashMap::new();
        proof {
            lemma_views(tasks@);
        }
        AppState { tasks, next_id: FIRST_ID }
    }

    /// Whether another task can be added: the counter never goes back, so it
    /// runs out after `u32::MAX - 1` additions.
    pub fn has_room(&self) -> (r: bool)
        ensures
            r == self@.has_room(),
            self@.wf(),
    {
        proof {
            use_type_invariant(self);
        }
        self.next_id < u32::MAX
    }

    /// The number of tasks in the store.
    pub fn len(&self) -> (r: usize)
        ensures
            r == self@.tasks.len(),
    {
        proof {
            lemma_views(self.tasks@);
        }
        self.tasks.len()
    }

    /// Stores `task` under the next identifier and returns that identifier.
    /// Identifiers are handed out in increasing order and never again.
    pub fn add_task(&mut self, task: Task) -> (id: u32)
        requires
            old(self)@.has_room(),
        ensures
            id == old(self)@.next_id,
            final(self)@ == old(self)@.add(task@),
            final(self)@.wf(),
            final(self)@.tasks[id].end > final(self)@.tasks[id].start,
    {
        proof {
            use_type_invariant(&*self);
            use_type_invariant(&task);
        }
        let id = self.next_id;
        let stored = task.assigned(id);
        // The map is taken out while it changes, so that the store is
        // consistent at every step.
        let mut tasks: HashMap<u32, Task> = HashMap::new();
        proof {
            lemma_views(tasks@);
        }
        std::mem::swap(&mut self.tasks, &mut tasks);
        let ghost before = tasks@;
        tasks.insert(id, stored);
        self.next_id = id + 1;
        proof {
            lemma_views_insert(before, id, stored);
            lemma_views(tasks@);
        }
        std::mem::swap(&mut self.tasks, &mut tasks);
        id
    }

    /// Takes the task under `task_id` out of the store and returns it. Where
    /// there is none, the store stays as it was.
    pub fn remove_task(&mut self, task_id: u32) -> (r: Option<Task>)
        ensures
            r.is_some() == old(self)@.tasks.contains_key(task_id),
            r matches Some(t) ==> t@ == old(self)@.tasks[task_id],
            final(self)@ == old(self)@.remove(task_id),
            r.is_none() ==> final(self)@ == old(self)@,
            final(self)@.wf(),
    {
        proof {
            use_type_invariant(&*self);
        }
        let mut tasks: HashMap<u32, Task> = HashMap::new();
        proof {
            lemma_views(tasks@);
        }
        std::mem::swap(&mut self.tasks, &mut tasks);
        let ghost before = tasks@;
        let r = tasks.remove(&task_id);
        proof {
            lemma_views(before);
            lemma_views_remove(before, task_id);
            lemma_views(tasks@);
        }
        std::mem::swap(&mut self.tasks, &mut tasks);
        r
    }

    /// A copy of the task under `task_id`, if there is one.
    pub fn get_task(&self, task_id: u32) -> (r: Option<Task>)
        ensures
            r.is_some() == self@.tasks.contains_key(task_id),
            r matches Some(t) ==> t@ == self@.tasks[task_id],
    {
        proof {
            lemma_views(self.tasks@);
        }
        match self.tasks.get(&task_id) {
            Some(t) => Some(t.clone()),
            None => None,
        }
    }

    /// A copy of every task in the store, in the order of their identifiers.
    pub fn list_tasks(&self) -> (r: Vec<Task>)
        ensures
            r.len() == self@.tasks.len(),
            forall|i: int, j: int| 0 <= i < j < r.len() ==> r[i]@.id < r[j]@.id,
            forall|i: int|
                0 <= i < r.len() ==> self@.tasks.contains_key(#[trigger] r[i]@.id)
                    && self@.tasks[r[i]@.id] == r[i]@,
            forall|id: u32| #[trigger]
                self@.tasks.contains_key(id) ==> exists|i: int|
                    0 <= i < r.len() && r[i]@.id == id,
            forall|i: int| 0 <= i < r.len() ==> (#[trigger] r[i]@).end > r[i]@.start,
    {
        proof {
            use_type_invariant(self);
            lemma_views(self.tasks@);
            assert(self@.ids_below(FIRST_ID as int) =~= Set::<u32>::empty());
        }
        let mut out: Vec<Task> = Vec::new();
        let mut id: u32 = FIRST_ID;
        while id < self.next_id
            invariant
                self@.wf(),
                views(self.tasks@).dom() == self.tasks@.dom(),
                forall|k: u32| #[trigger]
                    self.tasks@.contains_key(k) ==> views(self.tasks@)[k] == self.tasks@[k]@,
                FIRST_ID <= id <= self.next_id,
                self@.ids_below(id as int).finite(),
                out.len() == self@.ids_below(id as int).len(),
                forall|i: int, j: int| 0 <= i < j < out.len() ==> out[i]@.id < out[j]@.id,
                forall|i: int| 0 <= i < out.len() ==> (#[trigger] out[i]@.id) < id,
                forall|i: int|
                    0 <= i < out.len() ==> self@.tasks.contains_key(#[trigger] out[i]@.id)
                        && self@.tasks[out[i]@.id] == out[i]@,
                forall|k: u32| #[trigger]
                    self@.tasks.contains_key(k) && k < id ==> exists|i: int|
                        0 <= i < out.len() && out[i]@.id == k,
            decreases self.next_id - id,
        {
            let ghost seen = out@;
            proof {
                lemma_ids_below_step(self@, id);
            }
            match self.tasks.get(&id) {
                Some(t) => {
                    out.push(t.clone());
                    proof {
                        let n = seen.len() as int;
                        assert(self.tasks@.contains_key(id));
                        assert(self@.tasks.contains_key(id));
                        assert(out[n]@ == self@.tasks[id]);
                        assert(out[n]@.id == id);
                        assert forall|k: u32| #[trigger]
                            self@.tasks.contains_key(k) && k < id + 1 implies exists|i: int|
                            0 <= i < out.len() && out[i]@.id == k by {
                            if k < id {
                                let i = choose|i: int| 0 <= i < seen.len() && seen[i]@.id == k;
                                assert(out[i]@.id == k);
                            } else {
                                assert(out[n]@.id == k);
                            }
                        }
                    }
                },
                None => {
                    proof {
                        assert forall|k: u32| #[trigger]
                            self@.tasks.contains_key(k) && k < id + 1 implies exists|i: int|
                            0 <= i < out.len() && out[i]@.id == k by {
                            if k < id {
                                let i = choose|i: int| 0 <= i < seen.len() && seen[i]@.id == k;
                                assert(out[i]@.id == k);
                            }
                        }
                    }
                },
            }
            id = id + 1;
        }
        proof {
            assert forall|i: int| 0 <= i < out.len() implies (#[trigger] out[i]@).end
                > out[i]@.start by {
                assert(self@.tasks.contains_key(out[i]@.id));
            }
            assert(self@.ids_below(self.next_id as int) =~= self@.tasks.dom());
        }
        out
    }

    /// Adds the next occurrence of the completed task `done` and returns its
    /// identifier. Nothing is added, and `None` returned, where `done` has no
    /// next occurrence or the counter has run out.
    pub fn add_successor(&mut self, done: &Task) -> (r: Option<u32>)
        ensures
            final(self)@ == old(self)@.continue_chain(done@),
            r.is_some() == (done@.successor().is_some() && old(self)@.has_room()),
            r matches Some(id) ==> id == old(self)@.next_id,
            final(self)@.wf(),
    {
        proof {
            use_type_invariant(&*self);
        }
        if !self.has_room() {
            return None;
        }
        match done.next_occurrence() {
            Some(next) => Some(self.add_task(next)),
            None => None,
        }
    }
}

/// No stored task ends at or before its start.
pub proof fn lemma_stored_tasks_end_after_start(s: StoreView, id: u32)
    requires
        s.wf(),
        s.tasks.contains_key(id),
    ensures
        s.tasks[id].end > s.tasks[id].start,
        s.tasks[id].id == id,
        id != 0,
{
}

/// Adding a well-formed task keeps the store consistent, stores the task
/// under the identifier handed out, and leaves every other task alone.
pub proof fn lemma_add_keeps_store(s: StoreView, t: TaskView)
    requires
        s.wf(),
        s.has_room(),
        t.wf(),
    ensures
        s.add(t).wf(),
        !s.tasks.contains_key(s.next_id as u32),
        s.add(t).tasks[s.next_id as u32] == t.with_id(s.next_id as u32),
        s.add(t).tasks.len() == s.tasks.len() + 1,
        forall|id: u32| #[trigger]
            s.tasks.contains_key(id) ==> s.add(t).tasks.contains_key(id) && s.add(t).tasks[id]
                == s.tasks[id],
{
    let id = s.next_id as u32;
    if s.tasks.contains_key(id) {
        assert(id < s.next_id);
    }
    let after = s.add(t);
    assert forall|k: u32| #[trigger] after.tasks.contains_key(k) implies FIRST_ID <= k
        < after.next_id && after.tasks[k].id == k && after.tasks[k].wf() by {
        if k != id {
            assert(s.tasks.contains_key(k));
        }
    }
}

/// Identifiers grow: of two tasks added one after the other, whatever was
/// removed in between, the second gets the greater identifier, and neither
/// gets one that is in use.
pub proof fn lemma_ids_strictly_increase(s: StoreView, a: TaskView, gone: u32, b: TaskView)
    requires
        s.wf(),
        s.next_id + 1 < u32::MAX,
        a.wf(),
        b.wf(),
    ensures
        s.add(a).remove(gone).has_room(),
        s.add(a).remove(gone).next_id > s.next_id,
        !s.tasks.contains_key(s.next_id as u32),
        !s.add(a).tasks.contains_key(s.add(a).remove(gone).next_id as u32),
        s.add(a).remove(gone).add(b).wf(),
{
    lemma_add_keeps_store(s, a);
    lemma_remove_keeps_store(s.add(a), gone);
    lemma_add_keeps_store(s.add(a).remove(gone), b);
    let mid = s.add(a);
    if mid.tasks.contains_key(mid.next_id as u32) {
        assert((mid.next_id as u32) < mid.next_id);
    }
}

/// Removing keeps the store consistent and the counter where it was; removing
/// an identifier that is not in the store changes nothing.
pub proof fn lemma_remove_keeps_store(s: StoreView, id: u32)
    requires
        s.wf(),
    ensures
        s.remove(id).wf(),
        s.remove(id).next_id == s.next_id,
        !s.tasks.contains_key(id) ==> s.remove(id) == s,
        s.tasks.contains_key(id) ==> s.remove(id).tasks.len() + 1 == s.tasks.len(),
{
    let after = s.remove(id);
    assert forall|k: u32| #[trigger] after.tasks.contains_key(k) implies FIRST_ID <= k
        < after.next_id && after.tasks[k].id == k && after.tasks[k].wf() by {
        assert(s.tasks.contains_key(k));
    }
    if !s.tasks.contains_key(id) {
        assert(s.tasks.remove(id) =~= s.tasks);
    }
}

/// A completed task that does not recur adds nothing to the store.
pub proof fn lemma_no_successor_stored(s: StoreView, done: TaskView)
    requires
        !done.is_recurring,
    ensures
        s.continue_chain(done) == s,
{
}

} // verus!
