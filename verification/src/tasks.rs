use vstd::prelude::*;
use crate::ast::{ContextualNode, CtxNodeView, nodes_view};
use crate::eval::{promises_view, spec_promises_lookup, spec_promises_remove};
use crate::value::{anon_view, ContextualObject, ctx_obj_view, CtxObjView, Object, ObjView};

verus! {

/// A queued microtask: the body to evaluate and the promise id its result
/// will be recorded under.
#[derive(Debug)]
pub struct Task {
    pub id: String,
    pub body: Vec<ContextualNode>,
}

/// Model of a queued microtask.
pub struct TaskView {
    pub id: Seq<char>,
    pub body: Seq<CtxNodeView>,
}

/// The model of a task.
pub open spec fn task_view(t: Task) -> TaskView {
    TaskView { id: t.id@, body: nodes_view(t.body@) }
}

impl View for Task {
    type V = TaskView;

    open spec fn view(&self) -> TaskView {
        task_view(*self)
    }
}

/// The models of the task queue, in submission order.
pub open spec fn queue_view(q: Seq<Task>) -> Seq<TaskView> {
    Seq::new(q.len(), |i: int| task_view(q[i]))
}

/// Relies on `uuid::Uuid::new_v4` and its hyphenated `Display` form: a
/// fresh random identifier rendered as 36 characters. Nothing more is
/// assumed of the value. The call does not return if the operating
/// system's random source fails — an environmental failure, like running
/// out of memory.
#[verifier::external_body]
fn fresh_promise_id() -> (r: String)
    ensures
        r@.len() == 36,
{
    uuid::Uuid::new_v4().to_string()
}

/// The decision core of the microtask scheduler: the pending queue, the
/// idle worker handles, and the results recorded under promise ids. The
/// worker threads themselves live outside the library; they are handed the
/// dispatch decisions and report results back through these operations.
#[derive(Debug)]
pub struct MicrotaskScheduler {
    pub worker_count: usize,
    pub queue: Vec<Task>,
    pub free_channels: Vec<usize>,
    pub promises: Vec<(String, ContextualObject)>,
}

impl MicrotaskScheduler {
    /// A scheduler over `count` workers, all idle, with nothing queued and
    /// no results; zero workers disables dispatch.
    pub fn new(count: usize) -> (r: MicrotaskScheduler)
        ensures
            r.worker_count == count,
            queue_view(r.queue@) =~= Seq::<TaskView>::empty(),
            promises_view(r.promises@) =~= Seq::<(Seq<char>, CtxObjView)>::empty(),
            r.free_channels@.len() == count,
            forall|i: int| 0 <= i < count ==> r.free_channels@[i] == i,
    {
        let mut free: Vec<usize> = Vec::new();
        let mut i: usize = 0;
        while i < count
            invariant
                0 <= i <= count,
                free@.len() == i,
                forall|j: int| 0 <= j < i ==> free@[j] == j,
            decreases count - i,
        {
            free.push(i);
            i += 1;
        }
        MicrotaskScheduler { worker_count: count, queue: Vec::new(), free_channels: free, promises: Vec::new() }
    }

    /// Store a task under a given promise id; the returned value is the
    /// promise handle for it.
    pub fn submit_with_id(&mut self, id: String, body: Vec<ContextualNode>) -> (r: ContextualObject)
        ensures
            queue_view(final(self).queue@) =~= queue_view(old(self).queue@).push(
                TaskView { id: id@, body: nodes_view(body@) },
            ),
            final(self).promises == old(self).promises,
            final(self).free_channels == old(self).free_channels,
            final(self).worker_count == old(self).worker_count,
            r@ == anon_view(ObjView::Promise(Seq::<char>::empty(), id@)),
    {
        let handle = Object::Promise(String::new(), id.clone()).anonymous();
        self.queue.push(Task { id, body });
        handle
    }

    /// Store a task under a fresh random promise id and return its handle.
    pub fn submit(&mut self, body: Vec<ContextualNode>) -> (r: ContextualObject)
        ensures
            ({
                let q2 = queue_view(final(self).queue@);
                let q1 = queue_view(old(self).queue@);
                &&& q2.len() == q1.len() + 1
                &&& q2.subrange(0, q1.len() as int) =~= q1
                &&& q2.last().body == nodes_view(body@)
                &&& r@ == anon_view(ObjView::Promise(Seq::<char>::empty(), q2.last().id))
            }),
            final(self).promises == old(self).promises,
            final(self).free_channels == old(self).free_channels,
            final(self).worker_count == old(self).worker_count,
    {
        let id = fresh_promise_id();
        let r = self.submit_with_id(id, body);
        proof {
            assert(queue_view(self.queue@).subrange(0, queue_view(old(self).queue@).len() as int)
                =~= queue_view(old(self).queue@));
        }
        r
    }

    /// Decide one dispatch: with an idle worker and a nonempty queue, take
    /// the oldest task and the most recently freed worker; otherwise
    /// nothing. Performing the dispatch is the caller's business.
    pub fn tick(&mut self) -> (r: Option<(usize, Task)>)
        ensures
            ({
                let q1 = queue_view(old(self).queue@);
                match r {
                    Some(p) => {
                        &&& old(self).free_channels@.len() > 0
                        &&& q1.len() > 0
                        &&& p.0 == old(self).free_channels@.last()
                        &&& p.1@ == q1[0]
                        &&& final(self).free_channels@ =~= old(self).free_channels@.drop_last()
                        &&& queue_view(final(self).queue@) =~= q1.subrange(1, q1.len() as int)
                    },
                    None => {
                        &&& (old(self).free_channels@.len() == 0 || q1.len() == 0)
                        &&& *final(self) == *old(self)
                    },
                }
            }),
            final(self).promises == old(self).promises,
            final(self).worker_count == old(self).worker_count,
    {
        if self.free_channels.len() == 0 || self.queue.len() == 0 {
            return None;
        }
        let worker = self.free_channels.pop().unwrap();
        let task = self.queue.remove(0);
        proof {
            assert(queue_view(self.queue@) =~= queue_view(old(self).queue@).subrange(
                1,
                queue_view(old(self).queue@).len() as int,
            ));
        }
        Some((worker, task))
    }

    /// Hand a worker back after its task completed.
    pub fn release(&mut self, worker: usize)
        ensures
            final(self).free_channels@ =~= old(self).free_channels@.push(worker),
            final(self).queue == old(self).queue,
            final(self).promises == old(self).promises,
            final(self).worker_count == old(self).worker_count,
    {
        self.free_channels.push(worker);
    }

    /// Record a task's result under its promise id.
    pub fn record_result(&mut self, id: String, value: ContextualObject)
        ensures
            promises_view(final(self).promises@) =~= promises_view(old(self).promises@).push(
                (id@, ctx_obj_view(value)),
            ),
            final(self).queue == old(self).queue,
            final(self).free_channels == old(self).free_channels,
            final(self).worker_count == old(self).worker_count,
    {
        self.promises.push((id, value));
    }

    /// Take the recorded result of a promise, if the workers have reported
    /// it; the record is removed. Blocking until it appears is the
    /// caller's loop of `tick` and this.
    pub fn take_result(&mut self, id: &str) -> (r: Option<ContextualObject>)
        ensures
            ({
                let p1 = promises_view(old(self).promises@);
                match r {
                    Some(v) => {
                        &&& spec_promises_lookup(p1, id@) == Some(v@)
                        &&& promises_view(final(self).promises@) == spec_promises_remove(p1, id@)
                    },
                    None => {
                        &&& spec_promises_lookup(p1, id@) is None
                        &&& *final(self) == *old(self)
                    },
                }
            }),
            final(self).queue == old(self).queue,
            final(self).free_channels == old(self).free_channels,
            final(self).worker_count == old(self).worker_count,
    {
        match crate::eval::promises_find(&self.promises, id) {
            Some(j) => {
                proof {
                    crate::eval::lemma_promises_at(promises_view(self.promises@), id@, j as int);
                }
                let entry = self.promises.remove(j);
                proof {
                    assert(promises_view(self.promises@) =~= promises_view(
                        old(self).promises@,
                    ).subrange(0, j as int) + promises_view(old(self).promises@).subrange(
                        j as int + 1,
                        promises_view(old(self).promises@).len() as int,
                    ));
                }
                Some(entry.1)
            },
            None => {
                proof {
                    crate::eval::lemma_promises_none(promises_view(self.promises@), id@);
                }
                None
            },
        }
    }
}

} // verus!
