use vstd::prelude::*;
use crate::error::PoolCreationError;
use crate::error::validate_size;

verus! {

/// One worker: its index in the pool and, until it has been taken for
/// joining, the handle of the thread that runs it.
pub struct Worker<H> {
    id: usize,
    thread: Option<H>,
}

/// The workers of a pool, indexed from 0.
///
/// Its view is the sequence of workers as `(id, handle)` pairs: the handle is
/// `Some` while the worker's thread may still be joined, `None` once it has
/// been taken. A handle, once taken, never comes back, so joining twice is
/// impossible.
pub struct WorkerSet<H> {
    workers: Vec<Worker<H>>,
}

impl<H> View for WorkerSet<H> {
    type V = Seq<(usize, Option<H>)>;

    closed spec fn view(&self) -> Seq<(usize, Option<H>)> {
        self.workers@.map_values(|w: Worker<H>| (w.id, w.thread))
    }
}

/// Each worker's id is its index: the ids are exactly `0..n`, each once.
pub open spec fn ids_in_order<H>(workers: Seq<(usize, Option<H>)>) -> bool {
    forall|i: int| 0 <= i < workers.len() ==> (#[trigger] workers[i]).0 == i
}

/// Every handle has been taken: no thread is left to join.
pub open spec fn all_taken<H>(workers: Seq<(usize, Option<H>)>) -> bool {
    forall|i: int| 0 <= i < workers.len() ==> (#[trigger] workers[i]).1 is None
}

impl<H> WorkerSet<H> {
    /// Well-formedness: the ids are the indices.
    pub open spec fn inv(&self) -> bool {
        ids_in_order(self@)
    }

    /// Creates the workers of a pool of `size`, calling `spawn(id)` once for
    /// each id from 0 to `size - 1`, in that order, and keeping each handle
    /// under its id. A size of zero gives an empty set and spawns nothing.
    pub fn create_workers<F: Fn(usize) -> H>(size: usize, spawn: F) -> (r: Self)
        requires
            forall|id: usize| id < size ==> spawn.requires((id,)),
        ensures
            r.inv(),
            r@.len() == size,
            forall|id: usize| id < size ==> {
                &&& r@[id as int].1 is Some
                &&& spawn.ensures((id,), r@[id as int].1->Some_0)
            },
    {
        let mut workers: Vec<Worker<H>> = Vec::with_capacity(size);
        let mut id: usize = 0;
        while id < size
            invariant
                id <= size,
                workers@.len() == id,
                forall|id: usize| id < size ==> spawn.requires((id,)),
                forall|i: int| 0 <= i < id ==> {
                    &&& (#[trigger] workers@[i]).id == i
                    &&& workers@[i].thread is Some
                    &&& spawn.ensures((i as usize,), workers@[i].thread->Some_0)
                },
            decreases size - id,
        {
            let thread = spawn(id);
            workers.push(Worker { id, thread: Some(thread) });
            id = id + 1;
        }
        let r = WorkerSet { workers };
        proof {
            assert forall|id: usize| id < size implies {
                &&& r@[id as int].1 is Some
                &&& spawn.ensures((id,), r@[id as int].1->Some_0)
            } by {
                assert(r.workers@[id as int].id == id);
            }
        }
        r
    }

    /// The workers of a new pool: as `create_workers`, for a size that must
    /// be positive.
    pub fn new<F: Fn(usize) -> H>(size: usize, spawn: F) -> (r: Self)
        requires
            size > 0,
            forall|id: usize| id < size ==> spawn.requires((id,)),
        ensures
            r.inv(),
            r@.len() == size,
            forall|id: usize| id < size ==> {
                &&& r@[id as int].1 is Some
                &&& spawn.ensures((id,), r@[id as int].1->Some_0)
            },
    {
        WorkerSet::create_workers(size, spawn)
    }

    /// Like `new`, but a size of zero is refused with the configuration
    /// error, and then `spawn` is never called.
    pub fn build<F: Fn(usize) -> H>(size: usize, spawn: F) -> (r: Result<Self, PoolCreationError>)
        requires
            forall|id: usize| id < size ==> spawn.requires((id,)),
        ensures
            size == 0 <==> r is Err,
            r is Ok ==> {
                let set = r->Ok_0;
                &&& set.inv()
                &&& set@.len() == size
                &&& forall|id: usize| id < size ==> {
                    &&& set@[id as int].1 is Some
                    &&& spawn.ensures((id,), set@[id as int].1->Some_0)
                }
            },
    {
        match validate_size(size) {
            Err(e) => Err(e),
            Ok(size) => Ok(WorkerSet::create_workers(size, spawn)),
        }
    }

    /// The number of workers.
    pub fn len(&self) -> (r: usize)
        ensures
            r == self@.len(),
    {
        self.workers.len()
    }

    /// Takes every worker's thread handle for joining, in index order.
    ///
    /// The result is the set as it stood: entry `i` is worker `i`'s id with
    /// the handle it held, or `None` if that handle was already taken.
    /// Afterwards every worker keeps its id and no handle is left, so a second
    /// call yields only `None`s.
    pub fn take_threads(&mut self) -> (r: Vec<(usize, Option<H>)>)
        requires
            old(self).inv(),
        ensures
            final(self).inv(),
            r@ == old(self)@,
            all_taken(final(self)@),
            final(self)@.len() == old(self)@.len(),
            forall|i: int| 0 <= i < old(self)@.len() ==> (#[trigger] final(self)@[i]).0 == old(self)@[i].0,
    {
        let ghost before = self@;
        proof {
            assert forall|j: int| 0 <= j < before.len() implies (#[trigger] self.workers@[j]).id == j by {
                assert(before[j].0 == j);
            }
        }
        let mut taken: Vec<(usize, Option<H>)> = Vec::with_capacity(self.workers.len());
        let mut i: usize = 0;
        while i < self.workers.len()
            invariant
                self.workers@.len() == before.len(),
                i <= self.workers@.len(),
                taken@.len() == i,
                forall|j: int| 0 <= j < before.len() ==> (#[trigger] self.workers@[j]).id == j,
                forall|j: int| 0 <= j < before.len() ==> before[j].0 == j,
                forall|j: int| 0 <= j < i ==> (#[trigger] self.workers@[j]).thread is None,
                forall|j: int| i <= j < before.len() ==> (#[trigger] self.workers@[j]).thread == before[j].1,
                forall|j: int| 0 <= j < i ==> (#[trigger] taken@[j]) == before[j],
            decreases before.len() - i,
        {
            let thread = self.workers[i].thread.take();
            taken.push((self.workers[i].id, thread));
            i = i + 1;
        }
        proof {
            assert(taken@ =~= before);
            assert forall|j: int| 0 <= j < self@.len() implies (#[trigger] self@[j]).1 is None by {
                assert(self.workers@[j].thread is None);
            }
        }
        taken
    }
}

} // verus!
