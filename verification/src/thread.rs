//! Cooperative per-core execution contexts and the explicit registry they
//! live in.
//!
//! A context ("Mthread") is not an OS thread: it is a container to which work
//! can be posted and which executes posted work to completion one item at a
//! time, never concurrently with itself. Where per-core execution engines
//! keep a process-wide table behind an implicit current-thread pointer, the
//! table here is explicit: every operation that needs the registry receives
//! it as a parameter, and the registry records which context is active.
//! An `Mthread` value is a copyable handle naming one registered context by
//! its identifier; context identifiers are assigned from 1 upward, and the
//! first context ever registered — identifier 1 — is the init context.

use vstd::prelude::*;

verus! {

/// Errors of the execution-context layer.
#[derive(Clone, Copy, Debug, PartialEq, Eq, Structural)]
pub enum Error {
    /// Work was spawned from a caller that is not a registered context.
    InvalidThread,
}

/// One unit of work deliverable to a context's message queue. The work a
/// closure of the I/O path closes over is carried here as a tagged value; the
/// receiving context's run loop dequeues and executes tasks one at a time.
#[derive(Clone, Copy, Debug, PartialEq, Eq, Structural)]
pub enum Task {
    /// Rebuild the per-core channel of the given device on the receiving
    /// core, then acknowledge to the reconfiguration in progress.
    Refresh {
        /// Opaque handle of the device whose channel is to be rebuilt.
        device: u64,
    },
}

/// The registered state of one execution context: its identity, the core it
/// is bound to, and its pending-work queue. A context accepts work for as
/// long as it is registered; `destroy` unregisters it once drained.
#[derive(Debug)]
pub struct ThreadState {
    /// Identifier of the context; unique within a registry, never 0.
    pub id: u64,
    /// Human-readable name of the context.
    pub name: String,
    /// The processing core this context is bound to.
    pub core: u32,
    /// Pending units of work, executed in FIFO order.
    pub msgs: Vec<Task>,
}

/// The process-wide table of execution contexts, written at context creation
/// and destruction, plus the record of which context is active on the calling
/// core. It stands in for the implicit current-thread pointer of a per-core
/// execution engine, and is passed explicitly to every operation that needs
/// it.
#[derive(Debug)]
pub struct Reactor {
    /// All registered contexts.
    pub threads: Vec<ThreadState>,
    /// Identifier of the currently active context, if any.
    pub current: Option<u64>,
    /// The identifier the next registered context will receive.
    pub next_id: u64,
}

/// Two context states that agree on everything except their pending queues:
/// same identity, name and core binding.
pub open spec fn entry_like(a: ThreadState, b: ThreadState) -> bool {
    a.id == b.id && a.name@ == b.name@ && a.core == b.core
}

/// A copyable handle on one registered execution context.
#[derive(Clone, Copy, Debug, PartialEq, Eq, Structural)]
pub struct Mthread {
    /// Identifier of the context this handle names.
    pub tid: u64,
}

impl Reactor {
    /// Context identifiers are unique, assigned from 1 upward, and always
    /// below the next identifier to be handed out.
    pub open spec fn wf(self) -> bool {
        &&& forall|i: int, j: int|
            0 <= i < j < self.threads@.len() ==> self.threads@[i].id != self.threads@[j].id
        &&& forall|i: int|
            0 <= i < self.threads@.len() ==> 1 <= #[trigger] self.threads@[i].id < self.next_id
        &&& self.next_id >= 1
    }

    /// Whether a context with the given identifier is registered.
    pub open spec fn has_thread(self, tid: u64) -> bool {
        exists|i: int| 0 <= i < self.threads@.len() && #[trigger] self.threads@[i].id == tid
    }

    /// The index of the context with the given identifier; meaningful when
    /// `has_thread(tid)` holds and the registry is well-formed.
    pub open spec fn thread_index(self, tid: u64) -> int {
        choose|i: int| 0 <= i < self.threads@.len() && #[trigger] self.threads@[i].id == tid
    }

    /// The registered state of the context with the given identifier.
    pub open spec fn thread_state(self, tid: u64) -> ThreadState {
        self.threads@[self.thread_index(tid)]
    }

    /// In a well-formed registry an identifier occurs at one index only, so
    /// any index carrying it is the index `thread_index` denotes.
    pub proof fn lemma_index_of(self, tid: u64, i: int)
        requires
            self.wf(),
            0 <= i < self.threads@.len(),
            self.threads@[i].id == tid,
        ensures
            self.has_thread(tid),
            self.thread_index(tid) == i,
    {
        assert(self.has_thread(tid));
        let j = self.thread_index(tid);
        if j < i {
            assert(self.threads@[j].id != self.threads@[i].id);
        } else if j > i {
            assert(self.threads@[i].id != self.threads@[j].id);
        }
    }

    /// An empty registry: no contexts, none active, identifiers start at 1.
    pub fn new() -> (r: Reactor)
        ensures
            r.wf(),
            r.threads@.len() == 0,
            r.current is None,
            r.next_id == 1,
    {
        Reactor { threads: Vec::new(), current: None, next_id: 1 }
    }

    /// Position of the context with the given identifier, if registered.
    fn find_index(&self, tid: u64) -> (r: Option<usize>)
        ensures
            r matches Some(i) ==> i < self.threads@.len() && self.threads@[i as int].id == tid,
            r is None ==> !self.has_thread(tid),
    {
        let mut i: usize = 0;
        while i < self.threads.len()
            invariant
                i <= self.threads@.len(),
                forall|j: int| 0 <= j < i ==> self.threads@[j].id != tid,
            decreases self.threads@.len() - i,
        {
            if self.threads[i].id == tid {
                return Some(i);
            }
            i += 1;
        }
        None
    }
}

impl Mthread {
    /// Registers a new context bound to the given core and hands back its
    /// handle. The underlying execution primitive of this model cannot fail,
    /// so a context is always returned; a caller must nevertheless be
    /// prepared for absence, which signals resource exhaustion of the
    /// execution engine.
    pub fn new(reactor: &mut Reactor, name: String, core: u32) -> (t: Option<Mthread>)
        requires
            old(reactor).wf(),
            old(reactor).next_id < u64::MAX,
        ensures
            final(reactor).wf(),
            t matches Some(m) && m.tid == old(reactor).next_id,
            final(reactor).threads@.len() == old(reactor).threads@.len() + 1,
            forall|j: int|
                0 <= j < old(reactor).threads@.len()
                    ==> final(reactor).threads@[j] == old(reactor).threads@[j],
            final(reactor).threads@.last().id == old(reactor).next_id,
            final(reactor).threads@.last().name@ == name@,
            final(reactor).threads@.last().core == core,
            final(reactor).threads@.last().msgs@.len() == 0,
            final(reactor).next_id == old(reactor).next_id + 1,
            final(reactor).current == old(reactor).current,
            final(reactor).has_thread(old(reactor).next_id),
    {
        let id = reactor.next_id;
        let state = ThreadState { id, name, core, msgs: Vec::new() };
        reactor.threads.push(state);
        reactor.next_id = id + 1;
        proof {
            let n = old(reactor).threads@.len() as int;
            assert(reactor.threads@[n].id == id);
        }
        Some(Mthread { tid: id })
    }

    /// Handle on the init context, the first context ever registered.
    pub fn get_init(reactor: &Reactor) -> (t: Mthread)
        requires
            reactor.has_thread(1),
        ensures
            t.tid == 1,
    {
        Mthread { tid: 1 }
    }

    /// The identifier of the context this handle names.
    pub fn id(&self) -> (r: u64)
        ensures
            r == self.tid,
    {
        self.tid
    }

    /// The name the context was registered under.
    pub fn name<'a>(&self, reactor: &'a Reactor) -> (r: &'a str)
        requires
            reactor.wf(),
            reactor.has_thread(self.tid),
        ensures
            r@ == reactor.thread_state(self.tid).name@,
    {
        match reactor.find_index(self.tid) {
            Some(i) => {
                proof {
                    reactor.lemma_index_of(self.tid, i as int);
                }
                reactor.threads[i].name.as_str()
            },
            None => vstd::pervasive::unreached(),
        }
    }

    /// The raw identity of the context, surrendering the handle.
    pub fn into_raw(self) -> (r: u64)
        ensures
            r == self.tid,
    {
        self.tid
    }

    /// Makes this context the active one for the calling core.
    pub fn enter(&self, reactor: &mut Reactor)
        ensures
            final(reactor).current == Some(self.tid),
            final(reactor).threads@ == old(reactor).threads@,
            final(reactor).next_id == old(reactor).next_id,
            old(reactor).wf() ==> final(reactor).wf(),
    {
        reactor.current = Some(self.tid);
    }

    /// Makes no context active for the calling core.
    pub fn exit(&self, reactor: &mut Reactor)
        ensures
            final(reactor).current is None,
            final(reactor).threads@ == old(reactor).threads@,
            final(reactor).next_id == old(reactor).next_id,
            old(reactor).wf() ==> final(reactor).wf(),
    {
        reactor.current = None;
    }

    /// Handle on the currently active context, if any.
    pub fn current(reactor: &Reactor) -> (t: Option<Mthread>)
        ensures
            match reactor.current {
                Some(tid) => t matches Some(m) && m.tid == tid,
                None => t is None,
            },
    {
        match reactor.current {
            Some(tid) => Some(Mthread { tid }),
            None => None,
        }
    }

    /// Runs `f` with this context active, then restores the previously active
    /// context unconditionally — scoped acquisition and release of the active
    /// slot. The registry itself is untouched.
    pub fn with<T, F: FnOnce() -> T>(self, reactor: &mut Reactor, f: F) -> (out: T)
        requires
            call_requires(f, ()),
        ensures
            call_ensures(f, (), out),
            final(reactor).threads@ == old(reactor).threads@,
            final(reactor).next_id == old(reactor).next_id,
            final(reactor).current == old(reactor).current,
            old(reactor).wf() ==> final(reactor).wf(),
    {
        let saved = reactor.current;
        reactor.current = Some(self.tid);
        let out = f();
        reactor.current = saved;
        out
    }

    /// Posts one unit of work to this context's queue; delivery is FIFO and
    /// the work runs later, on the context's own execution turn.
    pub fn send_msg(&self, reactor: &mut Reactor, task: Task)
        requires
            old(reactor).wf(),
            old(reactor).has_thread(self.tid),
        ensures
            final(reactor).wf(),
            final(reactor).current == old(reactor).current,
            final(reactor).next_id == old(reactor).next_id,
            final(reactor).threads@.len() == old(reactor).threads@.len(),
            forall|j: int|
                0 <= j < old(reactor).threads@.len() && old(reactor).threads@[j].id != self.tid
                    ==> final(reactor).threads@[j] == old(reactor).threads@[j],
            forall|j: int|
                0 <= j < old(reactor).threads@.len() && old(reactor).threads@[j].id == self.tid
                    ==> entry_like(final(reactor).threads@[j], old(reactor).threads@[j])
                    && final(reactor).threads@[j].msgs@ == old(reactor).threads@[j].msgs@.push(task),
            final(reactor).has_thread(self.tid),
    {
        match reactor.find_index(self.tid) {
            Some(i) => {
                reactor.threads[i].msgs.push(task);
                proof {
                    old(reactor).lemma_index_of(self.tid, i as int);
                    assert(reactor.threads@[i as int].id == self.tid);
                    assert(reactor.has_thread(self.tid));
                }
            },
            None => {
                proof {
                    assert(false);
                }
            },
        }
    }

    /// Posts one unit of work — a 'msg' in the parlance of per-core execution
    /// engines. Instead of erasing a closure and its argument into an opaque
    /// message, the closed-over unit of work is carried as the task value
    /// itself.
    pub fn msg(&self, reactor: &mut Reactor, task: Task)
        requires
            old(reactor).wf(),
            old(reactor).has_thread(self.tid),
        ensures
            final(reactor).wf(),
            final(reactor).current == old(reactor).current,
            final(reactor).next_id == old(reactor).next_id,
            final(reactor).threads@.len() == old(reactor).threads@.len(),
            forall|j: int|
                0 <= j < old(reactor).threads@.len() && old(reactor).threads@[j].id != self.tid
                    ==> final(reactor).threads@[j] == old(reactor).threads@[j],
            forall|j: int|
                0 <= j < old(reactor).threads@.len() && old(reactor).threads@[j].id == self.tid
                    ==> entry_like(final(reactor).threads@[j], old(reactor).threads@[j])
                    && final(reactor).threads@[j].msgs@ == old(reactor).threads@[j].msgs@.push(task),
            final(reactor).has_thread(self.tid),
    {
        self.send_msg(reactor, task);
    }

    /// Takes the next pending unit of work off this context's queue, if any —
    /// one cooperative execution turn. The caller executes the returned task
    /// to completion before polling again, so queued work never runs
    /// concurrently with itself.
    pub fn poll(&self, reactor: &mut Reactor) -> (t: Option<Task>)
        requires
            old(reactor).wf(),
            old(reactor).has_thread(self.tid),
        ensures
            final(reactor).wf(),
            final(reactor).current == old(reactor).current,
            final(reactor).next_id == old(reactor).next_id,
            final(reactor).threads@.len() == old(reactor).threads@.len(),
            forall|j: int|
                0 <= j < old(reactor).threads@.len() && old(reactor).threads@[j].id != self.tid
                    ==> final(reactor).threads@[j] == old(reactor).threads@[j],
            old(reactor).thread_state(self.tid).msgs@.len() == 0
                ==> t is None && final(reactor).threads@ == old(reactor).threads@,
            old(reactor).thread_state(self.tid).msgs@.len() > 0
                ==> t == Some(old(reactor).thread_state(self.tid).msgs@[0])
                && entry_like(final(reactor).thread_state(self.tid), old(reactor).thread_state(self.tid))
                && final(reactor).thread_state(self.tid).msgs@ == old(reactor).thread_state(self.tid).msgs@.drop_first(),
            final(reactor).has_thread(self.tid),
    {
        match reactor.find_index(self.tid) {
            Some(i) => {
                proof {
                    old(reactor).lemma_index_of(self.tid, i as int);
                }
                if reactor.threads[i].msgs.len() == 0 {
                    proof {
                        assert(reactor.threads@ =~= old(reactor).threads@);
                    }
                    None
                } else {
                    let task = reactor.threads[i].msgs.remove(0);
                    proof {
                        reactor.lemma_index_of(self.tid, i as int);
                        assert(reactor.thread_state(self.tid).msgs@ =~= old(
                            reactor,
                        ).thread_state(self.tid).msgs@.drop_first());
                    }
                    Some(task)
                }
            },
            None => vstd::pervasive::unreached(),
        }
    }

    /// Releases a drained context and unregisters it. Draining is the
    /// embedder's run loop: it polls the context, executing each pending task,
    /// until no work remains, and only then destroys it — this call therefore
    /// demands an empty queue. If the destroyed context was the active one,
    /// no context is active afterwards.
    pub fn destroy(self, reactor: &mut Reactor)
        requires
            old(reactor).wf(),
            old(reactor).has_thread(self.tid),
            old(reactor).thread_state(self.tid).msgs@.len() == 0,
        ensures
            final(reactor).wf(),
            final(reactor).threads@ == old(reactor).threads@.remove(
                old(reactor).thread_index(self.tid),
            ),
            !final(reactor).has_thread(self.tid),
            final(reactor).next_id == old(reactor).next_id,
            final(reactor).current == (if old(reactor).current == Some(self.tid) {
                None::<u64>
            } else {
                old(reactor).current
            }),
    {
        match reactor.find_index(self.tid) {
            Some(i) => {
                proof {
                    old(reactor).lemma_index_of(self.tid, i as int);
                }
                reactor.threads.remove(i);
                let was_current = match reactor.current {
                    Some(tid) => tid == self.tid,
                    None => false,
                };
                if was_current {
                    reactor.current = None;
                }
                proof {
                    let s0 = old(reactor).threads@;
                    let s1 = reactor.threads@;
                    assert forall|a: int, b: int| 0 <= a < b < s1.len() implies s1[a].id
                        != s1[b].id by {
                        let a0 = if a < i { a } else { a + 1 };
                        let b0 = if b < i { b } else { b + 1 };
                        assert(s1[a] == s0[a0] && s1[b] == s0[b0]);
                    }
                    assert forall|a: int| 0 <= a < s1.len() implies 1 <= #[trigger] s1[a].id
                        < reactor.next_id by {
                        let a0 = if a < i { a } else { a + 1 };
                        assert(s1[a] == s0[a0]);
                    }
                    assert forall|a: int| 0 <= a < s1.len() implies s1[a].id != self.tid by {
                        let a0 = if a < i { a } else { a + 1 };
                        assert(s1[a] == s0[a0]);
                    }
                }
            },
            None => {
                proof {
                    assert(false);
                }
            },
        }
    }
}

} // verus!
