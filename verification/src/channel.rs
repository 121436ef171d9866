//! Per-core channel state of a nexus: the ordered writer and reader handle
//! sequences, the round-robin read cursor, and the operations that build and
//! rebuild them from the device's current child set.
//!
//! One `NexusChannel` exists per (device, processing core) pair. `refresh`
//! rebuilds both handle sequences from scratch: a first pass admits every open
//! child whose read and write handles can both be acquired (faulting the ones
//! that fail), and a second pass — run only when at least one reader was
//! admitted — appends write handles of rebuilding children, which receive
//! writes but never serve reads.

use vstd::prelude::*;
use vstd::arithmetic::div_mod::{
    lemma_add_mod_noop_right, lemma_mod_multiples_vanish, lemma_mod_self_0, lemma_small_mod,
    lemma_sub_mod_noop,
};
use crate::child::{Child, ChildState, Reason};

verus! {

/// A read or write handle on a child, as held by one core's channel. Handles
/// are owned exclusively by the channel that acquired them; the child they
/// address is recorded by identifier.
#[derive(Clone, Copy, Debug, PartialEq, Eq, Structural)]
pub struct Handle {
    /// Identifier of the child this handle addresses.
    pub child: u64,
}

/// The per-core channel context: independently ordered writer and reader
/// handle sequences, the rotation cursor for read selection, and the owning
/// device. The two sequences share no index semantics.
#[derive(Debug)]
pub struct NexusChannel {
    /// Write handles: every admitted open child plus, when the reader set is
    /// non-empty, every rebuilding child whose write handle was acquired.
    pub writers: Vec<Handle>,
    /// Read handles: every admitted open child, in device enumeration order.
    pub readers: Vec<Handle>,
    /// Cursor of the most recently selected reader.
    pub previous: usize,
    /// Opaque handle of the owning virtual device.
    pub device: u64,
}

/// An open child takes part in reads (and writes) only if both of its handle
/// acquisitions succeed.
pub open spec fn read_eligible(c: Child) -> bool {
    c.state == ChildState::Open && c.read_ok && c.write_ok
}

/// A rebuilding child takes part in writes only, and only if its write handle
/// acquisition succeeds.
pub open spec fn rebuild_write_eligible(c: Child) -> bool {
    c.state == ChildState::Rebuilding && c.write_ok
}

/// The child marked faulted because a handle could not be acquired.
pub open spec fn faulted_child(c: Child) -> Child {
    Child { state: ChildState::Faulted(Reason::CantOpen), ..c }
}

/// A child after the open-child scan: an open child whose handles could not
/// both be acquired is faulted; every other child is untouched.
pub open spec fn child_after_open_scan(c: Child) -> Child {
    if c.state == ChildState::Open && !(c.read_ok && c.write_ok) {
        faulted_child(c)
    } else {
        c
    }
}

/// A child after a full refresh. The rebuild pass runs only when the open-child
/// scan admitted at least one reader; when it runs, a rebuilding child whose
/// write handle cannot be acquired is faulted as well.
pub open spec fn child_after_refresh(c: Child, rebuild_pass: bool) -> Child {
    let c1 = child_after_open_scan(c);
    if rebuild_pass && c1.state == ChildState::Rebuilding && !c1.write_ok {
        faulted_child(c1)
    } else {
        c1
    }
}

/// Read handles admitted by the open-child scan, in enumeration order.
pub open spec fn reader_handles(cs: Seq<Child>) -> Seq<Handle>
    decreases cs.len(),
{
    if cs.len() == 0 {
        Seq::empty()
    } else {
        reader_handles(cs.drop_last()) + if read_eligible(cs.last()) {
            seq![Handle { child: cs.last().id }]
        } else {
            Seq::empty()
        }
    }
}

/// Write handles contributed by the rebuild pass, in enumeration order.
pub open spec fn rebuild_handles(cs: Seq<Child>) -> Seq<Handle>
    decreases cs.len(),
{
    if cs.len() == 0 {
        Seq::empty()
    } else {
        rebuild_handles(cs.drop_last()) + if rebuild_write_eligible(cs.last()) {
            seq![Handle { child: cs.last().id }]
        } else {
            Seq::empty()
        }
    }
}

/// The writer sequence a refresh builds: the open children's write handles,
/// followed by the rebuilding children's write handles unless the reader set
/// came out empty (no point hardening writes with zero read quorum).
pub open spec fn refresh_writers(cs: Seq<Child>) -> Seq<Handle> {
    if reader_handles(cs).len() == 0 {
        reader_handles(cs)
    } else {
        reader_handles(cs) + rebuild_handles(cs)
    }
}

/// The child set after the open-child scan has faulted acquisition failures.
pub open spec fn children_after_open_scan(cs: Seq<Child>) -> Seq<Child> {
    cs.map_values(|c: Child| child_after_open_scan(c))
}

/// The child set after a full refresh.
pub open spec fn children_after_refresh(cs: Seq<Child>) -> Seq<Child> {
    cs.map_values(|c: Child| child_after_refresh(c, reader_handles(cs).len() > 0))
}

/// The state `create` builds for a given device and child set: both sequences
/// hold exactly the open children's handles and the cursor is reset.
pub open spec fn is_fresh_channel(ch: NexusChannel, device: u64, cs: Seq<Child>) -> bool {
    &&& ch.device == device
    &&& ch.previous == 0
    &&& ch.readers@ == reader_handles(cs)
    &&& ch.writers@ == reader_handles(cs)
}

/// The cursor reached after `count` consecutive reader selections starting
/// from cursor `previous` in a reader set of length `len`.
pub open spec fn rotated(previous: int, len: int, count: int) -> int {
    (previous + count) % len
}

impl NexusChannel {
    /// The rotation cursor stays inside the reader set whenever readers exist;
    /// with no readers the cursor is meaningless.
    pub open spec fn wf(self) -> bool {
        self.readers@.len() > 0 ==> (self.previous as int) < self.readers@.len()
    }

    /// Round-robin read selection with wraparound: with no readers, reports
    /// that no read path is available and leaves the cursor untouched;
    /// otherwise advances the cursor one step modulo the reader count and
    /// returns the new index.
    pub fn select_reader(&mut self) -> (r: Option<usize>)
        requires
            old(self).wf(),
        ensures
            final(self).wf(),
            final(self).readers@ == old(self).readers@,
            final(self).writers@ == old(self).writers@,
            final(self).device == old(self).device,
            old(self).readers@.len() == 0 ==> r is None && final(self).previous == old(self).previous,
            old(self).readers@.len() > 0 ==> r == Some(final(self).previous)
                && final(self).previous as int == rotated(
                old(self).previous as int,
                old(self).readers@.len() as int,
                1,
            ),
    {
        if self.readers.len() == 0 {
            None
        } else {
            if self.previous < self.readers.len() - 1 {
                self.previous = self.previous + 1;
            } else {
                self.previous = 0;
            }
            proof {
                let p = old(self).previous as int;
                let n = old(self).readers@.len() as int;
                if p + 1 < n {
                    lemma_small_mod((p + 1) as nat, n as nat);
                } else {
                    lemma_mod_self_0(n);
                }
            }
            Some(self.previous)
        }
    }

    /// The open-child scan shared by `create` and `refresh`: walks the child
    /// set in enumeration order, appends both handles of every open child
    /// whose two acquisitions succeed, and faults every open child for which
    /// either acquisition fails. Children in any other state are skipped.
    fn scan_open_children(&mut self, children: &mut Vec<Child>)
        requires
            old(self).readers@.len() == 0,
            old(self).writers@.len() == 0,
        ensures
            final(self).device == old(self).device,
            final(self).previous == old(self).previous,
            final(self).readers@ == reader_handles(old(children)@),
            final(self).writers@ == reader_handles(old(children)@),
            final(children)@ == children_after_open_scan(old(children)@),
    {
        let ghost cs0 = children@;
        let n = children.len();
        let mut i: usize = 0;
        while i < n
            invariant
                n == cs0.len(),
                children@.len() == cs0.len(),
                i <= n,
                forall|j: int| 0 <= j < i ==> children@[j] == child_after_open_scan(cs0[j]),
                forall|j: int| i <= j < cs0.len() ==> children@[j] == cs0[j],
                self.readers@ == reader_handles(cs0.take(i as int)),
                self.writers@ == reader_handles(cs0.take(i as int)),
                self.previous == old(self).previous,
                self.device == old(self).device,
            decreases n - i,
        {
            let c = children[i];
            proof {
                lemma_reader_handles_step(cs0, i as int);
            }
            if c.state == ChildState::Open {
                if c.read_ok && c.write_ok {
                    self.writers.push(Handle { child: c.id });
                    self.readers.push(Handle { child: c.id });
                    proof {
                        assert(self.readers@ =~= reader_handles(cs0.take(i + 1 as int)));
                        assert(self.writers@ =~= reader_handles(cs0.take(i + 1 as int)));
                    }
                } else {
                    children[i] = Child { state: ChildState::Faulted(Reason::CantOpen), ..c };
                }
            }
            i += 1;
        }
        proof {
            assert(cs0.take(n as int) =~= cs0);
            assert(children@ =~= children_after_open_scan(cs0));
        }
    }

    /// Full rebuild of both handle sequences from the device's current child
    /// set. Clears all held handles and resets the cursor, admits every open
    /// child whose handles can be acquired (faulting the ones that fail), and
    /// — only if that left the reader set non-empty — appends write handles of
    /// rebuilding children, faulting rebuilding children whose write handle
    /// cannot be acquired.
    pub fn refresh(&mut self, children: &mut Vec<Child>)
        ensures
            final(self).device == old(self).device,
            final(self).previous == 0,
            final(self).readers@ == reader_handles(old(children)@),
            final(self).writers@ == refresh_writers(old(children)@),
            final(children)@ == children_after_refresh(old(children)@),
            final(self).wf(),
    {
        let ghost cs0 = children@;
        self.writers.clear();
        self.readers.clear();
        self.previous = 0;
        self.scan_open_children(children);
        if self.readers.len() > 0 {
            let ghost cs1 = children@;
            let n = children.len();
            let mut i: usize = 0;
            while i < n
                invariant
                    n == cs1.len(),
                    children@.len() == cs1.len(),
                    i <= n,
                    cs1 == children_after_open_scan(cs0),
                    forall|j: int| 0 <= j < i ==> children@[j] == child_after_refresh(
                        cs0[j],
                        true,
                    ),
                    forall|j: int| i <= j < cs1.len() ==> children@[j] == cs1[j],
                    self.readers@ == reader_handles(cs0),
                    reader_handles(cs0).len() > 0,
                    self.writers@ == reader_handles(cs0) + rebuild_handles(cs1.take(i as int)),
                    self.previous == 0,
                    self.device == old(self).device,
                decreases n - i,
            {
                let c = children[i];
                proof {
                    lemma_rebuild_handles_step(cs1, i as int);
                }
                if c.state == ChildState::Rebuilding {
                    if c.write_ok {
                        self.writers.push(Handle { child: c.id });
                        proof {
                            assert(self.writers@ =~= reader_handles(cs0) + rebuild_handles(
                                cs1.take(i + 1 as int),
                            ));
                        }
                    } else {
                        children[i] = Child { state: ChildState::Faulted(Reason::CantOpen), ..c };
                    }
                }
                i += 1;
            }
            proof {
                assert(cs1.take(n as int) =~= cs1);
                lemma_rebuild_handles_open_scan(cs0);
                assert(children@ =~= children_after_refresh(cs0));
            }
        } else {
            proof {
                assert(children@ =~= children_after_refresh(cs0));
            }
        }
    }

    /// Lifecycle callback invoked once per (device, core) pair when a core
    /// first routes I/O to the device: populates the slot with a channel built
    /// from the currently open children (faulting acquisition failures) and
    /// reports success.
    pub fn create(device: u64, children: &mut Vec<Child>, slot: &mut Option<NexusChannel>) -> (r:
        i32)
        ensures
            r == 0,
            (*final(slot)) matches Some(ch) && is_fresh_channel(ch, device, old(children)@),
            final(children)@ == children_after_open_scan(old(children)@),
    {
        let mut ch = NexusChannel {
            writers: Vec::new(),
            readers: Vec::new(),
            previous: 0,
            device,
        };
        ch.scan_open_children(children);
        *slot = Some(ch);
        0
    }

    /// Lifecycle callback invoked on teardown of a (device, core) pair: clears
    /// the slot, dropping every handle this core held. Child state is not
    /// touched.
    pub fn destroy(slot: &mut Option<NexusChannel>)
        ensures
            (*final(slot)) is None,
    {
        *slot = None;
    }
}

proof fn lemma_reader_handles_step(cs: Seq<Child>, i: int)
    requires
        0 <= i < cs.len(),
    ensures
        reader_handles(cs.take(i + 1)) == reader_handles(cs.take(i)) + if read_eligible(cs[i]) {
            seq![Handle { child: cs[i].id }]
        } else {
            Seq::<Handle>::empty()
        },
{
    assert(cs.take(i + 1).drop_last() =~= cs.take(i));
    assert(cs.take(i + 1).last() == cs[i]);
}

proof fn lemma_rebuild_handles_step(cs: Seq<Child>, i: int)
    requires
        0 <= i < cs.len(),
    ensures
        rebuild_handles(cs.take(i + 1)) == rebuild_handles(cs.take(i)) + if rebuild_write_eligible(
            cs[i],
        ) {
            seq![Handle { child: cs[i].id }]
        } else {
            Seq::<Handle>::empty()
        },
{
    assert(cs.take(i + 1).drop_last() =~= cs.take(i));
    assert(cs.take(i + 1).last() == cs[i]);
}

/// The open-child scan never touches a rebuilding child, so the rebuild pass
/// contributes the same handles whether computed before or after the scan.
proof fn lemma_rebuild_handles_open_scan(cs: Seq<Child>)
    ensures
        rebuild_handles(children_after_open_scan(cs)) == rebuild_handles(cs),
    decreases cs.len(),
{
    let cs1 = children_after_open_scan(cs);
    if cs.len() == 0 {
        assert(cs1 =~= Seq::<Child>::empty());
    } else {
        lemma_rebuild_handles_open_scan(cs.drop_last());
        assert(cs1.drop_last() =~= children_after_open_scan(cs.drop_last()));
        assert(cs1.last() == child_after_open_scan(cs.last()));
    }
}

/// Some selection step within one period (of length `n`) lands on `idx`.
pub open spec fn reached_within_period(p: int, n: int, idx: int) -> bool {
    exists|k: int| 1 <= k <= n && rotated(p, n, k) == idx
}

/// Cyclic fairness of reader selection: starting from cursor `p` in a reader
/// set of length `n`, the indices returned by consecutive `select_reader`
/// calls are `rotated(p, n, 1)`, `rotated(p, n, 2)`, ... (each call advances
/// the cursor by one step modulo `n`, see `lemma_rotated_step`). The first `n`
/// of them are pairwise distinct and cover every index exactly once, and the
/// `(n + 1)`-th repeats the first.
pub proof fn lemma_select_reader_cyclic(p: int, n: int)
    requires
        0 <= p < n,
    ensures
        forall|i: int, j: int| 1 <= i < j <= n ==> rotated(p, n, i) != rotated(p, n, j),
        forall|idx: int| 0 <= idx < n ==> #[trigger] reached_within_period(p, n, idx),
        rotated(p, n, n + 1) == rotated(p, n, 1),
{
    assert forall|i: int, j: int| 1 <= i < j <= n implies rotated(p, n, i) != rotated(
        p,
        n,
        j,
    ) by {
        lemma_rotated_distinct(p, n, i, j);
    }
    assert forall|idx: int| 0 <= idx < n implies #[trigger] reached_within_period(p, n, idx) by {
        lemma_rotated_covers(p, n, idx);
    }
    lemma_mod_multiples_vanish(1, p + 1, n);
}

/// Two distinct selection steps within one period land on distinct indices.
pub proof fn lemma_rotated_distinct(p: int, n: int, i: int, j: int)
    requires
        0 <= p < n,
        1 <= i < j <= n,
    ensures
        rotated(p, n, i) != rotated(p, n, j),
{
    if rotated(p, n, i) == rotated(p, n, j) {
        lemma_sub_mod_noop(p + j, p + i, n);
        lemma_small_mod(0nat, n as nat);
        lemma_small_mod((j - i) as nat, n as nat);
        assert(false);
    }
}

/// Every reader index is reached within one period of selections.
pub proof fn lemma_rotated_covers(p: int, n: int, idx: int)
    requires
        0 <= p < n,
        0 <= idx < n,
    ensures
        reached_within_period(p, n, idx),
{
    let k = if idx > p {
        idx - p
    } else {
        idx - p + n
    };
    lemma_small_mod(idx as nat, n as nat);
    if idx <= p {
        lemma_mod_multiples_vanish(1, idx, n);
    }
    assert(rotated(p, n, k) == idx);
}

/// One further selection advances the landing index by a single rotation step,
/// exactly as the cursor update of `select_reader` does.
pub proof fn lemma_rotated_step(p: int, n: int, k: int)
    requires
        n > 0,
        k >= 0,
    ensures
        rotated(p, n, k + 1) == (rotated(p, n, k) + 1) % n,
{
    lemma_add_mod_noop_right(1, p + k, n);
}

/// A destroyed slot carries no channel state over, so the channel `create`
/// then builds is determined by the device and the child set alone: any two
/// channels satisfying the `create` contract on the same inputs carry the
/// same handle sequences, cursor and device. Destroying a channel and
/// recreating it therefore yields state indistinguishable from that of a
/// never-used fresh channel.
pub proof fn lemma_destroy_then_create_fresh(
    a: NexusChannel,
    b: NexusChannel,
    device: u64,
    cs: Seq<Child>,
)
    requires
        is_fresh_channel(a, device, cs),
        is_fresh_channel(b, device, cs),
    ensures
        a.writers@ == b.writers@,
        a.readers@ == b.readers@,
        a.previous == b.previous,
        a.device == b.device,
{
}

/// When no child of the set is rebuilding, a `refresh` rebuilds exactly the
/// state a fresh `create` builds: the rebuild pass contributes no handle and
/// faults no child. (With a rebuilding child present the two differ by
/// construction, since `create` never runs the rebuild pass.)
pub proof fn lemma_refresh_matches_create(cs: Seq<Child>)
    requires
        forall|i: int| 0 <= i < cs.len() ==> cs[i].state != ChildState::Rebuilding,
    ensures
        refresh_writers(cs) == reader_handles(cs),
        children_after_refresh(cs) == children_after_open_scan(cs),
{
    lemma_no_rebuild_handles(cs);
    assert(reader_handles(cs) + rebuild_handles(cs) =~= reader_handles(cs));
    assert(children_after_refresh(cs) =~= children_after_open_scan(cs));
}

/// A child set without rebuilding children contributes no rebuild handles.
proof fn lemma_no_rebuild_handles(cs: Seq<Child>)
    requires
        forall|i: int| 0 <= i < cs.len() ==> cs[i].state != ChildState::Rebuilding,
    ensures
        rebuild_handles(cs) == Seq::<Handle>::empty(),
    decreases cs.len(),
{
    if cs.len() > 0 {
        lemma_no_rebuild_handles(cs.drop_last());
        assert(rebuild_handles(cs) =~= Seq::<Handle>::empty());
    }
}

} // verus!
