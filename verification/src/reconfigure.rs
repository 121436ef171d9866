//! The dynamic-reconfiguration protocol: fan-out of a refresh request to every
//! core that holds a channel for a device, fan-in of the acknowledgments, and
//! resolution of a single one-shot completion signal once all cores have
//! acknowledged.
//!
//! A reconfiguration is born with the set of participating cores as its
//! outstanding-acknowledgment list and a one-shot producer held in reserve.
//! Each core, on its own execution turn, rebuilds its channel and
//! acknowledges; the acknowledgment that empties the outstanding list — and
//! only that one — consumes the producer and delivers the aggregate status to
//! the awaiting initiator. Acknowledgments may arrive in any order.

use vstd::prelude::*;
use futures::channel::oneshot;
use crate::child::Child;
use crate::channel::{children_after_refresh, reader_handles, refresh_writers, NexusChannel};
use crate::thread::{entry_like, Mthread, Reactor, Task};

verus! {

/// Dynamic reconfiguration events occur when the device topology changes.
/// All five kinds currently trigger the identical broadcast/refresh/ack
/// protocol; the kind is informational and must not be assumed to change
/// behavior.
#[derive(Clone, Copy, Debug, PartialEq, Eq, Structural)]
pub enum DrEvent {
    /// Child offline reconfiguration event.
    ChildOffline,
    /// Mark the child as faulted.
    ChildFault,
    /// Child remove reconfiguration event.
    ChildRemove,
    /// Child rebuild event.
    ChildRebuild,
    /// Child status information is being applied.
    ChildStatusSync,
}

/// The producer side of a one-shot completion channel, as an opaque value.
#[verifier::external_type_specification]
#[verifier::external_body]
#[verifier::reject_recursive_types(T)]
pub struct ExOneshotSender<T>(oneshot::Sender<T>);

/// Relies on futures::channel::oneshot::Sender::send: consumes the producer
/// side, handing the value to the receiver. Returns Ok(()) if the value was
/// enqueued for the receiver to take, and gives the value back as Err if the
/// receiver was dropped before the call.
#[verifier::external_body]
fn oneshot_send(sender: oneshot::Sender<i32>, status: i32) -> (r: Result<(), i32>)
    ensures
        r matches Err(v) ==> v == status,
{
    sender.send(status)
}

/// Reconfigure context: what a reconfiguration carries from its initiator —
/// the single-use completion signal the initiator awaits, and the handle of
/// the device being reconfigured.
pub struct ReconfigureCtx {
    /// Producer side of the completion signal; used exactly once, by the
    /// final acknowledgment.
    sender: oneshot::Sender<i32>,
    /// Opaque handle of the device being reconfigured.
    device: u64,
}

impl ReconfigureCtx {
    /// The handle of the device this reconfiguration concerns.
    pub closed spec fn spec_device(self) -> u64 {
        self.device
    }

    /// Packs the completion-signal producer with the device it concerns.
    pub fn new(sender: oneshot::Sender<i32>, device: u64) -> (r: ReconfigureCtx)
        ensures
            r.spec_device() == device,
    {
        ReconfigureCtx { sender, device }
    }
}

/// One core's channel slot as the fan-out sees it: the handle of the core's
/// execution context, paired with the per-core channel of one device, if that
/// core currently holds one.
pub struct CoreChannel {
    /// Execution context of the core.
    pub thread: Mthread,
    /// The core's channel for the device, if created.
    pub channel: Option<NexusChannel>,
}

impl CoreChannel {
    /// Whether this core takes part in a reconfiguration of the given device:
    /// it does exactly when it holds a channel for that device.
    pub open spec fn participates(self, device: u64) -> bool {
        match self.channel {
            Some(ch) => ch.device == device,
            None => false,
        }
    }
}

/// The context identifiers of the cores participating in a reconfiguration of
/// the given device, in core order.
pub open spec fn participant_tids(cores: Seq<CoreChannel>, device: u64) -> Seq<u64>
    decreases cores.len(),
{
    if cores.len() == 0 {
        Seq::empty()
    } else {
        participant_tids(cores.drop_last(), device) + if cores.last().participates(device) {
            seq![cores.last().thread.tid]
        } else {
            Seq::empty()
        }
    }
}

/// The sequence with the first occurrence of `v` removed (unchanged if `v`
/// does not occur).
pub open spec fn without(s: Seq<u64>, v: u64) -> Seq<u64>
    decreases s.len(),
{
    if s.len() == 0 {
        Seq::empty()
    } else if s.first() == v {
        s.drop_first()
    } else {
        seq![s.first()] + without(s.drop_first(), v)
    }
}

/// One outstanding reconfiguration: the terminal-on-completion state machine
/// tracking which cores have yet to acknowledge, the aggregate status, and
/// the completion signal to resolve once — and only once — every
/// acknowledgment is in.
pub struct Broadcast {
    /// Opaque handle of the device being reconfigured.
    pub device: u64,
    /// The event kind that triggered the reconfiguration; informational.
    pub event: DrEvent,
    /// Context identifiers of the cores whose acknowledgment is outstanding.
    pub pending: Vec<u64>,
    /// Aggregate status to be delivered on completion; 0 is success.
    pub status: i32,
    /// The completion signal, held until the final acknowledgment consumes
    /// it.
    pub ctx: Option<ReconfigureCtx>,
}

impl Broadcast {
    /// Whether the completion signal has been resolved; a resolved
    /// reconfiguration is terminal.
    pub open spec fn resolved(self) -> bool {
        self.ctx is None
    }

    /// While any acknowledgment is outstanding, the completion signal is
    /// still held unresolved.
    pub open spec fn wf(self) -> bool {
        self.pending@.len() > 0 ==> !self.resolved()
    }

    /// Whether the completion signal has been resolved.
    pub fn is_resolved(&self) -> (r: bool)
        ensures
            r == self.resolved(),
    {
        self.ctx.is_none()
    }
}

/// The completion signal is resolved only after every outstanding
/// acknowledgment has arrived: while any core is still pending, the one-shot
/// producer is held, unused.
pub proof fn lemma_no_early_resolution(b: Broadcast)
    requires
        b.wf(),
        b.pending@.len() > 0,
    ensures
        !b.resolved(),
{
}

impl NexusChannel {
    /// Begins a reconfiguration broadcast for a dynamic reconfigure event:
    /// posts a refresh task to the execution context of every core holding a
    /// channel for the device, and returns the protocol state tracking those
    /// cores as outstanding. All five event kinds ride the identical
    /// broadcast. With no participating core the completion signal resolves
    /// immediately, with success status; a delivery failure at that point
    /// means the initiator dropped its receiver and is not reported further.
    pub fn reconfigure(
        device: u64,
        cores: &Vec<CoreChannel>,
        reactor: &mut Reactor,
        ctx: ReconfigureCtx,
        event: &DrEvent,
    ) -> (b: Broadcast)
        requires
            old(reactor).wf(),
            ctx.spec_device() == device,
            forall|i: int|
                0 <= i < cores@.len() && #[trigger] cores@[i].participates(device)
                    ==> old(reactor).has_thread(cores@[i].thread.tid),
            forall|i: int, j: int|
                0 <= i < j < cores@.len() && cores@[i].participates(device)
                    && cores@[j].participates(device) ==> cores@[i].thread.tid
                    != cores@[j].thread.tid,
        ensures
            final(reactor).wf(),
            final(reactor).current == old(reactor).current,
            final(reactor).next_id == old(reactor).next_id,
            final(reactor).threads@.len() == old(reactor).threads@.len(),
            b.device == device,
            b.event == *event,
            b.status == 0,
            b.wf(),
            b.pending@ == participant_tids(cores@, device),
            participant_tids(cores@, device).len() > 0 ==> !b.resolved(),
            participant_tids(cores@, device).len() == 0 ==> b.resolved(),
            forall|j: int|
                0 <= j < old(reactor).threads@.len() && !participant_tids(
                    cores@,
                    device,
                ).contains(old(reactor).threads@[j].id)
                    ==> final(reactor).threads@[j] == old(reactor).threads@[j],
            forall|j: int|
                0 <= j < old(reactor).threads@.len() && participant_tids(
                    cores@,
                    device,
                ).contains(old(reactor).threads@[j].id)
                    ==> entry_like(final(reactor).threads@[j], old(reactor).threads@[j])
                    && final(reactor).threads@[j].msgs@ == old(reactor).threads@[j].msgs@.push(
                    (Task::Refresh { device }),
                ),
    {
        let mut pending: Vec<u64> = Vec::new();
        let n = cores.len();
        let mut i: usize = 0;
        while i < n
            invariant
                n == cores@.len(),
                i <= n,
                reactor.wf(),
                reactor.current == old(reactor).current,
                reactor.next_id == old(reactor).next_id,
                reactor.threads@.len() == old(reactor).threads@.len(),
                forall|j: int|
                    0 <= j < old(reactor).threads@.len()
                        ==> reactor.threads@[j].id == old(reactor).threads@[j].id,
                pending@ == participant_tids(cores@.take(i as int), device),
                forall|j: int|
                    0 <= j < old(reactor).threads@.len() && !participant_tids(
                        cores@.take(i as int),
                        device,
                    ).contains(old(reactor).threads@[j].id)
                        ==> reactor.threads@[j] == old(reactor).threads@[j],
                forall|j: int|
                    0 <= j < old(reactor).threads@.len() && participant_tids(
                        cores@.take(i as int),
                        device,
                    ).contains(old(reactor).threads@[j].id)
                        ==> entry_like(reactor.threads@[j], old(reactor).threads@[j])
                        && reactor.threads@[j].msgs@ == old(reactor).threads@[j].msgs@.push(
                        (Task::Refresh { device }),
                    ),
                forall|ci: int|
                    0 <= ci < cores@.len() && #[trigger] cores@[ci].participates(device)
                        ==> old(reactor).has_thread(cores@[ci].thread.tid),
                forall|ci: int, cj: int|
                    0 <= ci < cj < cores@.len() && cores@[ci].participates(device)
                        && cores@[cj].participates(device) ==> cores@[ci].thread.tid
                        != cores@[cj].thread.tid,
            decreases n - i,
        {
            let ghost p0 = participant_tids(cores@.take(i as int), device);
            let ghost p1 = participant_tids(cores@.take(i as int + 1), device);
            proof {
                lemma_participant_tids_step(cores@, device, i as int);
            }
            let is_part = match &cores[i].channel {
                Some(ch) => ch.device == device,
                None => false,
            };
            if is_part {
                let tid = cores[i].thread;
                let ghost reactor_mid = *reactor;
                proof {
                    assert(cores@[i as int].participates(device));
                    // the posted-to context is registered and accepting work
                    assert(old(reactor).has_thread(tid.tid));
                    lemma_same_ids_same_threads(*reactor, *old(reactor), tid.tid);
                    // this core's context was not posted to in an earlier turn
                    assert(!p0.contains(tid.tid)) by {
                        if p0.contains(tid.tid) {
                            let a = choose|a: int| 0 <= a < p0.len() && p0[a] == tid.tid;
                            lemma_participant_tids_members(cores@.take(i as int), device);
                            assert(participant_tids(cores@.take(i as int), device)[a] == tid.tid);
                            assert(tid_of_some_participant(
                                cores@.take(i as int),
                                device,
                                tid.tid,
                            ));
                            let ci = choose|ci: int|
                                0 <= ci < cores@.take(i as int).len() && #[trigger] cores@.take(
                                    i as int,
                                )[ci].participates(device) && cores@.take(
                                    i as int,
                                )[ci].thread.tid == tid.tid;
                            assert(cores@[ci] == cores@.take(i as int)[ci]);
                            assert(cores@[ci].participates(device));
                            assert(cores@[ci].thread.tid != cores@[i as int].thread.tid);
                        }
                    }
                }
                tid.send_msg(reactor, Task::Refresh { device });
                pending.push(tid.tid);
                proof {
                    assert(p1 =~= p0 + seq![tid.tid]);
                    assert(pending@ =~= p1);
                    lemma_contains_concat(p0, seq![tid.tid]);
                    assert forall|j: int|
                        0 <= j < old(reactor).threads@.len() && !p1.contains(
                            old(reactor).threads@[j].id,
                        ) implies reactor.threads@[j] == old(reactor).threads@[j] by {
                        assert(!p0.contains(old(reactor).threads@[j].id));
                        if old(reactor).threads@[j].id == tid.tid {
                            assert(seq![tid.tid][0] == old(reactor).threads@[j].id);
                            assert(seq![tid.tid].contains(old(reactor).threads@[j].id));
                            assert(p1.contains(old(reactor).threads@[j].id));
                        }
                        assert(reactor_mid.threads@[j] == old(reactor).threads@[j]);
                    }
                    assert forall|j: int|
                        0 <= j < old(reactor).threads@.len() && p1.contains(
                            old(reactor).threads@[j].id,
                        ) implies entry_like(reactor.threads@[j], old(reactor).threads@[j])
                        && reactor.threads@[j].msgs@ == old(reactor).threads@[j].msgs@.push(
                        (Task::Refresh { device }),
                    ) by {
                        let id = old(reactor).threads@[j].id;
                        if id == tid.tid {
                            assert(!p0.contains(id));
                            assert(reactor_mid.threads@[j] == old(reactor).threads@[j]);
                        } else {
                            assert(p0.contains(id));
                            assert(reactor.threads@[j] == reactor_mid.threads@[j]);
                        }
                    }
                }
            } else {
                proof {
                    assert(p1 =~= p0);
                    assert(pending@ =~= p1);
                }
            }
            i += 1;
        }
        proof {
            assert(cores@.take(n as int) =~= cores@);
        }
        let mut b = Broadcast { device, event: *event, pending, status: 0, ctx: Some(ctx) };
        if b.pending.len() == 0 {
            let _delivery = Self::reconfigure_completed(&mut b, 0);
        }
        b
    }

    /// One core's turn of the broadcast: rebuilds this core's channel from
    /// the device's current child set, then acknowledges — removes this core
    /// from the outstanding list, and, exactly when it was the last one
    /// outstanding, resolves the completion signal with the aggregate status.
    /// An Err carries the status back when the final delivery found the
    /// initiator's receiver already dropped; before the final acknowledgment
    /// the result is always Ok.
    pub fn refresh_io_channels(
        core: &mut CoreChannel,
        children: &mut Vec<Child>,
        b: &mut Broadcast,
    ) -> (r: Result<(), i32>)
        requires
            old(core).participates(old(b).device),
            old(b).wf(),
            !old(b).resolved(),
            old(b).pending@.contains(old(core).thread.tid),
        ensures
            final(b).wf(),
            final(b).device == old(b).device,
            final(b).event == old(b).event,
            final(b).status == old(b).status,
            final(b).pending@ == without(old(b).pending@, old(core).thread.tid),
            final(b).pending@.len() == old(b).pending@.len() - 1,
            final(b).pending@.len() > 0 ==> !final(b).resolved() && r is Ok,
            final(b).pending@.len() == 0 ==> final(b).resolved(),
            r matches Err(v) ==> v == old(b).status,
            final(core).thread == old(core).thread,
            final(core).channel matches Some(ch) && ch.device == old(b).device && ch.previous == 0
                && ch.readers@ == reader_handles(old(children)@) && ch.writers@ == refresh_writers(
                old(children)@,
            ),
            final(children)@ == children_after_refresh(old(children)@),
    {
        let mut ch = match core.channel.take() {
            Some(ch) => ch,
            None => vstd::pervasive::unreached(),
        };
        ch.refresh(children);
        core.channel = Some(ch);
        let tid = core.thread.tid;
        match find_pending(&b.pending, tid) {
            Some(i) => {
                proof {
                    lemma_without_at(b.pending@, tid, i as int);
                }
                b.pending.remove(i);
                if b.pending.len() == 0 {
                    let status = b.status;
                    Self::reconfigure_completed(b, status)
                } else {
                    Ok(())
                }
            },
            None => vstd::pervasive::unreached(),
        }
    }

    /// The fan-in completion callback: consumes the reconfiguration's
    /// completion signal, delivering `status` to the awaiting initiator.
    /// Called exactly once per reconfiguration, by the final acknowledgment
    /// (or immediately, for a broadcast with no participant). Delivery to an
    /// initiator that already dropped its receiver is an invariant violation
    /// in correct usage; it surfaces here as Err carrying the undelivered
    /// status.
    pub fn reconfigure_completed(b: &mut Broadcast, status: i32) -> (r: Result<(), i32>)
        requires
            old(b).pending@.len() == 0,
            !old(b).resolved(),
        ensures
            final(b).resolved(),
            final(b).wf(),
            final(b).device == old(b).device,
            final(b).event == old(b).event,
            final(b).status == old(b).status,
            final(b).pending@ == old(b).pending@,
            r matches Err(v) ==> v == status,
    {
        match b.ctx.take() {
            Some(c) => {
                let ReconfigureCtx { sender, device: _ } = c;
                oneshot_send(sender, status)
            },
            None => vstd::pervasive::unreached(),
        }
    }
}

/// Position of the first occurrence of `tid` in the outstanding list.
fn find_pending(pending: &Vec<u64>, tid: u64) -> (r: Option<usize>)
    ensures
        r matches Some(i) ==> i < pending@.len() && pending@[i as int] == tid && forall|j: int|
            0 <= j < i ==> pending@[j] != tid,
        r is None ==> !pending@.contains(tid),
{
    let mut i: usize = 0;
    while i < pending.len()
        invariant
            i <= pending@.len(),
            forall|j: int| 0 <= j < i ==> pending@[j] != tid,
        decreases pending@.len() - i,
    {
        if pending[i] == tid {
            return Some(i);
        }
        i += 1;
    }
    None
}

/// Removing the first occurrence of a value present at index `i` (with no
/// earlier occurrence) is removing index `i`.
proof fn lemma_without_at(s: Seq<u64>, v: u64, i: int)
    requires
        0 <= i < s.len(),
        s[i] == v,
        forall|j: int| 0 <= j < i ==> s[j] != v,
    ensures
        without(s, v) == s.remove(i),
    decreases i,
{
    if i == 0 {
        assert(s.drop_first() =~= s.remove(0));
    } else {
        lemma_without_at(s.drop_first(), v, i - 1);
        assert(seq![s.first()] + s.drop_first().remove(i - 1) =~= s.remove(i));
    }
}

/// Appending one more core extends the participant list by that core's
/// context identifier exactly when it participates.
proof fn lemma_participant_tids_step(cores: Seq<CoreChannel>, device: u64, i: int)
    requires
        0 <= i < cores.len(),
    ensures
        participant_tids(cores.take(i + 1), device) == participant_tids(cores.take(i), device)
            + if cores[i].participates(device) {
            seq![cores[i].thread.tid]
        } else {
            Seq::<u64>::empty()
        },
{
    assert(cores.take(i + 1).drop_last() =~= cores.take(i));
    assert(cores.take(i + 1).last() == cores[i]);
}

/// Some core among the given ones participates in reconfiguring the device
/// and has the given context identifier.
pub open spec fn tid_of_some_participant(cores: Seq<CoreChannel>, device: u64, tid: u64) -> bool {
    exists|ci: int|
        0 <= ci < cores.len() && #[trigger] cores[ci].participates(device) && cores[ci].thread.tid
            == tid
}

/// Every entry of the participant list is the context identifier of some
/// participating core.
proof fn lemma_participant_tids_members(cores: Seq<CoreChannel>, device: u64)
    ensures
        forall|a: int|
            0 <= a < participant_tids(cores, device).len() ==> tid_of_some_participant(
                cores,
                device,
                #[trigger] participant_tids(cores, device)[a],
            ),
    decreases cores.len(),
{
    if cores.len() > 0 {
        let prefix = cores.drop_last();
        lemma_participant_tids_members(prefix, device);
        assert forall|a: int| 0 <= a < participant_tids(cores, device).len() implies tid_of_some_participant(
            cores,
            device,
            #[trigger] participant_tids(cores, device)[a],
        ) by {
            if a < participant_tids(prefix, device).len() {
                assert(participant_tids(cores, device)[a] == participant_tids(prefix, device)[a]);
                assert(tid_of_some_participant(prefix, device, participant_tids(prefix, device)[a]));
                let ci = choose|ci: int|
                    0 <= ci < prefix.len() && #[trigger] prefix[ci].participates(device)
                        && prefix[ci].thread.tid == participant_tids(prefix, device)[a];
                assert(cores[ci] == prefix[ci]);
                assert(cores[ci].participates(device) && cores[ci].thread.tid == participant_tids(
                    cores,
                    device,
                )[a]);
            } else {
                let ci = cores.len() - 1;
                assert(cores.last().participates(device));
                assert(cores[ci].participates(device) && cores[ci].thread.tid == participant_tids(
                    cores,
                    device,
                )[a]);
            }
        }
    }
}

/// Membership in a concatenation is membership in either part.
proof fn lemma_contains_concat(s: Seq<u64>, t: Seq<u64>)
    ensures
        forall|x: u64| #[trigger] (s + t).contains(x) <==> s.contains(x) || t.contains(x),
{
    assert forall|x: u64| #[trigger] (s + t).contains(x) implies s.contains(x) || t.contains(
        x,
    ) by {
        let k = choose|k: int| 0 <= k < (s + t).len() && (s + t)[k] == x;
        if k < s.len() {
            assert(s[k] == x);
        } else {
            assert(t[k - s.len()] == x);
        }
    }
    assert forall|x: u64| s.contains(x) || t.contains(x) implies #[trigger] (s + t).contains(
        x,
    ) by {
        if s.contains(x) {
            let k = choose|k: int| 0 <= k < s.len() && s[k] == x;
            assert((s + t)[k] == x);
        } else {
            let k = choose|k: int| 0 <= k < t.len() && t[k] == x;
            assert((s + t)[s.len() + k] == x);
        }
    }
}

/// Two registries whose entries carry the same identifiers at the same
/// positions agree on which identifiers are registered.
proof fn lemma_same_ids_same_threads(a: Reactor, b: Reactor, tid: u64)
    requires
        a.threads@.len() == b.threads@.len(),
        forall|j: int| 0 <= j < b.threads@.len() ==> a.threads@[j].id == b.threads@[j].id,
        b.has_thread(tid),
    ensures
        a.has_thread(tid),
{
    let j = choose|j: int| 0 <= j < b.threads@.len() && b.threads@[j].id == tid;
    assert(a.threads@[j].id == tid);
}

} // verus!
