use nexus_channel::channel::NexusChannel;
use nexus_channel::child::{Child, ChildState};
use nexus_channel::reconfigure::{Broadcast, CoreChannel, DrEvent, ReconfigureCtx};
use nexus_channel::thread::{Mthread, Reactor, Task};

const DEVICE: u64 = 11;

fn setup(
    core_count: u32,
    children: &mut Vec<Child>,
) -> (Reactor, Vec<Mthread>, Vec<CoreChannel>) {
    let mut reactor = Reactor::new();
    let mut threads = vec![];
    let mut cores = vec![];
    for c in 0..core_count {
        let t = Mthread::new(&mut reactor, format!("core{}", c), c).unwrap();
        let mut slot: Option<NexusChannel> = None;
        NexusChannel::create(DEVICE, children, &mut slot);
        threads.push(t);
        cores.push(CoreChannel { thread: t, channel: slot });
    }
    (reactor, threads, cores)
}

fn ack_one(
    idx: usize,
    threads: &[Mthread],
    cores: &mut [CoreChannel],
    children: &mut Vec<Child>,
    reactor: &mut Reactor,
    b: &mut Broadcast,
) -> Result<(), i32> {
    let task = threads[idx].poll(reactor);
    assert_eq!(task, Some(Task::Refresh { device: DEVICE }));
    NexusChannel::refresh_io_channels(&mut cores[idx], children, b)
}

#[test]
fn broadcast_resolves_only_after_delayed_core_acknowledges() {
    // Broadcast to 4 cores; core at index 2 is slow. The completion signal
    // stays unresolved while cores 0, 1 and 3 acknowledge, in whatever order,
    // and resolves exactly when the delayed core's acknowledgment arrives.
    let mut children = vec![Child::new(1, ChildState::Open), Child::new(2, ChildState::Open)];
    let (mut reactor, threads, mut cores) = setup(4, &mut children);

    let (sender, mut receiver) = futures::channel::oneshot::channel::<i32>();
    let ctx = ReconfigureCtx::new(sender, DEVICE);
    let mut b = NexusChannel::reconfigure(
        DEVICE,
        &cores,
        &mut reactor,
        ctx,
        &DrEvent::ChildFault,
    );
    assert_eq!(b.pending.len(), 4);
    assert!(!b.is_resolved());
    assert_eq!(b.event, DrEvent::ChildFault);
    assert_eq!(b.status, 0);

    for idx in [0, 1, 3] {
        let r = ack_one(idx, &threads, &mut cores, &mut children, &mut reactor, &mut b);
        assert_eq!(r, Ok(()));
        assert!(!b.is_resolved());
        assert_eq!(receiver.try_recv(), Ok(None));
    }
    assert_eq!(b.pending.len(), 1);

    let r = ack_one(2, &threads, &mut cores, &mut children, &mut reactor, &mut b);
    assert_eq!(r, Ok(()));
    assert!(b.is_resolved());
    assert_eq!(b.pending.len(), 0);
    assert_eq!(receiver.try_recv(), Ok(Some(0)));
}

#[test]
fn broadcast_refreshes_every_core_channel() {
    let mut children = vec![
        Child::new(1, ChildState::Open),
        Child::new(2, ChildState::Rebuilding),
    ];
    let (mut reactor, threads, mut cores) = setup(2, &mut children);
    for core in cores.iter() {
        // create admits open children only
        assert_eq!(core.channel.as_ref().unwrap().writers.len(), 1);
    }

    let (sender, _receiver) = futures::channel::oneshot::channel::<i32>();
    let ctx = ReconfigureCtx::new(sender, DEVICE);
    let mut b = NexusChannel::reconfigure(
        DEVICE,
        &cores,
        &mut reactor,
        ctx,
        &DrEvent::ChildRebuild,
    );
    for idx in 0..2 {
        let _ = ack_one(idx, &threads, &mut cores, &mut children, &mut reactor, &mut b);
        let ch = cores[idx].channel.as_ref().unwrap();
        // after refresh the rebuild target receives writes as well
        assert_eq!(ch.readers.len(), 1);
        assert_eq!(ch.writers.len(), 2);
    }
}

#[test]
fn broadcast_without_participants_resolves_immediately() {
    let mut reactor = Reactor::new();
    let cores: Vec<CoreChannel> = vec![];
    let (sender, mut receiver) = futures::channel::oneshot::channel::<i32>();
    let ctx = ReconfigureCtx::new(sender, DEVICE);
    let b = NexusChannel::reconfigure(DEVICE, &cores, &mut reactor, ctx, &DrEvent::ChildRemove);
    assert!(b.is_resolved());
    assert_eq!(b.pending.len(), 0);
    assert_eq!(receiver.try_recv(), Ok(Some(0)));
}

#[test]
fn core_without_channel_for_the_device_is_not_broadcast_to() {
    let mut children = vec![Child::new(1, ChildState::Open)];
    let mut reactor = Reactor::new();
    let with_channel = Mthread::new(&mut reactor, String::from("a"), 0).unwrap();
    let without_channel = Mthread::new(&mut reactor, String::from("b"), 1).unwrap();
    let mut slot: Option<NexusChannel> = None;
    NexusChannel::create(DEVICE, &mut children, &mut slot);
    let cores = vec![
        CoreChannel { thread: with_channel, channel: slot },
        CoreChannel { thread: without_channel, channel: None },
    ];
    let (sender, _receiver) = futures::channel::oneshot::channel::<i32>();
    let ctx = ReconfigureCtx::new(sender, DEVICE);
    let b = NexusChannel::reconfigure(DEVICE, &cores, &mut reactor, ctx, &DrEvent::ChildOffline);
    assert_eq!(b.pending, vec![with_channel.tid]);
    assert_eq!(with_channel.poll(&mut reactor), Some(Task::Refresh { device: DEVICE }));
    assert_eq!(without_channel.poll(&mut reactor), None);
}

#[test]
fn delivery_to_dropped_receiver_surfaces_the_status() {
    // Resolving toward an initiator that dropped its receiver is an invariant
    // violation in correct usage; it surfaces as Err carrying the status.
    let mut children = vec![Child::new(1, ChildState::Open)];
    let (mut reactor, threads, mut cores) = setup(1, &mut children);
    let (sender, receiver) = futures::channel::oneshot::channel::<i32>();
    drop(receiver);
    let ctx = ReconfigureCtx::new(sender, DEVICE);
    let mut b = NexusChannel::reconfigure(
        DEVICE,
        &cores,
        &mut reactor,
        ctx,
        &DrEvent::ChildStatusSync,
    );
    let r = ack_one(0, &threads, &mut cores, &mut children, &mut reactor, &mut b);
    assert_eq!(r, Err(0));
    assert!(b.is_resolved());
}

#[test]
fn every_event_kind_rides_the_same_broadcast() {
    for event in [
        DrEvent::ChildOffline,
        DrEvent::ChildFault,
        DrEvent::ChildRemove,
        DrEvent::ChildRebuild,
        DrEvent::ChildStatusSync,
    ] {
        let mut children = vec![Child::new(1, ChildState::Open)];
        let (mut reactor, threads, mut cores) = setup(1, &mut children);
        let (sender, mut receiver) = futures::channel::oneshot::channel::<i32>();
        let ctx = ReconfigureCtx::new(sender, DEVICE);
        let mut b = NexusChannel::reconfigure(DEVICE, &cores, &mut reactor, ctx, &event);
        assert_eq!(b.event, event);
        assert_eq!(b.pending.len(), 1);
        let r = ack_one(0, &threads, &mut cores, &mut children, &mut reactor, &mut b);
        assert_eq!(r, Ok(()));
        assert_eq!(receiver.try_recv(), Ok(Some(0)));
    }
}
