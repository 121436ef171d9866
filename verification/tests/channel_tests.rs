use nexus_channel::channel::{Handle, NexusChannel};
use nexus_channel::child::{Child, ChildState, Reason};

fn open_child(id: u64) -> Child {
    Child::new(id, ChildState::Open)
}

#[test]
fn create_three_open_children_then_round_robin() {
    // Device with 3 children, all open: create admits all three, cursor rests
    // at 0, and three selections visit 1, 2, 0.
    let mut children = vec![open_child(1), open_child(2), open_child(3)];
    let mut slot: Option<NexusChannel> = None;
    let rc = NexusChannel::create(7, &mut children, &mut slot);
    assert_eq!(rc, 0);
    let mut ch = slot.unwrap();
    assert_eq!(ch.readers.len(), 3);
    assert_eq!(ch.writers.len(), 3);
    assert_eq!(ch.previous, 0);
    assert_eq!(ch.device, 7);
    assert_eq!(ch.select_reader(), Some(1));
    assert_eq!(ch.select_reader(), Some(2));
    assert_eq!(ch.select_reader(), Some(0));
}

#[test]
fn select_reader_empty_returns_none_and_keeps_cursor() {
    let mut ch = NexusChannel { writers: vec![], readers: vec![], previous: 0, device: 1 };
    assert_eq!(ch.select_reader(), None);
    assert_eq!(ch.select_reader(), None);
    assert_eq!(ch.previous, 0);
}

#[test]
fn select_reader_visits_every_index_once_per_period() {
    // Reader set of length 4: four consecutive selections are a permutation
    // of all indices, and the fifth repeats the first.
    let readers = vec![
        Handle { child: 1 },
        Handle { child: 2 },
        Handle { child: 3 },
        Handle { child: 4 },
    ];
    let mut ch = NexusChannel { writers: vec![], readers, previous: 0, device: 1 };
    let mut seen = vec![];
    for _ in 0..4 {
        seen.push(ch.select_reader().unwrap());
    }
    let mut sorted = seen.clone();
    sorted.sort();
    assert_eq!(sorted, vec![0, 1, 2, 3]);
    assert_eq!(ch.select_reader().unwrap(), seen[0]);
}

#[test]
fn refresh_two_open_one_rebuilding() {
    // 2 open children and 1 rebuilding child: both open ones serve reads, all
    // three receive writes, the rebuild target last.
    let mut children = vec![
        open_child(1),
        open_child(2),
        Child::new(3, ChildState::Rebuilding),
    ];
    let mut ch = NexusChannel { writers: vec![], readers: vec![], previous: 5, device: 9 };
    ch.refresh(&mut children);
    assert_eq!(ch.readers.len(), 2);
    assert_eq!(ch.writers.len(), 3);
    assert_eq!(ch.previous, 0);
    assert_eq!(
        ch.readers,
        vec![Handle { child: 1 }, Handle { child: 2 }]
    );
    assert_eq!(
        ch.writers,
        vec![Handle { child: 1 }, Handle { child: 2 }, Handle { child: 3 }]
    );
    assert_eq!(children[2].state, ChildState::Rebuilding);
}

#[test]
fn refresh_faults_child_whose_acquisition_fails() {
    // A single child whose read-handle acquisition fails: it is faulted, no
    // reader remains, selection reports no read path, and the rebuild pass is
    // skipped.
    let mut children = vec![Child { id: 1, state: ChildState::Open, read_ok: false, write_ok: true }];
    let mut ch = NexusChannel { writers: vec![], readers: vec![], previous: 0, device: 2 };
    ch.refresh(&mut children);
    assert_eq!(children[0].state, ChildState::Faulted(Reason::CantOpen));
    assert_eq!(ch.readers.len(), 0);
    assert_eq!(ch.writers.len(), 0);
    assert_eq!(ch.select_reader(), None);
}

#[test]
fn refresh_with_empty_reader_set_skips_rebuild_targets() {
    // Documented policy: with zero read quorum the rebuild pass does not run,
    // so a rebuilding child contributes no write handle and is not faulted
    // even though its write handle could not be acquired.
    let mut children = vec![
        Child { id: 1, state: ChildState::Open, read_ok: false, write_ok: false },
        Child { id: 2, state: ChildState::Rebuilding, read_ok: true, write_ok: false },
    ];
    let mut ch = NexusChannel { writers: vec![], readers: vec![], previous: 0, device: 2 };
    ch.refresh(&mut children);
    assert_eq!(ch.readers.len(), 0);
    assert_eq!(ch.writers.len(), 0);
    assert_eq!(children[0].state, ChildState::Faulted(Reason::CantOpen));
    assert_eq!(children[1].state, ChildState::Rebuilding);
}

#[test]
fn refresh_faults_rebuild_target_on_write_failure() {
    // With a non-empty reader set, a rebuilding child whose write handle
    // cannot be acquired is faulted by the rebuild pass.
    let mut children = vec![
        open_child(1),
        Child { id: 2, state: ChildState::Rebuilding, read_ok: true, write_ok: false },
    ];
    let mut ch = NexusChannel { writers: vec![], readers: vec![], previous: 0, device: 2 };
    ch.refresh(&mut children);
    assert_eq!(ch.readers.len(), 1);
    assert_eq!(ch.writers.len(), 1);
    assert_eq!(children[1].state, ChildState::Faulted(Reason::CantOpen));
}

#[test]
fn create_faults_open_child_with_failed_write_handle() {
    let mut children = vec![
        Child { id: 1, state: ChildState::Open, read_ok: true, write_ok: false },
        open_child(2),
    ];
    let mut slot: Option<NexusChannel> = None;
    NexusChannel::create(3, &mut children, &mut slot);
    let ch = slot.unwrap();
    assert_eq!(children[0].state, ChildState::Faulted(Reason::CantOpen));
    assert_eq!(ch.readers, vec![Handle { child: 2 }]);
    assert_eq!(ch.writers, vec![Handle { child: 2 }]);
}

#[test]
fn create_skips_closed_and_faulted_children_without_touching_them() {
    let mut children = vec![
        Child::new(1, ChildState::Closed),
        Child::new(2, ChildState::Faulted(Reason::CantOpen)),
        open_child(3),
    ];
    let mut slot: Option<NexusChannel> = None;
    NexusChannel::create(3, &mut children, &mut slot);
    let ch = slot.unwrap();
    assert_eq!(ch.readers, vec![Handle { child: 3 }]);
    assert_eq!(children[0].state, ChildState::Closed);
    assert_eq!(children[1].state, ChildState::Faulted(Reason::CantOpen));
}

#[test]
fn destroy_then_create_is_indistinguishable_from_fresh() {
    // A used channel, destroyed and recreated over the same child set, equals
    // a fresh channel built over that child set.
    let mut children = vec![open_child(1), open_child(2)];
    let mut slot: Option<NexusChannel> = None;
    NexusChannel::create(4, &mut children, &mut slot);
    {
        let ch = slot.as_mut().unwrap();
        ch.select_reader();
        ch.select_reader();
        ch.select_reader();
    }
    NexusChannel::destroy(&mut slot);
    assert!(slot.is_none());
    NexusChannel::create(4, &mut children, &mut slot);
    let recreated = slot.unwrap();

    let mut fresh_children = vec![open_child(1), open_child(2)];
    let mut fresh_slot: Option<NexusChannel> = None;
    NexusChannel::create(4, &mut fresh_children, &mut fresh_slot);
    let fresh = fresh_slot.unwrap();

    assert_eq!(recreated.readers, fresh.readers);
    assert_eq!(recreated.writers, fresh.writers);
    assert_eq!(recreated.previous, fresh.previous);
    assert_eq!(recreated.device, fresh.device);
}
