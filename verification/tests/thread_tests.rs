use nexus_channel::thread::{Error, Mthread, Reactor, Task};

#[test]
fn registry_assigns_identifiers_from_one() {
    let mut reactor = Reactor::new();
    let first = Mthread::new(&mut reactor, String::from("init"), 0).unwrap();
    let second = Mthread::new(&mut reactor, String::from("worker"), 1).unwrap();
    assert_eq!(first.id(), 1);
    assert_eq!(second.id(), 2);
    assert_eq!(first.name(&reactor), "init");
    assert_eq!(second.name(&reactor), "worker");
    assert_eq!(second.into_raw(), 2);
    let init = Mthread::get_init(&reactor);
    assert_eq!(init.id(), 1);
}

#[test]
fn enter_exit_and_current() {
    let mut reactor = Reactor::new();
    let t = Mthread::new(&mut reactor, String::from("a"), 0).unwrap();
    assert!(Mthread::current(&reactor).is_none());
    t.enter(&mut reactor);
    assert_eq!(Mthread::current(&reactor).unwrap().id(), t.id());
    t.exit(&mut reactor);
    assert!(Mthread::current(&reactor).is_none());
}

#[test]
fn with_runs_the_work_and_restores_the_active_context() {
    let mut reactor = Reactor::new();
    let a = Mthread::new(&mut reactor, String::from("a"), 0).unwrap();
    let b = Mthread::new(&mut reactor, String::from("b"), 1).unwrap();
    a.enter(&mut reactor);
    let out = b.with(&mut reactor, || 40 + 2);
    assert_eq!(out, 42);
    // the previously active context is restored, not left as `b`
    assert_eq!(Mthread::current(&reactor).unwrap().id(), a.id());
}

#[test]
fn posted_work_is_delivered_in_fifo_order() {
    let mut reactor = Reactor::new();
    let t = Mthread::new(&mut reactor, String::from("a"), 0).unwrap();
    t.send_msg(&mut reactor, Task::Refresh { device: 1 });
    t.msg(&mut reactor, Task::Refresh { device: 2 });
    assert_eq!(t.poll(&mut reactor), Some(Task::Refresh { device: 1 }));
    assert_eq!(t.poll(&mut reactor), Some(Task::Refresh { device: 2 }));
    assert_eq!(t.poll(&mut reactor), None);
}

#[test]
fn posting_does_not_disturb_other_contexts() {
    let mut reactor = Reactor::new();
    let a = Mthread::new(&mut reactor, String::from("a"), 0).unwrap();
    let b = Mthread::new(&mut reactor, String::from("b"), 1).unwrap();
    a.send_msg(&mut reactor, Task::Refresh { device: 9 });
    assert_eq!(b.poll(&mut reactor), None);
    assert_eq!(a.poll(&mut reactor), Some(Task::Refresh { device: 9 }));
}

#[test]
fn destroy_unregisters_a_drained_context() {
    let mut reactor = Reactor::new();
    let a = Mthread::new(&mut reactor, String::from("a"), 0).unwrap();
    let b = Mthread::new(&mut reactor, String::from("b"), 1).unwrap();
    a.send_msg(&mut reactor, Task::Refresh { device: 1 });
    // drain, then destroy
    while a.poll(&mut reactor).is_some() {}
    a.enter(&mut reactor);
    a.destroy(&mut reactor);
    assert_eq!(reactor.threads.len(), 1);
    // destroying the active context leaves no context active
    assert!(Mthread::current(&reactor).is_none());
    assert_eq!(b.poll(&mut reactor), None);
}

#[test]
fn error_kinds_compare_by_kind() {
    let e = Error::InvalidThread;
    assert_eq!(e, Error::InvalidThread);
}
