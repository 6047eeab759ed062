use condesate::swarm::bus::{Bus, BusError, Envelope, Inbox, Payload, Recipient, Route};
use condesate::swarm::service::ServiceHandle;
use condesate::swarm::storage::{InMemoryStorage, Storage};
use condesate::types::HarnessId;
use std::collections::HashMap;
use tokio::sync::mpsc;

fn wire(ids: &[&str]) -> (Bus, HashMap<HarnessId, Inbox>) {
    let mut routes = Vec::new();
    let mut inboxes = HashMap::new();
    for id in ids {
        let (tx, rx) = mpsc::unbounded_channel();
        let hid = HarnessId::new(*id);
        routes.push(Route { id: hid.clone(), outbox: tx });
        inboxes.insert(hid, rx);
    }
    (Bus::new(routes), inboxes)
}

fn envelope(from: &str, to: Recipient, payload: Payload) -> Envelope {
    Envelope { from: HarnessId::new(from), to, payload }
}

#[test]
fn direct_dispatch_reaches_target() {
    let (mut bus, mut inboxes) = wire(&["a", "b"]);
    bus.dispatch(Envelope {
        from: HarnessId::new("a"),
        to: Recipient::Harness(HarnessId::new("b")),
        payload: Payload::Task("hi".into()),
    })
    .unwrap();
    let got = inboxes.get_mut(&HarnessId::new("b")).unwrap().try_recv().unwrap();
    assert_eq!(got.from, HarnessId::new("a"));
    assert!(matches!(got.payload, Payload::Task(t) if t == "hi"));
    assert!(inboxes.get_mut(&HarnessId::new("a")).unwrap().try_recv().is_err());
}

#[test]
fn broadcast_reaches_everyone() {
    let (mut bus, mut inboxes) = wire(&["a", "b", "c"]);
    bus.dispatch(Envelope {
        from: HarnessId::new("a"),
        to: Recipient::Broadcast,
        payload: Payload::Shutdown,
    })
    .unwrap();
    for id in ["a", "b", "c"] {
        let got = inboxes.get_mut(&HarnessId::new(id)).unwrap().try_recv().unwrap();
        assert!(matches!(got.payload, Payload::Shutdown));
    }
}

#[test]
fn dispatch_to_unknown_is_error() {
    let (mut bus, _inboxes) = wire(&["a"]);
    let err = bus.dispatch(Envelope {
        from: HarnessId::new("a"),
        to: Recipient::Harness(HarnessId::new("ghost")),
        payload: Payload::Note("x".into()),
    });
    assert!(err.is_err());
    assert_eq!(err.unwrap_err(), BusError::NoRoute(HarnessId::new("ghost")));
}

#[test]
fn dispatch_to_a_dropped_inbox_says_closed() {
    let (mut bus, mut inboxes) = wire(&["a", "b"]);
    inboxes.remove(&HarnessId::new("b"));
    let to_b = Recipient::Harness(HarnessId::new("b"));
    let err = bus.dispatch(envelope("a", to_b, Payload::Reply("late".into()))).unwrap_err();
    assert_eq!(err, BusError::Closed(HarnessId::new("b")));
    assert_eq!(err.to_text(), "harness 'b' inbox is closed");
    assert_eq!(
        BusError::NoRoute(HarnessId::new("ghost")).to_text(),
        "no route to harness 'ghost'"
    );
}

#[test]
fn a_broadcast_ignores_dropped_inboxes() {
    let (mut bus, mut inboxes) = wire(&["a", "b"]);
    inboxes.remove(&HarnessId::new("b"));
    assert!(bus.dispatch(envelope("a", Recipient::Broadcast, Payload::Shutdown)).is_ok());
    assert!(inboxes.get_mut(&HarnessId::new("a")).unwrap().try_recv().is_ok());
}

#[test]
fn a_sender_learns_of_a_closed_inbox_only_by_name() {
    let to_b = Recipient::Harness(HarnessId::new("b"));
    assert!(Bus::conclude(&to_b, true).is_ok());
    assert_eq!(Bus::conclude(&to_b, false), Err(BusError::Closed(HarnessId::new("b"))));
    assert!(Bus::conclude(&Recipient::Broadcast, false).is_ok());
}

#[test]
fn a_later_route_replaces_an_earlier_one() {
    let (mut bus, mut inboxes) = wire(&["a"]);
    let (tx, mut rx) = mpsc::unbounded_channel();
    bus.insert_route(HarnessId::new("a"), tx);
    let to_a = Recipient::Harness(HarnessId::new("a"));
    bus.dispatch(envelope("b", to_a, Payload::Task("new".into()))).unwrap();
    assert!(rx.try_recv().is_ok());
    assert!(inboxes.get_mut(&HarnessId::new("a")).unwrap().try_recv().is_err());

    let (tx, mut rx) = mpsc::unbounded_channel();
    bus.insert_route(HarnessId::new("c"), tx);
    let to_c = Recipient::Harness(HarnessId::new("c"));
    bus.dispatch(envelope("b", to_c, Payload::Task("hello".into()))).unwrap();
    assert_eq!(rx.try_recv().unwrap().payload, Payload::Task("hello".into()));
}

#[test]
fn a_raw_handle_signs_what_it_sends() {
    let (mut bus, mut inboxes) = wire(&["a", "b"]);
    let me = ServiceHandle {
        me: HarnessId::new("a"),
        roster: vec![HarnessId::new("a"), HarnessId::new("b")],
    };
    me.send_task(&mut bus, "b", "count").unwrap();
    me.send_reply(&mut bus, "b", "4").unwrap();
    me.broadcast_shutdown(&mut bus).unwrap();
    assert!(me.send_task(&mut bus, "nobody", "x").is_err());
    let inbox = inboxes.get_mut(&HarnessId::new("b")).unwrap();
    let to_b = || Recipient::Harness(HarnessId::new("b"));
    assert_eq!(inbox.try_recv().unwrap(), envelope("a", to_b(), Payload::Task("count".into())));
    assert_eq!(inbox.try_recv().unwrap(), envelope("a", to_b(), Payload::Reply("4".into())));
    // Each copy of a broadcast is addressed to the one who gets it.
    assert_eq!(inbox.try_recv().unwrap(), envelope("a", to_b(), Payload::Shutdown));
}

#[test]
fn set_get_roundtrip() {
    let mut s = InMemoryStorage::new();
    assert_eq!(s.get("missing").unwrap(), None);
    s.set("a", "1").unwrap();
    assert_eq!(s.get("a").unwrap().as_deref(), Some("1"));
    // overwrite
    s.set("a", "2").unwrap();
    assert_eq!(s.get("a").unwrap().as_deref(), Some("2"));
}

#[test]
fn keys_filters_by_prefix() {
    let mut s = InMemoryStorage::new();
    s.set("proj/x", "1").unwrap();
    s.set("proj/y", "2").unwrap();
    s.set("other", "3").unwrap();
    let mut ks = s.keys("proj/").unwrap();
    ks.sort();
    assert_eq!(ks, vec!["proj/x".to_string(), "proj/y".to_string()]);
    assert_eq!(s.keys("").unwrap().len(), 3);
}

#[test]
fn a_write_leaves_other_keys_alone() {
    let mut s = InMemoryStorage::new();
    s.set("a", "1").unwrap();
    s.set("b", "2").unwrap();
    s.set("a", "3").unwrap();
    assert_eq!(s.get("b").unwrap().as_deref(), Some("2"));
    assert_eq!(s.keys("").unwrap().len(), 2);
    assert!(s.keys("c").unwrap().is_empty());
}

#[test]
fn an_inbox_that_the_bus_holds_stays_open() {
    let (mut bus, mut inboxes) = wire(&["a", "b"]);
    let kept = inboxes.remove(&HarnessId::new("a")).unwrap();
    bus.keep(vec![kept]);
    drop(inboxes);
    let to = |id: &str| Recipient::Harness(HarnessId::new(id));
    assert!(bus.dispatch(envelope("x", to("a"), Payload::Task("hi".into()))).is_ok());
    assert!(bus.dispatch(envelope("x", to("b"), Payload::Task("hi".into()))).is_err());
    assert!(bus.dispatch(envelope("x", Recipient::Broadcast, Payload::Shutdown)).is_ok());
}
