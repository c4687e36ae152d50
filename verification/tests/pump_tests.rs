//! Tests for the duplex pump and connection attachment, run against the
//! real broadcast channel.

use chat_relay::directory::PeerDirectory;
use chat_relay::pump::attach_peer;
use chat_relay::pump::pump_step;
use chat_relay::pump::relay_line;
use chat_relay::pump::welcome_line;
use chat_relay::pump::PumpEvent;
use chat_relay::pump::PumpStep;
use tokio::sync::broadcast;

#[test]
fn welcome_line_format() {
    assert_eq!(welcome_line("alice"), "Welcome, alice!");
    assert_eq!(welcome_line("Eve Evil"), "Welcome, Eve Evil!");
}

#[test]
fn relay_line_sanitizes_and_prefixes() {
    assert_eq!(relay_line("alice", "hi"), "alice: hi");
    assert_eq!(relay_line("alice", "hi <b>you</b>"), "alice: hi you");
    assert_eq!(relay_line("alice", "50%25 off"), "alice: 50% off");
}

#[test]
fn client_text_is_published_to_the_bus() {
    let (tx, mut rx) = broadcast::channel::<String>(16);
    let step = pump_step(&tx, "alice", PumpEvent::ClientText(String::from("hi all")));
    match step {
        PumpStep::Published(line) => assert_eq!(line, "alice: hi all"),
        _ => panic!("expected a publication"),
    }
    assert_eq!(rx.try_recv().unwrap(), "alice: hi all");
}

#[test]
fn publishing_without_listeners_still_steps() {
    let (tx, rx) = broadcast::channel::<String>(16);
    drop(rx);
    let step = pump_step(&tx, "alice", PumpEvent::ClientText(String::from("anyone?")));
    assert!(matches!(step, PumpStep::Published(_)));
}

#[test]
fn bus_message_is_sanitized_and_delivered() {
    let (tx, _rx) = broadcast::channel::<String>(16);
    let step = pump_step(
        &tx,
        "bob",
        PumpEvent::BusMessage(String::from("alice: <img src=x onerror=alert(1)>hi")),
    );
    match step {
        PumpStep::Deliver(out) => {
            assert!(!out.contains('<'));
            assert!(!out.contains('>'));
            assert_eq!(out, "alice: hi");
        }
        _ => panic!("expected a delivery"),
    }
}

#[test]
fn non_text_frames_and_lag_are_ignored() {
    let (tx, _rx) = broadcast::channel::<String>(16);
    assert!(matches!(
        pump_step(&tx, "alice", PumpEvent::ClientOther),
        PumpStep::Ignore
    ));
    assert!(matches!(
        pump_step(&tx, "alice", PumpEvent::BusLagged),
        PumpStep::Ignore
    ));
}

#[test]
fn closing_events_close() {
    let (tx, _rx) = broadcast::channel::<String>(16);
    assert!(matches!(
        pump_step(&tx, "alice", PumpEvent::ClientClosed),
        PumpStep::Close
    ));
    assert!(matches!(
        pump_step(&tx, "alice", PumpEvent::WriteFailed),
        PumpStep::Close
    ));
}

#[test]
fn attach_subscribes_registers_and_welcomes() {
    let (tx, _rx) = broadcast::channel::<String>(16);
    let mut dir: PeerDirectory<broadcast::Sender<String>> = PeerDirectory::new();
    let (mut sub, welcome) = attach_peer(&mut dir, &tx, &String::from("alice"));
    assert_eq!(welcome, "Welcome, alice!");
    assert!(dir.contains("alice"));

    let step = pump_step(&tx, "alice", PumpEvent::ClientText(String::from("hello")));
    assert!(matches!(step, PumpStep::Published(_)));
    assert_eq!(sub.try_recv().unwrap(), "alice: hello");
}

#[test]
fn stored_handle_publishes_to_the_same_channel() {
    let (tx, mut rx) = broadcast::channel::<String>(16);
    let mut dir: PeerDirectory<broadcast::Sender<String>> = PeerDirectory::new();
    let (_sub, _welcome) = attach_peer(&mut dir, &tx, &String::from("alice"));
    let stored = dir.get("alice").unwrap();
    stored.send(String::from("direct")).unwrap();
    assert_eq!(rx.try_recv().unwrap(), "direct");
}

#[test]
fn own_message_echoes_back_through_subscription() {
    let (tx, _rx) = broadcast::channel::<String>(16);
    let mut dir: PeerDirectory<broadcast::Sender<String>> = PeerDirectory::new();
    let (mut sub, _welcome) = attach_peer(&mut dir, &tx, &String::from("alice"));
    pump_step(&tx, "alice", PumpEvent::ClientText(String::from("echo me")));
    let line = sub.try_recv().unwrap();
    let step = pump_step(&tx, "alice", PumpEvent::BusMessage(line));
    match step {
        PumpStep::Deliver(out) => assert_eq!(out, "alice: echo me"),
        _ => panic!("expected a delivery"),
    }
}

#[test]
fn subscriber_present_at_publish_time_sees_each_line_once() {
    let (tx, _rx) = broadcast::channel::<String>(16);
    let mut dir: PeerDirectory<broadcast::Sender<String>> = PeerDirectory::new();
    let (mut sub_a, _) = attach_peer(&mut dir, &tx, &String::from("a"));
    let (mut sub_b, _) = attach_peer(&mut dir, &tx, &String::from("b"));

    pump_step(&tx, "a", PumpEvent::ClientText(String::from("one")));
    pump_step(&tx, "b", PumpEvent::ClientText(String::from("two")));

    assert_eq!(sub_a.try_recv().unwrap(), "a: one");
    assert_eq!(sub_a.try_recv().unwrap(), "b: two");
    assert!(sub_a.try_recv().is_err());
    assert_eq!(sub_b.try_recv().unwrap(), "a: one");
    assert_eq!(sub_b.try_recv().unwrap(), "b: two");
    assert!(sub_b.try_recv().is_err());
}

#[test]
fn disconnecting_one_client_leaves_delivery_among_others_intact() {
    let (tx, _rx) = broadcast::channel::<String>(16);
    let mut dir: PeerDirectory<broadcast::Sender<String>> = PeerDirectory::new();
    let (sub_a, _) = attach_peer(&mut dir, &tx, &String::from("a"));
    let (mut sub_b, _) = attach_peer(&mut dir, &tx, &String::from("b"));
    let (mut sub_c, _) = attach_peer(&mut dir, &tx, &String::from("c"));

    // Client a goes away: its pump closes, its entry is removed, its
    // subscription is dropped.
    assert!(matches!(
        pump_step(&tx, "a", PumpEvent::ClientClosed),
        PumpStep::Close
    ));
    dir.unregister("a");
    drop(sub_a);

    pump_step(&tx, "b", PumpEvent::ClientText(String::from("still here")));
    assert_eq!(sub_b.try_recv().unwrap(), "b: still here");
    assert_eq!(sub_c.try_recv().unwrap(), "b: still here");
    assert!(!dir.contains("a"));
    assert!(dir.contains("b"));
    assert!(dir.contains("c"));
}
