//! The dispatch state machine, one message kind at a time, and the
//! directory it maintains.

use vee::directory::Directory;
use vee::message::Message;
use vee::node::{direct_reply_payload, Action, Node, Violation};

fn broker() -> Node {
    Node::new("b0".to_string(), "addr-b".to_string(), true)
}

fn peer(name: &str, address: &str) -> Node {
    Node::new(name.to_string(), address.to_string(), false)
}

#[test]
fn role_is_fixed_at_construction() {
    assert!(broker().is_broker());
    assert!(!peer("p1", "addr-1").is_broker());
}

#[test]
fn hails_carry_own_name_and_address() {
    let p = peer("p1", "addr-1");
    assert_eq!(
        p.send_hail(),
        Message::Hail { name: "p1".to_string(), address: "addr-1".to_string() }
    );
}

#[test]
fn pair_requests_name_self_as_originator() {
    let p = peer("p1", "addr-1");
    assert_eq!(
        p.send_pair("p2".to_string()),
        Message::Pair { originator: "p1".to_string(), destination: "p2".to_string() }
    );
}

#[test]
fn directory_is_seeded_with_self() {
    let b = broker();
    assert_eq!(
        b.handle_pair("b0".to_string(), "p2".to_string()),
        Message::Link {
            origin_name: "b0".to_string(),
            destination_name: "p2".to_string(),
            address: "addr-b".to_string(),
        }
    );
}

#[test]
fn hail_registers_and_overwrites() {
    let mut b = broker();
    let first = b.check_for_message(Some(Message::Hail {
        name: "p1".to_string(),
        address: "addr-1".to_string(),
    }));
    assert_eq!(first, Action::Wait);
    assert_eq!(
        b.handle_pair("p1".to_string(), "p2".to_string()),
        Message::Link {
            origin_name: "p1".to_string(),
            destination_name: "p2".to_string(),
            address: "addr-1".to_string(),
        }
    );

    let second = b.check_for_message(Some(Message::Hail {
        name: "p1".to_string(),
        address: "addr-9".to_string(),
    }));
    assert_eq!(second, Action::Wait);
    assert_eq!(
        b.handle_pair("p1".to_string(), "p2".to_string()),
        Message::Link {
            origin_name: "p1".to_string(),
            destination_name: "p2".to_string(),
            address: "addr-9".to_string(),
        }
    );
}

#[test]
fn unknown_originator_draws_a_fail() {
    let b = broker();
    assert_eq!(
        b.handle_pair("ghost".to_string(), "p2".to_string()),
        Message::Fail {
            offender: "ghost".to_string(),
            explanation: "Origin name not found in store".to_string(),
        }
    );
}

#[test]
fn pair_is_resolved_and_broadcast() {
    let mut b = broker();
    b.check_for_message(Some(Message::Hail {
        name: "p1".to_string(),
        address: "addr-1".to_string(),
    }));
    let action = b.check_for_message(Some(Message::Pair {
        originator: "p1".to_string(),
        destination: "p2".to_string(),
    }));
    assert_eq!(
        action,
        Action::Broadcast(Message::Link {
            origin_name: "p1".to_string(),
            destination_name: "p2".to_string(),
            address: "addr-1".to_string(),
        })
    );
}

#[test]
fn no_message_is_a_no_op() {
    let mut p = peer("p1", "addr-1");
    assert_eq!(p.check_for_message(None), Action::Wait);
}

#[test]
fn hail_at_a_peer_is_fatal() {
    let mut p = peer("p1", "addr-1");
    let action = p.check_for_message(Some(Message::Hail {
        name: "p2".to_string(),
        address: "addr-2".to_string(),
    }));
    assert_eq!(action, Action::Abort(Violation::HailAtPeer));
}

#[test]
fn pair_at_a_peer_is_fatal() {
    let mut p = peer("p1", "addr-1");
    let action = p.check_for_message(Some(Message::Pair {
        originator: "p2".to_string(),
        destination: "p3".to_string(),
    }));
    assert_eq!(action, Action::Abort(Violation::PairAtPeer));
}

#[test]
fn fail_addressed_to_self_is_reported() {
    let mut p = peer("p1", "addr-1");
    let action = p.check_for_message(Some(Message::Fail {
        offender: "p1".to_string(),
        explanation: "no luck".to_string(),
    }));
    assert_eq!(action, Action::ReportFailure { explanation: "no luck".to_string() });
}

#[test]
fn fail_addressed_elsewhere_is_ignored() {
    let mut p = peer("p1", "addr-1");
    let action = p.check_for_message(Some(Message::Fail {
        offender: "p9".to_string(),
        explanation: "no luck".to_string(),
    }));
    assert_eq!(action, Action::Wait);
}

#[test]
fn link_reaches_origin_side() {
    let mut p = peer("p1", "addr-1");
    let action = p.check_for_message(Some(Message::Link {
        origin_name: "p1".to_string(),
        destination_name: "p2".to_string(),
        address: "addr-1".to_string(),
    }));
    assert_eq!(
        action,
        Action::OpenDirect {
            address: "addr-1".to_string(),
            payload: "Hello world from origin".to_string(),
        }
    );
}

#[test]
fn link_reaches_destination_side() {
    let mut p = peer("p2", "addr-2");
    let action = p.check_for_message(Some(Message::Link {
        origin_name: "p1".to_string(),
        destination_name: "p2".to_string(),
        address: "addr-1".to_string(),
    }));
    assert_eq!(
        action,
        Action::OpenDirect {
            address: "addr-1".to_string(),
            payload: "Hello world from destination".to_string(),
        }
    );
}

#[test]
fn link_for_others_is_ignored() {
    let mut p = peer("p3", "addr-3");
    let action = p.check_for_message(Some(Message::Link {
        origin_name: "p1".to_string(),
        destination_name: "p2".to_string(),
        address: "addr-1".to_string(),
    }));
    assert_eq!(action, Action::Wait);
}

#[test]
fn data_on_the_formation_is_illegal() {
    let mut b = broker();
    let action = b.check_for_message(Some(Message::Data { payload: "x".to_string() }));
    assert_eq!(action, Action::ReportIllegal);
}

#[test]
fn direct_reply_must_be_data() {
    assert_eq!(
        direct_reply_payload(Message::Data { payload: "pong".to_string() }),
        Some("pong".to_string())
    );
    assert_eq!(
        direct_reply_payload(Message::Hail {
            name: "p1".to_string(),
            address: "addr-1".to_string(),
        }),
        None
    );
}

#[test]
fn directory_lookup_follows_the_last_write() {
    let mut d = Directory::new();
    assert_eq!(d.lookup(&"p1".to_string()), None);
    assert!(!d.contains(&"p1".to_string()));
    d.insert("p1".to_string(), "addr-1".to_string());
    d.insert("p2".to_string(), "addr-2".to_string());
    assert_eq!(d.lookup(&"p1".to_string()), Some(&"addr-1".to_string()));
    d.insert("p1".to_string(), "addr-9".to_string());
    assert_eq!(d.lookup(&"p1".to_string()), Some(&"addr-9".to_string()));
    assert_eq!(d.lookup(&"p2".to_string()), Some(&"addr-2".to_string()));
    assert!(d.contains(&"p2".to_string()));
    assert_eq!(d.lookup(&"p3".to_string()), None);
}
