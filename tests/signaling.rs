use teleconference::signaling::{Delivery, SignalMessage};
use teleconference::SignalingRelay;

fn join(room: &str, user: &str, name: &str) -> SignalMessage {
    SignalMessage::Join { room_id: room.to_string(), user_id: user.to_string(), user_name: name.to_string() }
}

fn joins_for(ds: &[Delivery], recipient: &str) -> Vec<(String, String)> {
    ds.iter()
        .filter(|d| d.recipient == recipient)
        .filter_map(|d| match &d.message {
            SignalMessage::Join { user_id, user_name, .. } => Some((user_id.clone(), user_name.clone())),
            _ => None,
        })
        .collect()
}

fn relay_with(ids: &[&str]) -> SignalingRelay {
    let mut relay = SignalingRelay::new();
    for id in ids {
        relay.connect(id.to_string());
    }
    relay
}

#[test]
fn two_joins_introduce_each_other_once() {
    let mut relay = relay_with(&["a", "b"]);
    let first = relay.handle_message(join("r1", "a", "Alice"));
    assert!(first.is_empty());
    let second = relay.handle_message(join("r1", "b", "Bob"));
    assert_eq!(second.len(), 2);
    assert_eq!(joins_for(&second, "a"), vec![("b".to_string(), "Bob".to_string())]);
    assert_eq!(joins_for(&second, "b"), vec![("a".to_string(), "Alice".to_string())]);
}

#[test]
fn offer_to_absent_receiver_is_dropped() {
    let mut relay = relay_with(&["a"]);
    relay.handle_message(join("r1", "a", "Alice"));
    let out = relay.handle_offer("r1".to_string(), "a".to_string(), "ghost".to_string(), "v=0".to_string());
    assert!(out.is_empty());
    let out = relay.handle_message(SignalMessage::Answer {
        room_id: "r1".to_string(),
        sender_id: "a".to_string(),
        receiver_id: "ghost".to_string(),
        sdp: "v=0".to_string(),
    });
    assert!(out.is_empty());
}

#[test]
fn offer_answer_and_candidate_reach_their_receiver_verbatim() {
    let relay = relay_with(&["a", "b"]);
    let out = relay.handle_offer("r1".to_string(), "a".to_string(), "b".to_string(), "sdp-offer".to_string());
    assert_eq!(out.len(), 1);
    assert_eq!(out[0].recipient, "b");
    match &out[0].message {
        SignalMessage::Offer { sdp, sender_id, .. } => {
            assert_eq!(sdp, "sdp-offer");
            assert_eq!(sender_id, "a");
        }
        other => panic!("unexpected {:?}", other),
    }
    let out = relay.handle_answer("r1".to_string(), "b".to_string(), "a".to_string(), "sdp-answer".to_string());
    assert_eq!(out[0].recipient, "a");
    let out = relay.handle_ice_candidate(
        "r1".to_string(),
        "a".to_string(),
        "b".to_string(),
        "cand".to_string(),
        "0".to_string(),
        3,
    );
    match &out[0].message {
        SignalMessage::IceCandidate { candidate, sdp_m_line_index, .. } => {
            assert_eq!(candidate, "cand");
            assert_eq!(*sdp_m_line_index, 3);
        }
        other => panic!("unexpected {:?}", other),
    }
}

#[test]
fn last_leave_closes_the_room() {
    let mut relay = relay_with(&["a", "b"]);
    relay.handle_message(join("r1", "a", "Alice"));
    let out = relay.handle_leave("r1".to_string(), "a".to_string());
    assert!(out.is_empty());
    let out = relay.handle_message(join("r1", "b", "Bob"));
    assert!(out.is_empty());
}

#[test]
fn leave_is_told_to_remaining_members() {
    let mut relay = relay_with(&["a", "b", "c"]);
    relay.handle_message(join("r1", "a", "Alice"));
    relay.handle_message(join("r1", "b", "Bob"));
    relay.handle_message(join("r1", "c", "Cem"));
    let out = relay.handle_message(SignalMessage::Leave { room_id: "r1".to_string(), user_id: "b".to_string() });
    let recipients: Vec<&str> = out.iter().map(|d| d.recipient.as_str()).collect();
    assert_eq!(recipients, vec!["a", "c"]);
    assert!(out.iter().all(|d| matches!(&d.message, SignalMessage::Leave { user_id, .. } if user_id == "b")));
}

#[test]
fn subtitle_goes_to_everyone_but_the_sender() {
    let mut relay = relay_with(&["a", "b", "c"]);
    relay.handle_message(join("r1", "a", "Alice"));
    relay.handle_message(join("r1", "b", "Bob"));
    relay.handle_message(join("r1", "c", "Cem"));
    let out = relay.handle_subtitle("r1".to_string(), "b".to_string(), "hello".to_string(), 9);
    let recipients: Vec<&str> = out.iter().map(|d| d.recipient.as_str()).collect();
    assert_eq!(recipients, vec!["a", "c"]);
    let none = relay.handle_subtitle("nope".to_string(), "b".to_string(), "hello".to_string(), 9);
    assert!(none.is_empty());
}

#[test]
fn disconnect_leaves_every_room() {
    let mut relay = relay_with(&["a", "b", "c"]);
    relay.handle_message(join("r1", "a", "Alice"));
    relay.handle_message(join("r1", "b", "Bob"));
    relay.handle_message(join("r2", "a", "Alice"));
    relay.handle_message(join("r2", "c", "Cem"));
    let out = relay.handle_disconnect("a".to_string());
    let seen: Vec<(String, String)> = out
        .iter()
        .map(|d| match &d.message {
            SignalMessage::Leave { room_id, .. } => (room_id.clone(), d.recipient.clone()),
            other => panic!("unexpected {:?}", other),
        })
        .collect();
    assert_eq!(seen, vec![("r1".to_string(), "b".to_string()), ("r2".to_string(), "c".to_string())]);
    assert!(!relay.is_live(&"a".to_string()));
    let offer = relay.handle_offer("r1".to_string(), "b".to_string(), "a".to_string(), "x".to_string());
    assert!(offer.is_empty());
}

#[test]
fn members_without_live_connection_get_nothing() {
    let mut relay = relay_with(&["a"]);
    relay.handle_message(join("r1", "a", "Alice"));
    let out = relay.handle_message(join("r1", "offline", "Olga"));
    assert_eq!(out.len(), 1);
    assert_eq!(out[0].recipient, "a");
}
