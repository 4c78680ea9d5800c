use chatroom::message::{accept_inbound, forward_inbound, ChatMsg, ReceiveOutcome, TweetMsg};
use chatroom::metrics::DeliveryCounter;
use chatroom::registry::Registry;

fn msg(text: &str) -> Option<ChatMsg> {
    Some(ChatMsg { message: text.to_string() })
}

fn tweet(user: &str, text: &str) -> TweetMsg {
    TweetMsg { user: user.to_string(), message: text.to_string() }
}

#[test]
fn duplicate_join_is_rejected_without_change() {
    let mut reg = Registry::new();
    assert!(reg.join_room(3, "alice".to_string()));
    let mut rx = reg.channel(3).unwrap().subscribe();
    assert!(!reg.join_room(3, "alice".to_string()));
    assert_eq!(reg.member_count(3), 1);
    assert!(reg.is_member(3, &"alice".to_string()));
    // the room keeps its channel
    let tx = reg.channel(3).unwrap();
    let alice = "alice".to_string();
    assert_eq!(forward_inbound(tx, &alice, msg("still here")), ReceiveOutcome::Published);
    assert_eq!(rx.try_recv().unwrap(), tweet("alice", "still here"));
}

#[test]
fn same_name_may_join_different_rooms() {
    let mut reg = Registry::new();
    assert!(reg.join_room(1, "alice".to_string()));
    assert!(reg.join_room(2, "alice".to_string()));
    assert_eq!(reg.member_count(1), 1);
    assert_eq!(reg.member_count(2), 1);
}

#[test]
fn message_reaches_both_members_and_not_other_rooms() {
    let mut reg = Registry::new();
    assert!(reg.join_room(1, "A".to_string()));
    assert!(reg.join_room(1, "B".to_string()));
    assert!(reg.join_room(2, "C".to_string()));
    let mut rx_a = reg.channel(1).unwrap().subscribe();
    let mut rx_b = reg.channel(1).unwrap().subscribe();
    let mut rx_c = reg.channel(2).unwrap().subscribe();
    let a = "A".to_string();
    let out = forward_inbound(reg.channel(1).unwrap(), &a, msg("hi"));
    assert_eq!(out, ReceiveOutcome::Published);
    assert_eq!(rx_a.try_recv().unwrap(), tweet("A", "hi"));
    assert_eq!(rx_b.try_recv().unwrap(), tweet("A", "hi"));
    assert!(rx_c.try_recv().is_err());
}

#[test]
fn overlong_message_is_not_forwarded() {
    let mut reg = Registry::new();
    assert!(reg.join_room(5, "alice".to_string()));
    let mut rx = reg.channel(5).unwrap().subscribe();
    let alice = "alice".to_string();
    let long = "x".repeat(129);
    let out = forward_inbound(reg.channel(5).unwrap(), &alice, msg(&long));
    assert_eq!(out, ReceiveOutcome::Ignored);
    assert!(rx.try_recv().is_err());
}

#[test]
fn message_of_exactly_limit_is_forwarded() {
    let alice = "alice".to_string();
    let text = "y".repeat(128);
    assert_eq!(accept_inbound(&alice, msg(&text)), Some(tweet("alice", &text)));
}

#[test]
fn limit_counts_characters_not_bytes() {
    let alice = "alice".to_string();
    let text = "é".repeat(128);
    assert_eq!(accept_inbound(&alice, msg(&text)), Some(tweet("alice", &text)));
    let longer = "é".repeat(129);
    assert_eq!(accept_inbound(&alice, msg(&longer)), None);
}

#[test]
fn malformed_frame_is_ignored() {
    let mut reg = Registry::new();
    assert!(reg.join_room(5, "bob".to_string()));
    let _rx = reg.channel(5).unwrap().subscribe();
    let bob = "bob".to_string();
    assert_eq!(forward_inbound(reg.channel(5).unwrap(), &bob, None), ReceiveOutcome::Ignored);
    assert_eq!(accept_inbound(&bob, None), None);
}

#[test]
fn publish_without_subscribers_closes_receive_loop() {
    let mut reg = Registry::new();
    assert!(reg.join_room(9, "bob".to_string()));
    let bob = "bob".to_string();
    let out = forward_inbound(reg.channel(9).unwrap(), &bob, msg("anyone?"));
    assert_eq!(out, ReceiveOutcome::ChannelClosed);
}

#[test]
fn empty_room_is_removed_and_rejoin_is_fresh() {
    let mut reg = Registry::new();
    assert!(reg.join_room(4, "alice".to_string()));
    assert!(reg.join_room(4, "bob".to_string()));
    let mut stale = reg.channel(4).unwrap().subscribe();
    reg.leave_room(4, &"alice".to_string());
    assert!(reg.channel(4).is_some());
    assert_eq!(reg.member_count(4), 1);
    reg.leave_room(4, &"bob".to_string());
    assert!(reg.channel(4).is_none());
    assert_eq!(reg.member_count(4), 0);

    assert!(reg.join_room(4, "carol".to_string()));
    assert_eq!(reg.member_count(4), 1);
    assert!(!reg.is_member(4, &"alice".to_string()));
    assert!(!reg.is_member(4, &"bob".to_string()));
    let mut fresh = reg.channel(4).unwrap().subscribe();
    assert!(fresh.try_recv().is_err());
    let carol = "carol".to_string();
    let out = forward_inbound(reg.channel(4).unwrap(), &carol, msg("new"));
    assert_eq!(out, ReceiveOutcome::Published);
    assert_eq!(fresh.try_recv().unwrap(), tweet("carol", "new"));
    assert!(stale.try_recv().is_err());
}

#[test]
fn leave_of_unknown_user_keeps_room() {
    let mut reg = Registry::new();
    assert!(reg.join_room(2, "alice".to_string()));
    reg.leave_room(2, &"zed".to_string());
    reg.leave_room(3, &"alice".to_string());
    assert_eq!(reg.member_count(2), 1);
}

#[test]
fn clear_removes_every_room() {
    let mut reg = Registry::new();
    assert!(reg.join_room(1, "a".to_string()));
    assert!(reg.join_room(2, "b".to_string()));
    let held = reg.channel(1).unwrap().clone();
    let mut rx = held.subscribe();
    reg.clear();
    assert!(reg.channel(1).is_none());
    assert!(reg.channel(2).is_none());
    // a connection holding the old channel keeps using it
    let a = "a".to_string();
    assert_eq!(forward_inbound(&held, &a, msg("orphan")), ReceiveOutcome::Published);
    assert_eq!(rx.try_recv().unwrap(), tweet("a", "orphan"));
}

#[test]
fn room_seven_alice_and_bob() {
    let mut reg = Registry::new();
    let mut counter = DeliveryCounter::new();
    assert!(reg.join_room(7, "alice".to_string()));
    assert!(reg.join_room(7, "bob".to_string()));
    let mut rx_alice = reg.channel(7).unwrap().subscribe();
    let mut rx_bob = reg.channel(7).unwrap().subscribe();
    let before = counter.count();
    let alice = "alice".to_string();
    let out = forward_inbound(reg.channel(7).unwrap(), &alice, msg("hi"));
    assert_eq!(out, ReceiveOutcome::Published);
    let got_alice = rx_alice.try_recv().unwrap();
    counter.record_delivery();
    let got_bob = rx_bob.try_recv().unwrap();
    counter.record_delivery();
    assert_eq!(got_alice, tweet("alice", "hi"));
    assert_eq!(got_bob, tweet("alice", "hi"));
    assert_eq!(counter.count(), before + 2);
}
