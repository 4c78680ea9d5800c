use chatroom::heartbeat::{same_text, Heartbeat};

fn pongs(payloads: &[&str]) -> usize {
    let mut h = Heartbeat::new();
    let mut n = 0;
    for p in payloads {
        if h.on_payload(p) {
            n += 1;
        }
    }
    n
}

#[test]
fn ping_before_serve_gets_no_pong() {
    assert_eq!(pongs(&["ping"]), 0);
    assert_eq!(pongs(&["ping", "hello", "ping"]), 0);
}

#[test]
fn serve_then_ping_gets_one_pong() {
    assert_eq!(pongs(&["serve", "ping"]), 1);
}

#[test]
fn serve_then_two_pings_gets_two_pongs() {
    assert_eq!(pongs(&["serve", "ping", "ping"]), 2);
}

#[test]
fn serve_is_idempotent_and_others_ignored() {
    assert_eq!(pongs(&["ping", "serve", "other", "serve", "ping", "PING"]), 1);
    let mut h = Heartbeat::new();
    assert!(!h.on_payload("serve"));
    assert!(h.started);
    assert!(!h.on_payload("serve"));
    assert!(h.started);
}

#[test]
fn same_text_compares_characters() {
    assert!(same_text("ping", "ping"));
    assert!(!same_text("ping", "pong"));
    assert!(!same_text("ping", "pin"));
    assert!(same_text("", ""));
}
