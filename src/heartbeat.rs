//! The ping/pong heartbeat: a two-state machine that answers `"ping"`
//! with `"pong"` once `"serve"` has been received.

use vstd::prelude::*;

verus! {

/// Whether two texts hold the same characters.
pub fn same_text(a: &str, b: &str) -> (r: bool)
    ensures
        r == (a@ == b@),
{
    let n = a.unicode_len();
    if n != b.unicode_len() {
        return false;
    }
    let mut i: usize = 0;
    while i < n
        invariant
            n == a@.len(),
            n == b@.len(),
            i <= n,
            a@.subrange(0, i as int) == b@.subrange(0, i as int),
        decreases n - i,
    {
        if a.get_char(i) != b.get_char(i) {
            return false;
        }
        assert(a@.subrange(0, i + 1) =~= a@.subrange(0, i as int).push(a@[i as int]));
        assert(b@.subrange(0, i + 1) =~= b@.subrange(0, i as int).push(b@[i as int]));
        i = i + 1;
    }
    assert(a@ =~= a@.subrange(0, n as int));
    assert(b@ =~= b@.subrange(0, n as int));
    true
}

/// The payload that starts the heartbeat.
pub open spec fn serve_word() -> Seq<char> {
    seq!['s', 'e', 'r', 'v', 'e']
}

/// The payload that asks for a reply.
pub open spec fn ping_word() -> Seq<char> {
    seq!['p', 'i', 'n', 'g']
}

/// Whether the machine is active after `payload` arrives.
pub open spec fn active_after(active: bool, payload: Seq<char>) -> bool {
    active || payload == serve_word()
}

/// Whether `payload` is answered with `"pong"`.
pub open spec fn replies_to(active: bool, payload: Seq<char>) -> bool {
    active_after(active, payload) && payload == ping_word()
}

/// Number of `"pong"` replies to a sequence of payloads.
pub open spec fn pong_count(active: bool, payloads: Seq<Seq<char>>) -> nat
    decreases payloads.len(),
{
    if payloads.len() == 0 {
        0
    } else {
        (if replies_to(active, payloads[0]) { 1nat } else { 0nat }) + pong_count(
            active_after(active, payloads[0]),
            payloads.drop_first(),
        )
    }
}

/// Number of `"ping"` payloads in a sequence.
pub open spec fn ping_count(payloads: Seq<Seq<char>>) -> nat
    decreases payloads.len(),
{
    if payloads.len() == 0 {
        0
    } else {
        (if payloads[0] == ping_word() { 1nat } else { 0nat }) + ping_count(payloads.drop_first())
    }
}

/// State of one heartbeat connection: waiting for `"serve"`, or active.
pub struct Heartbeat {
    pub started: bool,
}

impl Heartbeat {
    /// A connection waiting for `"serve"`.
    pub fn new() -> (h: Heartbeat)
        ensures
            !h.started,
    {
        Heartbeat { started: false }
    }

    /// Takes one text payload; returns whether `"pong"` is to be sent.
    pub fn on_payload(&mut self, payload: &str) -> (pong: bool)
        ensures
            final(self).started == active_after(old(self).started, payload@),
            pong == replies_to(old(self).started, payload@),
    {
        proof {
            reveal_strlit("serve");
            reveal_strlit("ping");
        }
        if same_text(payload, "serve") {
            assert("serve"@ =~= serve_word());
            self.started = true;
        } else {
            assert(payload@ != serve_word()) by {
                assert("serve"@ =~= serve_word());
            }
        }
        if !self.started {
            return false;
        }
        let r = same_text(payload, "ping");
        assert("ping"@ =~= ping_word());
        r
    }
}

/// Before any `"serve"`, no payload is answered.
pub proof fn lemma_no_pong_before_serve(payloads: Seq<Seq<char>>)
    requires
        forall|i: int| 0 <= i < payloads.len() ==> payloads[i] != serve_word(),
    ensures
        pong_count(false, payloads) == 0,
    decreases payloads.len(),
{
    if payloads.len() > 0 {
        assert forall|i: int| 0 <= i < payloads.drop_first().len() implies payloads.drop_first()[i]
            != serve_word() by {
            assert(payloads.drop_first()[i] == payloads[i + 1]);
        }
        lemma_no_pong_before_serve(payloads.drop_first());
    }
}

/// Once active, every `"ping"` is answered with exactly one `"pong"`.
pub proof fn lemma_active_answers_each_ping(payloads: Seq<Seq<char>>)
    ensures
        pong_count(true, payloads) == ping_count(payloads),
    decreases payloads.len(),
{
    if payloads.len() > 0 {
        lemma_active_answers_each_ping(payloads.drop_first());
    }
}

/// After `"serve"`, the replies are one per `"ping"` that follows.
pub proof fn lemma_serve_then_pings(payloads: Seq<Seq<char>>)
    ensures
        pong_count(false, seq![serve_word()] + payloads) == ping_count(payloads),
{
    let s = seq![serve_word()] + payloads;
    assert(s.drop_first() =~= payloads);
    assert(serve_word() != ping_word()) by {
        assert(serve_word()[0] != ping_word()[0]);
    }
    lemma_active_answers_each_ping(payloads);
}

} // verus!
