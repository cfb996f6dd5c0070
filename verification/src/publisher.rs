//! The per-connection publisher state machine: `Connected` while sends
//! succeed, `Closed` forever after the first failed send. There is no retry
//! and no reconnection; a new consumer gets a fresh machine of its own.
use vstd::prelude::*;

verus! {

/// State of one consumer connection's publishing loop.
#[derive(PartialEq, Eq, Structural, Clone, Copy, Debug)]
pub enum ConnState {
    Connected,
    Closed,
}

/// The single transition rule: a failed send closes the connection at once;
/// a closed connection never reopens.
pub open spec fn next_state(s: ConnState, send_ok: bool) -> ConnState {
    if s is Closed {
        ConnState::Closed
    } else if send_ok {
        ConnState::Connected
    } else {
        ConnState::Closed
    }
}

/// State after a whole run of send outcomes, first outcome first.
pub open spec fn run_state(s: ConnState, outcomes: Seq<bool>) -> ConnState
    decreases outcomes.len(),
{
    if outcomes.len() == 0 {
        s
    } else {
        run_state(next_state(s, outcomes.first()), outcomes.drop_first())
    }
}

/// Take one tick's transition from the outcome of its send.
pub fn tick_transition(s: ConnState, send_ok: bool) -> (r: ConnState)
    ensures
        r == next_state(s, send_ok),
        !send_ok ==> r is Closed,
        (s is Connected && send_ok) ==> r is Connected,
        s is Closed ==> r is Closed,
{
    match s {
        ConnState::Closed => ConnState::Closed,
        ConnState::Connected => if send_ok {
            ConnState::Connected
        } else {
            ConnState::Closed
        },
    }
}

/// The loop samples and sends only while the connection is open.
pub fn should_publish(s: &ConnState) -> (r: bool)
    ensures
        r == (*s is Connected),
{
    match s {
        ConnState::Connected => true,
        ConnState::Closed => false,
    }
}

/// A closed connection stays closed for every later sequence of outcomes:
/// after the consumer goes away, the machine permits no further send.
pub proof fn lemma_closed_is_terminal(outcomes: Seq<bool>)
    ensures
        run_state(ConnState::Closed, outcomes) is Closed,
    decreases outcomes.len(),
{
    if outcomes.len() > 0 {
        lemma_closed_is_terminal(outcomes.drop_first());
    }
}

/// One failed send ends the connection whatever follows: the very next state
/// is `Closed`, and it remains `Closed` through every later outcome.
pub proof fn lemma_failure_stops_loop(s: ConnState, later: Seq<bool>)
    ensures
        next_state(s, false) is Closed,
        run_state(next_state(s, false), later) is Closed,
{
    lemma_closed_is_terminal(later);
}

} // verus!
