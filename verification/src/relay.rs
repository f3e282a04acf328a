//! The WebSocket relay: a two-state machine that echoes inbound text frames
//! back to the sender until the peer closes the connection or the transport
//! reports a fault.
//!
//! The host glue owns the actual socket; it feeds each inbound event to
//! [`relay_step`] and performs the returned action. [`run_relay`] is the same
//! loop over a whole event sequence at once, and [`session_transcript`] adds
//! the greeting frame that is sent once when a connection is accepted.

use vstd::prelude::*;
use crate::greeting;
use crate::spec_greeting;

verus! {

/// One inbound event on an open WebSocket connection: a text frame, a binary
/// frame (deliberately ignored), a clean close frame, or a transport fault.
pub enum WsEvent {
    Text(String),
    Binary,
    Close,
    Fault,
}

/// The mathematical model of a [`WsEvent`]: the text payload as a character
/// sequence.
pub enum EventModel {
    Text(Seq<char>),
    Binary,
    Close,
    Fault,
}

impl View for WsEvent {
    type V = EventModel;

    open spec fn view(&self) -> EventModel {
        match self {
            WsEvent::Text(t) => EventModel::Text(t@),
            WsEvent::Binary => EventModel::Binary,
            WsEvent::Close => EventModel::Close,
            WsEvent::Fault => EventModel::Fault,
        }
    }
}

impl DeepView for WsEvent {
    type V = EventModel;

    open spec fn deep_view(&self) -> EventModel {
        self.view()
    }
}

/// The relay's state: `Open` while events are being read and relayed,
/// `Closed` once the loop has stopped for good.
#[derive(Clone, Copy, Debug, PartialEq, Eq, Structural)]
pub enum RelayState {
    Open,
    Closed,
}

/// What the relay asks the host to do in reaction to one event.
pub enum RelayAction {
    Echo(String),
    Ignore,
}

/// The mathematical model of a [`RelayAction`].
pub enum ActionModel {
    Echo(Seq<char>),
    Ignore,
}

impl View for RelayAction {
    type V = ActionModel;

    open spec fn view(&self) -> ActionModel {
        match self {
            RelayAction::Echo(t) => ActionModel::Echo(t@),
            RelayAction::Ignore => ActionModel::Ignore,
        }
    }
}

/// Why the relay loop ended: the event source ran dry, the peer sent a close
/// frame, or the transport reported a fault.
#[derive(Clone, Copy, Debug, PartialEq, Eq, Structural)]
pub enum RelayEnd {
    Drained,
    ClosedByPeer,
    Faulted,
}

/// The state after one event: a close frame or a fault ends an open relay;
/// a closed relay stays closed.
pub open spec fn spec_relay_next(state: RelayState, event: EventModel) -> RelayState {
    match state {
        RelayState::Closed => RelayState::Closed,
        RelayState::Open => match event {
            EventModel::Text(_) => RelayState::Open,
            EventModel::Binary => RelayState::Open,
            EventModel::Close => RelayState::Closed,
            EventModel::Fault => RelayState::Closed,
        },
    }
}

/// The action for one event: an open relay echoes a text frame exactly;
/// everything else is a no-op.
pub open spec fn spec_relay_action(state: RelayState, event: EventModel) -> ActionModel {
    match state {
        RelayState::Closed => ActionModel::Ignore,
        RelayState::Open => match event {
            EventModel::Text(t) => ActionModel::Echo(t),
            EventModel::Binary => ActionModel::Ignore,
            EventModel::Close => ActionModel::Ignore,
            EventModel::Fault => ActionModel::Ignore,
        },
    }
}

/// Advances the relay by one event and says what to do with it.
pub fn relay_step(state: RelayState, event: &WsEvent) -> (r: (RelayState, RelayAction))
    ensures
        r.0 == spec_relay_next(state, event@),
        r.1@ == spec_relay_action(state, event@),
{
    match state {
        RelayState::Closed => (RelayState::Closed, RelayAction::Ignore),
        RelayState::Open => match event {
            WsEvent::Text(t) => (RelayState::Open, RelayAction::Echo(t.clone())),
            WsEvent::Binary => (RelayState::Open, RelayAction::Ignore),
            WsEvent::Close => (RelayState::Closed, RelayAction::Ignore),
            WsEvent::Fault => (RelayState::Closed, RelayAction::Ignore),
        },
    }
}

/// The texts an open relay echoes for a delivered event sequence, in delivery
/// order: every text frame before the first close or fault, and nothing after.
pub open spec fn spec_relay_echoes(events: Seq<EventModel>) -> Seq<Seq<char>>
    decreases events.len(),
{
    if events.len() == 0 {
        Seq::empty()
    } else {
        match events[0] {
            EventModel::Text(t) => seq![t] + spec_relay_echoes(events.drop_first()),
            EventModel::Binary => spec_relay_echoes(events.drop_first()),
            EventModel::Close => Seq::empty(),
            EventModel::Fault => Seq::empty(),
        }
    }
}

/// Why the relay ends on a delivered event sequence.
pub open spec fn spec_relay_end(events: Seq<EventModel>) -> RelayEnd
    decreases events.len(),
{
    if events.len() == 0 {
        RelayEnd::Drained
    } else {
        match events[0] {
            EventModel::Text(_) => spec_relay_end(events.drop_first()),
            EventModel::Binary => spec_relay_end(events.drop_first()),
            EventModel::Close => RelayEnd::ClosedByPeer,
            EventModel::Fault => RelayEnd::Faulted,
        }
    }
}

/// Runs the relay over a whole event sequence: returns the echoed texts in
/// order and why the loop ended.
pub fn run_relay(events: &Vec<WsEvent>) -> (r: (Vec<String>, RelayEnd))
    ensures
        r.0.deep_view() == spec_relay_echoes(events.deep_view()),
        r.1 == spec_relay_end(events.deep_view()),
{
    let ghost ev = events.deep_view();
    let mut out: Vec<String> = Vec::new();
    let mut state = RelayState::Open;
    let mut end = RelayEnd::Drained;
    let mut i: usize = 0;
    proof {
        assert(ev.skip(0) =~= ev);
        assert(out.deep_view() + spec_relay_echoes(ev) =~= spec_relay_echoes(ev));
    }
    while i < events.len() && state == RelayState::Open
        invariant
            i <= events.len(),
            ev == events.deep_view(),
            ev.len() == events.len(),
            state == RelayState::Open ==> {
                &&& spec_relay_echoes(ev) == out.deep_view() + spec_relay_echoes(ev.skip(i as int))
                &&& spec_relay_end(ev) == spec_relay_end(ev.skip(i as int))
                &&& end == RelayEnd::Drained
            },
            state == RelayState::Closed ==> {
                &&& spec_relay_echoes(ev) == out.deep_view()
                &&& spec_relay_end(ev) == end
            },
        decreases events.len() - i,
    {
        proof {
            assert(ev.skip(i as int)[0] == ev[i as int]);
            assert(ev.skip(i as int).drop_first() =~= ev.skip(i as int + 1));
        }
        let (next, action) = relay_step(state, &events[i]);
        match action {
            RelayAction::Echo(t) => {
                out.push(t);
            },
            RelayAction::Ignore => {},
        }
        if next == RelayState::Closed {
            end = match &events[i] {
                WsEvent::Close => RelayEnd::ClosedByPeer,
                _ => RelayEnd::Faulted,
            };
        }
        proof {
            if next == RelayState::Open {
                assert(out.deep_view() + spec_relay_echoes(ev.skip(i as int + 1))
                    =~= spec_relay_echoes(ev));
            }
        }
        state = next;
        i = i + 1;
    }
    proof {
        if state == RelayState::Open {
            assert(ev.skip(i as int) =~= Seq::<EventModel>::empty());
            assert(out.deep_view() + spec_relay_echoes(ev.skip(i as int)) =~= out.deep_view());
        }
    }
    (out, end)
}

/// Every frame the server sends over one connection's lifetime, in order: the
/// fixed greeting sent on accept, then one echo per text frame delivered
/// before the first close or fault.
pub fn session_transcript(events: &Vec<WsEvent>) -> (r: Vec<String>)
    ensures
        r.deep_view() == seq![spec_greeting()] + spec_relay_echoes(events.deep_view()),
{
    let mut r: Vec<String> = Vec::new();
    r.push(greeting());
    let (mut echoes, _end) = run_relay(events);
    r.append(&mut echoes);
    proof {
        assert(r.deep_view() =~= seq![spec_greeting()] + spec_relay_echoes(events.deep_view()));
    }
    r
}

/// The position of the first close frame or transport fault in a delivered
/// event sequence, or its length when there is none.
pub open spec fn spec_stop_index(events: Seq<EventModel>) -> int
    decreases events.len(),
{
    if events.len() == 0 {
        0
    } else {
        match events[0] {
            EventModel::Text(_) => 1 + spec_stop_index(events.drop_first()),
            EventModel::Binary => 1 + spec_stop_index(events.drop_first()),
            EventModel::Close => 0,
            EventModel::Fault => 0,
        }
    }
}

/// The payloads of all text frames in a sequence, in delivery order.
pub open spec fn spec_text_payloads(events: Seq<EventModel>) -> Seq<Seq<char>>
    decreases events.len(),
{
    if events.len() == 0 {
        Seq::empty()
    } else {
        match events[0] {
            EventModel::Text(t) => seq![t] + spec_text_payloads(events.drop_first()),
            EventModel::Binary => spec_text_payloads(events.drop_first()),
            EventModel::Close => spec_text_payloads(events.drop_first()),
            EventModel::Fault => spec_text_payloads(events.drop_first()),
        }
    }
}

/// Law: while the connection stays open — no close frame and no fault among
/// the delivered events — the relay echoes every text frame it is delivered,
/// in delivery order: nothing is dropped and nothing is reordered.
pub proof fn lemma_open_relay_echoes_every_text(events: Seq<EventModel>)
    requires
        spec_stop_index(events) == events.len(),
    ensures
        spec_relay_echoes(events) == spec_text_payloads(events),
    decreases events.len(),
{
    if events.len() > 0 {
        match events[0] {
            EventModel::Close => {
                assert(spec_stop_index(events) == 0);
            },
            EventModel::Fault => {
                assert(spec_stop_index(events) == 0);
            },
            _ => {
                lemma_open_relay_echoes_every_text(events.drop_first());
            },
        }
    }
}

/// Law: once a close frame or fault has been delivered, later events change
/// nothing — the relay echoes exactly what it echoed without them, and ends
/// for the same reason, however many messages are still buffered behind the
/// stop.
pub proof fn lemma_no_echo_after_stop(events: Seq<EventModel>, extra: Seq<EventModel>)
    requires
        spec_stop_index(events) < events.len(),
    ensures
        spec_relay_echoes(events + extra) == spec_relay_echoes(events),
        spec_relay_end(events + extra) == spec_relay_end(events),
    decreases events.len(),
{
    assert((events + extra)[0] == events[0]);
    match events[0] {
        EventModel::Close => {},
        EventModel::Fault => {},
        _ => {
            assert((events + extra).drop_first() =~= events.drop_first() + extra);
            lemma_no_echo_after_stop(events.drop_first(), extra);
        },
    }
}

} // verus!
