use crate::bus::{EventBus, Received, ReceivedModel};
use crate::event::wire_form;
use crate::text::on_one_line;
use vstd::prelude::*;
use vstd::string::StringExecFns;

verus! {

/// Seconds of silence after which a keep-alive frame is due.
pub const KEEP_ALIVE_SECONDS: u64 = 15;

/// The frame that carries `payload` to the client as one event of a text
/// event stream: a single `data:` line and the blank line that ends the
/// event.
pub open spec fn data_frame(payload: Seq<char>) -> Seq<char> {
    "data: "@ + payload + "\n\n"@
}

/// The frame that keeps an idle connection alive: a comment line, which a
/// client reads over, and a blank line.
pub open spec fn comment_frame() -> Seq<char> {
    ":\n\n"@
}

/// Whether `frame` is exactly one `data:` line followed by a blank line.
pub open spec fn is_event_frame(frame: Seq<char>) -> bool {
    &&& frame.len() >= 8
    &&& frame.take(6) == seq!['d', 'a', 't', 'a', ':', ' ']
    &&& frame[frame.len() - 2] == '\n'
    &&& frame[frame.len() - 1] == '\n'
    &&& on_one_line(frame.subrange(6, frame.len() - 2))
}

/// Whether `frame` begins as a comment, which no client takes for an event.
pub open spec fn is_comment(frame: Seq<char>) -> bool {
    frame.len() >= 1 && frame[0] == ':'
}

/// A payload without line breaks is framed as exactly one event, and the
/// payload can be read back from the frame.
pub proof fn law_data_frame_is_one_event(payload: Seq<char>)
    requires
        on_one_line(payload),
    ensures
        is_event_frame(data_frame(payload)),
        !is_comment(data_frame(payload)),
        data_frame(payload).subrange(6, data_frame(payload).len() - 2) == payload,
{
    reveal_strlit("data: ");
    reveal_strlit("\n\n");
    let frame = data_frame(payload);
    assert(frame.take(6) =~= seq!['d', 'a', 't', 'a', ':', ' ']);
    assert(frame.subrange(6, frame.len() - 2) =~= payload);
}

/// The keep-alive frame is a comment and is never taken for an event.
pub proof fn law_keep_alive_is_no_event()
    ensures
        is_comment(comment_frame()),
        !is_event_frame(comment_frame()),
        forall|payload: Seq<char>| data_frame(payload) != comment_frame(),
{
    reveal_strlit(":\n\n");
    reveal_strlit("data: ");
    assert forall|payload: Seq<char>| data_frame(payload) != comment_frame() by {
        assert(data_frame(payload)[0] == 'd');
    }
}

/// The frame that carries `payload` to the client as one event.
pub fn frame_payload(payload: &str) -> (frame: String)
    ensures
        frame@ == data_frame(payload@),
{
    let mut frame = String::from_str("data: ");
    frame.append(payload);
    frame.append("\n\n");
    frame
}

/// The frame that keeps an idle connection alive. It is also what a
/// client is sent first, as the sign that the connection stands.
pub fn keep_alive_frame() -> (frame: String)
    ensures
        frame@ == comment_frame(),
{
    String::from_str(":\n\n")
}

/// What the endpoint does next for its client.
#[derive(Debug, PartialEq, Eq)]
pub enum StreamAction {
    /// Write this frame, then ask again.
    Send(String),
    /// The client fell behind and missed events. That is no error:
    /// write nothing and ask again.
    Skip,
    /// Nothing is buffered: wait for the next publication, or send a
    /// keep-alive frame when the wait grows long.
    Wait,
    /// The bus has ended the stream: end the response.
    Finish,
}

/// A step of the endpoint as a mathematical value.
pub enum ActionModel {
    Send(Seq<char>),
    Skip,
    Wait,
    Finish,
}

impl View for StreamAction {
    type V = ActionModel;

    open spec fn view(&self) -> ActionModel {
        match *self {
            StreamAction::Send(frame) => ActionModel::Send(frame@),
            StreamAction::Skip => ActionModel::Skip,
            StreamAction::Wait => ActionModel::Wait,
            StreamAction::Finish => ActionModel::Finish,
        }
    }
}

/// What the endpoint does with what the bus handed it: an event is sent
/// in its wire form as one frame, a notice of missed events is passed
/// over, an empty buffer means waiting, and the end of the stream ends
/// the response.
pub open spec fn action_for(received: ReceivedModel) -> ActionModel {
    match received {
        ReceivedModel::Event(event) => ActionModel::Send(data_frame(wire_form(event))),
        ReceivedModel::Lagged(_) => ActionModel::Skip,
        ReceivedModel::Empty => ActionModel::Wait,
        ReceivedModel::Closed => ActionModel::Finish,
    }
}

/// What the endpoint does with what the bus handed it.
pub fn next_action(received: Received) -> (action: StreamAction)
    ensures
        action@ == action_for(received@),
        action matches StreamAction::Send(frame) ==> is_event_frame(frame@),
{
    match received {
        Received::Event(event) => {
            let json = event.to_json();
            proof {
                law_data_frame_is_one_event(json@);
            }
            StreamAction::Send(frame_payload(json.as_str()))
        },
        Received::Lagged(_) => StreamAction::Skip,
        Received::Empty => StreamAction::Wait,
        Received::Closed => StreamAction::Finish,
    }
}

/// One client's long-lived connection to the event stream.
///
/// It owns one subscription of the bus from the moment it is opened until
/// the stream ends or the client goes away, and gives it back then.
pub struct Connection {
    handle: u64,
    open: bool,
}

impl Connection {
    /// The handle of the subscription that this connection holds or held.
    pub closed spec fn subscription(&self) -> u64 {
        self.handle
    }

    /// Whether the connection still holds its subscription.
    pub closed spec fn holds_subscription(&self) -> bool {
        self.open
    }

    /// Opens a connection: registers a subscriber and returns, with the
    /// connection, the frame that tells the client that it stands.
    /// Returns `None`, and leaves the bus alone, once the bus has no
    /// handle left to give.
    pub fn open(bus: &mut EventBus) -> (opened: Option<(Connection, String)>)
        ensures
            old(bus)@.issued < u64::MAX ==> {
                &&& final(bus)@ == old(bus)@.subscribe()
                &&& opened matches Some((connection, first))
                &&& connection.subscription() == old(bus)@.issued
                &&& connection.holds_subscription()
                &&& first@ == comment_frame()
            },
            old(bus)@.issued >= u64::MAX ==> {
                &&& final(bus)@ == old(bus)@
                &&& opened is None
            },
    {
        match bus.subscribe() {
            Some(handle) => Some((Connection { handle, open: true }, keep_alive_frame())),
            None => None,
        }
    }

    /// The handle of the subscription that this connection holds or held.
    pub fn handle(&self) -> (handle: u64)
        ensures
            handle == self.subscription(),
    {
        self.handle
    }

    /// Whether the connection still holds its subscription.
    pub fn is_open(&self) -> (open: bool)
        ensures
            open == self.holds_subscription(),
    {
        self.open
    }

    /// Takes the next thing that the bus has for this client and says
    /// what to do with it. When the bus ends the stream the subscription
    /// is given back at once. A connection that gave its subscription
    /// back stays finished and leaves the bus alone.
    pub fn advance(&mut self, bus: &mut EventBus) -> (action: StreamAction)
        ensures
            final(self).subscription() == old(self).subscription(),
            !old(self).holds_subscription() ==> {
                &&& action@ == ActionModel::Finish
                &&& final(bus)@ == old(bus)@
                &&& !final(self).holds_subscription()
            },
            old(self).holds_subscription() ==> {
                &&& action@ == action_for(old(bus)@.received(old(self).subscription()))
                &&& final(self).holds_subscription() == !(action@ is Finish)
                &&& action@ is Finish ==> final(bus)@ == old(bus)@.unsubscribe(
                    old(self).subscription(),
                )
                &&& !(action@ is Finish) ==> final(bus)@ == old(bus)@.after_receive(
                    old(self).subscription(),
                )
            },
            action matches StreamAction::Send(frame) ==> is_event_frame(frame@),
    {
        if !self.open {
            return StreamAction::Finish;
        }
        let received = bus.receive(self.handle);
        let action = next_action(received);
        if let StreamAction::Finish = action {
            let _ = bus.unsubscribe(self.handle);
            self.open = false;
        }
        action
    }

    /// Gives the subscription back because the client has gone away.
    /// What was buffered for it is dropped. Doing so again changes nothing.
    pub fn close(&mut self, bus: &mut EventBus)
        ensures
            final(self).subscription() == old(self).subscription(),
            !final(self).holds_subscription(),
            final(bus)@ == (if old(self).holds_subscription() {
                old(bus)@.unsubscribe(old(self).subscription())
            } else {
                old(bus)@
            }),
    {
        if self.open {
            let _ = bus.unsubscribe(self.handle);
            self.open = false;
        }
    }
}

} // verus!
