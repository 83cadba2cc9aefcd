//! The realtime broadcast room: the room state that all connections share,
//! the liveness handshake and the per-connection chat session.
//!
//! Waiting for the next frame, envelope or shutdown signal is the caller's
//! work. What is done about each of them is decided here: every event goes
//! through `Session::step` or `Day19::ping`, which change the state and say
//! what is to be sent.

use crate::channel::{belongs_to, channel_limit, new_receiver, open_channel, send_envelope};
use crate::text::{decimal, same_text, u64_to_string};
use tokio::sync::broadcast::{Receiver, Sender};
use vstd::prelude::*;
use vstd::string::StringExecFns;

verus! {

/// The number of envelopes that the room's channel retains for slow readers.
pub const CHANNEL_CAPACITY: usize = 4096;

/// The longest chat message that is passed on, in characters.
pub const MESSAGE_LIMIT: usize = 128;

/// The process-wide handshake flag of the liveness protocol.
#[derive(Clone, Copy, Debug, PartialEq, Eq, Structural)]
pub enum PingState {
    Idle,
    Started,
}

/// Whether a message is short enough to be passed on.
pub open spec fn accepted(message: Seq<char>) -> bool {
    message.len() <= MESSAGE_LIMIT
}

/// A chat message that has been found short enough. There is no other kind:
/// a longer text never becomes a message.
#[derive(Debug)]
pub struct Twit {
    message: String,
}

impl Clone for Twit {
    fn clone(&self) -> (copy: Twit)
        ensures
            copy@ == self@,
    {
        proof {
            use_type_invariant(self);
        }
        Twit { message: self.message.clone() }
    }
}

impl View for Twit {
    type V = Seq<char>;

    closed spec fn view(&self) -> Seq<char> {
        self.message@
    }
}

impl Twit {
    #[verifier::type_invariant]
    spec fn is_short(self) -> bool {
        accepted(self.message@)
    }

    /// The message with the given text, or `None` where the text is longer
    /// than `MESSAGE_LIMIT` characters.
    pub fn new(message: String) -> (twit: Option<Twit>)
        ensures
            twit is Some == accepted(message@),
            twit matches Some(made) ==> made@ == message@,
    {
        if message.as_str().unicode_len() <= MESSAGE_LIMIT {
            Some(Twit { message: message })
        } else {
            None
        }
    }

    /// The text of the message, which is short enough.
    pub fn message(&self) -> (text: &str)
        ensures
            text@ == self@,
            accepted(text@),
    {
        proof {
            use_type_invariant(self);
        }
        self.message.as_str()
    }

    /// The text of the message, which is short enough.
    pub fn into_message(self) -> (text: String)
        ensures
            text@ == self@,
            accepted(text@),
    {
        proof {
            use_type_invariant(&self);
        }
        self.message
    }
}

/// A chat message on its way through the channel: the room it belongs to,
/// who wrote it, and the message.
#[derive(Clone, Debug)]
pub struct Broadcast {
    pub room: i32,
    pub author: String,
    pub twit: Twit,
}

/// What an envelope holds.
pub struct Envelope {
    pub room: i32,
    pub author: Seq<char>,
    pub message: Seq<char>,
}

impl View for Broadcast {
    type V = Envelope;

    open spec fn view(&self) -> Envelope {
        Envelope { room: self.room, author: self.author@, message: self.twit@ }
    }
}

impl From<(i32, String, Twit)> for Broadcast {
    fn from(value: (i32, String, Twit)) -> (envelope: Broadcast) {
        Broadcast { room: value.0, author: value.1, twit: value.2 }
    }
}

impl vstd::std_specs::convert::FromSpecImpl<(i32, String, Twit)> for Broadcast {
    open spec fn obeys_from_spec() -> bool {
        true
    }

    open spec fn from_spec(value: (i32, String, Twit)) -> Broadcast {
        Broadcast { room: value.0, author: value.1, twit: value.2 }
    }
}

/// One frame of a streaming connection, as far as the room reads it.
#[derive(Clone, Debug)]
pub enum Frame {
    Text(String),
    Binary(Vec<u8>),
    Ping(Vec<u8>),
    Pong(Vec<u8>),
    Close,
    Raw,
}

/// What a frame holds.
pub enum FrameView {
    Text(Seq<char>),
    Binary(Seq<u8>),
    Ping(Seq<u8>),
    Pong(Seq<u8>),
    Close,
    Raw,
}

impl View for Frame {
    type V = FrameView;

    open spec fn view(&self) -> FrameView {
        match self {
            Frame::Text(text) => FrameView::Text(text@),
            Frame::Binary(bytes) => FrameView::Binary(bytes@),
            Frame::Ping(bytes) => FrameView::Ping(bytes@),
            Frame::Pong(bytes) => FrameView::Pong(bytes@),
            Frame::Close => FrameView::Close,
            Frame::Raw => FrameView::Raw,
        }
    }
}

/// What an optional frame holds.
pub open spec fn frame_option_view(frame: Option<Frame>) -> Option<FrameView> {
    match frame {
        Some(frame) => Some(frame@),
        None => None,
    }
}

/// The handshake flag after a frame has been handled: the start keyword
/// sets it, nothing clears it.
pub open spec fn ping_next(state: PingState, frame: FrameView) -> PingState {
    if frame == FrameView::Text("serve"@) {
        PingState::Started
    } else {
        state
    }
}

/// The reply to a frame: an acknowledgement for the probe keyword once the
/// flag is set, nothing otherwise.
pub open spec fn ping_reply(state: PingState, frame: FrameView) -> Option<FrameView> {
    if frame == FrameView::Text("ping"@) && state == PingState::Started {
        Some(FrameView::Text("pong"@))
    } else {
        None
    }
}

/// The view count after one more view.
pub open spec fn after_view(count: nat) -> nat {
    count + 1
}

/// The view count after `n` more views.
pub open spec fn after_views(count: nat, n: nat) -> nat
    decreases n,
{
    if n == 0 {
        count
    } else {
        after_view(after_views(count, (n - 1) as nat))
    }
}

/// The room state as contracts see it.
pub struct Room {
    pub handshake: PingState,
    pub views: nat,
}

/// The state that every connection of the process shares: the handshake
/// flag, the view counter and the channel. It is changed through `&mut`, so
/// whoever shares it between tasks guards it with a lock.
pub struct Day19 {
    ping_state: PingState,
    twit_views: u64,
    stream: (Sender<Broadcast>, Receiver<Broadcast>),
}

impl View for Day19 {
    type V = Room;

    closed spec fn view(&self) -> Room {
        Room { handshake: self.ping_state, views: self.twit_views as nat }
    }
}

impl Default for Day19 {
    /// A fresh room: the flag idle, no views, and a channel of
    /// `CHANNEL_CAPACITY` envelopes.
    fn default() -> (room: Day19)
        ensures
            room@ == (Room { handshake: PingState::Idle, views: 0 }),
            channel_limit(room.sender()) == CHANNEL_CAPACITY,
    {
        Day19 { ping_state: PingState::Idle, twit_views: 0, stream: open_channel(CHANNEL_CAPACITY) }
    }
}

impl Day19 {
    /// The sending half of the room's channel.
    pub closed spec fn sender(&self) -> Sender<Broadcast> {
        self.stream.0
    }

    /// The receiver that the room keeps for itself.
    pub closed spec fn keeper(&self) -> Receiver<Broadcast> {
        self.stream.1
    }

    /// Whether two room states hold the same channel.
    pub open spec fn same_stream(&self, other: &Day19) -> bool {
        self.sender() == other.sender() && self.keeper() == other.keeper()
    }

    /// Handles one frame of the liveness protocol.
    pub fn ping_pong(&mut self, message: Frame) -> (reply: Option<Frame>)
        ensures
            final(self)@.handshake == ping_next(old(self)@.handshake, message@),
            final(self)@.views == old(self)@.views,
            final(self).same_stream(old(self)),
            frame_option_view(reply) == ping_reply(old(self)@.handshake, message@),
    {
        proof {
            reveal_strlit("serve");
            reveal_strlit("ping");
            assert("serve"@.len() == 5);
            assert("ping"@.len() == 4);
        }
        match message {
            Frame::Text(text) => {
                if same_text(text.as_str(), "serve") {
                    self.ping_state = PingState::Started;
                    None
                } else if same_text(text.as_str(), "ping") {
                    match self.ping_state {
                        PingState::Started => Some(Frame::Text("pong".to_owned())),
                        PingState::Idle => None,
                    }
                } else {
                    None
                }
            },
            _ => None,
        }
    }

    /// Sets the view counter to zero.
    pub fn reset(&mut self)
        ensures
            final(self)@.views == 0,
            final(self)@.handshake == old(self)@.handshake,
            final(self).same_stream(old(self)),
    {
        self.twit_views = 0;
    }

    /// The current view count.
    pub fn views(&self) -> (count: u64)
        ensures
            count == self@.views,
    {
        self.twit_views
    }

    /// Counts one view. The counter has room for it: a full counter is a
    /// fault of the process, not an input.
    pub fn log_view(&mut self)
        requires
            old(self)@.views < u64::MAX,
        ensures
            final(self)@.views == after_view(old(self)@.views),
            final(self)@.handshake == old(self)@.handshake,
            final(self).same_stream(old(self)),
    {
        self.twit_views = self.twit_views + 1;
    }

    /// Marks the handshake as started.
    pub fn mark_serve_started(&mut self)
        ensures
            final(self)@.handshake == PingState::Started,
            final(self)@.views == old(self)@.views,
            final(self).same_stream(old(self)),
    {
        self.ping_state = PingState::Started;
    }

    /// Whether the handshake has started.
    pub fn is_serve_started(&self) -> (started: bool)
        ensures
            started == (self@.handshake == PingState::Started),
    {
        match self.ping_state {
            PingState::Started => true,
            PingState::Idle => false,
        }
    }

    /// Hands an envelope to the channel and returns at once, whether or not
    /// anybody receives it.
    pub fn publish(&self, envelope: Broadcast) {
        send_envelope(&self.stream.0, envelope);
    }

    /// A new subscription to the room's channel: it belongs to the channel
    /// that `publish` sends into, and observes what is published after this
    /// call.
    pub fn subscribe(&self) -> (subscription: Receiver<Broadcast>)
        ensures
            belongs_to(subscription, self.sender()),
    {
        new_receiver(&self.stream.0)
    }
}

/// The text that the reporting endpoint answers with: the view count in
/// decimal.
pub open spec fn views_report(room: Room) -> Seq<char> {
    decimal(room.views)
}

/// The answer of the reporting endpoint. The room is only read.
pub fn bird_app_views(room: &Day19) -> (report: String)
    ensures
        report@ == views_report(room@),
{
    u64_to_string(room.views())
}

/// The reset endpoint: the view counter goes back to zero.
pub fn bird_app_reset(room: &mut Day19)
    ensures
        final(room)@.views == 0,
        final(room)@.handshake == old(room)@.handshake,
        final(room).same_stream(old(room)),
{
    room.reset();
}

/// Counting `n` views, one after the other, raises the counter by exactly
/// `n`: none is lost and none is counted twice. Counted from a reset room,
/// the counter reads `n`.
pub proof fn law_views_add_up(count: nat, n: nat)
    ensures
        after_views(count, n) == count + n,
        after_views(0, n) == n,
    decreases n,
{
    if n > 0 {
        law_views_add_up(count, (n - 1) as nat);
        law_views_add_up(0, (n - 1) as nat);
    }
}

/// Two reports with no view and no reset between them read the same.
pub proof fn law_report_is_repeatable(first: Room, second: Room)
    requires
        first.views == second.views,
    ensures
        views_report(first) == views_report(second),
{
}

/// The handshake only moves forward: once started, no frame brings the
/// flag back.
pub proof fn law_handshake_is_one_way(frame: FrameView)
    ensures
        ping_next(PingState::Started, frame) == PingState::Started,
{
}

/// While the flag is idle no frame is answered, the probe keyword included.
pub proof fn law_idle_room_is_silent(frame: FrameView)
    ensures
        ping_reply(PingState::Idle, frame) is None,
{
}

/// After the start keyword, from whatever state, every probe is answered
/// with one acknowledgement, and answering changes nothing: the next probe
/// is answered as well.
pub proof fn law_probe_after_start_is_answered(state: PingState)
    ensures
        ({
            let started = ping_next(state, FrameView::Text("serve"@));
            &&& started == PingState::Started
            &&& ping_reply(state, FrameView::Text("serve"@)) is None
            &&& ping_reply(started, FrameView::Text("ping"@)) == Some(FrameView::Text("pong"@))
            &&& ping_next(started, FrameView::Text("ping"@)) == started
        }),
{
    reveal_strlit("serve");
    reveal_strlit("ping");
    assert("serve"@.len() == 5);
    assert("ping"@.len() == 4);
}

/// What one read on a liveness connection gave: a frame, or nothing when
/// the read failed or the stream ended.
pub open spec fn ping_goes_on(read: Option<FrameView>) -> bool {
    read matches Some(frame) && frame != FrameView::Close
}

/// One turn of a liveness connection.
#[derive(Clone, Debug)]
pub enum PingTurn {
    /// The connection ends.
    Stop,
    /// The connection stays open, with the reply to send, if any.
    Stay(Option<Frame>),
}

/// Handles one read on a liveness connection. A close frame, a failed read
/// or the end of the stream end the connection and leave the flag alone;
/// any other frame goes through `Day19::ping_pong`.
pub fn ping(room: &mut Day19, read: Option<Frame>) -> (turn: PingTurn)
    ensures
        final(room)@.views == old(room)@.views,
        final(room).same_stream(old(room)),
        !ping_goes_on(frame_option_view(read)) ==> turn is Stop && final(room)@.handshake == old(
            room,
        )@.handshake,
        ping_goes_on(frame_option_view(read)) ==> {
            &&& turn matches PingTurn::Stay(reply)
            &&& frame_option_view(reply) == ping_reply(old(room)@.handshake, read->0@)
            &&& final(room)@.handshake == ping_next(old(room)@.handshake, read->0@)
        },
{
    match read {
        None => PingTurn::Stop,
        Some(Frame::Close) => PingTurn::Stop,
        Some(frame) => {
            let reply = room.ping_pong(frame);
            PingTurn::Stay(reply)
        },
    }
}

/// Where a chat connection stands.
#[derive(Clone, Copy, Debug, PartialEq, Eq, Structural)]
pub enum SessionState {
    /// Frames and envelopes are being handled.
    Active,
    /// The session has decided to end; nothing is handled any more.
    Closing,
    /// The loop has ended and the subscription is released.
    Closed,
}

/// What one read on a chat connection gave.
#[derive(Clone, Debug)]
pub enum Inbound {
    /// A ping control frame with its payload.
    Ping(Vec<u8>),
    /// A text frame: the text of the message that its payload decodes to,
    /// or `None` where it decodes to no message.
    Text(Option<String>),
    /// A close control frame.
    Close,
    /// Any other frame.
    Other,
    /// The read failed, or the stream has ended.
    Lost,
}

/// What an inbound read holds.
pub enum InboundView {
    Ping(Seq<u8>),
    Text(Option<Seq<char>>),
    Close,
    Other,
    Lost,
}

impl View for Inbound {
    type V = InboundView;

    open spec fn view(&self) -> InboundView {
        match self {
            Inbound::Ping(payload) => InboundView::Ping(payload@),
            Inbound::Text(Some(text)) => InboundView::Text(Some(text@)),
            Inbound::Text(None) => InboundView::Text(None),
            Inbound::Close => InboundView::Close,
            Inbound::Other => InboundView::Other,
            Inbound::Lost => InboundView::Lost,
        }
    }
}

/// What one receive on the subscription gave.
#[derive(Clone, Debug)]
pub enum Delivery {
    /// The next envelope.
    Envelope(Broadcast),
    /// The subscription fell behind and this many envelopes were dropped.
    Lagged(u64),
    /// The channel is gone.
    Closed,
}

/// What a delivery holds.
pub enum DeliveryView {
    Envelope(Envelope),
    Lagged(u64),
    Closed,
}

impl View for Delivery {
    type V = DeliveryView;

    open spec fn view(&self) -> DeliveryView {
        match self {
            Delivery::Envelope(envelope) => DeliveryView::Envelope(envelope@),
            Delivery::Lagged(skipped) => DeliveryView::Lagged(*skipped),
            Delivery::Closed => DeliveryView::Closed,
        }
    }
}

/// One of the three things a chat session waits for.
#[derive(Clone, Debug)]
pub enum Event {
    Inbound(Inbound),
    Delivery(Delivery),
    Shutdown,
}

/// What an event holds.
pub enum EventView {
    Inbound(InboundView),
    Delivery(DeliveryView),
    Shutdown,
}

impl View for Event {
    type V = EventView;

    open spec fn view(&self) -> EventView {
        match self {
            Event::Inbound(inbound) => EventView::Inbound(inbound@),
            Event::Delivery(delivery) => EventView::Delivery(delivery@),
            Event::Shutdown => EventView::Shutdown,
        }
    }
}

/// The frame that a session sends to its client for an envelope of its room.
#[derive(Clone, Debug)]
pub struct Reply {
    pub user: String,
    pub message: String,
}

/// What a reply holds.
pub struct ReplyView {
    pub user: Seq<char>,
    pub message: Seq<char>,
}

impl View for Reply {
    type V = ReplyView;

    open spec fn view(&self) -> ReplyView {
        ReplyView { user: self.user@, message: self.message@ }
    }
}

/// The JSON string that writes a text: the text between double quotes,
/// with what JSON wants escaped escaped.
pub uninterp spec fn json_string_of(text: Seq<char>) -> Seq<char>;

/// `serde_json::to_string` on a string slice, which cannot fail for a
/// string. The result is named, not spelt out.
#[verifier::external_body]
pub(crate) fn json_string(text: &str) -> (written: String)
    ensures
        written@ == json_string_of(text@),
{
    serde_json::to_string(text).unwrap_or_default()
}

/// The text of the frame that carries a reply: a JSON object with the
/// user and then the message.
pub open spec fn reply_frame(reply: ReplyView) -> Seq<char> {
    "{\"user\":"@ + json_string_of(reply.user) + ",\"message\":"@ + json_string_of(
        reply.message,
    ) + "}"@
}

impl Reply {
    /// The text of the frame that carries the reply.
    pub fn frame_text(&self) -> (text: String)
        ensures
            text@ == reply_frame(self@),
    {
        let mut text = "{\"user\":".to_owned();
        text.append(json_string(self.user.as_str()).as_str());
        text.append(",\"message\":");
        text.append(json_string(self.message.as_str()).as_str());
        text.append("}");
        text
    }
}

/// What a session asks its caller to do after an event.
#[derive(Clone, Debug)]
pub enum Action {
    /// Nothing is sent anywhere.
    Nothing,
    /// Answer the client's ping with a pong of the same payload.
    Pong(Vec<u8>),
    /// Publish the envelope to the room's channel.
    Publish(Broadcast),
    /// Send the reply to the client.
    Forward(Reply),
}

/// What an action holds.
pub enum ActionView {
    Nothing,
    Pong(Seq<u8>),
    Publish(Envelope),
    Forward(ReplyView),
}

impl View for Action {
    type V = ActionView;

    open spec fn view(&self) -> ActionView {
        match self {
            Action::Nothing => ActionView::Nothing,
            Action::Pong(payload) => ActionView::Pong(payload@),
            Action::Publish(envelope) => ActionView::Publish(envelope@),
            Action::Forward(reply) => ActionView::Forward(reply@),
        }
    }
}

/// A chat session as contracts see it.
pub struct SessionView {
    pub room: i32,
    pub user: Seq<char>,
    pub state: SessionState,
}

/// The state of a session after an event. A close frame, a failed read, a
/// closed channel and the shutdown signal end an active session; nothing
/// revives one that has ended.
pub open spec fn session_next(session: SessionView, event: EventView) -> SessionState {
    if session.state != SessionState::Active {
        session.state
    } else {
        match event {
            EventView::Inbound(InboundView::Close) => SessionState::Closing,
            EventView::Inbound(InboundView::Lost) => SessionState::Closing,
            EventView::Delivery(DeliveryView::Closed) => SessionState::Closing,
            EventView::Shutdown => SessionState::Closing,
            _ => SessionState::Active,
        }
    }
}

/// What an active session does about an event: a pong for a ping, a
/// publication for an accepted message, a reply for an envelope of its own
/// room, and nothing for anything else. A session that has ended does
/// nothing.
pub open spec fn session_action(session: SessionView, event: EventView) -> ActionView {
    if session.state != SessionState::Active {
        ActionView::Nothing
    } else {
        match event {
            EventView::Inbound(InboundView::Ping(payload)) => ActionView::Pong(payload),
            EventView::Inbound(InboundView::Text(Some(message))) => if accepted(message) {
                ActionView::Publish(
                    Envelope { room: session.room, author: session.user, message: message },
                )
            } else {
                ActionView::Nothing
            },
            EventView::Delivery(DeliveryView::Envelope(envelope)) => if envelope.room
                == session.room {
                ActionView::Forward(
                    ReplyView { user: envelope.author, message: envelope.message },
                )
            } else {
                ActionView::Nothing
            },
            _ => ActionView::Nothing,
        }
    }
}

/// Whether the event makes the session count a view: exactly when it
/// forwards an envelope to its client.
pub open spec fn counts_view(session: SessionView, event: EventView) -> bool {
    session_action(session, event) is Forward
}

/// A message of at most `MESSAGE_LIMIT` characters that an active session
/// reads from its client is published with the session's room and user, and
/// every active session of that room that is handed the envelope forwards
/// the message's text and the publisher's user to its own client, the
/// publisher's session included.
pub proof fn law_accepted_message_is_forwarded(
    publisher: SessionView,
    subscriber: SessionView,
    message: Seq<char>,
)
    requires
        publisher.state == SessionState::Active,
        subscriber.state == SessionState::Active,
        subscriber.room == publisher.room,
        accepted(message),
    ensures
        ({
            let envelope = Envelope {
                room: publisher.room,
                author: publisher.user,
                message: message,
            };
            &&& session_action(publisher, EventView::Inbound(InboundView::Text(Some(message))))
                == ActionView::Publish(envelope)
            &&& session_action(subscriber, EventView::Delivery(DeliveryView::Envelope(envelope)))
                == ActionView::Forward(ReplyView { user: publisher.user, message: message })
            &&& counts_view(subscriber, EventView::Delivery(DeliveryView::Envelope(envelope)))
        }),
{
}

/// A message of more than `MESSAGE_LIMIT` characters is dropped where it
/// arrives, and whatever a session publishes is short enough. (An envelope
/// cannot even be made with a longer message: see `Twit`.)
pub proof fn law_oversized_message_is_dropped(session: SessionView, event: EventView)
    ensures
        event matches EventView::Inbound(InboundView::Text(Some(message))) && !accepted(message)
            ==> session_action(session, event) == ActionView::Nothing && session_next(
            session,
            event,
        ) == session.state,
        session_action(session, event) matches ActionView::Publish(envelope) ==> accepted(
            envelope.message,
        ),
{
}

/// An envelope of another room is discarded: nothing is sent to the client
/// and no view is counted.
pub proof fn law_other_room_is_not_delivered(session: SessionView, envelope: Envelope)
    requires
        envelope.room != session.room,
    ensures
        session_action(session, EventView::Delivery(DeliveryView::Envelope(envelope)))
            == ActionView::Nothing,
        !counts_view(session, EventView::Delivery(DeliveryView::Envelope(envelope))),
{
}

/// The shutdown signal ends an active session at once: nothing is sent and
/// no view is counted.
pub proof fn law_shutdown_ends_quietly(session: SessionView)
    ensures
        session_next(session, EventView::Shutdown) != SessionState::Active,
        session_action(session, EventView::Shutdown) == ActionView::Nothing,
        !counts_view(session, EventView::Shutdown),
{
}

/// A session that has ended stays as it is, whatever arrives: it sends
/// nothing, publishes nothing and counts nothing.
pub proof fn law_ended_session_is_silent(session: SessionView, event: EventView)
    requires
        session.state != SessionState::Active,
    ensures
        session_next(session, event) == session.state,
        session_action(session, event) == ActionView::Nothing,
        !counts_view(session, event),
{
}

/// Bad input never ends a session: a text frame that is no message, a
/// message that is too long, a frame of another kind and a lagging
/// subscription all leave an active session active.
pub proof fn law_bad_input_keeps_session_open(session: SessionView, event: EventView)
    requires
        session.state == SessionState::Active,
        event is Inbound ==> event->Inbound_0 is Text || event->Inbound_0 is Other
            || event->Inbound_0 is Ping,
        event is Delivery ==> !(event->Delivery_0 is Closed),
        !(event is Shutdown),
    ensures
        session_next(session, event) == SessionState::Active,
{
}

/// The view count after some steps, taken one after the other by whatever
/// sessions: each step that forwards an envelope counts one view.
pub open spec fn views_after_steps(count: nat, steps: Seq<(SessionView, EventView)>) -> nat
    decreases steps.len(),
{
    if steps.len() == 0 {
        count
    } else {
        let before = views_after_steps(count, steps.drop_last());
        if counts_view(steps.last().0, steps.last().1) {
            after_view(before)
        } else {
            before
        }
    }
}

/// How many of some steps forward an envelope.
pub open spec fn forwards_in(steps: Seq<(SessionView, EventView)>) -> nat {
    steps.filter(|step: (SessionView, EventView)| counts_view(step.0, step.1)).len()
}

/// However the steps of different sessions follow one another, the view
/// counter rises by exactly the number of envelopes that were forwarded:
/// by one for each session that forwards an envelope, and by nothing else.
pub proof fn law_every_forward_counts_once(count: nat, steps: Seq<(SessionView, EventView)>)
    ensures
        views_after_steps(count, steps) == count + forwards_in(steps),
    decreases steps.len(),
{
    reveal(Seq::filter);
    if steps.len() > 0 {
        law_every_forward_counts_once(count, steps.drop_last());
    }
}

/// One client's chat connection to one room.
pub struct Session {
    room: i32,
    user: String,
    state: SessionState,
}

impl View for Session {
    type V = SessionView;

    closed spec fn view(&self) -> SessionView {
        SessionView { room: self.room, user: self.user@, state: self.state }
    }
}

impl Session {
    /// A session of `user` in `room`, with the subscription that it will
    /// read from. The subscription starts here, so the session observes
    /// what is published from now on.
    pub fn open(shared: &Day19, room: i32, user: &str) -> (opened: (Session, Receiver<Broadcast>))
        ensures
            opened.0@ == (SessionView { room: room, user: user@, state: SessionState::Active }),
    {
        let subscription = shared.subscribe();
        (Session { room: room, user: user.to_owned(), state: SessionState::Active }, subscription)
    }

    /// Where the session stands.
    pub fn state(&self) -> (state: SessionState)
        ensures
            state == self@.state,
    {
        self.state
    }

    /// Whether the session still handles events.
    pub fn is_active(&self) -> (active: bool)
        ensures
            active == (self@.state == SessionState::Active),
    {
        match self.state {
            SessionState::Active => true,
            _ => false,
        }
    }

    /// Whether the session will forward the event's envelope to its client,
    /// and so count a view, when it handles the event.
    pub fn forwards(&self, event: &Event) -> (counts: bool)
        ensures
            counts == counts_view(self@, event@),
    {
        match event {
            Event::Delivery(Delivery::Envelope(envelope)) => self.is_active() && envelope.room
                == self.room,
            _ => false,
        }
    }

    /// Handles one event. The state moves as `session_next` says and the
    /// result is the action that `session_action` names. A view is counted
    /// exactly when an envelope is forwarded, and the counter must have
    /// room for it then. Nothing else in the room changes. What is
    /// forwarded is short enough, wherever the envelope came from.
    pub fn step(&mut self, shared: &mut Day19, event: Event) -> (action: Action)
        requires
            counts_view(old(self)@, event@) ==> old(shared)@.views < u64::MAX,
        ensures
            final(self)@.room == old(self)@.room,
            final(self)@.user == old(self)@.user,
            final(self)@.state == session_next(old(self)@, event@),
            action@ == session_action(old(self)@, event@),
            final(shared)@.views == if counts_view(old(self)@, event@) {
                after_view(old(shared)@.views)
            } else {
                old(shared)@.views
            },
            final(shared)@.handshake == old(shared)@.handshake,
            final(shared).same_stream(old(shared)),
            action matches Action::Forward(reply) ==> accepted(reply@.message),
    {
        if !self.is_active() {
            return Action::Nothing;
        }
        match event {
            Event::Inbound(Inbound::Ping(payload)) => Action::Pong(payload),
            Event::Inbound(Inbound::Text(Some(text))) => {
                match Twit::new(text) {
                    Some(twit) => Action::Publish(
                        Broadcast::from((self.room, self.user.clone(), twit)),
                    ),
                    None => Action::Nothing,
                }
            },
            Event::Inbound(Inbound::Text(None)) => Action::Nothing,
            Event::Inbound(Inbound::Other) => Action::Nothing,
            Event::Inbound(Inbound::Close) => {
                self.state = SessionState::Closing;
                Action::Nothing
            },
            Event::Inbound(Inbound::Lost) => {
                self.state = SessionState::Closing;
                Action::Nothing
            },
            Event::Delivery(Delivery::Envelope(envelope)) => {
                if envelope.room == self.room {
                    shared.log_view();
                    Action::Forward(
                        Reply { user: envelope.author, message: envelope.twit.into_message() },
                    )
                } else {
                    Action::Nothing
                }
            },
            Event::Delivery(Delivery::Lagged(_)) => Action::Nothing,
            Event::Delivery(Delivery::Closed) => {
                self.state = SessionState::Closing;
                Action::Nothing
            },
            Event::Shutdown => {
                self.state = SessionState::Closing;
                Action::Nothing
            },
        }
    }

    /// Ends the session for good and releases its subscription, so that
    /// nothing more is delivered to it.
    pub fn finish(&mut self, subscription: Receiver<Broadcast>)
        ensures
            final(self)@.state == SessionState::Closed,
            final(self)@.room == old(self)@.room,
            final(self)@.user == old(self)@.user,
    {
        self.state = SessionState::Closed;
    }
}

} // verus!
