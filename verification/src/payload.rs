//! Payloads and events exchanged between the network layer and the ECS layer.
use vstd::prelude::*;
use vstd::utf8::*;
use tokio::sync::mpsc::Sender;

verus! {

#[verifier::external_type_specification]
#[verifier::external_body]
#[verifier::reject_recursive_types(T)]
pub struct ExSender<T>(tokio::sync::mpsc::Sender<T>);

/// Payload for data sent or received over the network: text (for example JSON) or raw bytes.
#[derive(Debug, Clone)]
pub enum NetworkPayload {
    /// Text data.
    Text(String),
    /// Binary data.
    Binary(Vec<u8>),
}

/// Mathematical model of a payload.
pub enum PayloadView {
    Text(Seq<char>),
    Binary(Seq<u8>),
}

impl View for NetworkPayload {
    type V = PayloadView;

    open spec fn view(&self) -> PayloadView {
        match self {
            NetworkPayload::Text(t) => PayloadView::Text(t@),
            NetworkPayload::Binary(b) => PayloadView::Binary(b@),
        }
    }
}

/// The bytes a payload occupies on a byte-oriented transport: text goes out as UTF-8.
pub open spec fn payload_bytes(p: PayloadView) -> Seq<u8> {
    match p {
        PayloadView::Text(t) => encode_utf8(t),
        PayloadView::Binary(b) => b,
    }
}

/// How a received datagram is classified: valid UTF-8 is text, anything else is binary.
pub open spec fn datagram_payload(bytes: Seq<u8>) -> PayloadView {
    if valid_utf8(bytes) {
        PayloadView::Text(decode_utf8(bytes))
    } else {
        PayloadView::Binary(bytes)
    }
}

/// Calls `String::from_utf8`. Per std's documentation it succeeds exactly when
/// the bytes are valid UTF-8, the string then holds those very bytes, and on
/// failure `FromUtf8Error::into_bytes` hands back the bytes that were given.
#[verifier::external_body]
fn string_from_utf8(bytes: Vec<u8>) -> (r: Result<String, Vec<u8>>)
    ensures
        r is Ok <==> valid_utf8(bytes@),
        r matches Ok(s) ==> encode_utf8(s@) == bytes@,
        r matches Err(b) ==> b@ == bytes@,
{
    String::from_utf8(bytes).map_err(|e| e.into_bytes())
}

impl NetworkPayload {
    /// The bytes written to a byte-oriented transport (TCP, UDP, datagrams).
    pub fn into_bytes(self) -> (bytes: Vec<u8>)
        ensures
            bytes@ == payload_bytes(self@),
    {
        match self {
            NetworkPayload::Binary(b) => b,
            NetworkPayload::Text(t) => vstd::slice::slice_to_vec(t.as_str().as_bytes()),
        }
    }

    /// Classifies a received datagram: valid UTF-8 becomes text, anything else stays binary.
    pub fn from_datagram(bytes: Vec<u8>) -> (p: NetworkPayload)
        ensures
            p@ == datagram_payload(bytes@),
    {
        match string_from_utf8(bytes) {
            Ok(text) => {
                proof {
                    encode_utf8_decode_utf8(text@);
                }
                NetworkPayload::Text(text)
            },
            Err(raw) => NetworkPayload::Binary(raw),
        }
    }
}

/// A payload survives being written to a datagram and read back, except for
/// binary data that happens to be valid UTF-8, which reads back as text.
pub proof fn law_datagram_roundtrip(p: PayloadView)
    ensures
        datagram_payload(payload_bytes(p)) == p <==> !(p matches PayloadView::Binary(b) && valid_utf8(b)),
        p matches PayloadView::Binary(b) ==> (valid_utf8(b) ==> datagram_payload(payload_bytes(p))
            == PayloadView::Text(decode_utf8(b))),
{
    match p {
        PayloadView::Text(t) => {
            encode_utf8_valid_utf8(t);
            encode_utf8_decode_utf8(t);
        },
        PayloadView::Binary(b) => {},
    }
}

/// Reason for a message send failure.
#[derive(Debug)]
pub enum SendFailReason {
    /// `try_send` returned an error (channel full, already disconnected, etc.).
    ChannelError(String),
    /// The target entity no longer exists in the World.
    EntityNotFound,
}

/// Events sent from the network layer to the ECS layer.
pub enum NetworkEvent {
    /// A new client has established a connection.
    Connected { id: u64, sender: Sender<NetworkPayload> },
    /// A message was received from a client.
    Message { id: u64, payload: NetworkPayload },
    /// A client connection was closed.
    Disconnected { id: u64 },
}

/// The text of a failed `try_send` when the channel is full.
pub open spec fn channel_full_text() -> Seq<char> {
    "no available capacity"@
}

/// The text of a failed `try_send` when the receiving side is gone.
pub open spec fn channel_closed_text() -> Seq<char> {
    "channel closed"@
}

/// The sending side of a client's outbound channel, with a record of every
/// payload the channel has accepted through it.
pub struct ClientChannel {
    sender: Sender<NetworkPayload>,
    accepted: Ghost<Seq<PayloadView>>,
}

impl ClientChannel {
    /// The payloads accepted so far, oldest first.
    pub closed spec fn accepted(&self) -> Seq<PayloadView> {
        self.accepted@
    }

    /// Wraps a channel's sending side; nothing has been accepted through it yet.
    pub fn new(sender: Sender<NetworkPayload>) -> (c: Self)
        ensures
            c.accepted() == Seq::<PayloadView>::empty(),
    {
        ClientChannel { sender, accepted: Ghost(Seq::empty()) }
    }

    /// Calls `tokio::sync::mpsc::Sender::try_send` with `payload`. When tokio
    /// returns `Ok`, the channel has taken the payload (it is queued for the
    /// receiver); otherwise nothing is queued, tokio hands the payload back
    /// (`TrySendError::into_inner`), and the error's `Display` text is one of two
    /// fixed texts (full or closed). Which outcome comes back depends on the
    /// channel's state at the time of the call, so that is left unsaid.
    #[verifier::external_body]
    pub fn try_send(&mut self, payload: NetworkPayload) -> (r: Result<(), (String, NetworkPayload)>)
        ensures
            r is Ok ==> final(self).accepted() == old(self).accepted().push(payload@),
            r matches Err((m, p)) ==> final(self).accepted() == old(self).accepted() && p@ == payload@ && (m@
                == channel_full_text() || m@ == channel_closed_text()),
    {
        match self.sender.try_send(payload) {
            Ok(()) => Ok(()),
            Err(e) => {
                let text = e.to_string();
                Err((text, e.into_inner()))
            },
        }
    }
}

/// The failure reported for the outcome of a send attempt, with the refused payload.
pub fn send_failure(outcome: Result<(), (String, NetworkPayload)>) -> (r: Option<(SendFailReason, NetworkPayload)>)
    ensures
        outcome is Ok ==> r is None,
        outcome matches Err((msg, p)) ==> (r matches Some((SendFailReason::ChannelError(m), q)) && m@ == msg@
            && q@ == p@),
{
    match outcome {
        Ok(()) => None,
        Err((msg, p)) => Some((SendFailReason::ChannelError(msg), p)),
    }
}

/// Offers an outbound payload to a client's channel: either the channel takes
/// the caller's payload and nothing is reported, or it refuses it, takes
/// nothing, and the channel error is reported with the payload handed back.
pub fn deliver(channel: &mut ClientChannel, payload: NetworkPayload) -> (r: Option<(SendFailReason, NetworkPayload)>)
    ensures
        r is None ==> final(channel).accepted() == old(channel).accepted().push(payload@),
        r is Some ==> final(channel).accepted() == old(channel).accepted(),
        r is Some ==> (r matches Some((SendFailReason::ChannelError(m), p)) && p@ == payload@ && (m@
            == channel_full_text() || m@ == channel_closed_text())),
{
    send_failure(channel.try_send(payload))
}

/// A frame received on a WebSocket, as the read loop tells frames apart.
pub enum WsFrame {
    Text(String),
    Binary(Vec<u8>),
    /// A close frame.
    Close,
    /// Any other control frame (ping, pong, raw frame).
    Control,
}

/// What the last step of a WebSocket read loop produced.
pub enum WsReadEvent {
    /// A frame was received.
    Frame(WsFrame),
    /// The stream ended or failed.
    StreamEnded,
    /// The payload was handed to the ECS layer.
    Forwarded,
    /// The ECS layer no longer accepts events.
    ForwardFailed,
}

/// What a WebSocket read loop does next.
pub enum WsReadAction {
    /// Wait for the next frame.
    ReadFrame,
    /// Hand this payload to the ECS layer.
    Forward(NetworkPayload),
    /// Stop reading; the connection is then closed.
    Close,
}

/// Decides a WebSocket read loop's next action: text and binary frames are
/// forwarded as they are, control frames are skipped, and a close frame, the
/// end of the stream or a refused forward stops the loop.
pub fn ws_read_step(e: WsReadEvent) -> (a: WsReadAction)
    ensures
        e matches WsReadEvent::Frame(WsFrame::Text(t)) ==> (a matches WsReadAction::Forward(p) && p@ == PayloadView::Text(t@)),
        e matches WsReadEvent::Frame(WsFrame::Binary(b)) ==> (a matches WsReadAction::Forward(p) && p@ == PayloadView::Binary(b@)),
        e matches WsReadEvent::Frame(WsFrame::Close) ==> a is Close,
        e matches WsReadEvent::Frame(WsFrame::Control) ==> a is ReadFrame,
        e is StreamEnded ==> a is Close,
        e is Forwarded ==> a is ReadFrame,
        e is ForwardFailed ==> a is Close,
{
    match e {
        WsReadEvent::Frame(WsFrame::Text(t)) => WsReadAction::Forward(NetworkPayload::Text(t)),
        WsReadEvent::Frame(WsFrame::Binary(b)) => WsReadAction::Forward(NetworkPayload::Binary(b)),
        WsReadEvent::Frame(WsFrame::Close) => WsReadAction::Close,
        WsReadEvent::Frame(WsFrame::Control) => WsReadAction::ReadFrame,
        WsReadEvent::StreamEnded => WsReadAction::Close,
        WsReadEvent::Forwarded => WsReadAction::ReadFrame,
        WsReadEvent::ForwardFailed => WsReadAction::Close,
    }
}

} // verus!
