//! The length-framed stream transport: frames are a 4-byte big-endian
//! length followed by that many bytes of codec output. This module holds the
//! framing, a decoder that puts frames back together from reads of any size,
//! and the connection state; the sockets belong to whoever drives it.
use vstd::prelude::*;
use crate::bytes::{append_range, be_at, be_bytes, get_u32_be, lemma_le_round_trip, put_u32_be};
use crate::codec::{decoded_by, Serializer};
use crate::config::TcpConfig;
use crate::error::MessengerError;
use crate::message::{Message, MessageView};

verus! {

/// The frame holding `body`.
pub open spec fn frame_of(body: Seq<u8>) -> Seq<u8> {
    be_bytes(body.len() as u32) + body
}

/// Whether `body` may travel in one frame under a limit of `max` bytes.
pub open spec fn frame_fits(body: Seq<u8>, max: int) -> bool {
    body.len() <= max && body.len() <= u32::MAX
}

/// Frames `body`; fails with `MessageTooLarge(len, max)` when it is longer
/// than `max` or than a 4-byte length can state.
pub fn encode_frame(body: &[u8], max: usize) -> (r: Result<Vec<u8>, MessengerError>)
    ensures
        frame_fits(body@, max as int) ==> (r matches Ok(f) && f@ == frame_of(body@)),
        !frame_fits(body@, max as int) ==> r == Err::<Vec<u8>, MessengerError>(
            MessengerError::MessageTooLarge(body@.len() as usize, max),
        ),
{
    let len = body.len();
    if len > max || len as u64 > 0xffff_ffffu64 {
        return Err(MessengerError::MessageTooLarge(len, max));
    }
    let mut out: Vec<u8> = Vec::new();
    put_u32_be(&mut out, len as u32);
    append_range(&mut out, body, 0, len);
    assert(body@.subrange(0, len as int) =~= body@);
    Ok(out)
}

/// Reads a frame header: the body length, or `MessageTooLarge(len, max)`
/// when it exceeds `max`.
pub fn parse_frame_header(header: &[u8], max: usize) -> (r: Result<usize, MessengerError>)
    requires
        header@.len() >= 4,
    ensures
        be_at(header@, 0) <= max ==> r == Ok::<usize, MessengerError>(be_at(header@, 0) as usize),
        be_at(header@, 0) > max ==> r == Err::<usize, MessengerError>(
            MessengerError::MessageTooLarge(be_at(header@, 0) as usize, max),
        ),
{
    let len = get_u32_be(header, 0) as usize;
    if len > max {
        Err(MessengerError::MessageTooLarge(len, max))
    } else {
        Ok(len)
    }
}

/// What the decoder does with its buffer `b` under limit `max`: `None` while
/// a whole frame is not there yet, the body of the first frame once it is,
/// and an error when the first frame declares more than `max` bytes.
pub open spec fn next_frame_spec(b: Seq<u8>, max: int) -> Result<Option<Seq<u8>>, MessengerError> {
    if b.len() < 4 {
        Ok(None)
    } else if be_at(b, 0) > max {
        Err(MessengerError::MessageTooLarge(be_at(b, 0) as usize, max as usize))
    } else if b.len() < 4 + be_at(b, 0) {
        Ok(None)
    } else {
        Ok(Some(b.subrange(4, 4 + be_at(b, 0) as int)))
    }
}

/// Puts frames back together from reads of any size.
pub struct FrameDecoder {
    buf: Vec<u8>,
    max: usize,
}

impl FrameDecoder {
    /// Bytes read and not yet taken as a frame.
    pub closed spec fn buffered(&self) -> Seq<u8> {
        self.buf@
    }

    /// The largest frame body accepted.
    pub closed spec fn limit(&self) -> int {
        self.max as int
    }

    /// An empty decoder for bodies of at most `max` bytes.
    pub fn new(max: usize) -> (r: FrameDecoder)
        ensures
            r.buffered() == Seq::<u8>::empty(),
            r.limit() == max,
    {
        FrameDecoder { buf: Vec::new(), max }
    }

    /// Adds bytes that were read.
    pub fn push(&mut self, bytes: &[u8])
        ensures
            final(self).buffered() == old(self).buffered() + bytes@,
            final(self).limit() == old(self).limit(),
    {
        append_range(&mut self.buf, bytes, 0, bytes.len());
        assert(bytes@.subrange(0, bytes@.len() as int) =~= bytes@);
    }

    /// Takes the first whole frame out of the buffer; see `next_frame_spec`.
    pub fn next_frame(&mut self) -> (r: Result<Option<Vec<u8>>, MessengerError>)
        ensures
            final(self).limit() == old(self).limit(),
            match (r, next_frame_spec(old(self).buffered(), old(self).limit())) {
                (Ok(Some(f)), Ok(Some(g))) => f@ == g && final(self).buffered() == old(self).buffered().subrange(
                    4 + g.len() as int,
                    old(self).buffered().len() as int,
                ),
                (Ok(None), Ok(None)) => *final(self) == *old(self),
                (Err(e), Err(d)) => e == d && *final(self) == *old(self),
                _ => false,
            },
    {
        let n = self.buf.len();
        if n < 4 {
            return Ok(None);
        }
        let len = match parse_frame_header(self.buf.as_slice(), self.max) {
            Ok(l) => l,
            Err(e) => {
                return Err(e);
            },
        };
        if n - 4 < len {
            return Ok(None);
        }
        let mut body: Vec<u8> = Vec::new();
        append_range(&mut body, self.buf.as_slice(), 4, 4 + len);
        let mut rest: Vec<u8> = Vec::new();
        append_range(&mut rest, self.buf.as_slice(), 4 + len, n);
        self.buf = rest;
        Ok(Some(body))
    }

    /// Whether a frame was started and not finished.
    pub fn mid_frame(&self) -> (r: bool)
        ensures
            r == (self.buffered().len() > 0),
    {
        self.buf.len() > 0
    }

    /// Drops whatever was buffered.
    pub fn clear(&mut self)
        ensures
            final(self).buffered() == Seq::<u8>::empty(),
            final(self).limit() == old(self).limit(),
    {
        self.buf = Vec::new();
    }
}

/// A frame fed to a decoder comes out whole, with the bytes after it left
/// in the buffer.
pub proof fn lemma_frame_round_trip(body: Seq<u8>, rest: Seq<u8>, max: int)
    requires
        frame_fits(body, max),
    ensures
        next_frame_spec(frame_of(body) + rest, max) == Ok::<Option<Seq<u8>>, MessengerError>(Some(body)),
        (frame_of(body) + rest).subrange(4 + body.len() as int, (frame_of(body) + rest).len() as int) == rest,
{
    let b = frame_of(body) + rest;
    let l = be_bytes(body.len() as u32);
    lemma_le_round_trip(body.len() as u32);
    assert(b[0] == l[0] && b[1] == l[1] && b[2] == l[2] && b[3] == l[3]);
    assert(be_at(b, 0) == be_at(l, 0));
    assert(b.subrange(4, 4 + body.len() as int) =~= body);
    assert(b.subrange(4 + body.len() as int, b.len() as int) =~= rest);
}

/// Where a stream peer stands.
#[derive(Debug, Clone, Copy, PartialEq, Eq)]
pub enum StreamState {
    /// A listener that has not accepted a peer yet.
    Listening,
    /// A connection is established.
    Connected,
    /// The connection dropped; sends and receives fail until it is re-established.
    Disconnected,
    /// Closed for good.
    Closed,
}

/// Whether a peer accepted its connection or made it.
#[derive(Debug, Clone, Copy, PartialEq, Eq)]
pub enum StreamRole {
    Server,
    Client,
}

/// The state of one stream peer: its role, its connection state, the codec
/// and the decoder of incoming frames.
pub struct StreamSession<S> {
    role: StreamRole,
    state: StreamState,
    config: TcpConfig,
    serializer: S,
    decoder: FrameDecoder,
}

impl<S: Serializer> StreamSession<S> {
    pub closed spec fn role(&self) -> StreamRole {
        self.role
    }

    pub closed spec fn state(&self) -> StreamState {
        self.state
    }

    pub closed spec fn config(&self) -> TcpConfig {
        self.config
    }

    pub closed spec fn codec(&self) -> S {
        self.serializer
    }

    /// Bytes received and not yet taken as a frame.
    pub closed spec fn buffered(&self) -> Seq<u8> {
        self.decoder.buffered()
    }

    pub open spec fn max(&self) -> int {
        self.config().max_message_size as int
    }

    pub closed spec fn wf(&self) -> bool {
        self.decoder.limit() == self.config.max_message_size
    }

    /// The bytes to write for a message: on a connected peer, its encoding
    /// in one frame; `MessageTooLarge(len, max)` when the encoding is longer
    /// than the limit; a closed peer fails with `ChannelClosed`, another
    /// unconnected one with `TransportError`.
    pub open spec fn send_ensures(pre: Self, m: MessageView, r: Result<Vec<u8>, MessengerError>) -> bool {
        if pre.state() == StreamState::Closed {
            r matches Err(e) && e is ChannelClosed
        } else if pre.state() != StreamState::Connected {
            r matches Err(e) && e is TransportError
        } else {
            match pre.codec().spec_encode(m) {
                None => r matches Err(e) && e is Serialization,
                Some(b) => if frame_fits(b, pre.max()) {
                    r matches Ok(f) && f@ == frame_of(b)
                } else {
                    r == Err::<Vec<u8>, MessengerError>(
                        MessengerError::MessageTooLarge(b.len() as usize, pre.max() as usize),
                    )
                },
            }
        }
    }

    /// What taking the next message does: nothing while no whole frame is
    /// buffered; the decoded first frame once it is; and on a frame longer
    /// than the limit, the error and a disconnect, since the stream is out
    /// of step. An unconnected peer fails and stays as it is.
    pub open spec fn poll_ensures(pre: Self, post: Self, r: Result<Option<Message>, MessengerError>) -> bool {
        &&& post.role() == pre.role()
        &&& post.config() == pre.config()
        &&& post.codec() == pre.codec()
        &&& if pre.state() != StreamState::Connected {
            r is Err && post == pre
        } else {
            match next_frame_spec(pre.buffered(), pre.max()) {
                Ok(None) => r == Ok::<Option<Message>, MessengerError>(None) && post == pre,
                Ok(Some(body)) => {
                    &&& post.buffered() == pre.buffered().subrange(4 + body.len() as int, pre.buffered().len() as int)
                    &&& post.state() == StreamState::Connected
                    &&& match r {
                        Ok(Some(m)) => decoded_by(pre.codec(), body, Ok(m)),
                        Err(e) => decoded_by(pre.codec(), body, Err(e)),
                        Ok(None) => false,
                    }
                },
                Err(e) => r == Err::<Option<Message>, MessengerError>(e) && post.state() == StreamState::Disconnected
                    && post.buffered() == Seq::<u8>::empty(),
            }
        }
    }

    /// A listener bound to its endpoint, waiting to accept.
    pub fn new_server(config: TcpConfig, serializer: S) -> (r: Self)
        ensures
            r.wf(),
            r.role() == StreamRole::Server,
            r.state() == StreamState::Listening,
            r.config() == config,
            r.codec() == serializer,
            r.buffered() == Seq::<u8>::empty(),
    {
        let max = config.max_message_size;
        StreamSession { role: StreamRole::Server, state: StreamState::Listening, config, serializer, decoder: FrameDecoder::new(max) }
    }

    /// A client whose connection is established.
    pub fn new_client(config: TcpConfig, serializer: S) -> (r: Self)
        ensures
            r.wf(),
            r.role() == StreamRole::Client,
            r.state() == StreamState::Connected,
            r.config() == config,
            r.codec() == serializer,
            r.buffered() == Seq::<u8>::empty(),
    {
        let max = config.max_message_size;
        StreamSession { role: StreamRole::Client, state: StreamState::Connected, config, serializer, decoder: FrameDecoder::new(max) }
    }

    /// Whether an accept may start: only a listening server may accept, once.
    pub fn check_accept(&self) -> (r: Result<(), MessengerError>)
        ensures
            r is Ok <==> (self.role() == StreamRole::Server && self.state() == StreamState::Listening),
            r matches Err(e) ==> if self.state() == StreamState::Closed {
                e is ChannelClosed
            } else {
                e is TransportError
            },
    {
        match self.state {
            StreamState::Closed => Err(MessengerError::ChannelClosed),
            StreamState::Listening => match self.role {
                StreamRole::Server => Ok(()),
                StreamRole::Client => Err(MessengerError::TransportError("not a server".to_string())),
            },
            StreamState::Connected => Err(MessengerError::TransportError("a peer is already connected".to_string())),
            StreamState::Disconnected => Err(MessengerError::TransportError("not listening".to_string())),
        }
    }

    /// Whether a reconnect may start: anything but a closed peer may.
    pub fn check_reconnect(&self) -> (r: Result<(), MessengerError>)
        ensures
            r is Ok <==> self.state() != StreamState::Closed,
            r matches Err(e) ==> e is ChannelClosed,
    {
        match self.state {
            StreamState::Closed => Err(MessengerError::ChannelClosed),
            _ => Ok(()),
        }
    }

    /// A connection was established, by an accept or a reconnect; nothing
    /// from an earlier connection is kept.
    pub fn on_connected(&mut self)
        requires
            old(self).wf(),
        ensures
            final(self).wf(),
            final(self).state() == if old(self).state() == StreamState::Closed {
                StreamState::Closed
            } else {
                StreamState::Connected
            },
            final(self).role() == old(self).role(),
            final(self).config() == old(self).config(),
            final(self).codec() == old(self).codec(),
            final(self).buffered() == Seq::<u8>::empty(),
    {
        self.decoder.clear();
        match self.state {
            StreamState::Closed => {},
            _ => {
                self.state = StreamState::Connected;
            },
        }
    }

    /// The connection failed or ended. Returns the error to report: a
    /// `TransportError`, which says whether a frame was cut short.
    pub fn on_disconnect(&mut self) -> (e: MessengerError)
        requires
            old(self).wf(),
        ensures
            final(self).wf(),
            e is TransportError,
            final(self).state() == if old(self).state() == StreamState::Closed {
                StreamState::Closed
            } else {
                StreamState::Disconnected
            },
            final(self).role() == old(self).role(),
            final(self).config() == old(self).config(),
            final(self).codec() == old(self).codec(),
            final(self).buffered() == Seq::<u8>::empty(),
    {
        let cut = self.decoder.mid_frame();
        self.decoder.clear();
        match self.state {
            StreamState::Closed => {},
            _ => {
                self.state = StreamState::Disconnected;
            },
        }
        if cut {
            MessengerError::TransportError("connection lost inside a frame".to_string())
        } else {
            MessengerError::TransportError("connection lost".to_string())
        }
    }

    /// Whether a connection is established.
    pub fn is_ready(&self) -> (r: bool)
        ensures
            r == (self.state() == StreamState::Connected),
    {
        match self.state {
            StreamState::Connected => true,
            _ => false,
        }
    }

    /// The error for an operation that needs a connection, or none.
    fn check_connected(&self) -> (r: Result<(), MessengerError>)
        ensures
            r is Ok <==> self.state() == StreamState::Connected,
            r matches Err(e) ==> if self.state() == StreamState::Closed {
                e is ChannelClosed
            } else {
                e is TransportError
            },
    {
        match self.state {
            StreamState::Connected => Ok(()),
            StreamState::Closed => Err(MessengerError::ChannelClosed),
            _ => Err(MessengerError::TransportError("not connected".to_string())),
        }
    }

    /// The bytes to write for `msg`: its encoding in one frame. Fails when
    /// not connected, when the codec cannot encode it, or with
    /// `MessageTooLarge(len, max)` when its encoding is longer than the limit.
    pub fn prepare_send(&self, msg: &Message) -> (r: Result<Vec<u8>, MessengerError>)
        ensures
            Self::send_ensures(*self, msg@, r),
    {
        match self.check_connected() {
            Ok(()) => {},
            Err(e) => {
                return Err(e);
            },
        }
        let body = match self.serializer.serialize(msg) {
            Ok(b) => b,
            Err(e) => {
                return Err(e);
            },
        };
        encode_frame(body.as_slice(), self.config.max_message_size)
    }

    /// Hands over bytes that were read from the connection.
    pub fn on_bytes(&mut self, bytes: &[u8])
        requires
            old(self).wf(),
        ensures
            final(self).wf(),
            final(self).buffered() == old(self).buffered() + bytes@,
            final(self).state() == old(self).state(),
            final(self).role() == old(self).role(),
            final(self).config() == old(self).config(),
            final(self).codec() == old(self).codec(),
    {
        self.decoder.push(bytes);
    }

    /// Takes the next message out of what was read: `Ok(None)` while no
    /// whole frame is there. A frame longer than the limit puts the stream
    /// out of step: the peer is disconnected and `MessageTooLarge` returned.
    pub fn poll_message(&mut self) -> (r: Result<Option<Message>, MessengerError>)
        requires
            old(self).wf(),
        ensures
            final(self).wf(),
            Self::poll_ensures(*old(self), *final(self), r),
    {
        match self.check_connected() {
            Ok(()) => {},
            Err(e) => {
                return Err(e);
            },
        }
        match self.decoder.next_frame() {
            Ok(None) => Ok(None),
            Ok(Some(body)) => match self.serializer.deserialize(body.as_slice()) {
                Ok(m) => Ok(Some(m)),
                Err(e) => Err(e),
            },
            Err(e) => {
                self.decoder.clear();
                self.state = StreamState::Disconnected;
                Err(e)
            },
        }
    }

    /// Closes the peer for good.
    pub fn close(&mut self)
        requires
            old(self).wf(),
        ensures
            final(self).wf(),
            final(self).state() == StreamState::Closed,
            final(self).buffered() == Seq::<u8>::empty(),
            final(self).role() == old(self).role(),
            final(self).config() == old(self).config(),
            final(self).codec() == old(self).codec(),
    {
        self.decoder.clear();
        self.state = StreamState::Closed;
    }

    /// The largest frame body accepted, as configured.
    pub fn max_message_size(&self) -> (r: usize)
        ensures
            r == self.max(),
    {
        self.config.max_message_size
    }

    /// The connection state.
    pub fn current_state(&self) -> (r: StreamState)
        ensures
            r == self.state(),
    {
        self.state
    }
}

/// Between connected stream peers with the same codec and limit, a message
/// that the codec can encode within the limit, framed by the sender and
/// handed whole to a receiver with nothing buffered, is received as that
/// message.
pub proof fn lemma_stream_send_receive<S: Serializer>(
    sender: StreamSession<S>,
    m: MessageView,
    sent: Result<Vec<u8>, MessengerError>,
    receiver: StreamSession<S>,
    fed: StreamSession<S>,
    post: StreamSession<S>,
    received: Result<Option<Message>, MessengerError>,
)
    requires
        sender.state() == StreamState::Connected,
        receiver.state() == StreamState::Connected,
        receiver.codec() == sender.codec(),
        receiver.max() == sender.max(),
        receiver.buffered() == Seq::<u8>::empty(),
        sender.codec().spec_encode(m) matches Some(b) && frame_fits(b, sender.max()),
        StreamSession::send_ensures(sender, m, sent),
        sent is Ok,
        fed.buffered() == receiver.buffered() + sent->Ok_0@,
        fed.state() == receiver.state(),
        fed.codec() == receiver.codec(),
        fed.config() == receiver.config(),
        StreamSession::poll_ensures(fed, post, received),
    ensures
        received matches Ok(Some(x)) && x@ == m,
{
    let b = sender.codec().spec_encode(m)->Some_0;
    lemma_frame_round_trip(b, Seq::empty(), sender.max());
    assert(fed.buffered() =~= frame_of(b) + Seq::empty());
}

} // verus!
