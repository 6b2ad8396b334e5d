use vstd::prelude::*;
use crate::bytes::{be_u32, lemma_be_u32, u32_of_be};
use crate::decoder::{Cursor, Decoder};
use crate::encoder::{push_all, Encoder};
use crate::errors::{DecodeError, EncodeError};
use crate::frame::frame_wire;
use crate::messages::{
    AuthenticationRequest, AuthenticationRequestView, AuthenticationResponse,
    AuthenticationResponseView, KeepAliveRequest, KeepAliveRequestView, KeepAliveResponse,
    KeepAliveResponseView, ReceiveFromStream, lemma_authentication_request_round_trip,
    lemma_authentication_response_round_trip, lemma_keep_alive_request_round_trip,
    lemma_keep_alive_response_round_trip, SystemPacket, AUTHENTICATION_REQUEST_TAG,
    AUTHENTICATION_RESPONSE_TAG, KEEP_ALIVE_REQUEST_TAG, KEEP_ALIVE_RESPONSE_TAG,
};

verus! {

/// What one read of a frame yields.
#[derive(Clone, Debug)]
pub enum Incoming<P> {
    /// A frame whose tag and payload made a message.
    Packet(P),
    /// A frame whose tag names no message in this direction.
    Invalid(u8),
    /// A zero length: the peer has closed the connection.
    Closed,
}

impl<P: DeepView> DeepView for Incoming<P> {
    type V = Incoming<P::V>;

    open spec fn deep_view(&self) -> Incoming<P::V> {
        match self {
            Incoming::Packet(p) => Incoming::Packet(p.deep_view()),
            Incoming::Invalid(t) => Incoming::Invalid(*t),
            Incoming::Closed => Incoming::Closed,
        }
    }
}

/// Splits the frame at the front of `data` into its tag and payload; `None` for a zero length.
pub open spec fn split_frame(data: Seq<u8>) -> Result<Option<(u8, Seq<u8>)>, DecodeError> {
    if data.len() < 4 {
        Err(DecodeError::IO)
    } else {
        let l = u32_of_be(data);
        if l == 0 {
            Ok(None)
        } else if data.len() - 4 < l {
            Err(DecodeError::IO)
        } else {
            Ok(Some((data[4], data.subrange(5, 4 + l))))
        }
    }
}

/// The bytes the frame at the front of `data` takes, length prefix included.
pub open spec fn frame_size(data: Seq<u8>) -> nat {
    (4 + u32_of_be(data)) as nat
}

/// Reads one frame's length, tag and payload.
pub fn read_frame_parts(reader: &mut Cursor) -> (r: Result<Option<(u8, Vec<u8>)>, DecodeError>)
    requires
        old(reader).wf(),
    ensures
        final(reader).wf(),
        final(reader).data == old(reader).data,
        match split_frame(old(reader).rest()) {
            Ok(None) => r == Ok::<Option<(u8, Vec<u8>)>, DecodeError>(None) && final(reader).pos
                == old(reader).pos + 4,
            Ok(Some((tag, payload))) => r matches Ok(Some((t, p))) && t == tag && p@ == payload
                && final(reader).pos == old(reader).pos + frame_size(old(reader).rest()),
            Err(e) => r == Err::<Option<(u8, Vec<u8>)>, DecodeError>(e),
        },
{
    let len = match u32::decode(reader) {
        Ok(n) => n,
        Err(e) => return Err(e),
    };
    if len == 0 {
        return Ok(None);
    }
    let ghost d = old(reader).rest();
    assert(reader.rest() =~= d.skip(4));
    let body = match reader.read_bytes(len as usize) {
        Ok(b) => b,
        Err(e) => return Err(e),
    };
    let tag = body[0];
    let mut payload: Vec<u8> = Vec::new();
    push_all(&mut payload, &body.as_slice()[1..body.len()]);
    assert(payload@ =~= d.subrange(5, 4 + len));
    Ok(Some((tag, payload)))
}

// ---------------------------------------------------------------- server to client
/// Kinds of message the server sends, with a sentinel for an unknown tag.
#[derive(Clone, Copy, Debug, PartialEq, Eq, Structural)]
pub enum ServerMessageType {
    AuthenticationRequest,
    KeepAliveRequest,
    InvalidEvent,
}

pub open spec fn server_type_of(tag: u8) -> ServerMessageType {
    if tag == AUTHENTICATION_REQUEST_TAG {
        ServerMessageType::AuthenticationRequest
    } else if tag == KEEP_ALIVE_REQUEST_TAG {
        ServerMessageType::KeepAliveRequest
    } else {
        ServerMessageType::InvalidEvent
    }
}

impl ServerMessageType {
    /// The kind of server message that `tag` names; `InvalidEvent` when it names none.
    pub fn from_tag(tag: u8) -> (r: ServerMessageType)
        ensures
            r == server_type_of(tag),
    {
        if tag == AUTHENTICATION_REQUEST_TAG {
            ServerMessageType::AuthenticationRequest
        } else if tag == KEEP_ALIVE_REQUEST_TAG {
            ServerMessageType::KeepAliveRequest
        } else {
            ServerMessageType::InvalidEvent
        }
    }

    /// Reads one tag byte and resolves it; `IO` when no byte is left.
    pub fn from(cursor: &mut Cursor) -> (r: Result<ServerMessageType, DecodeError>)
        requires
            old(cursor).wf(),
        ensures
            final(cursor).wf(),
            final(cursor).data == old(cursor).data,
            old(cursor).rest().len() == 0 ==> r == Err::<ServerMessageType, DecodeError>(
                DecodeError::IO,
            ),
            old(cursor).rest().len() > 0 ==> r == Ok::<ServerMessageType, DecodeError>(
                server_type_of(old(cursor).rest()[0]),
            ) && final(cursor).pos == old(cursor).pos + 1,
    {
        match u8::decode(cursor) {
            Ok(tag) => Ok(Self::from_tag(tag)),
            Err(e) => Err(e),
        }
    }
}

/// A message the server sends.
#[derive(Clone, Debug)]
pub enum ServerPackets {
    AuthenticationRequest(AuthenticationRequest),
    KeepAliveRequest(KeepAliveRequest),
}

/// What a `ServerPackets` value holds, as mathematical values.
pub enum ServerPacketView {
    AuthenticationRequest(AuthenticationRequestView),
    KeepAliveRequest(KeepAliveRequestView),
}

impl DeepView for ServerPackets {
    type V = ServerPacketView;

    open spec fn deep_view(&self) -> ServerPacketView {
        match self {
            ServerPackets::AuthenticationRequest(m) => ServerPacketView::AuthenticationRequest(
                m.deep_view(),
            ),
            ServerPackets::KeepAliveRequest(m) => ServerPacketView::KeepAliveRequest(m.deep_view()),
        }
    }
}

/// The frame for a server message.
pub open spec fn server_frame(v: ServerPacketView) -> Seq<u8> {
    match v {
        ServerPacketView::AuthenticationRequest(m) => frame_wire(
            AUTHENTICATION_REQUEST_TAG,
            AuthenticationRequest::spec_encode(m),
        ),
        ServerPacketView::KeepAliveRequest(m) => frame_wire(
            KEEP_ALIVE_REQUEST_TAG,
            KeepAliveRequest::spec_encode(m),
        ),
    }
}

/// Whether a server message's frame can be written: its lengths fit their prefixes.
pub open spec fn server_framable(v: ServerPacketView) -> bool {
    match v {
        ServerPacketView::AuthenticationRequest(m) => AuthenticationRequest::spec_encodable(m)
            && AuthenticationRequest::spec_encode(m).len() + 1 <= u32::MAX,
        ServerPacketView::KeepAliveRequest(m) => true,
    }
}

/// The message a server frame's tag and payload make.
pub open spec fn server_payload(tag: u8, payload: Seq<u8>) -> Result<
    Incoming<ServerPacketView>,
    DecodeError,
> {
    match server_type_of(tag) {
        ServerMessageType::AuthenticationRequest => match AuthenticationRequest::spec_decode(
            payload,
        ) {
            Ok((m, _)) => Ok(Incoming::Packet(ServerPacketView::AuthenticationRequest(m))),
            Err(e) => Err(e),
        },
        ServerMessageType::KeepAliveRequest => match KeepAliveRequest::spec_decode(payload) {
            Ok((m, _)) => Ok(Incoming::Packet(ServerPacketView::KeepAliveRequest(m))),
            Err(e) => Err(e),
        },
        ServerMessageType::InvalidEvent => Ok(Incoming::Invalid(tag)),
    }
}

/// What reading a server frame from the front of `data` yields.
pub open spec fn read_server_frame(data: Seq<u8>) -> Result<Incoming<ServerPacketView>, DecodeError> {
    match split_frame(data) {
        Ok(None) => Ok(Incoming::Closed),
        Ok(Some((tag, payload))) => server_payload(tag, payload),
        Err(e) => Err(e),
    }
}

impl ServerPackets {
    /// The frame for this message.
    pub fn to_bytes(&self) -> (r: Result<Vec<u8>, EncodeError>)
        ensures
            r is Ok <==> server_framable(self.deep_view()),
            r matches Ok(b) ==> b@ == server_frame(self.deep_view()),
            r is Err ==> r->Err_0 == EncodeError::TryFromInt,
    {
        match self {
            ServerPackets::AuthenticationRequest(m) => m.to_bytes(),
            ServerPackets::KeepAliveRequest(m) => m.to_bytes(),
        }
    }

    /// The frames of `packets`, one after the other in order; fails when any of them cannot be
    /// framed.
    pub fn encode_batch(packets: &Vec<ServerPackets>) -> (r: Result<Vec<u8>, EncodeError>)
        ensures
            r is Ok <==> forall|k: int|
                0 <= k < packets@.len() ==> #[trigger] server_framable(packets@[k].deep_view()),
            r matches Ok(b) ==> b@ == server_stream(packets.deep_view()),
            r is Err ==> r->Err_0 == EncodeError::TryFromInt,
    {
        let ghost vs = packets.deep_view();
        let mut out: Vec<u8> = Vec::new();
        let mut i: usize = 0;
        while i < packets.len()
            invariant
                i <= packets@.len(),
                vs == packets.deep_view(),
                forall|k: int| 0 <= k < i ==> #[trigger] server_framable(packets@[k].deep_view()),
                out@ == server_stream(vs.subrange(0, i as int)),
            decreases packets@.len() - i,
        {
            let frame = match packets[i].to_bytes() {
                Ok(f) => f,
                Err(e) => return Err(e),
            };
            push_all(&mut out, frame.as_slice());
            assert(vs.subrange(0, i + 1).drop_last() =~= vs.subrange(0, i as int));
            i = i + 1;
        }
        assert(vs.subrange(0, i as int) =~= vs);
        Ok(out)
    }

    /// Reads one frame sent by the server. An unknown tag gives `Incoming::Invalid`, a zero
    /// length gives `Incoming::Closed`.
    pub fn read_frame(reader: &mut Cursor) -> (r: Result<Incoming<ServerPackets>, DecodeError>)
        requires
            old(reader).wf(),
        ensures
            final(reader).wf(),
            final(reader).data == old(reader).data,
            match read_server_frame(old(reader).rest()) {
                Ok(v) => r is Ok && r->Ok_0.deep_view() == v,
                Err(e) => r == Err::<Incoming<ServerPackets>, DecodeError>(e),
            },
    {
        let (tag, payload) = match read_frame_parts(reader) {
            Ok(Some(parts)) => parts,
            Ok(None) => return Ok(Incoming::Closed),
            Err(e) => return Err(e),
        };
        match ServerMessageType::from_tag(tag) {
            ServerMessageType::AuthenticationRequest => match AuthenticationRequest::from_bytes(
                payload.as_slice(),
            ) {
                Ok(m) => Ok(Incoming::Packet(ServerPackets::AuthenticationRequest(m))),
                Err(e) => Err(e),
            },
            ServerMessageType::KeepAliveRequest => match KeepAliveRequest::from_bytes(
                payload.as_slice(),
            ) {
                Ok(m) => Ok(Incoming::Packet(ServerPackets::KeepAliveRequest(m))),
                Err(e) => Err(e),
            },
            ServerMessageType::InvalidEvent => Ok(Incoming::Invalid(tag)),
        }
    }
}

// ---------------------------------------------------------------- client to server
/// Kinds of message the client sends, with a sentinel for an unknown tag.
#[derive(Clone, Copy, Debug, PartialEq, Eq, Structural)]
pub enum ClientMessageType {
    AuthenticationResponse,
    KeepAliveResponse,
    InvalidEvent,
}

pub open spec fn client_type_of(tag: u8) -> ClientMessageType {
    if tag == AUTHENTICATION_RESPONSE_TAG {
        ClientMessageType::AuthenticationResponse
    } else if tag == KEEP_ALIVE_RESPONSE_TAG {
        ClientMessageType::KeepAliveResponse
    } else {
        ClientMessageType::InvalidEvent
    }
}

impl ClientMessageType {
    /// The kind of client message that `tag` names; `InvalidEvent` when it names none.
    pub fn from_tag(tag: u8) -> (r: ClientMessageType)
        ensures
            r == client_type_of(tag),
    {
        if tag == AUTHENTICATION_RESPONSE_TAG {
            ClientMessageType::AuthenticationResponse
        } else if tag == KEEP_ALIVE_RESPONSE_TAG {
            ClientMessageType::KeepAliveResponse
        } else {
            ClientMessageType::InvalidEvent
        }
    }

    /// Reads one tag byte and resolves it; `IO` when no byte is left.
    pub fn from(cursor: &mut Cursor) -> (r: Result<ClientMessageType, DecodeError>)
        requires
            old(cursor).wf(),
        ensures
            final(cursor).wf(),
            final(cursor).data == old(cursor).data,
            old(cursor).rest().len() == 0 ==> r == Err::<ClientMessageType, DecodeError>(
                DecodeError::IO,
            ),
            old(cursor).rest().len() > 0 ==> r == Ok::<ClientMessageType, DecodeError>(
                client_type_of(old(cursor).rest()[0]),
            ) && final(cursor).pos == old(cursor).pos + 1,
    {
        match u8::decode(cursor) {
            Ok(tag) => Ok(Self::from_tag(tag)),
            Err(e) => Err(e),
        }
    }
}

/// A message the client sends.
#[derive(Clone, Debug)]
pub enum ClientPackets {
    AuthenticationResponse(AuthenticationResponse),
    KeepAliveResponse(KeepAliveResponse),
}

/// What a `ClientPackets` value holds, as mathematical values.
pub enum ClientPacketView {
    AuthenticationResponse(AuthenticationResponseView),
    KeepAliveResponse(KeepAliveResponseView),
}

impl DeepView for ClientPackets {
    type V = ClientPacketView;

    open spec fn deep_view(&self) -> ClientPacketView {
        match self {
            ClientPackets::AuthenticationResponse(m) => ClientPacketView::AuthenticationResponse(
                m.deep_view(),
            ),
            ClientPackets::KeepAliveResponse(m) => ClientPacketView::KeepAliveResponse(m.deep_view()),
        }
    }
}

/// The frame for a client message.
pub open spec fn client_frame(v: ClientPacketView) -> Seq<u8> {
    match v {
        ClientPacketView::AuthenticationResponse(m) => frame_wire(
            AUTHENTICATION_RESPONSE_TAG,
            AuthenticationResponse::spec_encode(m),
        ),
        ClientPacketView::KeepAliveResponse(m) => frame_wire(
            KEEP_ALIVE_RESPONSE_TAG,
            KeepAliveResponse::spec_encode(m),
        ),
    }
}

/// Whether a client message's frame can be written: its lengths fit their prefixes.
pub open spec fn client_framable(v: ClientPacketView) -> bool {
    match v {
        ClientPacketView::AuthenticationResponse(m) => AuthenticationResponse::spec_encodable(m)
            && AuthenticationResponse::spec_encode(m).len() + 1 <= u32::MAX,
        ClientPacketView::KeepAliveResponse(m) => true,
    }
}

/// The message a client frame's tag and payload make.
pub open spec fn client_payload(tag: u8, payload: Seq<u8>) -> Result<
    Incoming<ClientPacketView>,
    DecodeError,
> {
    match client_type_of(tag) {
        ClientMessageType::AuthenticationResponse => match AuthenticationResponse::spec_decode(
            payload,
        ) {
            Ok((m, _)) => Ok(Incoming::Packet(ClientPacketView::AuthenticationResponse(m))),
            Err(e) => Err(e),
        },
        ClientMessageType::KeepAliveResponse => match KeepAliveResponse::spec_decode(payload) {
            Ok((m, _)) => Ok(Incoming::Packet(ClientPacketView::KeepAliveResponse(m))),
            Err(e) => Err(e),
        },
        ClientMessageType::InvalidEvent => Ok(Incoming::Invalid(tag)),
    }
}

/// What reading a client frame from the front of `data` yields.
pub open spec fn read_client_frame(data: Seq<u8>) -> Result<Incoming<ClientPacketView>, DecodeError> {
    match split_frame(data) {
        Ok(None) => Ok(Incoming::Closed),
        Ok(Some((tag, payload))) => client_payload(tag, payload),
        Err(e) => Err(e),
    }
}

impl ClientPackets {
    /// The frame for this message.
    pub fn to_bytes(&self) -> (r: Result<Vec<u8>, EncodeError>)
        ensures
            r is Ok <==> client_framable(self.deep_view()),
            r matches Ok(b) ==> b@ == client_frame(self.deep_view()),
            r is Err ==> r->Err_0 == EncodeError::TryFromInt,
    {
        match self {
            ClientPackets::AuthenticationResponse(m) => m.to_bytes(),
            ClientPackets::KeepAliveResponse(m) => m.to_bytes(),
        }
    }

    /// The frames of `packets`, one after the other in order; fails when any of them cannot be
    /// framed.
    pub fn encode_batch(packets: &Vec<ClientPackets>) -> (r: Result<Vec<u8>, EncodeError>)
        ensures
            r is Ok <==> forall|k: int|
                0 <= k < packets@.len() ==> #[trigger] client_framable(packets@[k].deep_view()),
            r matches Ok(b) ==> b@ == client_stream(packets.deep_view()),
            r is Err ==> r->Err_0 == EncodeError::TryFromInt,
    {
        let ghost vs = packets.deep_view();
        let mut out: Vec<u8> = Vec::new();
        let mut i: usize = 0;
        while i < packets.len()
            invariant
                i <= packets@.len(),
                vs == packets.deep_view(),
                forall|k: int| 0 <= k < i ==> #[trigger] client_framable(packets@[k].deep_view()),
                out@ == client_stream(vs.subrange(0, i as int)),
            decreases packets@.len() - i,
        {
            let frame = match packets[i].to_bytes() {
                Ok(f) => f,
                Err(e) => return Err(e),
            };
            push_all(&mut out, frame.as_slice());
            assert(vs.subrange(0, i + 1).drop_last() =~= vs.subrange(0, i as int));
            i = i + 1;
        }
        assert(vs.subrange(0, i as int) =~= vs);
        Ok(out)
    }

    /// Reads one frame sent by the client. An unknown tag gives `Incoming::Invalid`, a zero
    /// length gives `Incoming::Closed`.
    pub fn read_frame(reader: &mut Cursor) -> (r: Result<Incoming<ClientPackets>, DecodeError>)
        requires
            old(reader).wf(),
        ensures
            final(reader).wf(),
            final(reader).data == old(reader).data,
            match read_client_frame(old(reader).rest()) {
                Ok(v) => r is Ok && r->Ok_0.deep_view() == v,
                Err(e) => r == Err::<Incoming<ClientPackets>, DecodeError>(e),
            },
    {
        let (tag, payload) = match read_frame_parts(reader) {
            Ok(Some(parts)) => parts,
            Ok(None) => return Ok(Incoming::Closed),
            Err(e) => return Err(e),
        };
        match ClientMessageType::from_tag(tag) {
            ClientMessageType::AuthenticationResponse => match AuthenticationResponse::from_bytes(
                payload.as_slice(),
            ) {
                Ok(m) => Ok(Incoming::Packet(ClientPackets::AuthenticationResponse(m))),
                Err(e) => Err(e),
            },
            ClientMessageType::KeepAliveResponse => match KeepAliveResponse::from_bytes(
                payload.as_slice(),
            ) {
                Ok(m) => Ok(Incoming::Packet(ClientPackets::KeepAliveResponse(m))),
                Err(e) => Err(e),
            },
            ClientMessageType::InvalidEvent => Ok(Incoming::Invalid(tag)),
        }
    }
}

// ---------------------------------------------------------------- laws of framing
/// A frame splits back into the tag and payload it was built from, whatever follows it.
pub proof fn lemma_split_frame(tag: u8, payload: Seq<u8>, rest: Seq<u8>)
    requires
        payload.len() + 1 <= u32::MAX,
    ensures
        split_frame(frame_wire(tag, payload) + rest) == Ok::<Option<(u8, Seq<u8>)>, DecodeError>(
            Some((tag, payload)),
        ),
        frame_size(frame_wire(tag, payload) + rest) == frame_wire(tag, payload).len(),
{
    let l = (payload.len() + 1) as u32;
    let d = frame_wire(tag, payload) + rest;
    assert(d =~= be_u32(l) + (seq![tag] + payload + rest));
    lemma_be_u32(l, seq![tag] + payload + rest);
    assert(d.subrange(5, 4 + l) =~= payload);
}

/// A frame cut short anywhere after its first byte and before its last fails with `IO`.
pub proof fn lemma_truncated_frame(tag: u8, payload: Seq<u8>, k: int)
    requires
        payload.len() + 1 <= u32::MAX,
        0 < k < frame_wire(tag, payload).len(),
    ensures
        split_frame(frame_wire(tag, payload).take(k)) == Err::<Option<(u8, Seq<u8>)>, DecodeError>(
            DecodeError::IO,
        ),
{
    let f = frame_wire(tag, payload);
    let t = f.take(k);
    if k >= 4 {
        let l = (payload.len() + 1) as u32;
        assert(t =~= be_u32(l) + t.skip(4));
        lemma_be_u32(l, t.skip(4));
    }
}

/// Every server message reads back from its frame as itself, whatever follows the frame.
pub proof fn lemma_server_frame_round_trip(v: ServerPacketView, rest: Seq<u8>)
    requires
        server_framable(v),
    ensures
        read_server_frame(server_frame(v) + rest) == Ok::<Incoming<ServerPacketView>, DecodeError>(
            Incoming::Packet(v),
        ),
        frame_size(server_frame(v) + rest) == server_frame(v).len(),
{
    match v {
        ServerPacketView::AuthenticationRequest(m) => {
            let p = AuthenticationRequest::spec_encode(m);
            lemma_split_frame(AUTHENTICATION_REQUEST_TAG, p, rest);
            lemma_authentication_request_round_trip(m, seq![]);
            assert(p + seq![] =~= p);
        },
        ServerPacketView::KeepAliveRequest(m) => {
            let p = KeepAliveRequest::spec_encode(m);
            lemma_split_frame(KEEP_ALIVE_REQUEST_TAG, p, rest);
            lemma_keep_alive_request_round_trip(m, seq![]);
            assert(p + seq![] =~= p);
        },
    }
}

/// Every client message reads back from its frame as itself, whatever follows the frame.
pub proof fn lemma_client_frame_round_trip(v: ClientPacketView, rest: Seq<u8>)
    requires
        client_framable(v),
    ensures
        read_client_frame(client_frame(v) + rest) == Ok::<Incoming<ClientPacketView>, DecodeError>(
            Incoming::Packet(v),
        ),
        frame_size(client_frame(v) + rest) == client_frame(v).len(),
{
    match v {
        ClientPacketView::AuthenticationResponse(m) => {
            let p = AuthenticationResponse::spec_encode(m);
            lemma_split_frame(AUTHENTICATION_RESPONSE_TAG, p, rest);
            lemma_authentication_response_round_trip(m, seq![]);
            assert(p + seq![] =~= p);
        },
        ClientPacketView::KeepAliveResponse(m) => {
            let p = KeepAliveResponse::spec_encode(m);
            lemma_split_frame(KEEP_ALIVE_RESPONSE_TAG, p, rest);
            lemma_keep_alive_response_round_trip(m, seq![]);
            assert(p + seq![] =~= p);
        },
    }
}

/// A server frame cut short at any point strictly inside it fails with `IO`.
pub proof fn lemma_server_frame_truncated(v: ServerPacketView, k: int)
    requires
        server_framable(v),
        0 < k < server_frame(v).len(),
    ensures
        read_server_frame(server_frame(v).take(k)) == Err::<Incoming<ServerPacketView>, DecodeError>(
            DecodeError::IO,
        ),
{
    match v {
        ServerPacketView::AuthenticationRequest(m) => lemma_truncated_frame(
            AUTHENTICATION_REQUEST_TAG,
            AuthenticationRequest::spec_encode(m),
            k,
        ),
        ServerPacketView::KeepAliveRequest(m) => lemma_truncated_frame(
            KEEP_ALIVE_REQUEST_TAG,
            KeepAliveRequest::spec_encode(m),
            k,
        ),
    }
}

/// A client frame cut short at any point strictly inside it fails with `IO`.
pub proof fn lemma_client_frame_truncated(v: ClientPacketView, k: int)
    requires
        client_framable(v),
        0 < k < client_frame(v).len(),
    ensures
        read_client_frame(client_frame(v).take(k)) == Err::<Incoming<ClientPacketView>, DecodeError>(
            DecodeError::IO,
        ),
{
    match v {
        ClientPacketView::AuthenticationResponse(m) => lemma_truncated_frame(
            AUTHENTICATION_RESPONSE_TAG,
            AuthenticationResponse::spec_encode(m),
            k,
        ),
        ClientPacketView::KeepAliveResponse(m) => lemma_truncated_frame(
            KEEP_ALIVE_RESPONSE_TAG,
            KeepAliveResponse::spec_encode(m),
            k,
        ),
    }
}

/// A well-formed frame whose tag names no server message reads as `Invalid` with that tag,
/// whatever its payload.
pub proof fn lemma_server_unknown_tag(tag: u8, payload: Seq<u8>, rest: Seq<u8>)
    requires
        tag != AUTHENTICATION_REQUEST_TAG,
        tag != KEEP_ALIVE_REQUEST_TAG,
        payload.len() + 1 <= u32::MAX,
    ensures
        read_server_frame(frame_wire(tag, payload) + rest) == Ok::<
            Incoming<ServerPacketView>,
            DecodeError,
        >(Incoming::Invalid(tag)),
{
    lemma_split_frame(tag, payload, rest);
}

/// A well-formed frame whose tag names no client message reads as `Invalid` with that tag,
/// whatever its payload.
pub proof fn lemma_client_unknown_tag(tag: u8, payload: Seq<u8>, rest: Seq<u8>)
    requires
        tag != AUTHENTICATION_RESPONSE_TAG,
        tag != KEEP_ALIVE_RESPONSE_TAG,
        payload.len() + 1 <= u32::MAX,
    ensures
        read_client_frame(frame_wire(tag, payload) + rest) == Ok::<
            Incoming<ClientPacketView>,
            DecodeError,
        >(Incoming::Invalid(tag)),
{
    lemma_split_frame(tag, payload, rest);
}

/// The bytes for a run of server messages: each one's frame, in order.
pub open spec fn server_stream(vs: Seq<ServerPacketView>) -> Seq<u8>
    decreases vs.len(),
{
    if vs.len() == 0 {
        seq![]
    } else {
        server_stream(vs.drop_last()) + server_frame(vs.last())
    }
}

/// The bytes for a run of client messages: each one's frame, in order.
pub open spec fn client_stream(vs: Seq<ClientPacketView>) -> Seq<u8>
    decreases vs.len(),
{
    if vs.len() == 0 {
        seq![]
    } else {
        client_stream(vs.drop_last()) + client_frame(vs.last())
    }
}

/// Framing carries nothing from one message to the next: the bytes for two runs sent one
/// after the other are the bytes for each run, concatenated.
pub proof fn lemma_server_stream_concat(a: Seq<ServerPacketView>, b: Seq<ServerPacketView>)
    ensures
        server_stream(a + b) == server_stream(a) + server_stream(b),
    decreases b.len(),
{
    if b.len() == 0 {
        assert(a + b =~= a);
        assert(server_stream(a) + seq![] =~= server_stream(a));
    } else {
        assert((a + b).drop_last() =~= a + b.drop_last());
        assert((a + b).last() == b.last());
        lemma_server_stream_concat(a, b.drop_last());
        assert(server_stream(a + b) =~= server_stream(a) + server_stream(b));
    }
}

/// The same for client messages.
pub proof fn lemma_client_stream_concat(a: Seq<ClientPacketView>, b: Seq<ClientPacketView>)
    ensures
        client_stream(a + b) == client_stream(a) + client_stream(b),
    decreases b.len(),
{
    if b.len() == 0 {
        assert(a + b =~= a);
        assert(client_stream(a) + seq![] =~= client_stream(a));
    } else {
        assert((a + b).drop_last() =~= a + b.drop_last());
        assert((a + b).last() == b.last());
        lemma_client_stream_concat(a, b.drop_last());
        assert(client_stream(a + b) =~= client_stream(a) + client_stream(b));
    }
}

} // verus!
