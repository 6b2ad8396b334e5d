use vstd::prelude::*;
use crate::decoder::{
    lemma_i64_round_trip, lemma_string_round_trip, parse_string, Cursor, Decoder,
};
use crate::encoder::{string_fits, string_wire, Encoder};
use crate::errors::{DecodeError, EncodeError};
use crate::frame::{frame_wire, prepare_response};
use crate::types::{fits_prefix, Hwid, HwidView};

verus! {

/// Tag of `AuthenticationRequest` among server messages.
pub const AUTHENTICATION_REQUEST_TAG: u8 = 0x00;

/// Tag of `KeepAliveRequest` among server messages.
pub const KEEP_ALIVE_REQUEST_TAG: u8 = 0x01;

/// Tag of `AuthenticationResponse` among client messages.
pub const AUTHENTICATION_RESPONSE_TAG: u8 = 0x00;

/// Tag of `KeepAliveResponse` among client messages.
pub const KEEP_ALIVE_RESPONSE_TAG: u8 = 0x01;

/// A message that travels as one frame: its tag, then its fields.
pub trait SystemPacket: Encoder {
    /// The message's one-byte tag within its direction.
    spec fn spec_tag() -> u8;

    /// The whole frame for this message.
    fn to_bytes(&self) -> (r: Result<Vec<u8>, EncodeError>)
        ensures
            r is Ok <==> Self::spec_encodable(self.deep_view()) && Self::spec_encode(
                self.deep_view(),
            ).len() + 1 <= u32::MAX,
            r matches Ok(b) ==> b@ == frame_wire(Self::spec_tag(), Self::spec_encode(self.deep_view())),
            r is Err ==> r->Err_0 == EncodeError::TryFromInt,
    ;
}

/// A message read back from a whole payload.
pub trait ReceiveFromStream: Decoder {
    /// Reads the message from the front of `payload`; bytes after it are ignored.
    fn from_bytes(payload: &[u8]) -> (r: Result<Self, DecodeError>)
        ensures
            match Self::spec_decode(payload@) {
                Ok((v, n)) => r is Ok && r->Ok_0.deep_view() == v,
                Err(e) => r == Err::<Self, DecodeError>(e),
            },
    ;
}

/// Copies `payload` into a fresh cursor and decodes one `T` from it.
fn decode_payload<T: Decoder>(payload: &[u8]) -> (r: Result<T, DecodeError>)
    ensures
        match T::spec_decode(payload@) {
            Ok((v, n)) => r is Ok && r->Ok_0.deep_view() == v,
            Err(e) => r == Err::<T, DecodeError>(e),
        },
{
    let mut data: Vec<u8> = Vec::new();
    crate::encoder::push_all(&mut data, payload);
    assert(data@ =~= payload@);
    let mut cursor = Cursor::new(data);
    T::decode(&mut cursor)
}

/// Encodes `p`'s fields and frames them under `tag`.
fn frame_packet<P: Encoder>(p: &P, tag: u8) -> (r: Result<Vec<u8>, EncodeError>)
    ensures
        r is Ok <==> P::spec_encodable(p.deep_view()) && P::spec_encode(p.deep_view()).len() + 1
            <= u32::MAX,
        r matches Ok(b) ==> b@ == frame_wire(tag, P::spec_encode(p.deep_view())),
        r is Err ==> r->Err_0 == EncodeError::TryFromInt,
{
    let mut buffer: Vec<u8> = Vec::new();
    match p.encode(&mut buffer) {
        Ok(()) => {},
        Err(e) => return Err(e),
    }
    assert(buffer@ =~= P::spec_encode(p.deep_view()));
    prepare_response(tag, buffer)
}

// ---------------------------------------------------------------- server to client
/// Sent by the server on accept; the client echoes the nonce.
#[derive(Clone, Debug)]
pub struct AuthenticationRequest {
    pub nonce: String,
}

/// What an `AuthenticationRequest` holds, as mathematical values.
pub struct AuthenticationRequestView {
    pub nonce: Seq<char>,
}

impl DeepView for AuthenticationRequest {
    type V = AuthenticationRequestView;

    open spec fn deep_view(&self) -> AuthenticationRequestView {
        AuthenticationRequestView { nonce: self.nonce@ }
    }
}

/// Relies on `textnonce::TextNonce::sized`: `length` base64 characters, partly from the clock
/// and partly random; refused when `length` is under 16 or not a multiple of 4, or when the
/// clock reads before the Unix epoch.
#[verifier::external_body]
fn text_nonce(length: usize) -> (r: Option<String>)
    ensures
        length < 16 || length % 4 != 0 ==> r is None,
        r matches Some(s) ==> s@.len() == length,
{
    match textnonce::TextNonce::sized(length) {
        Ok(n) => Some(n.into_string()),
        Err(_) => None,
    }
}

/// Characters in a fresh nonce.
pub const NONCE_LENGTH: usize = 16;

impl AuthenticationRequest {
    /// A request with a fresh nonce of 16 base64 characters; `None` when the clock reads
    /// before the Unix epoch.
    pub fn new() -> (r: Option<AuthenticationRequest>)
        ensures
            r matches Some(req) ==> req.nonce@.len() == NONCE_LENGTH,
    {
        match text_nonce(NONCE_LENGTH) {
            Some(nonce) => Some(AuthenticationRequest { nonce }),
            None => None,
        }
    }
}

impl Encoder for AuthenticationRequest {
    open spec fn spec_encode(v: AuthenticationRequestView) -> Seq<u8> {
        string_wire(v.nonce)
    }

    open spec fn spec_encodable(v: AuthenticationRequestView) -> bool {
        string_fits(v.nonce)
    }

    fn encode(&self, writer: &mut Vec<u8>) -> (r: Result<(), EncodeError>) {
        self.nonce.encode(writer)
    }
}

impl Decoder for AuthenticationRequest {
    open spec fn spec_decode(data: Seq<u8>) -> Result<(AuthenticationRequestView, nat), DecodeError> {
        match parse_string(data) {
            Ok((s, n)) => Ok((AuthenticationRequestView { nonce: s }, n)),
            Err(e) => Err(e),
        }
    }

    fn decode(reader: &mut Cursor) -> (r: Result<AuthenticationRequest, DecodeError>) {
        match reader.take_string() {
            Ok(nonce) => Ok(AuthenticationRequest { nonce }),
            Err(e) => Err(e),
        }
    }
}

impl SystemPacket for AuthenticationRequest {
    open spec fn spec_tag() -> u8 {
        AUTHENTICATION_REQUEST_TAG
    }

    fn to_bytes(&self) -> (r: Result<Vec<u8>, EncodeError>) {
        frame_packet(self, AUTHENTICATION_REQUEST_TAG)
    }
}

impl ReceiveFromStream for AuthenticationRequest {
    fn from_bytes(payload: &[u8]) -> (r: Result<AuthenticationRequest, DecodeError>) {
        decode_payload(payload)
    }
}

/// Sent by the server on every heartbeat tick; the client echoes the timestamp.
#[derive(Clone, Debug)]
pub struct KeepAliveRequest {
    pub timestamp: i64,
}

/// What a `KeepAliveRequest` holds, as mathematical values.
pub struct KeepAliveRequestView {
    pub timestamp: i64,
}

impl DeepView for KeepAliveRequest {
    type V = KeepAliveRequestView;

    open spec fn deep_view(&self) -> KeepAliveRequestView {
        KeepAliveRequestView { timestamp: self.timestamp }
    }
}

/// Relies on `SystemTime::elapsed` from `UNIX_EPOCH`: the whole seconds since the epoch, or
/// none when the clock reads earlier.
#[verifier::external_body]
fn seconds_since_epoch() -> (r: Option<u64>) {
    match std::time::UNIX_EPOCH.elapsed() {
        Ok(d) => Some(d.as_secs()),
        Err(_) => None,
    }
}

impl KeepAliveRequest {
    /// A request stamped with the current second; `None` when the clock reads before the Unix
    /// epoch or past what an `i64` holds.
    pub fn new() -> (r: Option<KeepAliveRequest>)
        ensures
            r matches Some(req) ==> req.timestamp >= 0,
    {
        match seconds_since_epoch() {
            Some(secs) => KeepAliveRequest::at(secs),
            None => None,
        }
    }

    /// A request stamped with `secs` seconds since the epoch; `None` when that does not fit
    /// an `i64`.
    pub fn at(secs: u64) -> (r: Option<KeepAliveRequest>)
        ensures
            secs <= i64::MAX ==> (r matches Some(req) && req.timestamp == secs),
            secs > i64::MAX ==> r is None,
    {
        if secs > i64::MAX as u64 {
            None
        } else {
            Some(KeepAliveRequest { timestamp: secs as i64 })
        }
    }
}

impl Encoder for KeepAliveRequest {
    open spec fn spec_encode(v: KeepAliveRequestView) -> Seq<u8> {
        <i64 as Encoder>::spec_encode(v.timestamp)
    }

    open spec fn spec_encodable(v: KeepAliveRequestView) -> bool {
        true
    }

    fn encode(&self, writer: &mut Vec<u8>) -> (r: Result<(), EncodeError>) {
        self.timestamp.encode(writer)
    }
}

impl Decoder for KeepAliveRequest {
    open spec fn spec_decode(data: Seq<u8>) -> Result<(KeepAliveRequestView, nat), DecodeError> {
        match <i64 as Decoder>::spec_decode(data) {
            Ok((t, n)) => Ok((KeepAliveRequestView { timestamp: t }, n)),
            Err(e) => Err(e),
        }
    }

    fn decode(reader: &mut Cursor) -> (r: Result<KeepAliveRequest, DecodeError>) {
        match i64::decode(reader) {
            Ok(timestamp) => Ok(KeepAliveRequest { timestamp }),
            Err(e) => Err(e),
        }
    }
}

impl SystemPacket for KeepAliveRequest {
    open spec fn spec_tag() -> u8 {
        KEEP_ALIVE_REQUEST_TAG
    }

    fn to_bytes(&self) -> (r: Result<Vec<u8>, EncodeError>) {
        frame_packet(self, KEEP_ALIVE_REQUEST_TAG)
    }
}

impl ReceiveFromStream for KeepAliveRequest {
    fn from_bytes(payload: &[u8]) -> (r: Result<KeepAliveRequest, DecodeError>) {
        decode_payload(payload)
    }
}

// ---------------------------------------------------------------- client to server
/// The client's answer to an `AuthenticationRequest`.
#[derive(Clone, Debug)]
pub struct AuthenticationResponse {
    pub hwid: Hwid,
    pub nonce: String,
}

/// What an `AuthenticationResponse` holds, as mathematical values.
pub struct AuthenticationResponseView {
    pub hwid: HwidView,
    pub nonce: Seq<char>,
}

impl DeepView for AuthenticationResponse {
    type V = AuthenticationResponseView;

    open spec fn deep_view(&self) -> AuthenticationResponseView {
        AuthenticationResponseView { hwid: self.hwid.deep_view(), nonce: self.nonce@ }
    }
}

impl Encoder for AuthenticationResponse {
    open spec fn spec_encode(v: AuthenticationResponseView) -> Seq<u8> {
        Hwid::spec_encode(v.hwid) + string_wire(v.nonce)
    }

    open spec fn spec_encodable(v: AuthenticationResponseView) -> bool {
        Hwid::spec_encodable(v.hwid) && string_fits(v.nonce)
    }

    fn encode(&self, writer: &mut Vec<u8>) -> (r: Result<(), EncodeError>) {
        if !fits_prefix(&self.nonce) {
            return Err(EncodeError::TryFromInt);
        }
        match self.hwid.encode(writer) {
            Ok(()) => {},
            Err(e) => return Err(e),
        }
        let _ = self.nonce.encode(writer);
        assert(writer@ =~= old(writer)@ + Self::spec_encode(self.deep_view()));
        Ok(())
    }
}

impl Decoder for AuthenticationResponse {
    open spec fn spec_decode(data: Seq<u8>) -> Result<(AuthenticationResponseView, nat), DecodeError> {
        match Hwid::spec_decode(data) {
            Ok((h, n)) => match parse_string(data.skip(n as int)) {
                Ok((s, m)) => Ok((AuthenticationResponseView { hwid: h, nonce: s }, n + m)),
                Err(e) => Err(e),
            },
            Err(e) => Err(e),
        }
    }

    fn decode(reader: &mut Cursor) -> (r: Result<AuthenticationResponse, DecodeError>) {
        let hwid = match Hwid::decode(reader) {
            Ok(h) => h,
            Err(e) => return Err(e),
        };
        assert(reader.rest() =~= old(reader).rest().skip(reader.pos - old(reader).pos));
        let nonce = match reader.take_string() {
            Ok(s) => s,
            Err(e) => return Err(e),
        };
        Ok(AuthenticationResponse { hwid, nonce })
    }
}

impl SystemPacket for AuthenticationResponse {
    open spec fn spec_tag() -> u8 {
        AUTHENTICATION_RESPONSE_TAG
    }

    fn to_bytes(&self) -> (r: Result<Vec<u8>, EncodeError>) {
        frame_packet(self, AUTHENTICATION_RESPONSE_TAG)
    }
}

impl ReceiveFromStream for AuthenticationResponse {
    fn from_bytes(payload: &[u8]) -> (r: Result<AuthenticationResponse, DecodeError>) {
        decode_payload(payload)
    }
}

/// The client's answer to a `KeepAliveRequest`.
#[derive(Clone, Debug)]
pub struct KeepAliveResponse {
    pub timestamp: i64,
}

/// What a `KeepAliveResponse` holds, as mathematical values.
pub struct KeepAliveResponseView {
    pub timestamp: i64,
}

impl DeepView for KeepAliveResponse {
    type V = KeepAliveResponseView;

    open spec fn deep_view(&self) -> KeepAliveResponseView {
        KeepAliveResponseView { timestamp: self.timestamp }
    }
}

impl Encoder for KeepAliveResponse {
    open spec fn spec_encode(v: KeepAliveResponseView) -> Seq<u8> {
        <i64 as Encoder>::spec_encode(v.timestamp)
    }

    open spec fn spec_encodable(v: KeepAliveResponseView) -> bool {
        true
    }

    fn encode(&self, writer: &mut Vec<u8>) -> (r: Result<(), EncodeError>) {
        self.timestamp.encode(writer)
    }
}

impl Decoder for KeepAliveResponse {
    open spec fn spec_decode(data: Seq<u8>) -> Result<(KeepAliveResponseView, nat), DecodeError> {
        match <i64 as Decoder>::spec_decode(data) {
            Ok((t, n)) => Ok((KeepAliveResponseView { timestamp: t }, n)),
            Err(e) => Err(e),
        }
    }

    fn decode(reader: &mut Cursor) -> (r: Result<KeepAliveResponse, DecodeError>) {
        match i64::decode(reader) {
            Ok(timestamp) => Ok(KeepAliveResponse { timestamp }),
            Err(e) => Err(e),
        }
    }
}

impl SystemPacket for KeepAliveResponse {
    open spec fn spec_tag() -> u8 {
        KEEP_ALIVE_RESPONSE_TAG
    }

    fn to_bytes(&self) -> (r: Result<Vec<u8>, EncodeError>) {
        frame_packet(self, KEEP_ALIVE_RESPONSE_TAG)
    }
}

impl ReceiveFromStream for KeepAliveResponse {
    fn from_bytes(payload: &[u8]) -> (r: Result<KeepAliveResponse, DecodeError>) {
        decode_payload(payload)
    }
}

// ---------------------------------------------------------------- reading back what was written
/// An authentication request reads back as the request that was written, taking exactly
/// its bytes.
pub proof fn lemma_authentication_request_round_trip(v: AuthenticationRequestView, rest: Seq<u8>)
    requires
        AuthenticationRequest::spec_encodable(v),
    ensures
        AuthenticationRequest::spec_decode(AuthenticationRequest::spec_encode(v) + rest) == Ok::<
            (AuthenticationRequestView, nat),
            DecodeError,
        >((v, AuthenticationRequest::spec_encode(v).len())),
{
    lemma_string_round_trip(v.nonce, rest);
}

/// A keep-alive request reads back with the timestamp that was written.
pub proof fn lemma_keep_alive_request_round_trip(v: KeepAliveRequestView, rest: Seq<u8>)
    ensures
        KeepAliveRequest::spec_decode(KeepAliveRequest::spec_encode(v) + rest) == Ok::<
            (KeepAliveRequestView, nat),
            DecodeError,
        >((v, KeepAliveRequest::spec_encode(v).len())),
{
    lemma_i64_round_trip(v.timestamp, rest);
}

/// A host identity reads back as the one that was written.
pub proof fn lemma_hwid_round_trip(v: HwidView, rest: Seq<u8>)
    requires
        Hwid::spec_encodable(v),
    ensures
        Hwid::spec_decode(Hwid::spec_encode(v) + rest) == Ok::<(HwidView, nat), DecodeError>(
            (v, Hwid::spec_encode(v).len()),
        ),
{
    let c = string_wire(v.cpu_id);
    let d = Hwid::spec_encode(v) + rest;
    assert(d =~= c + (string_wire(v.system_id) + rest));
    lemma_string_round_trip(v.cpu_id, string_wire(v.system_id) + rest);
    assert(d.skip(c.len() as int) =~= string_wire(v.system_id) + rest);
    lemma_string_round_trip(v.system_id, rest);
}

/// An authentication response reads back as the response that was written.
pub proof fn lemma_authentication_response_round_trip(v: AuthenticationResponseView, rest: Seq<u8>)
    requires
        AuthenticationResponse::spec_encodable(v),
    ensures
        AuthenticationResponse::spec_decode(AuthenticationResponse::spec_encode(v) + rest) == Ok::<
            (AuthenticationResponseView, nat),
            DecodeError,
        >((v, AuthenticationResponse::spec_encode(v).len())),
{
    let h = Hwid::spec_encode(v.hwid);
    let d = AuthenticationResponse::spec_encode(v) + rest;
    assert(d =~= h + (string_wire(v.nonce) + rest));
    lemma_hwid_round_trip(v.hwid, string_wire(v.nonce) + rest);
    assert(d.skip(h.len() as int) =~= string_wire(v.nonce) + rest);
    lemma_string_round_trip(v.nonce, rest);
}

/// A keep-alive response reads back with the timestamp that was written.
pub proof fn lemma_keep_alive_response_round_trip(v: KeepAliveResponseView, rest: Seq<u8>)
    ensures
        KeepAliveResponse::spec_decode(KeepAliveResponse::spec_encode(v) + rest) == Ok::<
            (KeepAliveResponseView, nat),
            DecodeError,
        >((v, KeepAliveResponse::spec_encode(v).len())),
{
    lemma_i64_round_trip(v.timestamp, rest);
}

} // verus!
