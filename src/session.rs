use vstd::prelude::*;
use crate::messages::{
    AuthenticationRequest, AuthenticationRequestView, AuthenticationResponse,
    AuthenticationResponseView, KeepAliveRequest, KeepAliveRequestView, KeepAliveResponse,
    KeepAliveResponseView,
};
use crate::packets::{ClientPacketView, ClientPackets, Incoming, ServerPacketView, ServerPackets};
use crate::types::{Hwid, HwidView};

verus! {

/// What the connection does after the session logic has seen an event.
#[derive(Clone, Debug)]
pub enum Step<P> {
    /// Queue this message for the writer and keep going.
    Reply(P),
    /// Keep going with nothing to send.
    Continue,
    /// Tear the connection down.
    Close,
}

impl<P: DeepView> DeepView for Step<P> {
    type V = Step<P::V>;

    open spec fn deep_view(&self) -> Step<P::V> {
        match self {
            Step::Reply(p) => Step::Reply(p.deep_view()),
            Step::Continue => Step::Continue,
            Step::Close => Step::Close,
        }
    }
}

/// The messages a step sends: one for a reply, none otherwise.
pub open spec fn sent<P>(s: Step<P>) -> Seq<P> {
    match s {
        Step::Reply(p) => seq![p],
        _ => seq![],
    }
}

// ---------------------------------------------------------------- server side
/// Where the server is in its exchange with one client.
#[derive(Clone, Copy, Debug, PartialEq, Eq, Structural)]
pub enum SessionState {
    /// Accepted, nothing sent yet.
    Connected,
    /// The authentication request is out; waiting for the response.
    AuthPending,
    /// The response came; heartbeats run.
    Authenticated,
    /// Torn down, for good.
    Closed,
}

/// What the server's session logic reacts to.
#[derive(Debug)]
pub enum ServerEvent {
    /// The connection was accepted; the nonce for its authentication request.
    Accepted(String),
    /// A frame came in from the client.
    Received(Incoming<ClientPackets>),
    /// A frame came in that could not be read.
    DecodeFailed,
    /// The heartbeat timer fired, for the given timestamp.
    Tick(i64),
}

/// What a `ServerEvent` holds, as mathematical values.
pub enum ServerEventView {
    Accepted(Seq<char>),
    Received(Incoming<ClientPacketView>),
    DecodeFailed,
    Tick(i64),
}

impl DeepView for ServerEvent {
    type V = ServerEventView;

    open spec fn deep_view(&self) -> ServerEventView {
        match self {
            ServerEvent::Accepted(n) => ServerEventView::Accepted(n@),
            ServerEvent::Received(i) => ServerEventView::Received(i.deep_view()),
            ServerEvent::DecodeFailed => ServerEventView::DecodeFailed,
            ServerEvent::Tick(t) => ServerEventView::Tick(*t),
        }
    }
}

/// The server's next state and step. Anything not allowed in the current state closes the
/// connection; a closed connection stays closed and sends nothing.
pub open spec fn server_step(s: SessionState, e: ServerEventView) -> (SessionState, Step<
    ServerPacketView,
>) {
    if s == SessionState::Closed {
        (SessionState::Closed, Step::Close)
    } else {
        match e {
            ServerEventView::Accepted(n) => if s == SessionState::Connected {
                (
                    SessionState::AuthPending,
                    Step::Reply(
                        ServerPacketView::AuthenticationRequest(
                            AuthenticationRequestView { nonce: n },
                        ),
                    ),
                )
            } else {
                (SessionState::Closed, Step::Close)
            },
            ServerEventView::Received(
                Incoming::Packet(ClientPacketView::AuthenticationResponse(_)),
            ) => if s == SessionState::AuthPending {
                (SessionState::Authenticated, Step::Continue)
            } else {
                (SessionState::Closed, Step::Close)
            },
            ServerEventView::Received(Incoming::Packet(ClientPacketView::KeepAliveResponse(_))) => {
                if s == SessionState::Authenticated {
                    (SessionState::Authenticated, Step::Continue)
                } else {
                    (SessionState::Closed, Step::Close)
                }
            },
            ServerEventView::Tick(t) => if s == SessionState::Authenticated {
                (
                    s,
                    Step::Reply(
                        ServerPacketView::KeepAliveRequest(KeepAliveRequestView { timestamp: t }),
                    ),
                )
            } else {
                (s, Step::Continue)
            },
            _ => (SessionState::Closed, Step::Close),
        }
    }
}

/// The messages the server sends while it goes through `evs` from state `s`.
pub open spec fn server_run(s: SessionState, evs: Seq<ServerEventView>) -> Seq<ServerPacketView>
    decreases evs.len(),
{
    if evs.len() == 0 {
        seq![]
    } else {
        let (s2, st) = server_step(s, evs[0]);
        sent(st) + server_run(s2, evs.drop_first())
    }
}

/// The server's half of one connection's session logic.
#[derive(Debug)]
pub struct ServerSession {
    pub state: SessionState,
}

impl ServerSession {
    /// A session for a connection just accepted.
    pub fn new() -> (r: ServerSession)
        ensures
            r.state == SessionState::Connected,
    {
        ServerSession { state: SessionState::Connected }
    }

    /// Reacts to one event.
    pub fn step(&mut self, event: ServerEvent) -> (r: Step<ServerPackets>)
        ensures
            (final(self).state, r.deep_view()) == server_step(old(self).state, event.deep_view()),
    {
        if self.state == SessionState::Closed {
            return Step::Close;
        }
        match event {
            ServerEvent::Accepted(nonce) => {
                if self.state == SessionState::Connected {
                    self.state = SessionState::AuthPending;
                    Step::Reply(ServerPackets::AuthenticationRequest(AuthenticationRequest { nonce }))
                } else {
                    self.state = SessionState::Closed;
                    Step::Close
                }
            },
            ServerEvent::Received(Incoming::Packet(ClientPackets::AuthenticationResponse(_))) => {
                if self.state == SessionState::AuthPending {
                    self.state = SessionState::Authenticated;
                    Step::Continue
                } else {
                    self.state = SessionState::Closed;
                    Step::Close
                }
            },
            ServerEvent::Received(Incoming::Packet(ClientPackets::KeepAliveResponse(_))) => {
                if self.state == SessionState::Authenticated {
                    Step::Continue
                } else {
                    self.state = SessionState::Closed;
                    Step::Close
                }
            },
            ServerEvent::Tick(timestamp) => {
                if self.state == SessionState::Authenticated {
                    Step::Reply(ServerPackets::KeepAliveRequest(KeepAliveRequest { timestamp }))
                } else {
                    Step::Continue
                }
            },
            _ => {
                self.state = SessionState::Closed;
                Step::Close
            },
        }
    }
}

/// A closed server session sends nothing more, whatever happens.
pub proof fn lemma_server_closed_is_silent(evs: Seq<ServerEventView>)
    ensures
        server_run(SessionState::Closed, evs) == Seq::<ServerPacketView>::empty(),
    decreases evs.len(),
{
    if evs.len() > 0 {
        lemma_server_closed_is_silent(evs.drop_first());
        assert(server_run(SessionState::Closed, evs) =~= Seq::<ServerPacketView>::empty());
    }
}

/// On a fresh connection, the first message the server sends is an authentication request.
pub proof fn lemma_server_opens_with_authentication(evs: Seq<ServerEventView>)
    ensures
        server_run(SessionState::Connected, evs).len() > 0 ==> server_run(
            SessionState::Connected,
            evs,
        )[0] is AuthenticationRequest,
    decreases evs.len(),
{
    if evs.len() > 0 {
        let (s2, st) = server_step(SessionState::Connected, evs[0]);
        let tail = server_run(s2, evs.drop_first());
        if s2 == SessionState::Connected {
            lemma_server_opens_with_authentication(evs.drop_first());
            assert(sent(st) =~= Seq::<ServerPacketView>::empty());
            assert(server_run(SessionState::Connected, evs) =~= tail);
        } else if s2 == SessionState::Closed {
            lemma_server_closed_is_silent(evs.drop_first());
            assert(sent(st) =~= Seq::<ServerPacketView>::empty());
            assert(server_run(SessionState::Connected, evs) =~= tail);
        }
    }
}

/// A zero-length frame ends the server's session: nothing is sent after it, whatever follows.
pub proof fn lemma_server_disconnect(s: SessionState, evs: Seq<ServerEventView>)
    ensures
        server_step(s, ServerEventView::Received(Incoming::Closed)).0 == SessionState::Closed,
        server_run(s, seq![ServerEventView::Received(Incoming::Closed)] + evs)
            == Seq::<ServerPacketView>::empty(),
{
    let all = seq![ServerEventView::Received(Incoming::Closed)] + evs;
    assert(all.drop_first() =~= evs);
    lemma_server_closed_is_silent(evs);
    assert(server_run(s, all) =~= Seq::<ServerPacketView>::empty());
}

// ---------------------------------------------------------------- client side
/// Where the client is in its exchange with the server.
#[derive(Clone, Copy, Debug, PartialEq, Eq, Structural)]
pub enum ClientState {
    /// Connected; waiting for the authentication request.
    AwaitingAuth,
    /// The authentication response is out; heartbeats are answered.
    Authenticated,
    /// Torn down, for good.
    Closed,
}

/// What the client's session logic reacts to.
#[derive(Debug)]
pub enum ClientEvent {
    /// A frame came in from the server.
    Received(Incoming<ServerPackets>),
    /// A frame came in that could not be read.
    DecodeFailed,
}

/// What a `ClientEvent` holds, as mathematical values.
pub enum ClientEventView {
    Received(Incoming<ServerPacketView>),
    DecodeFailed,
}

impl DeepView for ClientEvent {
    type V = ClientEventView;

    open spec fn deep_view(&self) -> ClientEventView {
        match self {
            ClientEvent::Received(i) => ClientEventView::Received(i.deep_view()),
            ClientEvent::DecodeFailed => ClientEventView::DecodeFailed,
        }
    }
}

/// The client's next state and step, for a client whose identity is `h`.
pub open spec fn client_step(s: ClientState, h: HwidView, e: ClientEventView) -> (ClientState, Step<
    ClientPacketView,
>) {
    if s == ClientState::Closed {
        (ClientState::Closed, Step::Close)
    } else {
        match e {
            ClientEventView::Received(
                Incoming::Packet(ServerPacketView::AuthenticationRequest(req)),
            ) => if s == ClientState::AwaitingAuth {
                (
                    ClientState::Authenticated,
                    Step::Reply(
                        ClientPacketView::AuthenticationResponse(
                            AuthenticationResponseView { hwid: h, nonce: req.nonce },
                        ),
                    ),
                )
            } else {
                (ClientState::Closed, Step::Close)
            },
            ClientEventView::Received(Incoming::Packet(ServerPacketView::KeepAliveRequest(req))) => {
                if s == ClientState::Authenticated {
                    (
                        s,
                        Step::Reply(
                            ClientPacketView::KeepAliveResponse(
                                KeepAliveResponseView { timestamp: req.timestamp },
                            ),
                        ),
                    )
                } else {
                    (ClientState::Closed, Step::Close)
                }
            },
            _ => (ClientState::Closed, Step::Close),
        }
    }
}

/// The messages the client sends while it goes through `evs` from state `s`.
pub open spec fn client_run(s: ClientState, h: HwidView, evs: Seq<ClientEventView>) -> Seq<
    ClientPacketView,
>
    decreases evs.len(),
{
    if evs.len() == 0 {
        seq![]
    } else {
        let (s2, st) = client_step(s, h, evs[0]);
        sent(st) + client_run(s2, h, evs.drop_first())
    }
}

/// The client's half of the session logic.
#[derive(Debug)]
pub struct ClientSession {
    pub hwid: Hwid,
    pub state: ClientState,
}

impl ClientSession {
    /// A session for a connection just made, answering with the identity `hwid`.
    pub fn new(hwid: Hwid) -> (r: ClientSession)
        ensures
            r.state == ClientState::AwaitingAuth,
            r.hwid.deep_view() == hwid.deep_view(),
    {
        ClientSession { hwid, state: ClientState::AwaitingAuth }
    }

    /// Reacts to one event.
    pub fn step(&mut self, event: ClientEvent) -> (r: Step<ClientPackets>)
        ensures
            final(self).hwid.deep_view() == old(self).hwid.deep_view(),
            (final(self).state, r.deep_view()) == client_step(
                old(self).state,
                old(self).hwid.deep_view(),
                event.deep_view(),
            ),
    {
        if self.state == ClientState::Closed {
            return Step::Close;
        }
        match event {
            ClientEvent::Received(Incoming::Packet(ServerPackets::AuthenticationRequest(req))) => {
                if self.state == ClientState::AwaitingAuth {
                    self.state = ClientState::Authenticated;
                    let hwid = Hwid {
                        cpu_id: self.hwid.cpu_id.clone(),
                        system_id: self.hwid.system_id.clone(),
                    };
                    Step::Reply(
                        ClientPackets::AuthenticationResponse(
                            AuthenticationResponse { hwid, nonce: req.nonce },
                        ),
                    )
                } else {
                    self.state = ClientState::Closed;
                    Step::Close
                }
            },
            ClientEvent::Received(Incoming::Packet(ServerPackets::KeepAliveRequest(req))) => {
                if self.state == ClientState::Authenticated {
                    Step::Reply(
                        ClientPackets::KeepAliveResponse(
                            KeepAliveResponse { timestamp: req.timestamp },
                        ),
                    )
                } else {
                    self.state = ClientState::Closed;
                    Step::Close
                }
            },
            _ => {
                self.state = ClientState::Closed;
                Step::Close
            },
        }
    }
}

/// A closed client session sends nothing more, whatever happens.
pub proof fn lemma_client_closed_is_silent(h: HwidView, evs: Seq<ClientEventView>)
    ensures
        client_run(ClientState::Closed, h, evs) == Seq::<ClientPacketView>::empty(),
    decreases evs.len(),
{
    if evs.len() > 0 {
        lemma_client_closed_is_silent(h, evs.drop_first());
        assert(client_run(ClientState::Closed, h, evs) =~= Seq::<ClientPacketView>::empty());
    }
}

/// The nonce of the authentication request that `e` carries, if it carries one.
pub open spec fn request_nonce(e: ClientEventView) -> Option<Seq<char>> {
    match e {
        ClientEventView::Received(Incoming::Packet(ServerPacketView::AuthenticationRequest(req))) => {
            Some(req.nonce)
        },
        _ => None,
    }
}

/// On a fresh connection, the client's first message answers the authentication request
/// that came first, with its own identity and that request's nonce.
pub proof fn lemma_client_opens_with_response(h: HwidView, evs: Seq<ClientEventView>)
    ensures
        client_run(ClientState::AwaitingAuth, h, evs).len() > 0 ==> request_nonce(evs[0]) is Some
            && client_run(ClientState::AwaitingAuth, h, evs)[0]
            == ClientPacketView::AuthenticationResponse(
            AuthenticationResponseView { hwid: h, nonce: request_nonce(evs[0])->0 },
        ),
{
    if evs.len() > 0 {
        let (s2, st) = client_step(ClientState::AwaitingAuth, h, evs[0]);
        if s2 == ClientState::Closed {
            lemma_client_closed_is_silent(h, evs.drop_first());
            assert(client_run(ClientState::AwaitingAuth, h, evs) =~= Seq::<
                ClientPacketView,
            >::empty());
        }
    }
}

/// A zero-length frame ends the client's session: nothing is sent after it, whatever follows.
pub proof fn lemma_client_disconnect(s: ClientState, h: HwidView, evs: Seq<ClientEventView>)
    ensures
        client_step(s, h, ClientEventView::Received(Incoming::Closed)).0 == ClientState::Closed,
        client_run(s, h, seq![ClientEventView::Received(Incoming::Closed)] + evs)
            == Seq::<ClientPacketView>::empty(),
{
    let all = seq![ClientEventView::Received(Incoming::Closed)] + evs;
    assert(all.drop_first() =~= evs);
    lemma_client_closed_is_silent(h, evs);
    assert(client_run(s, h, all) =~= Seq::<ClientPacketView>::empty());
}

} // verus!
