//! The connections of one HTTP socket worker: how each moves from its
//! handshake to being established and to its end, and when it is dropped for
//! idleness.

use crate::common::{SocketAddress, Time, ValidUntil};
use crate::http::{AnnounceResponseFailure, ConnectionMeta, Request, Response, Token};
use vstd::prelude::*;

verus! {

/// The number of rounds of the poll loop from one sweep of idle connections
/// to the next.
pub const CONNECTION_CLEAN_INTERVAL: usize = 20;

/// Whether idle connections are swept in the round `iter_counter` of the
/// poll loop: in every round that a whole number of intervals has passed.
pub fn should_clean_connections(iter_counter: usize) -> (clean: bool)
    ensures
        clean == (iter_counter % CONNECTION_CLEAN_INTERVAL == 0),
{
    iter_counter % CONNECTION_CLEAN_INTERVAL == 0
}

/// Where a live connection stands.
#[derive(Clone, Copy, Debug, PartialEq, Eq, Hash, Structural)]
pub enum ConnectionState {
    /// Accepted, with its handshake under way.
    Accepting,
    /// Ready to carry requests and responses.
    Established,
}

/// Where a connection stands, live or not.
#[derive(Clone, Copy, Debug, PartialEq, Eq, Hash, Structural)]
pub enum Lifecycle {
    Accepting,
    Established,
    Closed,
}

/// What a socket worker remembers of one live connection.
#[derive(Clone, Copy, Debug, PartialEq, Eq, Hash, Structural)]
pub struct Connection {
    /// When the connection may be dropped for idleness.
    pub valid_until: ValidUntil,
    pub peer_addr: SocketAddress,
    pub state: ConnectionState,
}

impl Connection {
    /// A connection that was just accepted from `peer_addr`: with a
    /// handshake to do where TLS is in use, else established at once.
    pub open spec fn spec_new(use_tls: bool, valid_until: ValidUntil, peer_addr: SocketAddress) -> Connection {
        Connection {
            valid_until,
            peer_addr,
            state: if use_tls {
                ConnectionState::Accepting
            } else {
                ConnectionState::Established
            },
        }
    }

    /// A connection that was just accepted from `peer_addr`: with a
    /// handshake to do where TLS is in use, else established at once.
    #[verifier::when_used_as_spec(spec_new)]
    pub fn new(use_tls: bool, valid_until: ValidUntil, peer_addr: SocketAddress) -> (connection:
        Connection)
        ensures
            connection == Connection::spec_new(use_tls, valid_until, peer_addr),
    {
        Connection {
            valid_until,
            peer_addr,
            state: if use_tls {
                ConnectionState::Accepting
            } else {
                ConnectionState::Established
            },
        }
    }

    /// Whether the connection's deadline has not passed at `now`.
    pub open spec fn spec_is_active(&self, now: Time) -> bool {
        self.valid_until.0.0 >= now.0
    }

    /// Whether the connection's deadline has not passed at `now`.
    #[verifier::when_used_as_spec(spec_is_active)]
    pub fn is_active(&self, now: Time) -> (active: bool)
        ensures
            active == self.spec_is_active(now),
    {
        self.valid_until.0.0 >= now.0
    }
}

/// The live connections of one socket worker, by token: a
/// `hashbrown::HashMap`. Nothing of its inside is looked into here; what it
/// holds goes by the name `connection_map_entries`.
#[verifier::external_body]
pub struct ConnectionMap {
    inner: hashbrown::HashMap<Token, Connection>,
}

/// The connections that a map holds, by token.
pub uninterp spec fn connection_map_entries(connections: ConnectionMap) -> Map<Token, Connection>;

/// `HashMap::new` of hashbrown: the new map holds nothing.
#[verifier::external_body]
fn connection_map_new() -> (connections: ConnectionMap)
    ensures
        connection_map_entries(connections) == (Map::<Token, Connection>::empty()),
{
    ConnectionMap { inner: hashbrown::HashMap::new() }
}

/// `HashMap::get` of hashbrown: the connection stored under `token`, if one
/// is.
#[verifier::external_body]
fn connection_map_get(connections: &ConnectionMap, token: &Token) -> (connection: Option<Connection>)
    ensures
        connection == if connection_map_entries(*connections).contains_key(*token) {
            Some(connection_map_entries(*connections)[*token])
        } else {
            None
        },
{
    connections.inner.get(token).copied()
}

/// `HashMap::insert` of hashbrown: afterwards the map holds `connection`
/// under `token`, in place of what it held there, and all else as before.
#[verifier::external_body]
fn connection_map_insert(connections: &mut ConnectionMap, token: Token, connection: Connection)
    ensures
        connection_map_entries(*final(connections)) == connection_map_entries(
            *old(connections),
        ).insert(token, connection),
{
    connections.inner.insert(token, connection);
}

/// `HashMap::remove` of hashbrown: afterwards the map holds nothing under
/// `token`, and all else as before.
#[verifier::external_body]
fn connection_map_remove(connections: &mut ConnectionMap, token: &Token)
    ensures
        connection_map_entries(*final(connections)) == connection_map_entries(
            *old(connections),
        ).remove(*token),
{
    connections.inner.remove(token);
}

/// `HashMap::retain` of hashbrown, keeping the connections whose deadline
/// has not passed at `now`: afterwards the map holds exactly those, each
/// unchanged under its token.
#[verifier::external_body]
fn connection_map_retain_active(connections: &mut ConnectionMap, now: Time)
    ensures
        connection_map_entries(*final(connections)) == active_connections(
            connection_map_entries(*old(connections)),
            now,
        ),
{
    connections.inner.retain(|_, connection| connection.is_active(now));
}

/// Those of `connections` whose deadline has not passed at `now`.
pub open spec fn active_connections(connections: Map<Token, Connection>, now: Time) -> Map<
    Token,
    Connection,
> {
    Map::new(
        |token: Token| connections.contains_key(token) && connections[token].spec_is_active(now),
        |token: Token| connections[token],
    )
}

impl View for ConnectionMap {
    type V = Map<Token, Connection>;

    /// The live connections, by token.
    open spec fn view(&self) -> Map<Token, Connection> {
        connection_map_entries(*self)
    }
}

impl ConnectionMap {
    /// No connections.
    pub fn new() -> (connections: ConnectionMap)
        ensures
            connections@ == Map::<Token, Connection>::empty(),
    {
        connection_map_new()
    }

    /// Where the connection `token` stands: closed where the map holds none
    /// under that token.
    pub open spec fn lifecycle(&self, token: Token) -> Lifecycle {
        if !self@.contains_key(token) {
            Lifecycle::Closed
        } else if self@[token].state == ConnectionState::Accepting {
            Lifecycle::Accepting
        } else {
            Lifecycle::Established
        }
    }

    /// The connection stored under `token`, if one is.
    pub fn get(&self, token: Token) -> (connection: Option<Connection>)
        ensures
            connection == if self@.contains_key(token) {
                Some(self@[token])
            } else {
                None
            },
    {
        connection_map_get(self, &token)
    }
}

/// The token after `counter`: the next number, passing over zero, and
/// starting again at one after the largest.
pub open spec fn next_poll_token(counter: Token) -> Token {
    if counter.0 == usize::MAX {
        Token(1)
    } else {
        Token((counter.0 + 1) as usize)
    }
}

/// Takes in one stream that the listener accepted from `peer_addr`: moves
/// the token counter on, and stores the new connection under the token it
/// then shows, in place of a connection that may still be stored there.
/// Returns that token.
pub fn accept_new_stream(
    connections: &mut ConnectionMap,
    poll_token_counter: &mut Token,
    valid_until: ValidUntil,
    peer_addr: SocketAddress,
    use_tls: bool,
) -> (token: Token)
    ensures
        token == next_poll_token(*old(poll_token_counter)),
        *final(poll_token_counter) == token,
        token.0 != 0,
        final(connections)@ == old(connections)@.insert(
            token,
            Connection::spec_new(use_tls, valid_until, peer_addr),
        ),
{
    poll_token_counter.0 = poll_token_counter.0.wrapping_add(1);
    if poll_token_counter.0 == 0 {
        poll_token_counter.0 = 1;
    }
    let token = *poll_token_counter;
    // A connection that is still stored under the token gives way.
    connection_map_remove(connections, &token);
    let connection = Connection::new(use_tls, valid_until, peer_addr);
    connection_map_insert(connections, token, connection);
    proof {
        assert(connections@ =~= old(connections)@.insert(token, connection));
    }
    token
}

/// What came of the work that a readiness event called for on one
/// connection: of a read where the connection is established, of a step of
/// the handshake where it is not.
pub enum ReadEvent {
    /// A whole request was read.
    Request(Request),
    /// Part of a request was read; the rest has not arrived.
    NeedMoreData,
    /// What was read is no request.
    ParseError,
    /// The peer has closed the stream.
    StreamEnded,
    /// The read failed.
    IoError,
    /// The handshake is complete.
    HandshakeEstablished,
    /// The handshake needs more input or output before it can go on.
    HandshakeWouldBlock,
    /// The handshake failed.
    HandshakeFailure,
}

/// What follows for the caller from one event on a connection.
pub enum ReadOutcome {
    /// Pass the request on to the swarm logic, with this meta.
    Forward(ConnectionMeta, Request),
    /// Do the work that the connection now calls for at once, and report
    /// what comes of it.
    Again,
    /// Wait for the next readiness event.
    Wait,
}

/// Whether `event` reports on a read.
pub open spec fn is_read_event(event: ReadEvent) -> bool {
    event is Request || event is NeedMoreData || event is ParseError || event is StreamEnded
        || event is IoError
}

/// The connections after `event` was reported for the connection
/// `poll_token`.
///
/// An event for a connection that is closed changes nothing, and neither
/// does one that does not fit the state of its connection, but for the
/// deadline. Else the deadline moves to `valid_until`; a stream that ended, a
/// read that failed and a handshake that failed close the connection; a
/// handshake that is complete makes it established.
pub open spec fn connections_after_event(
    connections: Map<Token, Connection>,
    poll_token: Token,
    valid_until: ValidUntil,
    event: ReadEvent,
) -> Map<Token, Connection> {
    if !connections.contains_key(poll_token) {
        connections
    } else {
        let connection = Connection { valid_until, ..connections[poll_token] };
        match connection.state {
            ConnectionState::Established => match event {
                ReadEvent::StreamEnded | ReadEvent::IoError => connections.remove(poll_token),
                _ => connections.insert(poll_token, connection),
            },
            ConnectionState::Accepting => match event {
                ReadEvent::HandshakeEstablished => connections.insert(
                    poll_token,
                    Connection { state: ConnectionState::Established, ..connection },
                ),
                ReadEvent::HandshakeFailure => connections.remove(poll_token),
                _ => connections.insert(poll_token, connection),
            },
        }
    }
}

/// Takes in what came of the work on the connection `poll_token`, and says
/// what follows.
///
/// A request that was read on an established connection is passed on, with
/// the connection's token and the peer's address. What is no request is
/// answered at once with a failure, which is appended to `local_responses`.
/// After a handshake is complete the connection is read from at once. In
/// every other case the caller waits for the next readiness event.
pub fn handle_connection_read_event(
    valid_until: ValidUntil,
    socket_worker_index: usize,
    local_responses: &mut Vec<(ConnectionMeta, Response)>,
    connections: &mut ConnectionMap,
    poll_token: Token,
    event: ReadEvent,
) -> (outcome: ReadOutcome)
    ensures
        final(connections)@ == connections_after_event(
            old(connections)@,
            poll_token,
            valid_until,
            event,
        ),
        old(connections).lifecycle(poll_token) == Lifecycle::Established && event is ParseError
            ==> {
            &&& final(local_responses)@.len() == old(local_responses)@.len() + 1
            &&& final(local_responses)@.drop_last() == old(local_responses)@
            &&& final(local_responses)@.last().0 == (ConnectionMeta {
                worker_index: socket_worker_index,
                poll_token,
                peer_addr: old(connections)@[poll_token].peer_addr,
            })
            &&& match final(local_responses)@.last().1 {
                Response::AnnounceFailure(failure) => failure.failure_reason@
                    == "invalid request"@,
                _ => false,
            }
        },
        !(old(connections).lifecycle(poll_token) == Lifecycle::Established && event is ParseError)
            ==> final(local_responses)@ == old(local_responses)@,
        match outcome {
            ReadOutcome::Forward(meta, request) => {
                &&& old(connections).lifecycle(poll_token) == Lifecycle::Established
                &&& event == ReadEvent::Request(request)
                &&& meta == (ConnectionMeta {
                    worker_index: socket_worker_index,
                    poll_token,
                    peer_addr: old(connections)@[poll_token].peer_addr,
                })
            },
            ReadOutcome::Again => {
                &&& old(connections).lifecycle(poll_token) == Lifecycle::Accepting
                &&& event is HandshakeEstablished
            },
            ReadOutcome::Wait => {
                &&& !(old(connections).lifecycle(poll_token) == Lifecycle::Established
                    && event is Request)
                &&& !(old(connections).lifecycle(poll_token) == Lifecycle::Accepting
                    && event is HandshakeEstablished)
            },
        },
{
    // Without a connection there is no stream, and nothing to do.
    let connection = match connection_map_get(connections, &poll_token) {
        Some(connection) => Connection { valid_until, ..connection },
        None => {
            return ReadOutcome::Wait;
        },
    };
    let meta = ConnectionMeta {
        worker_index: socket_worker_index,
        poll_token,
        peer_addr: connection.peer_addr,
    };
    match connection.state {
        ConnectionState::Established => match event {
            ReadEvent::Request(request) => {
                connection_map_insert(connections, poll_token, connection);
                ReadOutcome::Forward(meta, request)
            },
            ReadEvent::ParseError => {
                connection_map_insert(connections, poll_token, connection);
                let response = AnnounceResponseFailure {
                    failure_reason: "invalid request".to_owned(),
                };
                local_responses.push((meta, Response::AnnounceFailure(response)));
                ReadOutcome::Wait
            },
            ReadEvent::StreamEnded | ReadEvent::IoError => {
                connection_map_remove(connections, &poll_token);
                ReadOutcome::Wait
            },
            _ => {
                connection_map_insert(connections, poll_token, connection);
                ReadOutcome::Wait
            },
        },
        ConnectionState::Accepting => match event {
            ReadEvent::HandshakeEstablished => {
                connection_map_insert(
                    connections,
                    poll_token,
                    Connection { state: ConnectionState::Established, ..connection },
                );
                ReadOutcome::Again
            },
            ReadEvent::HandshakeFailure => {
                connection_map_remove(connections, &poll_token);
                ReadOutcome::Wait
            },
            _ => {
                connection_map_insert(connections, poll_token, connection);
                ReadOutcome::Wait
            },
        },
    }
}

/// How an attempt to write a response to a connection ended.
#[derive(Clone, Copy, Debug, PartialEq, Eq, Structural)]
pub enum WriteOutcome {
    Sent,
    /// The stream takes no more for now.
    WouldBlock,
    Failed,
}

/// Whether a response that travels with `meta` is written to its
/// connection: only where that connection is established, and its peer has
/// the address that the request came from. A token can name another
/// connection by the time the answer arrives.
pub open spec fn spec_should_send_response(
    connections: Map<Token, Connection>,
    meta: ConnectionMeta,
) -> bool {
    &&& connections.contains_key(meta.poll_token)
    &&& connections[meta.poll_token].state == ConnectionState::Established
    &&& connections[meta.poll_token].peer_addr == meta.peer_addr
}

/// Whether a response that travels with `meta` is written to its
/// connection.
pub fn should_send_response(connections: &ConnectionMap, meta: &ConnectionMeta) -> (send: bool)
    ensures
        send == spec_should_send_response(connections@, *meta),
{
    match connection_map_get(connections, &meta.poll_token) {
        Some(connection) => {
            match connection.state {
                ConnectionState::Established => connection.peer_addr == meta.peer_addr,
                ConnectionState::Accepting => false,
            }
        },
        None => false,
    }
}

/// The connections after writing a response to the connection `poll_token`
/// ended as `outcome` says: a write that went through moves the deadline of
/// the connection to `valid_until`; one that failed closes it; one that has
/// to wait changes nothing.
pub open spec fn connections_after_write(
    connections: Map<Token, Connection>,
    poll_token: Token,
    outcome: WriteOutcome,
    valid_until: ValidUntil,
) -> Map<Token, Connection> {
    match outcome {
        WriteOutcome::Failed => connections.remove(poll_token),
        WriteOutcome::Sent => if connections.contains_key(poll_token) {
            connections.insert(
                poll_token,
                Connection { valid_until, ..connections[poll_token] },
            )
        } else {
            connections
        },
        WriteOutcome::WouldBlock => connections,
    }
}

/// Takes note of how writing a response to the connection `poll_token`
/// ended: a write that went through moves the connection's deadline on; one
/// that failed closes the connection; one that has to wait changes nothing.
pub fn handle_write_outcome(
    connections: &mut ConnectionMap,
    poll_token: Token,
    outcome: WriteOutcome,
    valid_until: ValidUntil,
)
    ensures
        final(connections)@ == connections_after_write(
            old(connections)@,
            poll_token,
            outcome,
            valid_until,
        ),
{
    match outcome {
        WriteOutcome::Failed => {
            connection_map_remove(connections, &poll_token);
        },
        WriteOutcome::Sent => {
            match connection_map_get(connections, &poll_token) {
                Some(connection) => {
                    connection_map_insert(
                        connections,
                        poll_token,
                        Connection { valid_until, ..connection },
                    );
                },
                None => {},
            }
        },
        WriteOutcome::WouldBlock => {},
    }
}

/// Closes and removes every connection whose deadline has passed at `now`,
/// and no other: what stays is what was there, unchanged.
pub fn remove_inactive_connections(connections: &mut ConnectionMap, now: Time)
    ensures
        final(connections)@ == active_connections(old(connections)@, now),
{
    connection_map_retain_active(connections, now);
}

/// After a sweep at `now`, a connection whose deadline had passed is closed,
/// and any other stands where it stood: a sweep ends idle connections, and
/// those only.
pub proof fn lemma_sweep_closes_idle_only(
    connections: Map<Token, Connection>,
    now: Time,
    token: Token,
)
    requires
        connections.contains_key(token),
    ensures
        connections[token].valid_until.0.0 < now.0 ==> !active_connections(
            connections,
            now,
        ).contains_key(token),
        connections[token].valid_until.0.0 >= now.0 ==> active_connections(
            connections,
            now,
        ).contains_key(token) && active_connections(connections, now)[token] == connections[token],
{
}

/// No event brings a closed connection back, and none takes an established
/// connection back to its handshake.
pub proof fn lemma_lifecycle_moves_forward(
    connections: Map<Token, Connection>,
    poll_token: Token,
    valid_until: ValidUntil,
    event: ReadEvent,
    token: Token,
)
    ensures
        !connections.contains_key(token) ==> !connections_after_event(
            connections,
            poll_token,
            valid_until,
            event,
        ).contains_key(token),
        connections.contains_key(token) && connections[token].state
            == ConnectionState::Established && connections_after_event(
            connections,
            poll_token,
            valid_until,
            event,
        ).contains_key(token) ==> connections_after_event(
            connections,
            poll_token,
            valid_until,
            event,
        )[token].state == ConnectionState::Established,
{
}

} // verus!
