//! Connection tokens: short-lived credentials, each bound to the address it
//! was issued to, that a client presents with every announce and scrape.

use crate::common::{SocketAddress, Time};
use crate::peers::ConnectionId;
use crate::random::random_i64;
use vstd::prelude::*;

verus! {

/// The seconds for which a token stays valid, as the protocol recommends.
pub const DEFAULT_TOKEN_TTL: u64 = 120;

/// A token together with the address it was issued to.
#[derive(Clone, Copy, Debug, PartialEq, Eq, Hash)]
pub struct ConnectionKey {
    pub connection_id: ConnectionId,
    pub socket_addr: SocketAddress,
}

/// Whether a record issued at `issued` is, at `now`, older than `ttl`
/// seconds.
pub open spec fn spec_is_expired(issued: Time, now: Time, ttl: u64) -> bool {
    now.spec_since(issued) > ttl
}

/// Whether a record issued at `issued` is, at `now`, older than `ttl`
/// seconds.
#[verifier::when_used_as_spec(spec_is_expired)]
pub fn is_expired(issued: Time, now: Time, ttl: u64) -> (expired: bool)
    ensures
        expired == spec_is_expired(issued, now, ttl),
{
    now.since(issued) > ttl
}

/// Whether a record issued at `issued` is, at `now`, no older than `ttl`
/// seconds.
pub fn is_fresh(issued: Time, now: Time, ttl: u64) -> (fresh: bool)
    ensures
        fresh == !spec_is_expired(issued, now, ttl),
{
    !is_expired(issued, now, ttl)
}

/// The issued tokens with the time of their issue: a `hashbrown::HashMap`.
/// Nothing of its inside is looked into here; what it holds goes by the
/// name `token_entries`.
#[verifier::external_body]
pub struct TokenRecords {
    inner: hashbrown::HashMap<ConnectionKey, Time>,
}

/// The records that a token map holds: for each key the time of its issue.
pub uninterp spec fn token_entries(records: TokenRecords) -> Map<ConnectionKey, Time>;

/// `HashMap::new` of hashbrown: the new map holds nothing.
#[verifier::external_body]
fn token_records_new() -> (records: TokenRecords)
    ensures
        token_entries(records) == (Map::<ConnectionKey, Time>::empty()),
{
    TokenRecords { inner: hashbrown::HashMap::new() }
}

/// `HashMap::insert` of hashbrown: afterwards the map holds `issued` under
/// `key`, in place of what it held there, and all else as before.
#[verifier::external_body]
fn token_records_insert(records: &mut TokenRecords, key: ConnectionKey, issued: Time)
    ensures
        token_entries(*final(records)) == token_entries(*old(records)).insert(key, issued),
{
    records.inner.insert(key, issued);
}

/// `HashMap::get` of hashbrown: the time stored under `key`, if one is.
#[verifier::external_body]
fn token_records_get(records: &TokenRecords, key: &ConnectionKey) -> (issued: Option<Time>)
    ensures
        issued == if token_entries(*records).contains_key(*key) {
            Some(token_entries(*records)[*key])
        } else {
            None
        },
{
    records.inner.get(key).copied()
}

/// `HashMap::retain` of hashbrown, keeping the records that are not expired:
/// afterwards the map holds exactly those of its records, unchanged.
#[verifier::external_body]
fn token_records_retain_fresh(records: &mut TokenRecords, now: Time, ttl: u64)
    ensures
        token_entries(*final(records)) == fresh_records(token_entries(*old(records)), now, ttl),
{
    records.inner.retain(|_, issued| is_fresh(*issued, now, ttl));
}

/// The records among `entries` that are, at `now`, no older than `ttl`
/// seconds.
pub open spec fn fresh_records(entries: Map<ConnectionKey, Time>, now: Time, ttl: u64) -> Map<
    ConnectionKey,
    Time,
> {
    Map::new(
        |key: ConnectionKey| entries.contains_key(key) && !spec_is_expired(entries[key], now, ttl),
        |key: ConnectionKey| entries[key],
    )
}

/// Whether `entries` make the token `connection_id` valid at `now` when
/// `source` presents it: it was issued to exactly that address, less than
/// `ttl` seconds ago.
pub open spec fn token_valid(
    entries: Map<ConnectionKey, Time>,
    connection_id: ConnectionId,
    source: SocketAddress,
    now: Time,
    ttl: u64,
) -> bool {
    let key = ConnectionKey { connection_id, socket_addr: source };
    entries.contains_key(key) && now.spec_since(entries[key]) < ttl
}

/// Issues and checks connection tokens.
pub struct ConnectionTokenStore {
    records: TokenRecords,
    ttl: u64,
}

impl View for ConnectionTokenStore {
    type V = Map<ConnectionKey, Time>;

    /// The records held: for each issued key the time of its issue.
    closed spec fn view(&self) -> Map<ConnectionKey, Time> {
        token_entries(self.records)
    }
}

impl ConnectionTokenStore {
    /// The seconds for which a token of this store stays valid.
    pub closed spec fn spec_ttl(&self) -> u64 {
        self.ttl
    }

    /// Whether the token is valid at `now` when `source` presents it.
    pub open spec fn spec_validate(
        &self,
        connection_id: ConnectionId,
        source: SocketAddress,
        now: Time,
    ) -> bool {
        token_valid(self@, connection_id, source, now, self.spec_ttl())
    }

    /// A store without records, whose tokens stay valid for `ttl` seconds.
    pub fn new(ttl: u64) -> (store: ConnectionTokenStore)
        ensures
            store@ == Map::<ConnectionKey, Time>::empty(),
            store.spec_ttl() == ttl,
    {
        ConnectionTokenStore { records: token_records_new(), ttl }
    }

    /// The seconds for which a token of this store stays valid.
    #[verifier::when_used_as_spec(spec_ttl)]
    pub fn ttl(&self) -> (ttl: u64)
        ensures
            ttl == self.spec_ttl(),
    {
        self.ttl
    }

    /// Records that `connection_id` was issued to `source` at `now`, in
    /// place of an earlier record of the same token for the same address.
    pub fn record(&mut self, connection_id: ConnectionId, source: SocketAddress, now: Time)
        ensures
            final(self)@ == old(self)@.insert(
                ConnectionKey { connection_id, socket_addr: source },
                now,
            ),
            final(self).spec_ttl() == old(self).spec_ttl(),
    {
        token_records_insert(
            &mut self.records,
            ConnectionKey { connection_id, socket_addr: source },
            now,
        );
    }

    /// Issues a token to `source`: draws it at random and records it with
    /// the time `now`. Always succeeds.
    pub fn issue(&mut self, source: SocketAddress, now: Time) -> (connection_id: ConnectionId)
        ensures
            final(self)@ == old(self)@.insert(
                ConnectionKey { connection_id, socket_addr: source },
                now,
            ),
            final(self).spec_ttl() == old(self).spec_ttl(),
    {
        let connection_id = ConnectionId(random_i64());
        self.record(connection_id, source, now);
        connection_id
    }

    /// Whether the token is valid at `now` when `source` presents it: a
    /// record exists for exactly this token and address, and its age is below
    /// the time to live.
    #[verifier::when_used_as_spec(spec_validate)]
    pub fn validate(&self, connection_id: ConnectionId, source: SocketAddress, now: Time) -> (valid:
        bool)
        ensures
            valid == self.spec_validate(connection_id, source, now),
    {
        let key = ConnectionKey { connection_id, socket_addr: source };
        match token_records_get(&self.records, &key) {
            Some(issued) => now.since(issued) < self.ttl,
            None => false,
        }
    }

    /// Removes every record that is, at `now`, older than the time to live,
    /// and no other.
    pub fn sweep(&mut self, now: Time)
        ensures
            final(self)@ == fresh_records(old(self)@, now, old(self).spec_ttl()),
            final(self).spec_ttl() == old(self).spec_ttl(),
    {
        token_records_retain_fresh(&mut self.records, now, self.ttl);
    }
}

/// A token is valid at the moment of its issue, wherever tokens live for
/// longer than no time at all.
pub proof fn lemma_valid_after_issue(
    entries: Map<ConnectionKey, Time>,
    connection_id: ConnectionId,
    source: SocketAddress,
    now: Time,
    ttl: u64,
)
    requires
        ttl > 0,
    ensures
        token_valid(
            entries.insert(ConnectionKey { connection_id, socket_addr: source }, now),
            connection_id,
            source,
            now,
            ttl,
        ),
{
}

/// Issuing a token to one address makes it valid for no other: for an
/// address that the token was not already recorded for, it stays invalid.
pub proof fn lemma_invalid_for_other_address(
    entries: Map<ConnectionKey, Time>,
    connection_id: ConnectionId,
    source: SocketAddress,
    other: SocketAddress,
    now: Time,
    later: Time,
    ttl: u64,
)
    requires
        other != source,
        !entries.contains_key(ConnectionKey { connection_id, socket_addr: other }),
    ensures
        !token_valid(
            entries.insert(ConnectionKey { connection_id, socket_addr: source }, now),
            connection_id,
            other,
            later,
            ttl,
        ),
{
}

/// A token is no longer valid once its time to live has passed since its
/// issue.
pub proof fn lemma_invalid_after_ttl(
    entries: Map<ConnectionKey, Time>,
    connection_id: ConnectionId,
    source: SocketAddress,
    now: Time,
    later: Time,
    ttl: u64,
)
    requires
        later.0 >= now.0,
        later.0 - now.0 >= ttl,
    ensures
        !token_valid(
            entries.insert(ConnectionKey { connection_id, socket_addr: source }, now),
            connection_id,
            source,
            later,
            ttl,
        ),
{
}

/// A sweep changes the answer of no later validation: what it removes was
/// already invalid, and stays so as time goes on.
pub proof fn lemma_sweep_keeps_validity(
    entries: Map<ConnectionKey, Time>,
    swept_at: Time,
    connection_id: ConnectionId,
    source: SocketAddress,
    later: Time,
    ttl: u64,
)
    requires
        later.0 >= swept_at.0,
    ensures
        token_valid(fresh_records(entries, swept_at, ttl), connection_id, source, later, ttl)
            == token_valid(entries, connection_id, source, later, ttl),
{
}

} // verus!
