//! Connection continuity: sequence numbering, the replay buffer of
//! unacknowledged messages, heartbeat liveness, and reconnection within a
//! bounded grace period.
//!
//! Times are readings of a monotonic clock in milliseconds, passed in by the
//! caller.

use vstd::prelude::*;

verus! {

/// Default grace period for reconnection, in milliseconds (60 s).
pub const DEFAULT_RECONNECT_GRACE_PERIOD_MS: u64 = 60_000;

/// Default heartbeat interval, in milliseconds (30 s).
pub const DEFAULT_HEARTBEAT_INTERVAL_MS: u64 = 30_000;

/// Default heartbeat timeout, in milliseconds (45 s): one missed beat is tolerated.
pub const DEFAULT_HEARTBEAT_TIMEOUT_MS: u64 = 45_000;

/// A message payload is a JSON value, carried through unread.
#[verifier::external_type_specification]
#[verifier::external_body]
pub struct ExJsonValue(serde_json::Value);

/// Relies on the `Clone` that serde_json derives for `Value`: a deep copy,
/// equal to the original.
pub assume_specification[ <serde_json::Value as Clone>::clone ](v: &serde_json::Value) -> (r:
    serde_json::Value)
    ensures
        r == *v,
;

/// The network status of a connection.
#[derive(Debug, Clone, Copy, PartialEq, Eq, Structural)]
pub enum ConnectionStatus {
    /// Actively connected.
    Connected,
    /// Disconnected at `since`; a reconnect is accepted before `grace_until`.
    Disconnected { since: u64, grace_until: u64 },
    /// Gone for good: only a fresh connection can follow.
    Expired,
}

impl ConnectionStatus {
    /// Disconnected, and the grace window is still open at `now`.
    pub open spec fn reconnectable_at(self, now: u64) -> bool {
        match self {
            ConnectionStatus::Disconnected { grace_until, .. } => now < grace_until,
            _ => false,
        }
    }

    /// Expired, or disconnected with the grace window closed at `now`.
    pub open spec fn expired_at(self, now: u64) -> bool {
        match self {
            ConnectionStatus::Connected => false,
            ConnectionStatus::Disconnected { grace_until, .. } => now >= grace_until,
            ConnectionStatus::Expired => true,
        }
    }

    /// Currently connected.
    pub fn is_connected(&self) -> (r: bool)
        ensures
            r == (*self is Connected),
    {
        matches!(self, ConnectionStatus::Connected)
    }

    /// Within the reconnection grace period at `now_ms`.
    pub fn is_reconnectable(&self, now_ms: u64) -> (r: bool)
        ensures
            r == self.reconnectable_at(now_ms),
    {
        match self {
            ConnectionStatus::Disconnected { grace_until, .. } => now_ms < *grace_until,
            _ => false,
        }
    }

    /// Expired, or past the grace period at `now_ms`.
    pub fn is_expired(&self, now_ms: u64) -> (r: bool)
        ensures
            r == self.expired_at(now_ms),
    {
        match self {
            ConnectionStatus::Connected => false,
            ConnectionStatus::Disconnected { grace_until, .. } => now_ms >= *grace_until,
            ConnectionStatus::Expired => true,
        }
    }
}

/// `now + period`, or the largest time when that does not fit.
pub open spec fn deadline(now: u64, period: u64) -> u64 {
    if now + period <= u64::MAX {
        (now + period) as u64
    } else {
        u64::MAX
    }
}

/// The status after a disconnect at `now` with the given grace period.
///
/// A connected or disconnected connection gets a fresh window starting at
/// `now`; an expired one stays expired, since it can never be resumed.
pub open spec fn status_after_disconnect(status: ConnectionStatus, grace: u64, now: u64) -> ConnectionStatus {
    match status {
        ConnectionStatus::Expired => ConnectionStatus::Expired,
        _ => ConnectionStatus::Disconnected { since: now, grace_until: deadline(now, grace) },
    }
}

/// Why a reconnect was refused.
#[derive(Debug, Clone, Copy, PartialEq, Eq, Structural)]
pub enum ReconnectError {
    /// Disconnected, but the grace period is over.
    GraceExpired,
    /// The connection has expired.
    AlreadyExpired,
}

impl ReconnectError {
    /// The human-readable text of the error.
    pub fn as_str(&self) -> (r: &'static str)
        ensures
            r@ == (match self {
                ReconnectError::GraceExpired => "Grace period expired"@,
                ReconnectError::AlreadyExpired => "Connection expired"@,
            }),
    {
        match self {
            ReconnectError::GraceExpired => "Grace period expired",
            ReconnectError::AlreadyExpired => "Connection expired",
        }
    }
}

/// A message sent but not yet acknowledged.
#[derive(Debug)]
pub struct PendingMessage {
    pub seq: u64,
    pub message: serde_json::Value,
    pub sent_at: u64,
}

impl Clone for PendingMessage {
    fn clone(&self) -> (r: Self)
        ensures
            r == *self,
    {
        PendingMessage { seq: self.seq, message: self.message.clone(), sent_at: self.sent_at }
    }
}

/// The state of one player's connection.
#[derive(Debug)]
pub struct Connection {
    /// The player's database id.
    pub player_id: i64,
    /// External user id, kept as text so that large ids are exact.
    pub user_id: String,
    /// Display name.
    pub username: String,
    /// Avatar reference.
    pub avatar_url: Option<String>,
    /// Current network status.
    pub status: ConnectionStatus,
    /// When the connection was established.
    pub connected_at: u64,
    /// Last inbound traffic.
    pub last_activity: u64,
    /// Last heartbeat received.
    pub last_heartbeat: u64,
    /// The last sequence number given to an outbound message.
    pub send_seq: u64,
    /// The highest sequence number the client has confirmed.
    pub ack_seq: u64,
    /// The replay buffer: sent but unacknowledged messages, ascending by `seq`.
    pub pending_messages: Vec<PendingMessage>,
    /// The reconnection credential.
    pub session_token: String,
    /// Whether the client uses the envelope protocol.
    pub uses_envelope: bool,
}

impl Clone for Connection {
    fn clone(&self) -> (r: Self)
        ensures
            r.pending_messages@ == self.pending_messages@,
            r == (Connection { pending_messages: r.pending_messages, ..*self }),
    {
        let avatar_url = match &self.avatar_url {
            Some(url) => Some(url.clone()),
            None => None,
        };
        let pending_messages = self.pending_messages.clone();
        assert(pending_messages@ =~= self.pending_messages@);
        Connection {
            player_id: self.player_id,
            user_id: self.user_id.clone(),
            username: self.username.clone(),
            avatar_url,
            status: self.status,
            connected_at: self.connected_at,
            last_activity: self.last_activity,
            last_heartbeat: self.last_heartbeat,
            send_seq: self.send_seq,
            ack_seq: self.ack_seq,
            pending_messages,
            session_token: self.session_token.clone(),
            uses_envelope: self.uses_envelope,
        }
    }
}

/// Holds of a message with a sequence number above `seq`.
pub open spec fn above(seq: u64) -> spec_fn(PendingMessage) -> bool {
    |m: PendingMessage| m.seq > seq
}

/// The messages of `pending` with a sequence number above `seq`, in order.
pub open spec fn pending_after(pending: Seq<PendingMessage>, seq: u64) -> Seq<PendingMessage> {
    pending.filter(above(seq))
}

/// The acknowledgment mark after the client acknowledges `ack`: the larger
/// of the two, so the mark never goes down.
pub open spec fn ack_mark_after(ack_seq: u64, ack: u64) -> u64 {
    if ack > ack_seq {
        ack
    } else {
        ack_seq
    }
}

impl Connection {
    /// The replay buffer is strictly ascending by sequence number and holds
    /// only numbers above the acknowledgment mark and not above the last one
    /// sent.
    pub open spec fn wf(&self) -> bool {
        &&& forall|i: int|
            0 <= i < self.pending_messages@.len() ==> self.ack_seq
                < #[trigger] self.pending_messages@[i].seq <= self.send_seq
        &&& forall|i: int, j: int|
            0 <= i < j < self.pending_messages@.len() ==> #[trigger] self.pending_messages@[i].seq
                < #[trigger] self.pending_messages@[j].seq
    }

    /// Heartbeat overdue at `now` for the given timeout: connected, and the
    /// last heartbeat is more than `timeout` ago.
    pub open spec fn heartbeat_overdue_after(&self, timeout: u64, now: u64) -> bool {
        &&& self.status is Connected
        &&& now - self.last_heartbeat > timeout
    }

    /// Heartbeat overdue at `now` for the default timeout.
    pub open spec fn heartbeat_overdue_at(&self, now: u64) -> bool {
        self.heartbeat_overdue_after(DEFAULT_HEARTBEAT_TIMEOUT_MS, now)
    }

    /// A new connection, connected at `now_ms`, with no message sent.
    pub fn new(
        player_id: i64,
        user_id: String,
        username: String,
        avatar_url: Option<String>,
        session_token: String,
        now_ms: u64,
    ) -> (r: Self)
        ensures
            r.player_id == player_id,
            r.user_id == user_id,
            r.username == username,
            r.avatar_url == avatar_url,
            r.status == ConnectionStatus::Connected,
            r.connected_at == now_ms,
            r.last_activity == now_ms,
            r.last_heartbeat == now_ms,
            r.send_seq == 0,
            r.ack_seq == 0,
            r.pending_messages@ == Seq::<PendingMessage>::empty(),
            r.session_token == session_token,
            !r.uses_envelope,
            r.wf(),
    {
        Connection {
            player_id,
            user_id,
            username,
            avatar_url,
            status: ConnectionStatus::Connected,
            connected_at: now_ms,
            last_activity: now_ms,
            last_heartbeat: now_ms,
            send_seq: 0,
            ack_seq: 0,
            pending_messages: Vec::new(),
            session_token,
            uses_envelope: false,
        }
    }

    /// Marks the connection disconnected at `now_ms` with the default grace period.
    pub fn disconnect(&mut self, now_ms: u64)
        ensures
            *final(self) == (Connection {
                status: status_after_disconnect(
                    old(self).status,
                    DEFAULT_RECONNECT_GRACE_PERIOD_MS,
                    now_ms,
                ),
                ..*old(self)
            }),
    {
        self.disconnect_with_grace(DEFAULT_RECONNECT_GRACE_PERIOD_MS, now_ms);
    }

    /// Marks the connection disconnected at `now_ms`; a reconnect is accepted
    /// until `grace_ms` later.
    ///
    /// Disconnecting again restarts the window from `now_ms`. An expired
    /// connection stays expired.
    pub fn disconnect_with_grace(&mut self, grace_ms: u64, now_ms: u64)
        ensures
            *final(self) == (Connection {
                status: status_after_disconnect(old(self).status, grace_ms, now_ms),
                ..*old(self)
            }),
    {
        if !matches!(self.status, ConnectionStatus::Expired) {
            let grace_until = if grace_ms <= u64::MAX - now_ms {
                now_ms + grace_ms
            } else {
                u64::MAX
            };
            self.status = ConnectionStatus::Disconnected { since: now_ms, grace_until };
        }
    }

    /// Resumes the connection at `now_ms` and returns the messages to replay.
    ///
    /// Already connected: only the activity time is refreshed, nothing is
    /// replayed. Disconnected within the grace period: connected again, and the
    /// whole replay buffer is returned in ascending order. Otherwise refused,
    /// and the connection is left as it was.
    pub fn reconnect(&mut self, now_ms: u64) -> (r: Result<Vec<PendingMessage>, ReconnectError>)
        ensures
            match old(self).status {
                ConnectionStatus::Connected => {
                    &&& r matches Ok(replay) && replay@ == Seq::<PendingMessage>::empty()
                    &&& *final(self) == (Connection { last_activity: now_ms, ..*old(self) })
                },
                ConnectionStatus::Disconnected { grace_until, .. } => if now_ms < grace_until {
                    &&& r matches Ok(replay) && replay@ == old(self).pending_messages@
                    &&& *final(self) == (Connection {
                        status: ConnectionStatus::Connected,
                        last_activity: now_ms,
                        last_heartbeat: now_ms,
                        ..*old(self)
                    })
                } else {
                    &&& r == Err::<Vec<PendingMessage>, ReconnectError>(
                        ReconnectError::GraceExpired,
                    )
                    &&& *final(self) == *old(self)
                },
                ConnectionStatus::Expired => {
                    &&& r == Err::<Vec<PendingMessage>, ReconnectError>(
                        ReconnectError::AlreadyExpired,
                    )
                    &&& *final(self) == *old(self)
                },
            },
    {
        match self.status {
            ConnectionStatus::Connected => {
                self.last_activity = now_ms;
                Ok(Vec::new())
            },
            ConnectionStatus::Disconnected { grace_until, .. } => {
                if now_ms < grace_until {
                    self.status = ConnectionStatus::Connected;
                    self.last_activity = now_ms;
                    self.last_heartbeat = now_ms;
                    let replay = self.pending_messages.clone();
                    assert(replay@ =~= self.pending_messages@);
                    Ok(replay)
                } else {
                    Err(ReconnectError::GraceExpired)
                }
            },
            ConnectionStatus::Expired => Err(ReconnectError::AlreadyExpired),
        }
    }

    /// Marks the connection expired and discards the replay buffer.
    pub fn expire(&mut self)
        ensures
            final(self).pending_messages@ == Seq::<PendingMessage>::empty(),
            *final(self) == (Connection {
                status: ConnectionStatus::Expired,
                pending_messages: final(self).pending_messages,
                ..*old(self)
            }),
    {
        self.status = ConnectionStatus::Expired;
        self.pending_messages.clear();
    }

    /// Records inbound traffic at `now_ms`.
    pub fn touch(&mut self, now_ms: u64)
        ensures
            *final(self) == (Connection { last_activity: now_ms, ..*old(self) }),
    {
        self.last_activity = now_ms;
    }

    /// Records a heartbeat at `now_ms` (which is also activity).
    pub fn heartbeat(&mut self, now_ms: u64)
        ensures
            *final(self) == (Connection {
                last_heartbeat: now_ms,
                last_activity: now_ms,
                ..*old(self)
            }),
    {
        self.last_heartbeat = now_ms;
        self.last_activity = now_ms;
    }

    /// Takes the client's acknowledgment of everything up to `ack`: drops those
    /// messages from the replay buffer and raises the acknowledgment mark.
    ///
    /// A lower acknowledgment than an earlier one changes nothing: the mark
    /// never goes down and dropped messages never come back.
    pub fn acknowledge(&mut self, ack: u64)
        ensures
            final(self).pending_messages@ == pending_after(old(self).pending_messages@, ack),
            *final(self) == (Connection {
                ack_seq: ack_mark_after(old(self).ack_seq, ack),
                pending_messages: final(self).pending_messages,
                ..*old(self)
            }),
            old(self).wf() ==> final(self).wf(),
    {
        let ghost ok = old(self).wf();
        let ghost old_ack = self.ack_seq;
        let ghost send_seq = self.send_seq;
        let mut unacked: Vec<PendingMessage> = Vec::new();
        std::mem::swap(&mut unacked, &mut self.pending_messages);
        let ghost all = unacked@;
        let mut kept: Vec<PendingMessage> = Vec::new();
        for m in it: unacked
            invariant
                it.seq() == all,
                kept@ == pending_after(all.take(it.index()), ack),
                ok ==> forall|i: int|
                    0 <= i < all.len() ==> old_ack < #[trigger] all[i].seq <= send_seq,
                ok ==> forall|i: int, j: int|
                    0 <= i < j < all.len() ==> #[trigger] all[i].seq < #[trigger] all[j].seq,
                forall|a: int| 0 <= a < kept@.len() ==> ack < #[trigger] kept@[a].seq,
                ok ==> forall|a: int|
                    0 <= a < kept@.len() ==> old_ack < #[trigger] kept@[a].seq <= send_seq,
                ok ==> forall|a: int, b: int|
                    0 <= a < b < kept@.len() ==> #[trigger] kept@[a].seq < #[trigger] kept@[b].seq,
                ok && it.index() > 0 ==> forall|a: int|
                    0 <= a < kept@.len() ==> #[trigger] kept@[a].seq <= all[it.index() - 1].seq,
                0 <= it.index() <= all.len(),
        {
            proof {
                lemma_filter_take_step(all, above(ack), it.index());
            }
            if m.seq > ack {
                kept.push(m);
            }
        }
        proof {
            assert(all.take(all.len() as int) == all);
        }
        self.pending_messages = kept;
        if ack > self.ack_seq {
            self.ack_seq = ack;
        }
    }

    /// Numbers and records an outbound message sent at `now_ms`; returns its
    /// sequence number, one above the previous one.
    ///
    /// The buffer stays well formed as long as the client has not acknowledged
    /// past the last number sent. After such an acknowledgment the new message
    /// is still kept for replay, though its number is not above the mark.
    pub fn send(&mut self, message: serde_json::Value, now_ms: u64) -> (r: u64)
        requires
            old(self).send_seq < u64::MAX,
        ensures
            r == old(self).send_seq + 1,
            final(self).pending_messages@ == old(self).pending_messages@.push(
                PendingMessage { seq: r, message, sent_at: now_ms },
            ),
            *final(self) == (Connection {
                send_seq: r,
                pending_messages: final(self).pending_messages,
                ..*old(self)
            }),
            old(self).wf() && old(self).ack_seq <= old(self).send_seq ==> final(self).wf(),
    {
        self.send_seq = self.send_seq + 1;
        self.pending_messages.push(PendingMessage { seq: self.send_seq, message, sent_at: now_ms });
        self.send_seq
    }

    /// Connected, with no heartbeat for longer than the default heartbeat
    /// timeout at `now_ms`.
    pub fn is_heartbeat_timeout(&self, now_ms: u64) -> (r: bool)
        ensures
            r == self.heartbeat_overdue_at(now_ms),
    {
        self.is_heartbeat_timeout_after(DEFAULT_HEARTBEAT_TIMEOUT_MS, now_ms)
    }

    /// Connected, with no heartbeat for longer than `timeout_ms` at `now_ms`.
    pub fn is_heartbeat_timeout_after(&self, timeout_ms: u64, now_ms: u64) -> (r: bool)
        ensures
            r == self.heartbeat_overdue_after(timeout_ms, now_ms),
    {
        self.status.is_connected() && now_ms > self.last_heartbeat && now_ms - self.last_heartbeat
            > timeout_ms
    }

    /// Time since the last activity at `now_ms` (zero if that lies ahead).
    pub fn idle_time(&self, now_ms: u64) -> (r: u64)
        ensures
            r == (if now_ms >= self.last_activity {
                now_ms - self.last_activity
            } else {
                0
            }),
    {
        if now_ms >= self.last_activity {
            now_ms - self.last_activity
        } else {
            0
        }
    }

    /// The pending messages with a sequence number above `seq`, in order.
    pub fn messages_since(&self, seq: u64) -> (r: Vec<&PendingMessage>)
        ensures
            r@.unref() == pending_after(self.pending_messages@, seq),
    {
        let ghost all = self.pending_messages@;
        let mut since: Vec<&PendingMessage> = Vec::new();
        let mut i: usize = 0;
        while i < self.pending_messages.len()
            invariant
                i <= all.len(),
                all == self.pending_messages@,
                since@.unref() == pending_after(all.take(i as int), seq),
            decreases all.len() - i,
        {
            proof {
                lemma_filter_take_step(all, above(seq), i as int);
            }
            let m = &self.pending_messages[i];
            if m.seq > seq {
                since.push(m);
                proof {
                    assert(since@.unref() =~= pending_after(all.take(i as int), seq).push(*m));
                }
            }
            i = i + 1;
        }
        proof {
            assert(all.take(all.len() as int) == all);
        }
        since
    }
}



/// What the registry holds for one player: the keys the connection was added
/// under (player id and session token) and the connection itself.
pub struct TrackedConnection {
    pub player_id: i64,
    pub session_token: Seq<char>,
    pub connection: Connection,
}

impl TrackedConnection {
    /// The same entry holding connection `c`.
    pub open spec fn with_connection(self, c: Connection) -> TrackedConnection {
        TrackedConnection {
            player_id: self.player_id,
            session_token: self.session_token,
            connection: c,
        }
    }
}

/// Player ids and session tokens are each unique over the registry.
pub open spec fn keys_unique(s: Seq<TrackedConnection>) -> bool {
    forall|i: int, j: int|
        0 <= i < j < s.len() ==> {
            &&& (#[trigger] s[i]).player_id != (#[trigger] s[j]).player_id
            &&& s[i].session_token != s[j].session_token
        }
}

/// Every entry is held under its connection's own player id and session token.
pub open spec fn keys_match(s: Seq<TrackedConnection>) -> bool {
    forall|i: int|
        0 <= i < s.len() ==> {
            &&& (#[trigger] s[i]).connection.player_id == s[i].player_id
            &&& s[i].connection.session_token@ == s[i].session_token
        }
}

/// Holds of an entry whose connection is stale at `now` for the given
/// heartbeat timeout: expired (or past its grace period), or connected with
/// an overdue heartbeat.
pub open spec fn stale_at(timeout: u64, now: u64) -> spec_fn(TrackedConnection) -> bool {
    |e: TrackedConnection|
        e.connection.status.expired_at(now) || e.connection.heartbeat_overdue_after(timeout, now)
}

/// Holds of an entry whose connection is not stale at `now` for the given
/// heartbeat timeout.
pub open spec fn live_at(timeout: u64, now: u64) -> spec_fn(TrackedConnection) -> bool {
    |e: TrackedConnection|
        !(e.connection.status.expired_at(now) || e.connection.heartbeat_overdue_after(timeout, now))
}

/// Holds of an entry whose connection is connected.
pub open spec fn connected_entry() -> spec_fn(TrackedConnection) -> bool {
    |e: TrackedConnection| e.connection.status is Connected
}

/// The player ids of the entries, in order.
pub open spec fn player_ids(s: Seq<TrackedConnection>) -> Seq<i64> {
    s.map_values(|e: TrackedConnection| e.player_id)
}

#[derive(Debug)]
struct Entry {
    player_id: i64,
    session_token: String,
    connection: Connection,
}

impl View for Entry {
    type V = TrackedConnection;

    closed spec fn view(&self) -> TrackedConnection {
        TrackedConnection {
            player_id: self.player_id,
            session_token: self.session_token@,
            connection: self.connection,
        }
    }
}

/// All known connections, reachable by player id and by session token.
///
/// Entries stay in order of arrival. Each player id and each session token
/// belongs to at most one entry, so both lookups are exact.
#[derive(Debug)]
pub struct ConnectionManager {
    entries: Vec<Entry>,
}

impl View for ConnectionManager {
    type V = Seq<TrackedConnection>;

    closed spec fn view(&self) -> Seq<TrackedConnection> {
        self.entries@.map_values(|e: Entry| e@)
    }
}

impl ConnectionManager {
    /// Both keys are unique, and each entry is held under its connection's
    /// own player id and session token.
    pub closed spec fn wf(&self) -> bool {
        &&& forall|i: int, j: int|
            0 <= i < j < self.entries@.len() ==> {
                &&& (#[trigger] self.entries@[i]).player_id != (#[trigger] self.entries@[j]).player_id
                &&& self.entries@[i].session_token@ != self.entries@[j].session_token@
            }
        &&& forall|i: int|
            0 <= i < self.entries@.len() ==> {
                &&& (#[trigger] self.entries@[i]).connection.player_id == self.entries@[i].player_id
                &&& self.entries@[i].connection.session_token@ == self.entries@[i].session_token@
            }
    }

    /// A connection is held for `player_id`.
    pub open spec fn tracks(&self, player_id: i64) -> bool {
        exists|i: int| 0 <= i < self@.len() && (#[trigger] self@[i]).player_id == player_id
    }

    /// A connection is held under `token`.
    pub open spec fn token_in_use(&self, token: Seq<char>) -> bool {
        exists|i: int| 0 <= i < self@.len() && (#[trigger] self@[i]).session_token == token
    }

    /// An empty registry.
    pub fn new() -> (r: Self)
        ensures
            r@ == Seq::<TrackedConnection>::empty(),
            r.wf(),
    {
        let r = ConnectionManager { entries: Vec::new() };
        assert(r@ =~= Seq::<TrackedConnection>::empty());
        r
    }

    /// Adds a connection under its player id and session token, neither of
    /// which may be in use.
    pub fn add(&mut self, conn: Connection)
        requires
            old(self).wf(),
            !old(self).tracks(conn.player_id),
            !old(self).token_in_use(conn.session_token@),
        ensures
            final(self).wf(),
            final(self)@ == old(self)@.push(
                TrackedConnection {
                    player_id: conn.player_id,
                    session_token: conn.session_token@,
                    connection: conn,
                },
            ),
    {
        let ghost before = self@;
        let session_token = conn.session_token.clone();
        self.entries.push(Entry { player_id: conn.player_id, session_token, connection: conn });
        assert(self@ =~= before.push(
            TrackedConnection {
                player_id: conn.player_id,
                session_token: conn.session_token@,
                connection: conn,
            },
        ));
        assert forall|i: int, j: int| 0 <= i < j < self.entries@.len() implies {
            &&& (#[trigger] self.entries@[i]).player_id != (#[trigger] self.entries@[j]).player_id
            &&& self.entries@[i].session_token@ != self.entries@[j].session_token@
        } by {
            assert(before[i] == self@[i]);
        }
        assert forall|i: int| 0 <= i < self.entries@.len() implies {
            &&& (#[trigger] self.entries@[i]).connection.player_id == self.entries@[i].player_id
            &&& self.entries@[i].connection.session_token@ == self.entries@[i].session_token@
        } by {
            if i < before.len() {
                assert(before[i] == self@[i]);
            }
        }
    }

    /// The position of the entry for `player_id`.
    fn find(&self, player_id: i64) -> (r: Option<usize>)
        ensures
            match r {
                Some(i) => i < self@.len() && self@[i as int].player_id == player_id,
                None => !self.tracks(player_id),
            },
    {
        let mut i: usize = 0;
        while i < self.entries.len()
            invariant
                i <= self@.len(),
                self@.len() == self.entries@.len(),
                forall|k: int| 0 <= k < i ==> (#[trigger] self@[k]).player_id != player_id,
            decreases self@.len() - i,
        {
            if self.entries[i].player_id == player_id {
                return Some(i);
            }
            i = i + 1;
        }
        None
    }

    /// The position of the entry under `token`.
    fn find_session(&self, token: &str) -> (r: Option<usize>)
        ensures
            match r {
                Some(i) => i < self@.len() && self@[i as int].session_token == token@,
                None => !self.token_in_use(token@),
            },
    {
        let wanted = String::from_str(token);
        let mut i: usize = 0;
        while i < self.entries.len()
            invariant
                i <= self@.len(),
                self@.len() == self.entries@.len(),
                wanted@ == token@,
                forall|k: int| 0 <= k < i ==> (#[trigger] self@[k]).session_token != token@,
            decreases self@.len() - i,
        {
            if self.entries[i].session_token == wanted {
                return Some(i);
            }
            i = i + 1;
        }
        None
    }

    /// The connection of `player_id`, if any.
    pub fn get(&self, player_id: i64) -> (r: Option<&Connection>)
        ensures
            match r {
                Some(c) => exists|i: int|
                    0 <= i < self@.len() && (#[trigger] self@[i]).player_id == player_id
                        && self@[i].connection == *c,
                None => !self.tracks(player_id),
            },
    {
        match self.find(player_id) {
            Some(i) => Some(&self.entries[i].connection),
            None => None,
        }
    }

    /// The connection of `player_id`, if any, to change in place. The keys it
    /// is held under do not change, so the registry stays well formed as long
    /// as the caller leaves the connection's `player_id` and `session_token`
    /// as they are.
    pub fn get_mut(&mut self, player_id: i64) -> (r: Option<&mut Connection>)
        ensures
            match r {
                Some(c) => exists|i: int|
                    0 <= i < old(self)@.len() && (#[trigger] old(self)@[i]).player_id == player_id
                        && old(self)@[i].connection == *c && final(self)@ == old(self)@.update(
                        i,
                        old(self)@[i].with_connection(*final(c)),
                    ) && (old(self).wf() && (*final(c)).player_id == c.player_id
                        && (*final(c)).session_token@ == c.session_token@ ==> final(self).wf()),
                None => !old(self).tracks(player_id) && final(self)@ == old(self)@ && (old(
                    self,
                ).wf() ==> final(self).wf()),
            },
    {
        match self.find(player_id) {
            Some(i) => Some(&mut self.entries[i].connection),
            None => None,
        }
    }

    /// The connection held under session `token`, if any.
    pub fn get_by_session(&self, token: &str) -> (r: Option<&Connection>)
        ensures
            match r {
                Some(c) => exists|i: int|
                    0 <= i < self@.len() && (#[trigger] self@[i]).session_token == token@
                        && self@[i].connection == *c,
                None => !self.token_in_use(token@),
            },
    {
        match self.find_session(token) {
            Some(i) => Some(&self.entries[i].connection),
            None => None,
        }
    }

    /// The connection held under session `token`, if any, to change in place.
    /// The keys it is held under do not change, so the registry stays well
    /// formed as long as the caller leaves the connection's `player_id` and
    /// `session_token` as they are.
    pub fn get_by_session_mut(&mut self, token: &str) -> (r: Option<&mut Connection>)
        ensures
            match r {
                Some(c) => exists|i: int|
                    0 <= i < old(self)@.len() && (#[trigger] old(self)@[i]).session_token
                        == token@ && old(self)@[i].connection == *c && final(self)@ == old(
                        self,
                    )@.update(i, old(self)@[i].with_connection(*final(c))) && (old(self).wf()
                        && (*final(c)).player_id == c.player_id && (*final(c)).session_token@
                        == c.session_token@ ==> final(self).wf()),
                None => !old(self).token_in_use(token@) && final(self)@ == old(self)@ && (old(
                    self,
                ).wf() ==> final(self).wf()),
            },
    {
        match self.find_session(token) {
            Some(i) => Some(&mut self.entries[i].connection),
            None => None,
        }
    }

    /// Removes the connection of `player_id` from both lookups and returns it.
    pub fn remove(&mut self, player_id: i64) -> (r: Option<Connection>)
        ensures
            match r {
                Some(c) => {
                    &&& exists|i: int|
                        0 <= i < old(self)@.len() && (#[trigger] old(self)@[i]).player_id
                            == player_id && old(self)@[i].connection == c
                            && final(self)@ == old(self)@.remove(i)
                    &&& old(self).wf() ==> !final(self).tracks(player_id)
                        && !final(self).token_in_use(c.session_token@)
                },
                None => !old(self).tracks(player_id) && final(self)@ == old(self)@,
            },
            old(self).wf() ==> final(self).wf(),
    {
        match self.find(player_id) {
            Some(i) => {
                let ghost before = self@;
                let ghost old_entries = self.entries@;
                let ghost ok = self.wf();
                proof {
                    if ok {
                        lemma_wf_keys_unique(self);
                    }
                }
                let entry = self.entries.remove(i);
                assert(self@ =~= before.remove(i as int));
                proof {
                    if ok {
                        assert forall|k: int| 0 <= k < self@.len() implies {
                            &&& (#[trigger] self@[k]).player_id != player_id
                            &&& self@[k].session_token != entry.connection.session_token@
                        } by {
                            if k < i {
                                assert(self@[k] == before[k]);
                            } else {
                                assert(self@[k] == before[k + 1]);
                            }
                        }
                    }
                }
                assert(forall|k: int|
                    0 <= k < self.entries@.len() ==> #[trigger] self.entries@[k] == if k < i {
                        old_entries[k]
                    } else {
                        old_entries[k + 1]
                    });
                Some(entry.connection)
            },
            None => None,
        }
    }

    /// Marks the connection of `player_id`, if any, disconnected at `now_ms`
    /// with the default grace period.
    pub fn disconnect(&mut self, player_id: i64, now_ms: u64)
        ensures
            old(self).tracks(player_id) ==> exists|i: int|
                0 <= i < old(self)@.len() && (#[trigger] old(self)@[i]).player_id == player_id
                    && final(self)@ == old(self)@.update(
                    i,
                    old(self)@[i].with_connection(
                        Connection {
                            status: status_after_disconnect(
                                old(self)@[i].connection.status,
                                DEFAULT_RECONNECT_GRACE_PERIOD_MS,
                                now_ms,
                            ),
                            ..old(self)@[i].connection
                        },
                    ),
                ),
            !old(self).tracks(player_id) ==> final(self)@ == old(self)@,
            old(self).wf() ==> final(self).wf(),
    {
        if let Some(i) = self.find(player_id) {
            self.entries[i].connection.disconnect(now_ms);
        }
    }

    /// Sweeps out stale connections at `now_ms`, with the default heartbeat
    /// timeout, and returns their player ids, in order.
    pub fn expire_stale(&mut self, now_ms: u64) -> (r: Vec<i64>)
        ensures
            final(self)@ == old(self)@.filter(live_at(DEFAULT_HEARTBEAT_TIMEOUT_MS, now_ms)),
            r@ == player_ids(old(self)@.filter(stale_at(DEFAULT_HEARTBEAT_TIMEOUT_MS, now_ms))),
            old(self).wf() ==> final(self).wf(),
            old(self).wf() ==> forall|j: int|
                0 <= j < old(self)@.len() && stale_at(DEFAULT_HEARTBEAT_TIMEOUT_MS, now_ms)(
                    #[trigger] old(self)@[j],
                ) ==> !final(self).tracks(old(self)@[j].player_id) && !final(self).token_in_use(
                    old(self)@[j].connection.session_token@,
                ),
    {
        self.expire_stale_with_timeout(DEFAULT_HEARTBEAT_TIMEOUT_MS, now_ms)
    }

    /// Sweeps out connections stale at `now_ms` for the heartbeat timeout
    /// `timeout_ms`, and returns their player ids, in order.
    ///
    /// A connection is stale when it is expired, past its grace period, or
    /// connected with an overdue heartbeat. Stale connections leave both
    /// lookups; all others stay, in order.
    pub fn expire_stale_with_timeout(&mut self, timeout_ms: u64, now_ms: u64) -> (r: Vec<i64>)
        ensures
            final(self)@ == old(self)@.filter(live_at(timeout_ms, now_ms)),
            r@ == player_ids(old(self)@.filter(stale_at(timeout_ms, now_ms))),
            old(self).wf() ==> final(self).wf(),
            old(self).wf() ==> forall|j: int|
                0 <= j < old(self)@.len() && stale_at(timeout_ms, now_ms)(#[trigger] old(self)@[j])
                    ==> !final(self).tracks(old(self)@[j].player_id) && !final(self).token_in_use(
                    old(self)@[j].connection.session_token@,
                ),
    {
        let ghost ok = self.wf();
        proof {
            if ok {
                lemma_wf_keys_unique(self);
            }
        }
        let ghost all = self@;
        let ghost all_entries = self.entries@;
        let mut entries: Vec<Entry> = Vec::new();
        std::mem::swap(&mut entries, &mut self.entries);
        let mut kept: Vec<Entry> = Vec::new();
        let mut expired: Vec<i64> = Vec::new();
        // Where in the old entries each kept entry came from.
        let ghost mut origin: Seq<int> = Seq::empty();
        for e in it: entries
            invariant
                it.seq() == all_entries,
                all == all_entries.map_values(|e: Entry| e@),
                0 <= it.index() <= all.len(),
                kept@.map_values(|e: Entry| e@) == all.take(it.index()).filter(live_at(timeout_ms, now_ms)),
                expired@ == player_ids(all.take(it.index()).filter(stale_at(timeout_ms, now_ms))),
                ok ==> forall|i: int, j: int|
                    0 <= i < j < all_entries.len() ==> {
                        &&& (#[trigger] all_entries[i]).player_id != (#[trigger] all_entries[j]).player_id
                        &&& all_entries[i].session_token@ != all_entries[j].session_token@
                    },
                ok ==> forall|i: int|
                    0 <= i < all_entries.len() ==> {
                        &&& (#[trigger] all_entries[i]).connection.player_id == all_entries[i].player_id
                        &&& all_entries[i].connection.session_token@ == all_entries[i].session_token@
                    },
                ok ==> forall|a: int|
                    0 <= a < kept@.len() ==> {
                        &&& (#[trigger] kept@[a]).connection.player_id == kept@[a].player_id
                        &&& kept@[a].connection.session_token@ == kept@[a].session_token@
                    },
                origin.len() == kept@.len(),
                forall|a: int|
                    0 <= a < kept@.len() ==> 0 <= #[trigger] origin[a] < it.index()
                        && kept@[a] == all_entries[origin[a]],
                ok ==> forall|a: int, b: int|
                    0 <= a < b < kept@.len() ==> {
                        &&& (#[trigger] kept@[a]).player_id != (#[trigger] kept@[b]).player_id
                        &&& kept@[a].session_token@ != kept@[b].session_token@
                    },
        {
            proof {
                lemma_filter_take_step(all, live_at(timeout_ms, now_ms), it.index());
                lemma_filter_take_step(all, stale_at(timeout_ms, now_ms), it.index());
                assert(all[it.index()] == e@);
            }
            if e.connection.status.is_expired(now_ms) || e.connection.is_heartbeat_timeout_after(timeout_ms, now_ms) {
                expired.push(e.player_id);
                proof {
                    assert(expired@ =~= player_ids(all.take(it.index() + 1).filter(stale_at(timeout_ms, now_ms))));
                }
            } else {
                let ghost before = kept@;
                kept.push(e);
                proof {
                    assert(kept@.map_values(|e: Entry| e@) =~= before.map_values(|e: Entry| e@).push(
                        e@,
                    ));
                    origin = origin.push(it.index());
                    if ok {
                        assert forall|a: int, b: int| 0 <= a < b < kept@.len() implies {
                            &&& (#[trigger] kept@[a]).player_id != (#[trigger] kept@[b]).player_id
                            &&& kept@[a].session_token@ != kept@[b].session_token@
                        } by {
                            if b == kept@.len() - 1 {
                                let j = origin[a];
                                assert(kept@[a] == all_entries[j]);
                                assert(kept@[b] == all_entries[it.index()]);
                            } else {
                                assert(kept@[a] == before[a] && kept@[b] == before[b]);
                            }
                        }
                    }
                }
            }
        }
        proof {
            assert(all.take(all.len() as int) == all);
        }
        self.entries = kept;
        proof {
            if ok {
                assert forall|j: int|
                    0 <= j < all.len() && stale_at(timeout_ms, now_ms)(#[trigger] all[j]) implies
                    !self.tracks(all[j].player_id) && !self.token_in_use(
                    all[j].connection.session_token@,
                ) by {
                    lemma_swept_keys_gone(all, j, timeout_ms, now_ms);
                }
            }
        }
        expired
    }

    /// The ids of the players whose connection is connected, in order.
    pub fn connected_players(&self) -> (r: Vec<i64>)
        ensures
            r@ == player_ids(self@.filter(connected_entry())),
    {
        let ghost all = self@;
        let mut ids: Vec<i64> = Vec::new();
        let mut i: usize = 0;
        while i < self.entries.len()
            invariant
                i <= all.len(),
                all == self@,
                all.len() == self.entries@.len(),
                ids@ == player_ids(all.take(i as int).filter(connected_entry())),
            decreases all.len() - i,
        {
            proof {
                lemma_filter_take_step(all, connected_entry(), i as int);
            }
            if self.entries[i].connection.status.is_connected() {
                ids.push(self.entries[i].player_id);
                proof {
                    assert(ids@ =~= player_ids(all.take(i + 1).filter(connected_entry())));
                }
            }
            i = i + 1;
        }
        proof {
            assert(all.take(all.len() as int) == all);
        }
        ids
    }

    /// The ids of all tracked players (disconnected ones within their grace
    /// period included), in order.
    pub fn all_players(&self) -> (r: Vec<i64>)
        ensures
            r@ == player_ids(self@),
    {
        let mut ids: Vec<i64> = Vec::new();
        let mut i: usize = 0;
        while i < self.entries.len()
            invariant
                i <= self.entries@.len(),
                ids@ == player_ids(self@.take(i as int)),
            decreases self.entries@.len() - i,
        {
            ids.push(self.entries[i].player_id);
            proof {
                assert(ids@ =~= player_ids(self@.take(i + 1)));
            }
            i = i + 1;
        }
        proof {
            assert(self@.take(self@.len() as int) == self@);
        }
        ids
    }

    /// The number of connected players.
    pub fn connected_count(&self) -> (r: usize)
        ensures
            r == self@.filter(connected_entry()).len(),
    {
        let ghost all = self@;
        let mut n: usize = 0;
        let mut i: usize = 0;
        while i < self.entries.len()
            invariant
                i <= all.len(),
                all == self@,
                all.len() == self.entries@.len(),
                n == all.take(i as int).filter(connected_entry()).len(),
            decreases all.len() - i,
        {
            proof {
                lemma_filter_take_step(all, connected_entry(), i as int);
                all.take(i as int).filter(connected_entry()).lemma_filter_len(connected_entry());
            }
            if self.entries[i].connection.status.is_connected() {
                n = n + 1;
            }
            i = i + 1;
        }
        proof {
            assert(all.take(all.len() as int) == all);
        }
        n
    }

    /// The number of tracked players.
    pub fn total_count(&self) -> (r: usize)
        ensures
            r == self@.len(),
    {
        self.entries.len()
    }
}

/// A well-formed registry holds each player id and each session token at
/// most once, so a lookup by either key finds at most one connection, and
/// each connection is held under its own player id and session token.
pub proof fn lemma_wf_keys_unique(m: &ConnectionManager)
    requires
        m.wf(),
    ensures
        keys_unique(m@),
        keys_match(m@),
{
    assert forall|i: int, j: int| 0 <= i < j < m@.len() implies {
        &&& (#[trigger] m@[i]).player_id != (#[trigger] m@[j]).player_id
        &&& m@[i].session_token != m@[j].session_token
    } by {
        assert(m@[i] == m.entries@[i]@ && m@[j] == m.entries@[j]@);
    }
    assert forall|i: int| 0 <= i < m@.len() implies {
        &&& (#[trigger] m@[i]).connection.player_id == m@[i].player_id
        &&& m@[i].connection.session_token@ == m@[i].session_token
    } by {
        assert(m@[i] == m.entries@[i]@);
    }
}

/// Acknowledgment is monotonic: after acknowledging `n`, acknowledging any
/// `m <= n` leaves the acknowledgment mark where it is and brings back no
/// message.
pub proof fn lemma_lower_ack_changes_nothing(
    pending: Seq<PendingMessage>,
    ack_seq: u64,
    n: u64,
    m: u64,
)
    requires
        m <= n,
    ensures
        ack_mark_after(ack_mark_after(ack_seq, n), m) == ack_mark_after(ack_seq, n),
        pending_after(pending_after(pending, n), m) == pending_after(pending, n),
{
    let once = pending_after(pending, n);
    assert forall|i: int| 0 <= i < once.len() implies #[trigger] once[i].seq > m by {
        pending.lemma_filter_pred(above(n), i);
    }
    lemma_filter_keeps_all(once, above(m));
}

/// Filtering by a predicate that holds of every element changes nothing.
proof fn lemma_filter_keeps_all<A>(s: Seq<A>, keep: spec_fn(A) -> bool)
    requires
        forall|i: int| 0 <= i < s.len() ==> keep(#[trigger] s[i]),
    ensures
        s.filter(keep) == s,
    decreases s.len(),
{
    reveal_with_fuel(Seq::filter, 1);
    if s.len() > 0 {
        let rest = s.drop_last();
        assert forall|i: int| 0 <= i < rest.len() implies keep(#[trigger] rest[i]) by {
            assert(rest[i] == s[i]);
        }
        lemma_filter_keeps_all(rest, keep);
        assert(keep(s[s.len() - 1]));
        assert(rest.push(s.last()) =~= s);
    }
}

/// The number of sends in a run of calls (`Some` marks a send).
pub open spec fn count_sends(calls: Seq<Option<u64>>) -> nat
    decreases calls.len(),
{
    if calls.len() == 0 {
        0
    } else {
        count_sends(calls.drop_last()) + if calls.last() is Some {
            1nat
        } else {
            0nat
        }
    }
}

/// Sequence numbers only go up. Take any run of calls on a connection:
/// `states[i]` is the connection before call `i` and `states[i + 1]` after it;
/// `sent[i]` is `Some(r)` when call `i` is a send that returned `r`, and `None`
/// for any other call. As the contracts say, a send returns one more than the
/// `send_seq` it found and leaves `send_seq` at what it returned, and every
/// other call leaves `send_seq` as it is. Then the numbers returned are
/// strictly increasing, and the send that follows `k` earlier sends returns
/// the starting `send_seq` plus `k + 1`: from a new connection, 1, 2, 3, ...
pub proof fn lemma_send_numbers_increase(states: Seq<Connection>, sent: Seq<Option<u64>>)
    requires
        states.len() == sent.len() + 1,
        forall|i: int|
            0 <= i < sent.len() ==> match #[trigger] sent[i] {
                Some(r) => r == states[i].send_seq + 1 && states[i + 1].send_seq == r,
                None => states[i + 1].send_seq == states[i].send_seq,
            },
    ensures
        forall|i: int, j: int|
            0 <= i < j < sent.len() && (#[trigger] sent[i]) is Some && (#[trigger] sent[j]) is Some
                ==> sent[i]->0 < sent[j]->0,
        forall|i: int|
            0 <= i < sent.len() && (#[trigger] sent[i]) is Some ==> sent[i]->0 == states[0].send_seq
                + count_sends(sent.take(i)) + 1,
{
    assert forall|i: int| 0 <= i < sent.len() && (#[trigger] sent[i]) is Some implies sent[i]->0
        == states[0].send_seq + count_sends(sent.take(i)) + 1 by {
        lemma_run_counts_sends(states, sent, i);
    }
    assert forall|i: int, j: int|
        0 <= i < j < sent.len() && (#[trigger] sent[i]) is Some && (#[trigger] sent[j]) is Some
            implies sent[i]->0 < sent[j]->0 by {
        lemma_run_never_lowers(states, sent, i + 1, j);
    }
}

/// Before call `i` of such a run, `send_seq` has gone up by the number of
/// sends so far.
proof fn lemma_run_counts_sends(states: Seq<Connection>, sent: Seq<Option<u64>>, i: int)
    requires
        states.len() == sent.len() + 1,
        forall|i: int|
            0 <= i < sent.len() ==> match #[trigger] sent[i] {
                Some(r) => r == states[i].send_seq + 1 && states[i + 1].send_seq == r,
                None => states[i + 1].send_seq == states[i].send_seq,
            },
        0 <= i <= sent.len(),
    ensures
        states[i].send_seq == states[0].send_seq + count_sends(sent.take(i)),
    decreases i,
{
    if i > 0 {
        lemma_run_counts_sends(states, sent, i - 1);
        assert(sent.take(i).drop_last() =~= sent.take(i - 1));
        assert(sent.take(i).last() == sent[i - 1]);
        // Bring the step rule for call `i - 1` into play.
        assert(sent[i - 1] is Some || sent[i - 1] is None);
    } else {
        assert(sent.take(0).len() == 0);
    }
}

/// Along such a run, `send_seq` never goes down.
proof fn lemma_run_never_lowers(states: Seq<Connection>, sent: Seq<Option<u64>>, a: int, b: int)
    requires
        states.len() == sent.len() + 1,
        forall|i: int|
            0 <= i < sent.len() ==> match #[trigger] sent[i] {
                Some(r) => r == states[i].send_seq + 1 && states[i + 1].send_seq == r,
                None => states[i + 1].send_seq == states[i].send_seq,
            },
        0 <= a <= b <= sent.len(),
    ensures
        states[a].send_seq <= states[b].send_seq,
    decreases b - a,
{
    if a < b {
        lemma_run_never_lowers(states, sent, a, b - 1);
        // Bring the step rule for call `b - 1` into play.
        assert(sent[b - 1] is Some || sent[b - 1] is None);
    }
}

/// A zero grace period closes the window at once: right after a disconnect at
/// `now` with no grace, the connection counts as expired and is neither
/// connected nor reconnectable, so a reconnect at `now` is refused.
pub proof fn lemma_zero_grace_expires_at_once(status: ConnectionStatus, now: u64)
    ensures
        status_after_disconnect(status, 0, now).expired_at(now),
        !(status_after_disconnect(status, 0, now) is Connected),
        !status_after_disconnect(status, 0, now).reconnectable_at(now),
{
}

/// A connected connection whose last heartbeat is older than the heartbeat
/// timeout is overdue, and a sweep takes it: its player id is among the ids
/// returned and its entry is not among those kept. In a registry whose keys
/// are unique and match the connections, no kept entry has its player id or
/// its session token, so neither lookup finds it after the sweep.
pub proof fn lemma_overdue_heartbeat_is_swept(
    entries: Seq<TrackedConnection>,
    i: int,
    timeout: u64,
    now: u64,
)
    requires
        0 <= i < entries.len(),
        entries[i].connection.status is Connected,
        now - entries[i].connection.last_heartbeat > timeout,
    ensures
        entries[i].connection.heartbeat_overdue_after(timeout, now),
        player_ids(entries.filter(stale_at(timeout, now))).contains(entries[i].player_id),
        !entries.filter(live_at(timeout, now)).contains(entries[i]),
        keys_unique(entries) && keys_match(entries) ==> forall|k: int|
            0 <= k < entries.filter(live_at(timeout, now)).len() ==> {
                &&& (#[trigger] entries.filter(live_at(timeout, now))[k]).player_id
                    != entries[i].connection.player_id
                &&& entries.filter(live_at(timeout, now))[k].session_token
                    != entries[i].connection.session_token@
            },
{
    let e = entries[i];
    let kept = entries.filter(live_at(timeout, now));
    assert(entries.contains(e));
    entries.lemma_filter_contains_rev(stale_at(timeout, now), e);
    let swept = entries.filter(stale_at(timeout, now));
    let j = choose|j: int| 0 <= j < swept.len() && swept[j] == e;
    assert(player_ids(swept)[j] == e.player_id);
    if kept.contains(e) {
        let k = choose|k: int| 0 <= k < kept.len() && kept[k] == e;
        entries.lemma_filter_pred(live_at(timeout, now), k);
    }
    if keys_unique(entries) && keys_match(entries) {
        lemma_swept_keys_gone(entries, i, timeout, now);
    }
}

/// In a registry whose keys are unique and match the connections, no entry
/// kept by a sweep shares a key with an entry the sweep takes.
proof fn lemma_swept_keys_gone(entries: Seq<TrackedConnection>, i: int, timeout: u64, now: u64)
    requires
        0 <= i < entries.len(),
        stale_at(timeout, now)(entries[i]),
        keys_unique(entries),
        keys_match(entries),
    ensures
        forall|k: int|
            0 <= k < entries.filter(live_at(timeout, now)).len() ==> {
                &&& (#[trigger] entries.filter(live_at(timeout, now))[k]).player_id
                    != entries[i].connection.player_id
                &&& entries.filter(live_at(timeout, now))[k].session_token
                    != entries[i].connection.session_token@
            },
{
    let kept = entries.filter(live_at(timeout, now));
    assert forall|k: int| 0 <= k < kept.len() implies {
        &&& (#[trigger] kept[k]).player_id != entries[i].connection.player_id
        &&& kept[k].session_token != entries[i].connection.session_token@
    } by {
        assert(kept.contains(kept[k]));
        entries.lemma_filter_contains_rev(live_at(timeout, now), kept[k]);
        entries.lemma_filter_pred(live_at(timeout, now), k);
        let x = choose|x: int| 0 <= x < entries.len() && entries[x] == kept[k];
        assert(x != i);
        assert(entries[i].connection.player_id == entries[i].player_id);
        if x < i {
            assert(entries[x].player_id != entries[i].player_id);
        } else {
            assert(entries[i].player_id != entries[x].player_id);
        }
    }
}

/// Extending the scanned prefix by one element extends its filtered
/// selection by that element exactly when the predicate holds of it.
proof fn lemma_filter_take_step<A>(all: Seq<A>, keep: spec_fn(A) -> bool, i: int)
    requires
        0 <= i < all.len(),
    ensures
        all.take(i + 1).filter(keep) == if keep(all[i]) {
            all.take(i).filter(keep).push(all[i])
        } else {
            all.take(i).filter(keep)
        },
{
    let s = all.take(i + 1);
    assert(s.drop_last() =~= all.take(i));
    assert(s.last() == all[i]);
    reveal_with_fuel(Seq::filter, 1);
}

} // verus!
