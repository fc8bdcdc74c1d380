use runecast_state::connection::{
    Connection, ConnectionManager, ConnectionStatus, ReconnectError,
    DEFAULT_HEARTBEAT_TIMEOUT_MS, DEFAULT_RECONNECT_GRACE_PERIOD_MS,
};
use serde_json::Value;

const T0: u64 = 1_000;

fn make_connection(player_id: i64) -> Connection {
    Connection::new(
        player_id,
        format!("{}", player_id * 1000),
        format!("Player{}", player_id),
        None,
        format!("session-{}", player_id),
        T0,
    )
}

fn msg(kind: &str) -> Value {
    let mut fields = serde_json::Map::new();
    fields.insert("type".to_string(), Value::String(kind.to_string()));
    Value::Object(fields)
}

#[test]
fn test_connection_new() {
    let conn = make_connection(1);
    assert!(conn.status.is_connected());
    assert_eq!(conn.send_seq, 0);
    assert_eq!(conn.ack_seq, 0);
}

#[test]
fn test_connection_disconnect_reconnect() {
    let mut conn = make_connection(1);

    conn.disconnect(T0);
    assert!(!conn.status.is_connected());
    assert!(conn.status.is_reconnectable(T0));

    let pending = conn.reconnect(T0).unwrap();
    assert!(conn.status.is_connected());
    assert!(pending.is_empty());
}

#[test]
fn test_connection_expire() {
    let mut conn = make_connection(1);

    conn.disconnect_with_grace(0, T0);

    assert!(conn.status.is_expired(T0));
    assert!(conn.reconnect(T0).is_err());
}

#[test]
fn test_sequence_numbers() {
    let mut conn = make_connection(1);

    let seq1 = conn.send(msg("test1"), T0);
    let seq2 = conn.send(msg("test2"), T0);
    let seq3 = conn.send(msg("test3"), T0);

    assert_eq!(seq1, 1);
    assert_eq!(seq2, 2);
    assert_eq!(seq3, 3);
    assert_eq!(conn.pending_messages.len(), 3);

    conn.acknowledge(2);
    assert_eq!(conn.pending_messages.len(), 1);
    assert_eq!(conn.pending_messages[0].seq, 3);
}

#[test]
fn test_reconnect_replay() {
    let mut conn = make_connection(1);

    conn.send(msg("test1"), T0);
    conn.send(msg("test2"), T0);

    conn.disconnect(T0);

    let pending = conn.reconnect(T0).unwrap();
    assert_eq!(pending.len(), 2);
}

#[test]
fn connection_test_manager_basic() {
    let mut manager = ConnectionManager::new();

    manager.add(make_connection(1));
    manager.add(make_connection(2));

    assert_eq!(manager.connected_count(), 2);
    assert!(manager.get(1).is_some());
    assert!(manager.get(3).is_none());
}

#[test]
fn test_manager_session_lookup() {
    let mut manager = ConnectionManager::new();

    manager.add(make_connection(1));

    assert!(manager.get_by_session("session-1").is_some());
    assert!(manager.get_by_session("invalid").is_none());
}

#[test]
fn test_manager_disconnect_remove() {
    let mut manager = ConnectionManager::new();

    manager.add(make_connection(1));
    manager.disconnect(1, T0);

    assert!(manager.get(1).is_some());
    assert_eq!(manager.connected_count(), 0);

    manager.remove(1);
    assert!(manager.get(1).is_none());
}

#[test]
fn new_connection_fields() {
    let conn = make_connection(7);
    assert_eq!(conn.player_id, 7);
    assert_eq!(conn.user_id, "7000");
    assert_eq!(conn.username, "Player7");
    assert_eq!(conn.session_token, "session-7");
    assert_eq!(conn.connected_at, T0);
    assert_eq!(conn.last_activity, T0);
    assert_eq!(conn.last_heartbeat, T0);
    assert!(conn.pending_messages.is_empty());
    assert!(!conn.uses_envelope);
}

#[test]
fn reconnect_when_connected_keeps_counters() {
    let mut conn = make_connection(1);
    conn.send(msg("a"), T0);
    conn.send(msg("b"), T0);
    conn.acknowledge(1);
    let replay = conn.reconnect(T0 + 500).unwrap();
    assert!(replay.is_empty());
    assert_eq!(conn.send_seq, 2);
    assert_eq!(conn.ack_seq, 1);
    assert_eq!(conn.pending_messages.len(), 1);
    assert_eq!(conn.pending_messages[0].seq, 2);
    assert_eq!(conn.last_activity, T0 + 500);
    assert_eq!(conn.last_heartbeat, T0);
}

#[test]
fn lower_acknowledgment_changes_nothing() {
    let mut conn = make_connection(1);
    for kind in ["a", "b", "c", "d"] {
        conn.send(msg(kind), T0);
    }
    conn.acknowledge(3);
    assert_eq!(conn.ack_seq, 3);
    conn.acknowledge(1);
    assert_eq!(conn.ack_seq, 3);
    assert_eq!(conn.pending_messages.len(), 1);
    assert_eq!(conn.pending_messages[0].seq, 4);
}

#[test]
fn acknowledgment_beyond_last_sent() {
    let mut conn = make_connection(1);
    conn.acknowledge(5);
    assert_eq!(conn.ack_seq, 5);
    conn.send(msg("a"), T0);
    conn.send(msg("b"), T0);
    conn.acknowledge(10);
    assert!(conn.pending_messages.is_empty());
    assert_eq!(conn.ack_seq, 10);
    let next = conn.send(msg("c"), T0);
    assert_eq!(next, 3);
    assert_eq!(conn.pending_messages.len(), 1);
}

#[test]
fn send_numbers_with_other_calls_between() {
    let mut conn = make_connection(1);
    let first = conn.send(msg("a"), T0);
    conn.heartbeat(T0 + 1);
    let second = conn.send(msg("b"), T0 + 2);
    conn.acknowledge(2);
    conn.touch(T0 + 3);
    let third = conn.send(msg("c"), T0 + 4);
    assert_eq!((first, second, third), (1, 2, 3));
    assert_eq!(conn.send_seq, 3);
}

#[test]
fn configurable_heartbeat_timeout() {
    let mut manager = ConnectionManager::new();
    manager.add(make_connection(1));
    manager.add(make_connection(2));
    manager.get_mut(2).unwrap().heartbeat(T0 + 8_000);
    let conn = manager.get(1).unwrap();
    assert!(!conn.is_heartbeat_timeout_after(10_000, T0 + 10_000));
    assert!(conn.is_heartbeat_timeout_after(10_000, T0 + 10_001));
    assert!(!conn.is_heartbeat_timeout(T0 + 10_001));
    assert_eq!(manager.expire_stale_with_timeout(10_000, T0 + 10_001), vec![1]);
    assert_eq!(manager.all_players(), vec![2]);
}

#[test]
fn replay_returns_unacknowledged_in_order() {
    let mut conn = make_connection(1);
    conn.send(msg("m1"), T0);
    conn.send(msg("m2"), T0 + 1);
    conn.send(msg("m3"), T0 + 2);
    conn.disconnect(T0 + 10);
    let replay = conn.reconnect(T0 + 20).unwrap();
    let seqs: Vec<u64> = replay.iter().map(|m| m.seq).collect();
    assert_eq!(seqs, vec![1, 2, 3]);
    assert_eq!(replay[0].message, msg("m1"));
    assert_eq!(replay[2].message, msg("m3"));
    assert_eq!(replay[1].sent_at, T0 + 1);
    assert_eq!(conn.status, ConnectionStatus::Connected);
    assert_eq!(conn.last_heartbeat, T0 + 20);
}

#[test]
fn replay_after_partial_acknowledgment() {
    let mut conn = make_connection(1);
    conn.send(msg("m1"), T0);
    conn.send(msg("m2"), T0);
    conn.send(msg("m3"), T0);
    conn.acknowledge(2);
    conn.disconnect(T0 + 10);
    let replay = conn.reconnect(T0 + 20).unwrap();
    assert_eq!(replay.len(), 1);
    assert_eq!(replay[0].seq, 3);
    assert_eq!(replay[0].message, msg("m3"));
}

#[test]
fn zero_grace_refuses_reconnect() {
    let mut conn = make_connection(1);
    conn.send(msg("m1"), T0);
    conn.disconnect_with_grace(0, T0 + 5);
    assert!(conn.status.is_expired(T0 + 5));
    assert!(!conn.status.is_reconnectable(T0 + 5));
    assert_eq!(conn.reconnect(T0 + 5).unwrap_err(), ReconnectError::GraceExpired);
    assert_eq!(conn.pending_messages.len(), 1);
}

#[test]
fn grace_window_boundary() {
    let mut conn = make_connection(1);
    conn.disconnect(T0);
    assert_eq!(
        conn.status,
        ConnectionStatus::Disconnected {
            since: T0,
            grace_until: T0 + DEFAULT_RECONNECT_GRACE_PERIOD_MS,
        }
    );
    let last_open = T0 + DEFAULT_RECONNECT_GRACE_PERIOD_MS - 1;
    assert!(conn.status.is_reconnectable(last_open));
    assert!(!conn.status.is_expired(last_open));
    let closed = T0 + DEFAULT_RECONNECT_GRACE_PERIOD_MS;
    assert!(conn.status.is_expired(closed));
    assert_eq!(conn.reconnect(closed).unwrap_err(), ReconnectError::GraceExpired);
}

#[test]
fn grace_deadline_saturates() {
    let mut conn = make_connection(1);
    conn.disconnect_with_grace(u64::MAX, 10);
    assert_eq!(conn.status, ConnectionStatus::Disconnected { since: 10, grace_until: u64::MAX });
}

#[test]
fn disconnect_again_restarts_window() {
    let mut conn = make_connection(1);
    conn.disconnect_with_grace(100, T0);
    conn.disconnect_with_grace(50, T0 + 70);
    assert_eq!(
        conn.status,
        ConnectionStatus::Disconnected { since: T0 + 70, grace_until: T0 + 120 }
    );
}

#[test]
fn expired_connection_stays_expired() {
    let mut conn = make_connection(1);
    conn.send(msg("m1"), T0);
    conn.expire();
    assert_eq!(conn.status, ConnectionStatus::Expired);
    assert!(conn.pending_messages.is_empty());
    conn.disconnect(T0 + 1);
    assert_eq!(conn.status, ConnectionStatus::Expired);
    assert_eq!(conn.reconnect(T0 + 2).unwrap_err(), ReconnectError::AlreadyExpired);
    assert_eq!(ReconnectError::AlreadyExpired.as_str(), "Connection expired");
    assert_eq!(ReconnectError::GraceExpired.as_str(), "Grace period expired");
}

#[test]
fn heartbeat_timeout_boundary() {
    let mut conn = make_connection(1);
    assert!(!conn.is_heartbeat_timeout(T0 + DEFAULT_HEARTBEAT_TIMEOUT_MS));
    assert!(conn.is_heartbeat_timeout(T0 + DEFAULT_HEARTBEAT_TIMEOUT_MS + 1));
    conn.heartbeat(T0 + 10);
    assert_eq!(conn.last_heartbeat, T0 + 10);
    assert_eq!(conn.last_activity, T0 + 10);
    assert!(!conn.is_heartbeat_timeout(T0 + DEFAULT_HEARTBEAT_TIMEOUT_MS + 1));
    conn.disconnect(T0 + 20);
    assert!(!conn.is_heartbeat_timeout(T0 + 10 * DEFAULT_HEARTBEAT_TIMEOUT_MS));
}

#[test]
fn touch_and_idle_time() {
    let mut conn = make_connection(1);
    conn.touch(T0 + 300);
    assert_eq!(conn.last_activity, T0 + 300);
    assert_eq!(conn.last_heartbeat, T0);
    assert_eq!(conn.idle_time(T0 + 1_300), 1_000);
    assert_eq!(conn.idle_time(T0), 0);
}

#[test]
fn messages_since_filters_in_order() {
    let mut conn = make_connection(1);
    for kind in ["a", "b", "c", "d"] {
        conn.send(msg(kind), T0);
    }
    let since: Vec<u64> = conn.messages_since(2).iter().map(|m| m.seq).collect();
    assert_eq!(since, vec![3, 4]);
    assert_eq!(conn.messages_since(0).len(), 4);
    assert!(conn.messages_since(4).is_empty());
}

#[test]
fn sweep_takes_overdue_heartbeat_and_closed_grace() {
    let mut manager = ConnectionManager::new();
    manager.add(make_connection(1));
    manager.add(make_connection(2));
    manager.add(make_connection(3));
    manager.get_mut(2).unwrap().heartbeat(T0 + 30_000);
    manager.get_mut(3).unwrap().disconnect_with_grace(5_000, T0);
    let now = T0 + DEFAULT_HEARTBEAT_TIMEOUT_MS + 1;
    assert!(manager.get(1).unwrap().is_heartbeat_timeout(now));
    let expired = manager.expire_stale(now);
    assert_eq!(expired, vec![1, 3]);
    assert_eq!(manager.all_players(), vec![2]);
    assert!(manager.get_by_session("session-1").is_none());
    assert!(manager.get_by_session("session-3").is_none());
    assert!(manager.get_by_session("session-2").is_some());
    assert!(manager.expire_stale(now).is_empty());
}

#[test]
fn manager_lookups_and_counts() {
    let mut manager = ConnectionManager::new();
    manager.add(make_connection(1));
    manager.add(make_connection(2));
    manager.add(make_connection(3));
    manager.disconnect(2, T0);
    assert_eq!(manager.total_count(), 3);
    assert_eq!(manager.connected_count(), 2);
    assert_eq!(manager.connected_players(), vec![1, 3]);
    assert_eq!(manager.all_players(), vec![1, 2, 3]);
    assert_eq!(manager.get_by_session("session-3").unwrap().player_id, 3);

    let conn = manager.get_by_session_mut("session-2").unwrap();
    conn.reconnect(T0 + 1).unwrap();
    assert_eq!(manager.connected_count(), 3);

    let removed = manager.remove(2).unwrap();
    assert_eq!(removed.username, "Player2");
    assert!(manager.remove(2).is_none());
    assert!(manager.get_by_session("session-2").is_none());
    assert_eq!(manager.all_players(), vec![1, 3]);
}

#[test]
fn connection_clone_is_equal_copy() {
    let mut conn = make_connection(4);
    conn.send(msg("a"), T0);
    conn.disconnect(T0 + 1);
    let copy = conn.clone();
    assert_eq!(copy.player_id, 4);
    assert_eq!(copy.session_token, "session-4");
    assert_eq!(copy.status, conn.status);
    assert_eq!(copy.pending_messages.len(), 1);
    assert_eq!(copy.pending_messages[0].message, msg("a"));
    assert_eq!(copy.send_seq, 1);
}
