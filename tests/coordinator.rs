use runecast_state::connection::Connection;
use runecast_state::coordinator::{AppState, CleanupResult};
use runecast_state::player::{PlayerEvent, PlayerLocation, RejectReason};

fn make_connection(player_id: i64, now_ms: u64) -> Connection {
    Connection::new(
        player_id,
        format!("{}", player_id * 1000),
        format!("Player{}", player_id),
        None,
        format!("session-{}", player_id),
        now_ms,
    )
}

fn join(lobby_id: &str) -> PlayerEvent {
    PlayerEvent::JoinLobby { lobby_id: lobby_id.to_string() }
}

#[test]
fn test_app_state_basic() {
    let mut state = AppState::new();

    let ps = state.player_state(1);
    assert!(!ps.is_connected());

    state.apply_player_event(1, PlayerEvent::Connect).unwrap();
    assert!(state.get_player_state(1).unwrap().is_connected());
}

#[test]
fn end_to_end_lobby_and_game() {
    let mut app = AppState::new();
    app.connections.add(make_connection(1, 0));

    app.apply_player_event(1, PlayerEvent::Connect).unwrap();
    assert_eq!(*app.get_player_state(1).unwrap().location(), PlayerLocation::Connected);

    app.apply_player_event(1, join("L1")).unwrap();
    let in_l1 = PlayerLocation::InLobby { lobby_id: "L1".to_string() };
    assert_eq!(*app.get_player_state(1).unwrap().location(), in_l1);

    let err = app.apply_player_event(1, join("L2")).unwrap_err();
    assert_eq!(err.reason, RejectReason::AlreadyInLobby);
    assert_eq!(err.reason.as_str(), "Already in a lobby");
    assert_eq!(err.from, in_l1);
    assert_eq!(*app.get_player_state(1).unwrap().location(), in_l1);

    app.apply_player_event(1, PlayerEvent::StartGame { game_id: "G1".to_string() })
        .unwrap();
    assert_eq!(
        *app.get_player_state(1).unwrap().location(),
        PlayerLocation::InGame { lobby_id: "L1".to_string(), game_id: "G1".to_string() }
    );

    app.apply_player_event(1, PlayerEvent::LeaveGame).unwrap();
    assert_eq!(*app.get_player_state(1).unwrap().location(), in_l1);
}

#[test]
fn sweep_forces_player_in_game_to_disconnected() {
    let mut app = AppState::new();
    app.connections.add(make_connection(1, 0));
    app.connections.add(make_connection(2, 0));
    for event in [PlayerEvent::Connect, join("L1"), PlayerEvent::StartGame { game_id: "G1".to_string() }] {
        app.apply_player_event(1, event).unwrap();
    }
    app.apply_player_event(2, PlayerEvent::Connect).unwrap();

    app.connections.get_mut(1).unwrap().disconnect_with_grace(0, 100);
    app.connections.get_mut(2).unwrap().heartbeat(100);

    let result = app.cleanup(100);
    assert_eq!(result.expired_connections, vec![1]);
    assert!(!result.is_empty());
    assert_eq!(*app.get_player_state(1).unwrap().location(), PlayerLocation::Disconnected);
    assert_eq!(*app.get_player_state(2).unwrap().location(), PlayerLocation::Connected);
    assert!(app.connections.get(1).is_none());
    assert!(app.connections.get(2).is_some());

    assert!(app.cleanup(100).is_empty());
}

#[test]
fn sweep_of_already_disconnected_player_keeps_disconnected() {
    let mut app = AppState::new();
    app.connections.add(make_connection(5, 0));
    app.player_state(5);
    app.connections.get_mut(5).unwrap().expire();
    let result = app.cleanup(1);
    assert_eq!(result.expired_connections, vec![5]);
    assert_eq!(*app.get_player_state(5).unwrap().location(), PlayerLocation::Disconnected);
}

#[test]
fn player_state_bookkeeping() {
    let mut app = AppState::new();
    assert!(app.get_player_state(9).is_none());
    let err = app.apply_player_event(9, PlayerEvent::LeaveLobby).unwrap_err();
    assert_eq!(err.reason, RejectReason::NotInLobby);
    assert_eq!(err.from, PlayerLocation::Disconnected);
    assert!(app.get_player_state(9).is_some());
    let removed = app.remove_player_state(9).unwrap();
    assert!(!removed.is_connected());
    assert!(app.remove_player_state(9).is_none());
    let empty = CleanupResult::default();
    assert!(empty.is_empty());
}

#[test]
fn accessors_and_configurable_sweep() {
    let mut app = AppState::new();
    app.connections_mut().add(make_connection(1, 0));
    app.connections_mut().add(make_connection(2, 0));
    app.apply_player_event(1, PlayerEvent::Connect).unwrap();
    app.connections_mut().get_mut(2).unwrap().heartbeat(4_000);
    assert_eq!(app.connections().total_count(), 2);
    let result = app.cleanup_with_timeout(5_000, 5_001);
    assert_eq!(result.expired_connections, vec![1]);
    assert_eq!(*app.get_player_state(1).unwrap().location(), PlayerLocation::Disconnected);
    assert_eq!(app.connections().all_players(), vec![2]);
    assert!(app.get_player_state(2).is_none());
}
