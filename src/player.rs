//! Player location state machine.
//!
//! Every player has exactly one location. Events move a player between
//! locations; an event that is not legal from the current location is
//! rejected with a reason code and leaves the location as it was.
//!
//! ```text
//! Disconnected --connect--> Connected --join lobby--> InLobby
//! InLobby --start/join game--> InGame <--become player/spectator--> Spectating
//! InGame / Spectating --leave game--> InLobby --leave lobby--> Connected
//! any location but Disconnected --disconnect--> Disconnected
//! ```

use vstd::prelude::*;

verus! {

/// Where a player currently is.
#[derive(Debug, PartialEq, Eq)]
pub enum PlayerLocation {
    /// Not connected.
    Disconnected,
    /// Connected but not in any lobby.
    Connected,
    /// In a lobby, not in a game.
    InLobby { lobby_id: String },
    /// Playing in a game (and so also in the game's lobby).
    InGame { lobby_id: String, game_id: String },
    /// Watching a game (and so also in the game's lobby).
    Spectating { lobby_id: String, game_id: String },
}

/// The mathematical value of a [`PlayerLocation`]: identifiers as character sequences.
pub enum LocationView {
    Disconnected,
    Connected,
    InLobby { lobby_id: Seq<char> },
    InGame { lobby_id: Seq<char>, game_id: Seq<char> },
    Spectating { lobby_id: Seq<char>, game_id: Seq<char> },
}

impl LocationView {
    /// The lobby the player is in, if any.
    pub open spec fn lobby(self) -> Option<Seq<char>> {
        match self {
            LocationView::InLobby { lobby_id } => Some(lobby_id),
            LocationView::InGame { lobby_id, .. } => Some(lobby_id),
            LocationView::Spectating { lobby_id, .. } => Some(lobby_id),
            _ => None,
        }
    }

    /// The game the player plays or watches, if any.
    pub open spec fn game(self) -> Option<Seq<char>> {
        match self {
            LocationView::InGame { game_id, .. } => Some(game_id),
            LocationView::Spectating { game_id, .. } => Some(game_id),
            _ => None,
        }
    }

    /// The text form of a location: `InGame(lobby, game)` and the like.
    pub open spec fn text(self) -> Seq<char> {
        match self {
            LocationView::Disconnected => "Disconnected"@,
            LocationView::Connected => "Connected"@,
            LocationView::InLobby { lobby_id } => "InLobby("@ + lobby_id + ")"@,
            LocationView::InGame { lobby_id, game_id } => "InGame("@ + lobby_id + ", "@ + game_id
                + ")"@,
            LocationView::Spectating { lobby_id, game_id } => "Spectating("@ + lobby_id + ", "@
                + game_id + ")"@,
        }
    }
}

impl View for PlayerLocation {
    type V = LocationView;

    open spec fn view(&self) -> LocationView {
        match self {
            PlayerLocation::Disconnected => LocationView::Disconnected,
            PlayerLocation::Connected => LocationView::Connected,
            PlayerLocation::InLobby { lobby_id } => LocationView::InLobby { lobby_id: lobby_id@ },
            PlayerLocation::InGame { lobby_id, game_id } => LocationView::InGame {
                lobby_id: lobby_id@,
                game_id: game_id@,
            },
            PlayerLocation::Spectating { lobby_id, game_id } => LocationView::Spectating {
                lobby_id: lobby_id@,
                game_id: game_id@,
            },
        }
    }
}

impl Clone for PlayerLocation {
    fn clone(&self) -> (r: Self)
        ensures
            r == *self,
    {
        match self {
            PlayerLocation::Disconnected => PlayerLocation::Disconnected,
            PlayerLocation::Connected => PlayerLocation::Connected,
            PlayerLocation::InLobby { lobby_id } => PlayerLocation::InLobby {
                lobby_id: lobby_id.clone(),
            },
            PlayerLocation::InGame { lobby_id, game_id } => PlayerLocation::InGame {
                lobby_id: lobby_id.clone(),
                game_id: game_id.clone(),
            },
            PlayerLocation::Spectating { lobby_id, game_id } => PlayerLocation::Spectating {
                lobby_id: lobby_id.clone(),
                game_id: game_id.clone(),
            },
        }
    }
}

impl Default for PlayerLocation {
    fn default() -> (r: Self)
        ensures
            r is Disconnected,
    {
        PlayerLocation::Disconnected
    }
}

impl PlayerLocation {
    /// Connected in any form (every location but `Disconnected`).
    pub fn is_connected(&self) -> (r: bool)
        ensures
            r == !(self is Disconnected),
    {
        !matches!(self, PlayerLocation::Disconnected)
    }

    /// In a lobby, whether or not also in a game.
    pub fn is_in_lobby(&self) -> (r: bool)
        ensures
            r == (self@.lobby() is Some),
    {
        match self {
            PlayerLocation::InLobby { .. } => true,
            PlayerLocation::InGame { .. } => true,
            PlayerLocation::Spectating { .. } => true,
            _ => false,
        }
    }

    /// Playing or watching a game.
    pub fn is_in_game(&self) -> (r: bool)
        ensures
            r == (self@.game() is Some),
    {
        match self {
            PlayerLocation::InGame { .. } => true,
            PlayerLocation::Spectating { .. } => true,
            _ => false,
        }
    }

    /// Playing a game (not watching).
    pub fn is_playing(&self) -> (r: bool)
        ensures
            r == (self is InGame),
    {
        matches!(self, PlayerLocation::InGame { .. })
    }

    /// Watching a game.
    pub fn is_spectating(&self) -> (r: bool)
        ensures
            r == (self is Spectating),
    {
        matches!(self, PlayerLocation::Spectating { .. })
    }

    /// The lobby id, if the player is in a lobby.
    pub fn lobby_id(&self) -> (r: Option<&str>)
        ensures
            match r {
                Some(s) => self@.lobby() == Some(s@),
                None => self@.lobby() is None,
            },
    {
        match self {
            PlayerLocation::InLobby { lobby_id } => Some(lobby_id.as_str()),
            PlayerLocation::InGame { lobby_id, .. } => Some(lobby_id.as_str()),
            PlayerLocation::Spectating { lobby_id, .. } => Some(lobby_id.as_str()),
            _ => None,
        }
    }

    /// The game id, if the player plays or watches a game.
    pub fn game_id(&self) -> (r: Option<&str>)
        ensures
            match r {
                Some(s) => self@.game() == Some(s@),
                None => self@.game() is None,
            },
    {
        match self {
            PlayerLocation::InGame { game_id, .. } => Some(game_id.as_str()),
            PlayerLocation::Spectating { game_id, .. } => Some(game_id.as_str()),
            _ => None,
        }
    }

    /// The text form of the location, such as `InGame(lobby-1, game-1)`.
    pub fn to_display_string(&self) -> (r: String)
        ensures
            r@ == self@.text(),
    {
        match self {
            PlayerLocation::Disconnected => String::from_str("Disconnected"),
            PlayerLocation::Connected => String::from_str("Connected"),
            PlayerLocation::InLobby { lobby_id } => {
                let mut s = String::from_str("InLobby(");
                s.append(lobby_id.as_str());
                s.append(")");
                s
            },
            PlayerLocation::InGame { lobby_id, game_id } => {
                let mut s = String::from_str("InGame(");
                s.append(lobby_id.as_str());
                s.append(", ");
                s.append(game_id.as_str());
                s.append(")");
                s
            },
            PlayerLocation::Spectating { lobby_id, game_id } => {
                let mut s = String::from_str("Spectating(");
                s.append(lobby_id.as_str());
                s.append(", ");
                s.append(game_id.as_str());
                s.append(")");
                s
            },
        }
    }
}

/// An event that asks to move a player.
#[derive(Debug, PartialEq, Eq)]
pub enum PlayerEvent {
    Connect,
    Disconnect,
    JoinLobby { lobby_id: String },
    LeaveLobby,
    StartGame { game_id: String },
    JoinGame { game_id: String },
    SpectateGame { game_id: String },
    LeaveGame,
    BecomePlayer,
    BecomeSpectator,
}

/// The mathematical value of a [`PlayerEvent`].
pub enum EventView {
    Connect,
    Disconnect,
    JoinLobby { lobby_id: Seq<char> },
    LeaveLobby,
    StartGame { game_id: Seq<char> },
    JoinGame { game_id: Seq<char> },
    SpectateGame { game_id: Seq<char> },
    LeaveGame,
    BecomePlayer,
    BecomeSpectator,
}

impl EventView {
    /// The text form of an event, as in `JoinLobby { lobby_id: "L1" }`.
    pub open spec fn text(self) -> Seq<char> {
        match self {
            EventView::Connect => "Connect"@,
            EventView::Disconnect => "Disconnect"@,
            EventView::JoinLobby { lobby_id } => "JoinLobby { lobby_id: \""@ + lobby_id + "\" }"@,
            EventView::LeaveLobby => "LeaveLobby"@,
            EventView::StartGame { game_id } => "StartGame { game_id: \""@ + game_id + "\" }"@,
            EventView::JoinGame { game_id } => "JoinGame { game_id: \""@ + game_id + "\" }"@,
            EventView::SpectateGame { game_id } => "SpectateGame { game_id: \""@ + game_id
                + "\" }"@,
            EventView::LeaveGame => "LeaveGame"@,
            EventView::BecomePlayer => "BecomePlayer"@,
            EventView::BecomeSpectator => "BecomeSpectator"@,
        }
    }
}

impl View for PlayerEvent {
    type V = EventView;

    open spec fn view(&self) -> EventView {
        match self {
            PlayerEvent::Connect => EventView::Connect,
            PlayerEvent::Disconnect => EventView::Disconnect,
            PlayerEvent::JoinLobby { lobby_id } => EventView::JoinLobby { lobby_id: lobby_id@ },
            PlayerEvent::LeaveLobby => EventView::LeaveLobby,
            PlayerEvent::StartGame { game_id } => EventView::StartGame { game_id: game_id@ },
            PlayerEvent::JoinGame { game_id } => EventView::JoinGame { game_id: game_id@ },
            PlayerEvent::SpectateGame { game_id } => EventView::SpectateGame { game_id: game_id@ },
            PlayerEvent::LeaveGame => EventView::LeaveGame,
            PlayerEvent::BecomePlayer => EventView::BecomePlayer,
            PlayerEvent::BecomeSpectator => EventView::BecomeSpectator,
        }
    }
}

impl Clone for PlayerEvent {
    fn clone(&self) -> (r: Self)
        ensures
            r == *self,
    {
        match self {
            PlayerEvent::Connect => PlayerEvent::Connect,
            PlayerEvent::Disconnect => PlayerEvent::Disconnect,
            PlayerEvent::JoinLobby { lobby_id } => PlayerEvent::JoinLobby {
                lobby_id: lobby_id.clone(),
            },
            PlayerEvent::LeaveLobby => PlayerEvent::LeaveLobby,
            PlayerEvent::StartGame { game_id } => PlayerEvent::StartGame {
                game_id: game_id.clone(),
            },
            PlayerEvent::JoinGame { game_id } => PlayerEvent::JoinGame { game_id: game_id.clone() },
            PlayerEvent::SpectateGame { game_id } => PlayerEvent::SpectateGame {
                game_id: game_id.clone(),
            },
            PlayerEvent::LeaveGame => PlayerEvent::LeaveGame,
            PlayerEvent::BecomePlayer => PlayerEvent::BecomePlayer,
            PlayerEvent::BecomeSpectator => PlayerEvent::BecomeSpectator,
        }
    }
}

impl PlayerEvent {
    /// The text form of the event, such as `JoinLobby { lobby_id: "L1" }`.
    pub fn to_display_string(&self) -> (r: String)
        ensures
            r@ == self@.text(),
    {
        match self {
            PlayerEvent::Connect => String::from_str("Connect"),
            PlayerEvent::Disconnect => String::from_str("Disconnect"),
            PlayerEvent::JoinLobby { lobby_id } => {
                let mut s = String::from_str("JoinLobby { lobby_id: \"");
                s.append(lobby_id.as_str());
                s.append("\" }");
                s
            },
            PlayerEvent::LeaveLobby => String::from_str("LeaveLobby"),
            PlayerEvent::StartGame { game_id } => {
                let mut s = String::from_str("StartGame { game_id: \"");
                s.append(game_id.as_str());
                s.append("\" }");
                s
            },
            PlayerEvent::JoinGame { game_id } => {
                let mut s = String::from_str("JoinGame { game_id: \"");
                s.append(game_id.as_str());
                s.append("\" }");
                s
            },
            PlayerEvent::SpectateGame { game_id } => {
                let mut s = String::from_str("SpectateGame { game_id: \"");
                s.append(game_id.as_str());
                s.append("\" }");
                s
            },
            PlayerEvent::LeaveGame => String::from_str("LeaveGame"),
            PlayerEvent::BecomePlayer => String::from_str("BecomePlayer"),
            PlayerEvent::BecomeSpectator => String::from_str("BecomeSpectator"),
        }
    }
}

/// Why an event was rejected: a stable, machine-readable code.
#[derive(Debug, Clone, Copy, PartialEq, Eq, Structural)]
pub enum RejectReason {
    AlreadyConnected,
    AlreadyDisconnected,
    AlreadyInLobby,
    MustLeaveGameFirst,
    MustConnectFirst,
    NotInLobby,
    AlreadyInGame,
    MustBeInLobbyToStartGame,
    AlreadyPlaying,
    MustBeInLobbyOrSpectating,
    AlreadySpectating,
    NotInGame,
    AlreadyPlayer,
    MustBeSpectating,
    MustBeInGame,
}

impl RejectReason {
    /// The human-readable text of each code.
    pub open spec fn text(self) -> Seq<char> {
        match self {
            RejectReason::AlreadyConnected => "Already connected"@,
            RejectReason::AlreadyDisconnected => "Already disconnected"@,
            RejectReason::AlreadyInLobby => "Already in a lobby"@,
            RejectReason::MustLeaveGameFirst => "Must leave game first"@,
            RejectReason::MustConnectFirst => "Must connect first"@,
            RejectReason::NotInLobby => "Not in a lobby"@,
            RejectReason::AlreadyInGame => "Already in a game"@,
            RejectReason::MustBeInLobbyToStartGame => "Must be in a lobby to start a game"@,
            RejectReason::AlreadyPlaying => "Already playing"@,
            RejectReason::MustBeInLobbyOrSpectating => "Must be in lobby or spectating"@,
            RejectReason::AlreadySpectating => "Already spectating"@,
            RejectReason::NotInGame => "Not in a game"@,
            RejectReason::AlreadyPlayer => "Already a player"@,
            RejectReason::MustBeSpectating => "Must be spectating"@,
            RejectReason::MustBeInGame => "Must be in a game"@,
        }
    }

    /// The human-readable text of this code.
    pub fn as_str(&self) -> (r: &'static str)
        ensures
            r@ == self.text(),
    {
        match self {
            RejectReason::AlreadyConnected => "Already connected",
            RejectReason::AlreadyDisconnected => "Already disconnected",
            RejectReason::AlreadyInLobby => "Already in a lobby",
            RejectReason::MustLeaveGameFirst => "Must leave game first",
            RejectReason::MustConnectFirst => "Must connect first",
            RejectReason::NotInLobby => "Not in a lobby",
            RejectReason::AlreadyInGame => "Already in a game",
            RejectReason::MustBeInLobbyToStartGame => "Must be in a lobby to start a game",
            RejectReason::AlreadyPlaying => "Already playing",
            RejectReason::MustBeInLobbyOrSpectating => "Must be in lobby or spectating",
            RejectReason::AlreadySpectating => "Already spectating",
            RejectReason::NotInGame => "Not in a game",
            RejectReason::AlreadyPlayer => "Already a player",
            RejectReason::MustBeSpectating => "Must be spectating",
            RejectReason::MustBeInGame => "Must be in a game",
        }
    }
}

/// The lobby id given to a player who starts watching a game without having
/// joined its lobby.
pub open spec fn placeholder_lobby(game_id: Seq<char>) -> Seq<char> {
    "spectate-"@ + game_id
}

/// The transition table: the location an event leads to, or why it is rejected.
///
/// Every (location, event) pair has exactly one outcome.
pub open spec fn next_location(from: LocationView, event: EventView) -> Result<
    LocationView,
    RejectReason,
> {
    match event {
        EventView::Connect => match from {
            LocationView::Disconnected => Ok(LocationView::Connected),
            _ => Err(RejectReason::AlreadyConnected),
        },
        EventView::Disconnect => match from {
            LocationView::Disconnected => Err(RejectReason::AlreadyDisconnected),
            _ => Ok(LocationView::Disconnected),
        },
        EventView::JoinLobby { lobby_id } => match from {
            LocationView::Connected => Ok(LocationView::InLobby { lobby_id }),
            LocationView::InLobby { .. } => Err(RejectReason::AlreadyInLobby),
            LocationView::InGame { .. } => Err(RejectReason::MustLeaveGameFirst),
            LocationView::Spectating { .. } => Err(RejectReason::MustLeaveGameFirst),
            LocationView::Disconnected => Err(RejectReason::MustConnectFirst),
        },
        EventView::LeaveLobby => match from {
            LocationView::InLobby { .. } => Ok(LocationView::Connected),
            LocationView::InGame { .. } => Err(RejectReason::MustLeaveGameFirst),
            LocationView::Spectating { .. } => Err(RejectReason::MustLeaveGameFirst),
            _ => Err(RejectReason::NotInLobby),
        },
        EventView::StartGame { game_id } => match from {
            LocationView::InLobby { lobby_id } => Ok(LocationView::InGame { lobby_id, game_id }),
            LocationView::InGame { .. } => Err(RejectReason::AlreadyInGame),
            _ => Err(RejectReason::MustBeInLobbyToStartGame),
        },
        EventView::JoinGame { game_id } => match from {
            LocationView::InLobby { lobby_id } => Ok(LocationView::InGame { lobby_id, game_id }),
            LocationView::Spectating { lobby_id, .. } => Ok(
                LocationView::InGame { lobby_id, game_id },
            ),
            LocationView::InGame { .. } => Err(RejectReason::AlreadyPlaying),
            _ => Err(RejectReason::MustBeInLobbyOrSpectating),
        },
        EventView::SpectateGame { game_id } => match from {
            LocationView::InLobby { lobby_id } => Ok(
                LocationView::Spectating { lobby_id, game_id },
            ),
            LocationView::Connected => Ok(
                LocationView::Spectating { lobby_id: placeholder_lobby(game_id), game_id },
            ),
            LocationView::InGame { .. } => Err(RejectReason::AlreadyInGame),
            LocationView::Spectating { .. } => Err(RejectReason::AlreadySpectating),
            LocationView::Disconnected => Err(RejectReason::MustConnectFirst),
        },
        EventView::LeaveGame => match from {
            LocationView::InGame { lobby_id, .. } => Ok(LocationView::InLobby { lobby_id }),
            LocationView::Spectating { lobby_id, .. } => Ok(LocationView::InLobby { lobby_id }),
            _ => Err(RejectReason::NotInGame),
        },
        EventView::BecomePlayer => match from {
            LocationView::Spectating { lobby_id, game_id } => Ok(
                LocationView::InGame { lobby_id, game_id },
            ),
            LocationView::InGame { .. } => Err(RejectReason::AlreadyPlayer),
            _ => Err(RejectReason::MustBeSpectating),
        },
        EventView::BecomeSpectator => match from {
            LocationView::InGame { lobby_id, game_id } => Ok(
                LocationView::Spectating { lobby_id, game_id },
            ),
            LocationView::Spectating { .. } => Err(RejectReason::AlreadySpectating),
            _ => Err(RejectReason::MustBeInGame),
        },
    }
}

/// A rejected event: the location it was rejected from, the event, and why.
#[derive(Debug, PartialEq, Eq)]
pub struct InvalidTransition {
    pub from: PlayerLocation,
    pub event: PlayerEvent,
    pub reason: RejectReason,
}

impl Clone for InvalidTransition {
    fn clone(&self) -> (r: Self)
        ensures
            r == *self,
    {
        InvalidTransition {
            from: self.from.clone(),
            event: self.event.clone(),
            reason: self.reason,
        }
    }
}

impl InvalidTransition {
    /// The text form of the rejection, such as
    /// `Invalid transition from InLobby(L1) via JoinLobby { lobby_id: "L2" }: Already in a lobby`.
    pub fn to_display_string(&self) -> (r: String)
        ensures
            r@ == "Invalid transition from "@ + self.from@.text() + " via "@ + self.event@.text()
                + ": "@ + self.reason.text(),
    {
        let mut s = String::from_str("Invalid transition from ");
        let from = self.from.to_display_string();
        s.append(from.as_str());
        s.append(" via ");
        let event = self.event.to_display_string();
        s.append(event.as_str());
        s.append(": ");
        s.append(self.reason.as_str());
        s
    }
}

/// One player's state machine. It only ever moves along the transition table.
#[derive(Debug)]
pub struct PlayerState {
    location: PlayerLocation,
}

impl View for PlayerState {
    type V = LocationView;

    closed spec fn view(&self) -> LocationView {
        self.location@
    }
}

impl Clone for PlayerState {
    fn clone(&self) -> (r: Self)
        ensures
            r@ == self@,
    {
        PlayerState { location: self.location.clone() }
    }
}

impl Default for PlayerState {
    fn default() -> (r: Self)
        ensures
            r@ == LocationView::Disconnected,
    {
        PlayerState::new()
    }
}

impl PlayerState {
    /// A new player, `Disconnected`.
    pub fn new() -> (r: Self)
        ensures
            r@ == LocationView::Disconnected,
    {
        PlayerState { location: PlayerLocation::Disconnected }
    }

    /// A player at the given location (to restore saved state).
    pub fn at(location: PlayerLocation) -> (r: Self)
        ensures
            r@ == location@,
    {
        PlayerState { location }
    }

    /// The current location.
    pub fn location(&self) -> (r: &PlayerLocation)
        ensures
            r@ == self@,
    {
        &self.location
    }

    /// The location `event` leads to from here, or the rejection.
    pub fn transition(&self, event: &PlayerEvent) -> (r: Result<PlayerLocation, InvalidTransition>)
        ensures
            match r {
                Ok(to) => next_location(self@, event@) == Ok::<LocationView, RejectReason>(to@),
                Err(e) => {
                    &&& next_location(self@, event@) == Err::<LocationView, RejectReason>(
                        e.reason,
                    )
                    &&& e.from@ == self@
                    &&& e.event == *event
                },
            },
    {
        let from = &self.location;
        match event {
            PlayerEvent::Connect => match from {
                PlayerLocation::Disconnected => Ok(PlayerLocation::Connected),
                _ => Err(self.reject(event, RejectReason::AlreadyConnected)),
            },
            PlayerEvent::Disconnect => match from {
                PlayerLocation::Disconnected => Err(
                    self.reject(event, RejectReason::AlreadyDisconnected),
                ),
                _ => Ok(PlayerLocation::Disconnected),
            },
            PlayerEvent::JoinLobby { lobby_id } => match from {
                PlayerLocation::Connected => Ok(PlayerLocation::InLobby { lobby_id: lobby_id.clone() }),
                PlayerLocation::InLobby { .. } => Err(
                    self.reject(event, RejectReason::AlreadyInLobby),
                ),
                PlayerLocation::InGame { .. } => Err(
                    self.reject(event, RejectReason::MustLeaveGameFirst),
                ),
                PlayerLocation::Spectating { .. } => Err(
                    self.reject(event, RejectReason::MustLeaveGameFirst),
                ),
                PlayerLocation::Disconnected => Err(
                    self.reject(event, RejectReason::MustConnectFirst),
                ),
            },
            PlayerEvent::LeaveLobby => match from {
                PlayerLocation::InLobby { .. } => Ok(PlayerLocation::Connected),
                PlayerLocation::InGame { .. } => Err(
                    self.reject(event, RejectReason::MustLeaveGameFirst),
                ),
                PlayerLocation::Spectating { .. } => Err(
                    self.reject(event, RejectReason::MustLeaveGameFirst),
                ),
                _ => Err(self.reject(event, RejectReason::NotInLobby)),
            },
            PlayerEvent::StartGame { game_id } => match from {
                PlayerLocation::InLobby { lobby_id } => Ok(
                    PlayerLocation::InGame { lobby_id: lobby_id.clone(), game_id: game_id.clone() },
                ),
                PlayerLocation::InGame { .. } => Err(
                    self.reject(event, RejectReason::AlreadyInGame),
                ),
                _ => Err(self.reject(event, RejectReason::MustBeInLobbyToStartGame)),
            },
            PlayerEvent::JoinGame { game_id } => match from {
                PlayerLocation::InLobby { lobby_id } => Ok(
                    PlayerLocation::InGame { lobby_id: lobby_id.clone(), game_id: game_id.clone() },
                ),
                PlayerLocation::Spectating { lobby_id, .. } => Ok(
                    PlayerLocation::InGame { lobby_id: lobby_id.clone(), game_id: game_id.clone() },
                ),
                PlayerLocation::InGame { .. } => Err(
                    self.reject(event, RejectReason::AlreadyPlaying),
                ),
                _ => Err(self.reject(event, RejectReason::MustBeInLobbyOrSpectating)),
            },
            PlayerEvent::SpectateGame { game_id } => match from {
                PlayerLocation::InLobby { lobby_id } => Ok(
                    PlayerLocation::Spectating {
                        lobby_id: lobby_id.clone(),
                        game_id: game_id.clone(),
                    },
                ),
                PlayerLocation::Connected => {
                    // Watching without having joined the lobby: the lobby id
                    // is derived from the game id.
                    let mut lobby_id = String::from_str("spectate-");
                    lobby_id.append(game_id.as_str());
                    Ok(PlayerLocation::Spectating { lobby_id, game_id: game_id.clone() })
                },
                PlayerLocation::InGame { .. } => Err(
                    self.reject(event, RejectReason::AlreadyInGame),
                ),
                PlayerLocation::Spectating { .. } => Err(
                    self.reject(event, RejectReason::AlreadySpectating),
                ),
                PlayerLocation::Disconnected => Err(
                    self.reject(event, RejectReason::MustConnectFirst),
                ),
            },
            PlayerEvent::LeaveGame => match from {
                PlayerLocation::InGame { lobby_id, .. } => Ok(
                    PlayerLocation::InLobby { lobby_id: lobby_id.clone() },
                ),
                PlayerLocation::Spectating { lobby_id, .. } => Ok(
                    PlayerLocation::InLobby { lobby_id: lobby_id.clone() },
                ),
                _ => Err(self.reject(event, RejectReason::NotInGame)),
            },
            PlayerEvent::BecomePlayer => match from {
                PlayerLocation::Spectating { lobby_id, game_id } => Ok(
                    PlayerLocation::InGame { lobby_id: lobby_id.clone(), game_id: game_id.clone() },
                ),
                PlayerLocation::InGame { .. } => Err(
                    self.reject(event, RejectReason::AlreadyPlayer),
                ),
                _ => Err(self.reject(event, RejectReason::MustBeSpectating)),
            },
            PlayerEvent::BecomeSpectator => match from {
                PlayerLocation::InGame { lobby_id, game_id } => Ok(
                    PlayerLocation::Spectating {
                        lobby_id: lobby_id.clone(),
                        game_id: game_id.clone(),
                    },
                ),
                PlayerLocation::Spectating { .. } => Err(
                    self.reject(event, RejectReason::AlreadySpectating),
                ),
                _ => Err(self.reject(event, RejectReason::MustBeInGame)),
            },
        }
    }

    /// The rejection of `event` from the current location.
    fn reject(&self, event: &PlayerEvent, reason: RejectReason) -> (r: InvalidTransition)
        ensures
            r.from@ == self@,
            r.event == *event,
            r.reason == reason,
    {
        InvalidTransition { from: self.location.clone(), event: event.clone(), reason }
    }

    /// The state after `event`, or the rejection; `self` is left as it was.
    pub fn apply(&self, event: PlayerEvent) -> (r: Result<Self, InvalidTransition>)
        ensures
            match r {
                Ok(s) => next_location(self@, event@) == Ok::<LocationView, RejectReason>(s@),
                Err(e) => {
                    &&& next_location(self@, event@) == Err::<LocationView, RejectReason>(
                        e.reason,
                    )
                    &&& e.from@ == self@
                    &&& e.event == event
                },
            },
    {
        let location = self.transition(&event)?;
        Ok(PlayerState { location })
    }

    /// Applies `event` in place. On a rejection the location is unchanged.
    pub fn apply_mut(&mut self, event: PlayerEvent) -> (r: Result<(), InvalidTransition>)
        ensures
            match r {
                Ok(_) => next_location(old(self)@, event@) == Ok::<LocationView, RejectReason>(
                    final(self)@,
                ),
                Err(e) => {
                    &&& next_location(old(self)@, event@) == Err::<LocationView, RejectReason>(
                        e.reason,
                    )
                    &&& final(self)@ == old(self)@
                    &&& e.from@ == old(self)@
                    &&& e.event == event
                },
            },
    {
        match self.transition(&event) {
            Ok(location) => {
                self.location = location;
                Ok(())
            },
            Err(e) => Err(e),
        }
    }

    /// Connected in any form.
    pub fn is_connected(&self) -> (r: bool)
        ensures
            r == !(self@ is Disconnected),
    {
        self.location.is_connected()
    }

    /// In a lobby, whether or not also in a game.
    pub fn is_in_lobby(&self) -> (r: bool)
        ensures
            r == (self@.lobby() is Some),
    {
        self.location.is_in_lobby()
    }

    /// Playing or watching a game.
    pub fn is_in_game(&self) -> (r: bool)
        ensures
            r == (self@.game() is Some),
    {
        self.location.is_in_game()
    }

    /// Playing a game (not watching).
    pub fn is_playing(&self) -> (r: bool)
        ensures
            r == (self@ is InGame),
    {
        self.location.is_playing()
    }

    /// Watching a game.
    pub fn is_spectating(&self) -> (r: bool)
        ensures
            r == (self@ is Spectating),
    {
        self.location.is_spectating()
    }

    /// The lobby id, if the player is in a lobby.
    pub fn lobby_id(&self) -> (r: Option<&str>)
        ensures
            match r {
                Some(s) => self@.lobby() == Some(s@),
                None => self@.lobby() is None,
            },
    {
        self.location.lobby_id()
    }

    /// The game id, if the player plays or watches a game.
    pub fn game_id(&self) -> (r: Option<&str>)
        ensures
            match r {
                Some(s) => self@.game() == Some(s@),
                None => self@.game() is None,
            },
    {
        self.location.game_id()
    }
}

/// A `Disconnect` always leaves the player `Disconnected`: it is accepted from
/// every other location, and rejected (leaving the location as it is) only
/// where the player already is `Disconnected`.
pub proof fn lemma_disconnect_always_ends_disconnected(from: LocationView)
    ensures
        !(from is Disconnected) ==> next_location(from, EventView::Disconnect) == Ok::<
            LocationView,
            RejectReason,
        >(LocationView::Disconnected),
        from is Disconnected ==> next_location(from, EventView::Disconnect) == Err::<
            LocationView,
            RejectReason,
        >(RejectReason::AlreadyDisconnected),
{
}

} // verus!
