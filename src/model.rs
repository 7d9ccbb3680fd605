//! Passive records of the engine: players, servers, proposed and committed
//! pairings, and the tuning constants of the scoring rule.
use vstd::prelude::*;

verus! {

/// Identity of a player, as handed out by the authenticator.
pub type PlayerId = u64;

/// Identity of a game server, as handed out by the fleet manager.
pub type ServerId = u64;

/// Number of players placed on a server by one committed match (1v1).
pub const PLAYERS_PER_MATCH: u64 = 2;

/// A player waiting in the pool.
#[derive(Clone, Copy, Debug, PartialEq, Eq, Structural)]
pub struct PlayerInfo {
    pub id: PlayerId,
    /// ELO-like skill estimate.
    pub elo: u64,
    /// Moment the player entered the pool; fixed at insertion.
    pub enqueued_at: u64,
}

/// Lifecycle state of a game server.
#[derive(Clone, Copy, Debug, PartialEq, Eq, Structural)]
pub enum ServerState {
    Startup,
    Normal,
    Draining,
}

/// A game server known to the matchmaker.
#[derive(Clone, Copy, Debug, PartialEq, Eq, Structural)]
pub struct ServerInfo {
    pub id: ServerId,
    pub max_players: u64,
    pub current_players: u64,
    pub state: ServerState,
}

impl ServerInfo {
    /// The load never exceeds the capacity.
    pub open spec fn wf(&self) -> bool {
        self.current_players <= self.max_players
    }

    /// A server is eligible when it is running normally and has a free slot.
    pub open spec fn eligible(&self) -> bool {
        self.state == ServerState::Normal && self.current_players < self.max_players
    }

    /// Eligible, and with room for every player of one match.
    pub open spec fn has_room_for_match(&self) -> bool {
        self.state == ServerState::Normal
            && self.current_players + PLAYERS_PER_MATCH <= self.max_players
    }

    pub fn accepting_players(&self) -> (r: bool)
        ensures
            r == self.eligible(),
    {
        self.current_players < self.max_players && matches!(self.state, ServerState::Normal)
    }
}

/// A candidate pairing that has not been committed yet.
#[derive(Clone, Copy, Debug, PartialEq, Eq, Structural)]
pub struct PotentialMatchup {
    pub player: PlayerInfo,
    pub opponent: PlayerInfo,
    /// Rating difference minus the wait bonus; lower is better.
    pub score: i128,
}

/// The committed outcome of a matchmaking round.
#[derive(Clone, Copy, Debug, PartialEq, Eq, Structural)]
pub struct Match {
    pub player: PlayerId,
    pub opponent: PlayerId,
    pub server: ServerId,
}

/// Constants of the scoring rule.
#[derive(Clone, Copy, Debug, PartialEq, Eq, Structural)]
pub struct MatchConfig {
    /// A pairing is acceptable when its score is at most this value.
    pub acceptance_threshold: i64,
    /// Bonus earned per unit of waiting time.
    pub wait_bonus_rate: u64,
    /// Upper bound of the wait bonus.
    pub max_wait_bonus: u64,
}

} // verus!
