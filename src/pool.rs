//! The registry of waiting players and registered servers. Player ids and
//! server ids are unique, and no server is loaded beyond its capacity.
use vstd::prelude::*;
use crate::matcher::{unique_player_ids, unique_server_ids};
use crate::model::{PlayerId, PlayerInfo, ServerId, ServerInfo, ServerState};

verus! {

/// A second entry was requested for a player that is already queued.
#[derive(Clone, Copy, Debug, PartialEq, Eq, Structural)]
pub struct AlreadyQueued;

/// Why an administrative server operation was refused.
#[derive(Clone, Copy, Debug, PartialEq, Eq, Structural)]
pub enum ServerError {
    /// A server with this id is already registered.
    AlreadyRegistered,
    /// The server's load would exceed its capacity, or fall below zero.
    LoadOutOfRange,
    /// No server with this id is registered.
    UnknownServer,
}

/// What the pool holds, as sequences in insertion order.
pub struct PoolView {
    pub players: Seq<PlayerInfo>,
    pub servers: Seq<ServerInfo>,
}

pub open spec fn has_player(players: Seq<PlayerInfo>, id: PlayerId) -> bool {
    exists|i: int| 0 <= i < players.len() && (#[trigger] players[i]).id == id
}

pub open spec fn has_server(servers: Seq<ServerInfo>, id: ServerId) -> bool {
    exists|i: int| 0 <= i < servers.len() && (#[trigger] servers[i]).id == id
}

/// Every server's load is within its capacity.
pub open spec fn loads_within_capacity(servers: Seq<ServerInfo>) -> bool {
    forall|i: int| 0 <= i < servers.len() ==> (#[trigger] servers[i]).wf()
}

/// The entry of a queued player (the first, and with unique ids the only one).
pub open spec fn entry_of(players: Seq<PlayerInfo>, id: PlayerId) -> PlayerInfo {
    let i = choose|i: int| 0 <= i < players.len() && (#[trigger] players[i]).id == id;
    players[i]
}

impl PoolView {
    pub open spec fn wf(self) -> bool {
        &&& unique_player_ids(self.players)
        &&& unique_server_ids(self.servers)
        &&& loads_within_capacity(self.servers)
    }
}

/// Removing the entry of a player leaves every other entry.
pub proof fn lemma_remove_player_contents(players: Seq<PlayerInfo>, i: int)
    requires
        unique_player_ids(players),
        0 <= i < players.len(),
    ensures
        unique_player_ids(players.remove(i)),
        forall|q: PlayerInfo|
            #![auto]
            players.remove(i).contains(q) <==> (players.contains(q) && q.id != players[i].id),
        !has_player(players.remove(i), players[i].id),
        forall|id: PlayerId|
            #![auto]
            has_player(players.remove(i), id) <==> (has_player(players, id) && id != players[i].id),
{
    let r = players.remove(i);
    assert forall|q: PlayerInfo| #![auto] players.contains(q) && q.id != players[i].id implies r.contains(q) by {
        let k = choose|k: int| 0 <= k < players.len() && players[k] == q;
        if k < i {
            assert(r[k] == q);
        } else {
            assert(k != i);
            assert(r[k - 1] == q);
        }
    }
    assert forall|id: PlayerId| #![auto] has_player(players, id) && id != players[i].id implies has_player(r, id) by {
        let k = choose|k: int| 0 <= k < players.len() && players[k].id == id;
        if k < i {
            assert(r[k].id == id);
        } else {
            assert(r[k - 1].id == id);
        }
    }
}

pub proof fn lemma_remove_server_unique(servers: Seq<ServerInfo>, i: int)
    requires
        unique_server_ids(servers),
        loads_within_capacity(servers),
        0 <= i < servers.len(),
    ensures
        unique_server_ids(servers.remove(i)),
        loads_within_capacity(servers.remove(i)),
        !has_server(servers.remove(i), servers[i].id),
{
}

/// The registry. Each operation keeps the pool well formed.
pub struct Pool {
    players: Vec<PlayerInfo>,
    servers: Vec<ServerInfo>,
}

impl View for Pool {
    type V = PoolView;

    closed spec fn view(&self) -> PoolView {
        PoolView { players: self.players@, servers: self.servers@ }
    }
}

impl Pool {
    pub fn new() -> (r: Pool)
        ensures
            r@.players == Seq::<PlayerInfo>::empty(),
            r@.servers == Seq::<ServerInfo>::empty(),
            r@.wf(),
    {
        Pool { players: Vec::new(), servers: Vec::new() }
    }

    fn find_player(&self, id: PlayerId) -> (r: Option<usize>)
        ensures
            r is None <==> !has_player(self@.players, id),
            r matches Some(i) ==> i < self@.players.len() && self@.players[i as int].id == id,
    {
        let mut i: usize = 0;
        while i < self.players.len()
            invariant
                i <= self.players@.len(),
                forall|j: int| 0 <= j < i ==> (#[trigger] self.players@[j]).id != id,
            decreases self.players.len() - i,
        {
            if self.players[i].id == id {
                return Some(i);
            }
            i += 1;
        }
        None
    }

    fn find_server(&self, id: ServerId) -> (r: Option<usize>)
        ensures
            r is None <==> !has_server(self@.servers, id),
            r matches Some(i) ==> i < self@.servers.len() && self@.servers[i as int].id == id,
    {
        let mut i: usize = 0;
        while i < self.servers.len()
            invariant
                i <= self.servers@.len(),
                forall|j: int| 0 <= j < i ==> (#[trigger] self.servers@[j]).id != id,
            decreases self.servers.len() - i,
        {
            if self.servers[i].id == id {
                return Some(i);
            }
            i += 1;
        }
        None
    }

    /// The entry of player `id`, if it is queued.
    pub fn get_player(&self, id: PlayerId) -> (r: Option<PlayerInfo>)
        requires
            self@.wf(),
        ensures
            r is None <==> !has_player(self@.players, id),
            r matches Some(p) ==> p.id == id && self@.players.contains(p) && p == entry_of(
                self@.players,
                id,
            ),
    {
        match self.find_player(id) {
            Some(i) => {
                proof {
                    assert(self@.players[i as int] == self.players@[i as int]);
                    let k = choose|k: int|
                        0 <= k < self.players@.len() && (#[trigger] self.players@[k]).id == id;
                    assert(k == i);
                }
                Some(self.players[i])
            },
            None => None,
        }
    }

    /// Adds a player; a second entry for a queued id is refused.
    pub fn insert(&mut self, info: PlayerInfo) -> (r: Result<(), AlreadyQueued>)
        requires
            old(self)@.wf(),
        ensures
            final(self)@.wf(),
            r is Err <==> has_player(old(self)@.players, info.id),
            r is Err ==> final(self)@ == old(self)@,
            r is Ok ==> final(self)@.players == old(self)@.players.push(info),
            final(self)@.servers == old(self)@.servers,
    {
        match self.find_player(info.id) {
            Some(_) => Err(AlreadyQueued),
            None => {
                self.players.push(info);
                proof {
                    let s = self.players@;
                    assert forall|i: int, j: int|
                        0 <= i < s.len() && 0 <= j < s.len() && s[i].id == s[j].id implies i
                        == j by {
                        if i != j && (i == s.len() - 1 || j == s.len() - 1) {
                            let k = if i == s.len() - 1 { j } else { i };
                            assert(old(self)@.players[k].id == info.id);
                        }
                    }
                }
                Ok(())
            },
        }
    }

    /// Removes the entry of player `id`; removing an absent id is a no-op.
    pub fn remove(&mut self, id: PlayerId) -> (r: Option<PlayerInfo>)
        requires
            old(self)@.wf(),
        ensures
            final(self)@.wf(),
            r is None <==> !has_player(old(self)@.players, id),
            r is None ==> final(self)@ == old(self)@,
            r matches Some(p) ==> p.id == id && exists|i: int|
                0 <= i < old(self)@.players.len() && old(self)@.players[i] == p
                    && final(self)@.players == old(self)@.players.remove(i),
            !has_player(final(self)@.players, id),
            forall|q: PlayerInfo|
                #![auto]
                final(self)@.players.contains(q) <==> (old(self)@.players.contains(q) && q.id
                    != id),
            forall|other: PlayerId|
                #![auto]
                has_player(final(self)@.players, other) <==> (has_player(old(self)@.players, other)
                    && other != id),
            final(self)@.servers == old(self)@.servers,
    {
        match self.find_player(id) {
            Some(i) => {
                proof {
                    lemma_remove_player_contents(self.players@, i as int);
                }
                let p = self.players.remove(i);
                Some(p)
            },
            None => {
                proof {
                    assert forall|q: PlayerInfo| #![auto] self@.players.contains(q) implies q.id != id by {
                        let k = choose|k: int| 0 <= k < self.players@.len() && self.players@[k] == q;
                        assert(self.players@[k].id == q.id);
                    }
                }
                None
            },
        }
    }

    /// A point-in-time copy of the waiting players.
    pub fn snapshot(&self) -> (r: Vec<PlayerInfo>)
        ensures
            r@ == self@.players,
    {
        let mut r: Vec<PlayerInfo> = Vec::new();
        let mut i: usize = 0;
        while i < self.players.len()
            invariant
                i <= self.players@.len(),
                r@ == self.players@.subrange(0, i as int),
            decreases self.players.len() - i,
        {
            r.push(self.players[i]);
            i += 1;
        }
        proof {
            assert(self.players@.subrange(0, self.players@.len() as int) =~= self.players@);
        }
        r
    }

    /// A point-in-time copy of the registered servers.
    pub fn server_snapshot(&self) -> (r: Vec<ServerInfo>)
        ensures
            r@ == self@.servers,
    {
        let mut r: Vec<ServerInfo> = Vec::new();
        let mut i: usize = 0;
        while i < self.servers.len()
            invariant
                i <= self.servers@.len(),
                r@ == self.servers@.subrange(0, i as int),
            decreases self.servers.len() - i,
        {
            r.push(self.servers[i]);
            i += 1;
        }
        proof {
            assert(self.servers@.subrange(0, self.servers@.len() as int) =~= self.servers@);
        }
        r
    }

    /// Registers a server; a known id, or a load above the capacity, is refused.
    pub fn register_server(&mut self, info: ServerInfo) -> (r: Result<(), ServerError>)
        requires
            old(self)@.wf(),
        ensures
            final(self)@.wf(),
            r == (if has_server(old(self)@.servers, info.id) {
                Err(ServerError::AlreadyRegistered)
            } else if !info.wf() {
                Err(ServerError::LoadOutOfRange)
            } else {
                Ok(())
            }),
            r is Err ==> final(self)@ == old(self)@,
            r is Ok ==> final(self)@.servers == old(self)@.servers.push(info),
            final(self)@.players == old(self)@.players,
    {
        if self.find_server(info.id).is_some() {
            return Err(ServerError::AlreadyRegistered);
        }
        if info.current_players > info.max_players {
            return Err(ServerError::LoadOutOfRange);
        }
        self.servers.push(info);
        proof {
            let s = self.servers@;
            assert forall|i: int, j: int|
                0 <= i < s.len() && 0 <= j < s.len() && s[i].id == s[j].id implies i == j by {
                if i != j && (i == s.len() - 1 || j == s.len() - 1) {
                    let k = if i == s.len() - 1 { j } else { i };
                    assert(old(self)@.servers[k].id == info.id);
                }
            }
            assert(loads_within_capacity(s));
        }
        Ok(())
    }

    /// Removes a server from the registry; existing assignments are not touched.
    pub fn deregister_server(&mut self, id: ServerId) -> (r: Option<ServerInfo>)
        requires
            old(self)@.wf(),
        ensures
            final(self)@.wf(),
            r is None <==> !has_server(old(self)@.servers, id),
            r is None ==> final(self)@ == old(self)@,
            r matches Some(s) ==> s.id == id && exists|i: int|
                0 <= i < old(self)@.servers.len() && old(self)@.servers[i] == s
                    && final(self)@.servers == old(self)@.servers.remove(i),
            !has_server(final(self)@.servers, id),
            final(self)@.players == old(self)@.players,
    {
        match self.find_server(id) {
            Some(i) => {
                proof {
                    lemma_remove_server_unique(self.servers@, i as int);
                }
                Some(self.servers.remove(i))
            },
            None => None,
        }
    }

    /// Sets the lifecycle state of a registered server.
    pub fn set_server_state(&mut self, id: ServerId, state: ServerState) -> (r: Result<
        (),
        ServerError,
    >)
        requires
            old(self)@.wf(),
        ensures
            final(self)@.wf(),
            r is Err <==> !has_server(old(self)@.servers, id),
            r is Err ==> r == Err::<(), ServerError>(ServerError::UnknownServer) && final(self)@
                == old(self)@,
            r is Ok ==> exists|i: int|
                0 <= i < old(self)@.servers.len() && old(self)@.servers[i].id == id
                    && final(self)@.servers == old(self)@.servers.update(
                    i,
                    ServerInfo { state, ..old(self)@.servers[i] },
                ),
            final(self)@.players == old(self)@.players,
    {
        match self.find_server(id) {
            Some(i) => {
                let s = self.servers[i];
                self.servers.set(i, ServerInfo { state, ..s });
                proof {
                    assert(old(self)@.servers[i as int] == s);
                    let t = self.servers@;
                    assert forall|a: int, b: int|
                        0 <= a < t.len() && 0 <= b < t.len() && t[a].id == t[b].id implies a
                        == b by {
                        assert(t[a].id == old(self)@.servers[a].id);
                        assert(t[b].id == old(self)@.servers[b].id);
                    }
                    assert(loads_within_capacity(t));
                }
                Ok(())
            },
            None => Err(ServerError::UnknownServer),
        }
    }

    /// Adds `delta` players to the load of a registered server. A result
    /// outside `0..=maxPlayers` is refused.
    pub fn update_server_load(&mut self, id: ServerId, delta: i64) -> (r: Result<
        ServerInfo,
        ServerError,
    >)
        requires
            old(self)@.wf(),
        ensures
            final(self)@.wf(),
            r matches Err(e) ==> final(self)@ == old(self)@,
            r matches Err(e) ==> (e == ServerError::UnknownServer <==> !has_server(
                old(self)@.servers,
                id,
            )),
            r matches Err(e) ==> e == ServerError::UnknownServer || e
                == ServerError::LoadOutOfRange,
            !has_server(old(self)@.servers, id) ==> r is Err,
            forall|i: int|
                0 <= i < old(self)@.servers.len() && old(self)@.servers[i].id == id ==> {
                    let s = old(self)@.servers[i];
                    let load = s.current_players + delta;
                    if 0 <= load <= s.max_players {
                        &&& r == Ok::<ServerInfo, ServerError>(
                            ServerInfo { current_players: load as u64, ..s },
                        )
                        &&& final(self)@.servers == old(self)@.servers.update(
                            i,
                            ServerInfo { current_players: load as u64, ..s },
                        )
                    } else {
                        r == Err::<ServerInfo, ServerError>(ServerError::LoadOutOfRange)
                    }
                },
            final(self)@.players == old(self)@.players,
    {
        match self.find_server(id) {
            Some(i) => {
                let s = self.servers[i];
                let load: i128 = s.current_players as i128 + delta as i128;
                if load < 0 || load > s.max_players as i128 {
                    return Err(ServerError::LoadOutOfRange);
                }
                let t = ServerInfo { current_players: load as u64, ..s };
                self.servers.set(i, t);
                proof {
                    assert(old(self)@.servers[i as int] == s);
                    let v = self.servers@;
                    assert forall|a: int, b: int|
                        0 <= a < v.len() && 0 <= b < v.len() && v[a].id == v[b].id implies a
                        == b by {
                        assert(v[a].id == old(self)@.servers[a].id);
                        assert(v[b].id == old(self)@.servers[b].id);
                    }
                    assert(loads_within_capacity(v));
                }
                Ok(t)
            },
            None => Err(ServerError::UnknownServer),
        }
    }
}

} // verus!
