//! Admission into the pool, resolution of matches, and release of pool
//! entries. Every multi-step change of the pool happens inside one `&mut`
//! call, so callers that share a matchmaker behind a lock see each step
//! whole.
use std::collections::HashMap;
use vstd::prelude::*;
use crate::matcher::{
    any_acceptable, any_room, find_best_match, find_best_server, is_best_match, is_best_server,
    score, score_matchup,
};
use crate::model::{
    Match, MatchConfig, PlayerId, PlayerInfo, PotentialMatchup, ServerId, ServerInfo, ServerState,
    PLAYERS_PER_MATCH,
};
use crate::pool::{
    entry_of, has_player, has_server, AlreadyQueued, Pool, PoolView, ServerError,
};

verus! {

/// Handle of one pool entry, handed out when a player joins. Each entry
/// gets a ticket of its own, so a handle acts only on the entry it was
/// handed out for, never on a later entry of the same player. Releasing it
/// consumes it, so one handle cannot release twice.
pub struct MatchmakerPlayerHandle {
    player_id: PlayerId,
    ticket: u64,
}

impl MatchmakerPlayerHandle {
    pub closed spec fn id(&self) -> PlayerId {
        self.player_id
    }

    pub closed spec fn ticket(&self) -> u64 {
        self.ticket
    }

    pub fn player_id(&self) -> (r: PlayerId)
        ensures
            r == self.id(),
    {
        self.player_id
    }
}

/// Why a player could not join the pool.
#[derive(Clone, Copy, Debug, PartialEq, Eq, Structural)]
pub enum JoinError {
    /// The player already has an entry in the pool.
    AlreadyQueued,
    /// Every entry ticket has been handed out.
    TicketsExhausted,
}

/// A committed match as the holder of `id`'s entry sees it: `id` first.
pub open spec fn seen_by(m: Match, id: PlayerId) -> Match {
    if m.player == id {
        m
    } else {
        Match { player: m.opponent, opponent: m.player, server: m.server }
    }
}

/// Result of one resolution attempt.
#[derive(Clone, Copy, Debug, PartialEq, Eq, Structural)]
pub enum ResolveOutcome {
    /// The handle's entry was released or removed without being matched.
    NotQueued,
    /// No acceptable opponent yet: keep waiting.
    NoMatch,
    /// An opponent was found but no server has room; both stay queued.
    AwaitingCapacity(PotentialMatchup),
    /// A match was committed for the handle's entry, in this round or in an
    /// earlier round of the opponent; the handle's player comes first. At
    /// the commit both players left the pool and the server's load grew by
    /// the match's size.
    Matched(Match),
}

/// `new` is `old` after committing `m`: both players were queued and are
/// removed, every other entry stays, and the chosen server, which had room,
/// gains the match's players.
pub open spec fn commits(old: PoolView, new: PoolView, m: Match) -> bool {
    &&& m.player != m.opponent
    &&& has_player(old.players, m.player)
    &&& has_player(old.players, m.opponent)
    &&& new.players.len() + 2 == old.players.len()
    &&& forall|q: PlayerInfo|
        #![auto]
        new.players.contains(q) <==> (old.players.contains(q) && q.id != m.player && q.id
            != m.opponent)
    &&& exists|i: int|
        0 <= i < old.servers.len() && old.servers[i].id == m.server
            && old.servers[i].has_room_for_match() && new.servers == old.servers.update(
            i,
            ServerInfo {
                current_players: (old.servers[i].current_players + PLAYERS_PER_MATCH) as u64,
                ..old.servers[i]
            },
        )
}

/// Once a match is committed, neither of its players can be part of the next
/// committed match: a player is assigned at most once per pool entry.
pub proof fn lemma_no_double_assignment(
    start: PoolView,
    mid: PoolView,
    end: PoolView,
    m1: Match,
    m2: Match,
)
    requires
        commits(start, mid, m1),
        commits(mid, end, m2),
    ensures
        m2.player != m1.player,
        m2.player != m1.opponent,
        m2.opponent != m1.player,
        m2.opponent != m1.opponent,
        !has_player(mid.players, m1.player),
        !has_player(mid.players, m1.opponent),
{
    let a = choose|i: int| 0 <= i < mid.players.len() && (#[trigger] mid.players[i]).id == m2.player;
    let b = choose|i: int|
        0 <= i < mid.players.len() && (#[trigger] mid.players[i]).id == m2.opponent;
    assert(mid.players.contains(mid.players[a]));
    assert(mid.players.contains(mid.players[b]));
    if has_player(mid.players, m1.player) {
        let k = choose|i: int| 0 <= i < mid.players.len() && (#[trigger] mid.players[i]).id == m1.player;
        assert(mid.players.contains(mid.players[k]));
    }
    if has_player(mid.players, m1.opponent) {
        let k = choose|i: int|
            0 <= i < mid.players.len() && (#[trigger] mid.players[i]).id == m1.opponent;
        assert(mid.players.contains(mid.players[k]));
    }
}

/// Committing a match keeps every server within its capacity and never
/// lowers a server's load.
pub proof fn lemma_commit_keeps_capacity(start: PoolView, mid: PoolView, m: Match)
    requires
        start.wf(),
        commits(start, mid, m),
    ensures
        mid.servers.len() == start.servers.len(),
        forall|i: int|
            0 <= i < mid.servers.len() ==> {
                &&& (#[trigger] mid.servers[i]).id == start.servers[i].id
                &&& mid.servers[i].wf()
                &&& start.servers[i].current_players <= mid.servers[i].current_players
                &&& mid.servers[i].max_players == start.servers[i].max_players
            },
{
}

/// The shared coordinator of the pool.
pub struct Matchmaker {
    pool: Pool,
    config: MatchConfig,
    /// Ticket of the entry of each queued player.
    owners: HashMap<PlayerId, u64>,
    /// The match committed for each used-up entry, seen from its holder,
    /// kept until the entry's handle is released.
    committed: HashMap<u64, Match>,
    next_ticket: u64,
}

impl View for Matchmaker {
    type V = PoolView;

    closed spec fn view(&self) -> PoolView {
        self.pool@
    }
}

/// Two matchmakers agree on their entry tickets and commit records.
pub open spec fn same_entries(a: Matchmaker, b: Matchmaker) -> bool {
    &&& a.owners() == b.owners()
    &&& a.commit_records() == b.commit_records()
    &&& a.next_ticket() == b.next_ticket()
}

impl Matchmaker {
    pub closed spec fn cfg(&self) -> MatchConfig {
        self.config
    }

    /// Ticket of the entry of each queued player.
    pub closed spec fn owners(&self) -> Map<PlayerId, u64> {
        self.owners@
    }

    /// Match committed for each used-up entry ticket, not yet released.
    pub closed spec fn commit_records(&self) -> Map<u64, Match> {
        self.committed@
    }

    /// The ticket the next entry will get.
    pub closed spec fn next_ticket(&self) -> u64 {
        self.next_ticket
    }

    /// Each queued player has exactly one ticket; tickets are distinct and
    /// below the next one; a live ticket has no commit record.
    pub closed spec fn tickets_wf(&self) -> bool {
        &&& forall|id: PlayerId|
            #![auto]
            self.owners@.contains_key(id) <==> has_player(self.pool@.players, id)
        &&& forall|id: PlayerId|
            #![auto]
            self.owners@.contains_key(id) ==> self.owners@[id] < self.next_ticket
                && !self.committed@.contains_key(self.owners@[id])
        &&& forall|t: u64| #![auto] self.committed@.contains_key(t) ==> t < self.next_ticket
        &&& forall|a: PlayerId, b: PlayerId|
            #![auto]
            self.owners@.contains_key(a) && self.owners@.contains_key(b) && self.owners@[a]
                == self.owners@[b] ==> a == b
    }

    pub open spec fn wf(&self) -> bool {
        self@.wf() && self.tickets_wf()
    }

    /// An entry that a committed match used up is never held again: its
    /// ticket is not the ticket of any queued player, and every ticket in
    /// use lies below the one the next entry gets. With the contracts of the
    /// operations (only a held entry is committed; a commit removes both
    /// entries and records their match; a new entry gets a fresh ticket),
    /// each entry takes part in at most one committed match, whatever the
    /// order of the calls.
    pub proof fn lemma_matched_entry_not_held(&self, h: &MatchmakerPlayerHandle)
        requires
            self.wf(),
            self.commit_records().contains_key(h.ticket()),
        ensures
            !self.holds(h),
            h.ticket() < self.next_ticket(),
            forall|id: PlayerId|
                #![auto]
                self.owners().contains_key(id) ==> self.owners()[id] != h.ticket()
                    && self.owners()[id] < self.next_ticket(),
    {
    }

    /// The pool still holds the entry `h` was handed out for.
    pub open spec fn holds(&self, h: &MatchmakerPlayerHandle) -> bool {
        self.owners().contains_key(h.id()) && self.owners()[h.id()] == h.ticket()
    }

    pub fn new(config: MatchConfig) -> (r: Matchmaker)
        ensures
            r.wf(),
            r.cfg() == config,
            r@.players.len() == 0,
            r@.servers.len() == 0,
            r.owners() == Map::<PlayerId, u64>::empty(),
            r.commit_records() == Map::<u64, Match>::empty(),
    {
        Matchmaker {
            pool: Pool::new(),
            config,
            owners: HashMap::new(),
            committed: HashMap::new(),
            next_ticket: 0,
        }
    }

    pub fn config(&self) -> (r: MatchConfig)
        ensures
            r == self.cfg(),
    {
        self.config
    }

    /// A point-in-time copy of the waiting players.
    pub fn players(&self) -> (r: Vec<PlayerInfo>)
        ensures
            r@ == self@.players,
    {
        self.pool.snapshot()
    }

    /// A point-in-time copy of the registered servers.
    pub fn servers(&self) -> (r: Vec<ServerInfo>)
        ensures
            r@ == self@.servers,
    {
        self.pool.server_snapshot()
    }

    /// Registers a server offered by the fleet manager.
    pub fn add_server(&mut self, info: ServerInfo) -> (r: Result<(), ServerError>)
        requires
            old(self).wf(),
        ensures
            final(self).wf(),
            final(self).cfg() == old(self).cfg(),
            same_entries(*final(self), *old(self)),
            r == (if has_server(old(self)@.servers, info.id) {
                Err(ServerError::AlreadyRegistered)
            } else if !info.wf() {
                Err(ServerError::LoadOutOfRange)
            } else {
                Ok(())
            }),
            r is Err ==> final(self)@ == old(self)@,
            r is Ok ==> final(self)@.servers == old(self)@.servers.push(info),
            final(self)@.players == old(self)@.players,
    {
        self.pool.register_server(info)
    }

    /// Removes a server; matches already placed on it are not affected.
    pub fn deregister_server(&mut self, id: ServerId) -> (r: Option<ServerInfo>)
        requires
            old(self).wf(),
        ensures
            final(self).wf(),
            final(self).cfg() == old(self).cfg(),
            same_entries(*final(self), *old(self)),
            r is None <==> !has_server(old(self)@.servers, id),
            r is None ==> final(self)@ == old(self)@,
            r matches Some(s) ==> s.id == id && exists|i: int|
                0 <= i < old(self)@.servers.len() && old(self)@.servers[i] == s
                    && final(self)@.servers == old(self)@.servers.remove(i),
            final(self)@.players == old(self)@.players,
    {
        self.pool.deregister_server(id)
    }

    /// Changes a server's state; a `Draining` server takes no new matches.
    pub fn set_server_state(&mut self, id: ServerId, state: ServerState) -> (r: Result<
        (),
        ServerError,
    >)
        requires
            old(self).wf(),
        ensures
            final(self).wf(),
            final(self).cfg() == old(self).cfg(),
            same_entries(*final(self), *old(self)),
            r is Err <==> !has_server(old(self)@.servers, id),
            r is Err ==> r == Err::<(), ServerError>(ServerError::UnknownServer) && final(self)@
                == old(self)@,
            r is Ok ==> exists|i: int|
                0 <= i < old(self)@.servers.len() && old(self)@.servers[i].id == id
                    && final(self)@.servers == old(self)@.servers.update(
                    i,
                    ServerInfo { state, ..old(self)@.servers[i] },
                ),
            final(self)@.players == old(self)@.players,
    {
        self.pool.set_server_state(id, state)
    }

    /// Queues a player and hands out the handle of its new entry. A player
    /// that is already queued is refused.
    pub fn add_player_to_pool(&mut self, info: PlayerInfo) -> (r: Result<
        MatchmakerPlayerHandle,
        JoinError,
    >)
        requires
            old(self).wf(),
        ensures
            final(self).wf(),
            final(self).cfg() == old(self).cfg(),
            (r == Err::<MatchmakerPlayerHandle, JoinError>(JoinError::AlreadyQueued)) <==> has_player(
                old(self)@.players,
                info.id,
            ),
            (r == Err::<MatchmakerPlayerHandle, JoinError>(JoinError::TicketsExhausted)) <==> (
            !has_player(old(self)@.players, info.id) && old(self).next_ticket() == u64::MAX),
            r is Err ==> *final(self) == *old(self),
            r matches Ok(h) ==> {
                &&& h.id() == info.id
                &&& h.ticket() == old(self).next_ticket()
                &&& final(self).holds(&h)
                &&& final(self)@.players == old(self)@.players.push(info)
                &&& final(self).owners() == old(self).owners().insert(info.id, h.ticket())
                &&& final(self).commit_records() == old(self).commit_records()
                &&& !old(self).commit_records().contains_key(h.ticket())
            },
            final(self)@.servers == old(self)@.servers,
    {
        broadcast use vstd::std_specs::hash::group_hash_axioms;

        if self.pool.get_player(info.id).is_some() {
            return Err(JoinError::AlreadyQueued);
        }
        if self.next_ticket == u64::MAX {
            return Err(JoinError::TicketsExhausted);
        }
        let ticket = self.next_ticket;
        let _ = self.pool.insert(info);
        self.owners.insert(info.id, ticket);
        self.next_ticket = ticket + 1;
        proof {
            assert forall|id: PlayerId| #![auto]
                has_player(self.pool@.players, id) implies self.owners@.contains_key(id) by {
                if id != info.id {
                    let k = choose|k: int|
                        0 <= k < self.pool@.players.len() && (#[trigger] self.pool@.players[k]).id
                            == id;
                    assert(old(self).pool@.players[k].id == id);
                }
            }
            assert forall|id: PlayerId| #![auto]
                self.owners@.contains_key(id) implies has_player(self.pool@.players, id) by {
                if id == info.id {
                    assert(self.pool@.players[self.pool@.players.len() - 1].id == id);
                } else {
                    let k = choose|k: int|
                        0 <= k < old(self).pool@.players.len() && (#[trigger] old(
                            self,
                        ).pool@.players[k]).id == id;
                    assert(self.pool@.players[k].id == id);
                }
            }
        }
        Ok(MatchmakerPlayerHandle { player_id: info.id, ticket })
    }

    /// Removes a player's entry by id; an absent id is a no-op. A handle of
    /// the removed entry then no longer holds it.
    pub fn remove_player_from_pool(&mut self, player_id: PlayerId) -> (r: Option<PlayerInfo>)
        requires
            old(self).wf(),
        ensures
            final(self).wf(),
            final(self).cfg() == old(self).cfg(),
            r is None <==> !has_player(old(self)@.players, player_id),
            r is None ==> *final(self) == *old(self),
            r matches Some(p) ==> p.id == player_id && old(self)@.players.contains(p),
            !has_player(final(self)@.players, player_id),
            forall|q: PlayerInfo|
                #![auto]
                final(self)@.players.contains(q) <==> (old(self)@.players.contains(q) && q.id
                    != player_id),
            final(self)@.servers == old(self)@.servers,
            final(self).owners() == old(self).owners().remove(player_id),
            final(self).commit_records() == old(self).commit_records(),
            final(self).next_ticket() == old(self).next_ticket(),
    {
        broadcast use vstd::std_specs::hash::group_hash_axioms;

        if self.pool.get_player(player_id).is_none() {
            return None;
        }
        let r = self.pool.remove(player_id);
        self.owners.remove(&player_id);
        proof {
            if let Some(p) = r {
                let i = choose|i: int|
                    0 <= i < old(self)@.players.len() && old(self)@.players[i] == p
                        && self@.players == old(self)@.players.remove(i);
                assert(old(self)@.players.contains(old(self)@.players[i]));
            }
        }
        r
    }

    /// Gives up a handle. Removes its entry if the pool still holds that
    /// entry, and says whether it did; otherwise the pool is left as it is,
    /// also when the same player has joined again since. Drops the record
    /// of a match committed for the entry.
    pub fn release(&mut self, handle: MatchmakerPlayerHandle) -> (r: bool)
        requires
            old(self).wf(),
        ensures
            final(self).wf(),
            final(self).cfg() == old(self).cfg(),
            r == old(self).holds(&handle),
            !r ==> final(self)@ == old(self)@ && final(self).owners() == old(self).owners(),
            r ==> !has_player(final(self)@.players, handle.id()) && final(self).owners() == old(
                self,
            ).owners().remove(handle.id()),
            r ==> forall|q: PlayerInfo|
                #![auto]
                final(self)@.players.contains(q) <==> (old(self)@.players.contains(q) && q.id
                    != handle.id()),
            final(self)@.servers == old(self)@.servers,
            final(self).commit_records() == old(self).commit_records().remove(handle.ticket()),
            final(self).next_ticket() == old(self).next_ticket(),
    {
        broadcast use vstd::std_specs::hash::group_hash_axioms;

        let held = match self.owners.get(&handle.player_id) {
            Some(t) => *t == handle.ticket,
            None => false,
        };
        if held {
            let _ = self.remove_player_from_pool(handle.player_id);
        }
        self.committed.remove(&handle.ticket);
        held
    }

    /// Scores a pairing with this matchmaker's constants.
    pub fn score_matchup(&self, player: &PlayerInfo, opponent: &PlayerInfo, now: u64) -> (r: i128)
        ensures
            r == score(self.cfg(), *player, *opponent, now as int),
    {
        score_matchup(&self.config, player, opponent, now)
    }

    /// Best acceptable opponent for `info` among the queued players.
    pub fn find_best_match(&self, info: &PlayerInfo, now: u64) -> (r: Option<PotentialMatchup>)
        ensures
            r is None <==> !any_acceptable(self.cfg(), *info, self@.players, now as int),
            r matches Some(m) ==> is_best_match(self.cfg(), *info, self@.players, now as int, m),
    {
        let players = self.pool.snapshot();
        find_best_match(&self.config, info, &players, now)
    }

    /// Fullest registered server with room for the players of `matchup`.
    pub fn find_best_server_for_match(&self, matchup: &PotentialMatchup) -> (r: Option<ServerInfo>)
        ensures
            r is None <==> !any_room(self@.servers),
            r matches Some(s) ==> is_best_server(self@.servers, s),
    {
        let servers = self.pool.server_snapshot();
        find_best_server(&servers)
    }

    /// One resolution round for the holder of `handle` at time `now`. For
    /// an entry that is still queued it searches and, when an opponent and a
    /// server are found, commits; for an entry used up by an earlier commit
    /// it returns that match.
    pub fn try_resolve(&mut self, handle: &MatchmakerPlayerHandle, now: u64) -> (r: ResolveOutcome)
        requires
            old(self).wf(),
        ensures
            final(self).wf(),
            final(self).cfg() == old(self).cfg(),
            r is NotQueued <==> (!old(self).holds(handle) && !old(
                self,
            ).commit_records().contains_key(handle.ticket())),
            !(old(self).holds(handle) && r is Matched) ==> *final(self) == *old(self),
            !old(self).holds(handle) && old(self).commit_records().contains_key(handle.ticket())
                ==> r == ResolveOutcome::Matched(old(self).commit_records()[handle.ticket()]),
            r is NoMatch ==> !any_acceptable(
                old(self).cfg(),
                entry_of(old(self)@.players, handle.id()),
                old(self)@.players,
                now as int,
            ),
            r matches ResolveOutcome::AwaitingCapacity(m) ==> is_best_match(
                old(self).cfg(),
                entry_of(old(self)@.players, handle.id()),
                old(self)@.players,
                now as int,
                m,
            ) && !any_room(old(self)@.servers),
            old(self).holds(handle) ==> !(r is NotQueued),
            old(self).holds(handle) && r is Matched ==> ({
                let mt = r->Matched_0;
                &&& mt.player == handle.id()
                &&& commits(old(self)@, final(self)@, mt)
                &&& exists|m: PotentialMatchup|
                    is_best_match(
                        old(self).cfg(),
                        entry_of(old(self)@.players, handle.id()),
                        old(self)@.players,
                        now as int,
                        m,
                    ) && m.opponent.id == mt.opponent
                &&& exists|s: ServerInfo| is_best_server(old(self)@.servers, s) && s.id == mt.server
                &&& old(self).owners().contains_key(mt.opponent)
                &&& final(self).owners() == old(self).owners().remove(mt.player).remove(mt.opponent)
                &&& final(self).commit_records() == old(self).commit_records().insert(
                    handle.ticket(),
                    mt,
                ).insert(old(self).owners()[mt.opponent], seen_by(mt, mt.opponent))
                &&& final(self).next_ticket() == old(self).next_ticket()
            }),
    {
        broadcast use vstd::std_specs::hash::group_hash_axioms;

        let id = handle.player_id;
        let held = match self.owners.get(&id) {
            Some(t) => *t == handle.ticket,
            None => false,
        };
        if !held {
            return match self.committed.get(&handle.ticket) {
                Some(m) => ResolveOutcome::Matched(*m),
                None => ResolveOutcome::NotQueued,
            };
        }
        let subject = match self.pool.get_player(id) {
            None => return ResolveOutcome::NotQueued,
            Some(p) => p,
        };
        let players = self.pool.snapshot();
        let m = match find_best_match(&self.config, &subject, &players, now) {
            None => return ResolveOutcome::NoMatch,
            Some(m) => m,
        };
        let servers = self.pool.server_snapshot();
        let s = match find_best_server(&servers) {
            None => return ResolveOutcome::AwaitingCapacity(m),
            Some(s) => s,
        };
        let ghost start = self@;
        let opponent = m.opponent.id;
        proof {
            let k = choose|k: int| 0 <= k < start.players.len() && start.players[k] == m.opponent;
            assert(start.players[k].id == opponent);
            assert(has_player(start.players, opponent));
        }
        let opponent_ticket: u64 = match self.owners.get(&opponent) {
            Some(t) => *t,
            None => return ResolveOutcome::NotQueued,
        };
        let _ = self.pool.remove(id);
        let ghost mid = self@;
        proof {
            assert(has_player(mid.players, opponent));
        }
        let _ = self.pool.remove(opponent);
        let ghost end = self@;
        let _ = self.pool.update_server_load(s.id, PLAYERS_PER_MATCH as i64);
        let mt = Match { player: id, opponent, server: s.id };
        self.owners.remove(&id);
        self.owners.remove(&opponent);
        self.committed.insert(handle.ticket, mt);
        self.committed.insert(opponent_ticket, Match { player: opponent, opponent: id, server: s.id });
        proof {
            let k = choose|k: int| 0 <= k < start.servers.len() && start.servers[k] == s;
            assert(end.servers[k].id == s.id);
            assert(start.servers.len() == end.servers.len());
            assert forall|q: PlayerInfo| #![auto]
                self@.players.contains(q) <==> (start.players.contains(q) && q.id != id && q.id
                    != opponent) by {}
            assert(commits(start, self@, mt));
            assert(opponent != id);
            assert(handle.ticket != opponent_ticket);
            assert(seen_by(mt, opponent) == Match { player: opponent, opponent: id, server: s.id });
            assert(self.owners@ =~= old(self).owners@.remove(id).remove(opponent));
            assert(self.committed@ =~= old(self).committed@.insert(handle.ticket, mt).insert(
                opponent_ticket,
                seen_by(mt, opponent),
            ));
        }
        ResolveOutcome::Matched(mt)
    }
}

} // verus!
