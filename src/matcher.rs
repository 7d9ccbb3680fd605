//! The scoring and selection rule: which waiting player pairs best with a
//! given one, and which server receives the pair. Pure functions of a snapshot.
use vstd::prelude::*;
use crate::model::{MatchConfig, PlayerInfo, PotentialMatchup, ServerInfo, ServerState, PLAYERS_PER_MATCH};

verus! {

pub open spec fn abs_diff(a: int, b: int) -> int {
    if a >= b { a - b } else { b - a }
}

/// Time elapsed from `since` to `now`; zero when `now` is not later.
pub open spec fn elapsed(now: int, since: int) -> int {
    if now > since { now - since } else { 0 }
}

pub open spec fn min_int(a: int, b: int) -> int {
    if a <= b { a } else { b }
}

/// `min(maxWaitBonus, (now - min(a.enqueuedAt, b.enqueuedAt)) * waitBonusRate)`.
pub open spec fn wait_bonus(cfg: MatchConfig, a: PlayerInfo, b: PlayerInfo, now: int) -> int {
    min_int(
        cfg.max_wait_bonus as int,
        elapsed(now, min_int(a.enqueued_at as int, b.enqueued_at as int)) * cfg.wait_bonus_rate,
    )
}

/// Rating difference minus wait bonus.
pub open spec fn score(cfg: MatchConfig, a: PlayerInfo, b: PlayerInfo, now: int) -> int {
    abs_diff(a.elo as int, b.elo as int) - wait_bonus(cfg, a, b, now)
}

/// `c` is another player whose score against `subject` is within the threshold.
pub open spec fn acceptable(cfg: MatchConfig, subject: PlayerInfo, c: PlayerInfo, now: int) -> bool {
    c.id != subject.id && score(cfg, subject, c, now) <= cfg.acceptance_threshold
}

/// `x` is at least as good an opponent for `subject` as `y`: lower score,
/// then earlier enqueue time, then lower id.
pub open spec fn ranks_before(
    cfg: MatchConfig,
    subject: PlayerInfo,
    now: int,
    x: PlayerInfo,
    y: PlayerInfo,
) -> bool {
    let sx = score(cfg, subject, x, now);
    let sy = score(cfg, subject, y, now);
    sx < sy || (sx == sy && (x.enqueued_at < y.enqueued_at || (x.enqueued_at == y.enqueued_at
        && x.id <= y.id)))
}

pub open spec fn any_acceptable(
    cfg: MatchConfig,
    subject: PlayerInfo,
    cands: Seq<PlayerInfo>,
    now: int,
) -> bool {
    exists|j: int| 0 <= j < cands.len() && acceptable(cfg, subject, #[trigger] cands[j], now)
}

/// `m` pairs `subject` with the acceptable candidate that ranks first.
pub open spec fn is_best_match(
    cfg: MatchConfig,
    subject: PlayerInfo,
    cands: Seq<PlayerInfo>,
    now: int,
    m: PotentialMatchup,
) -> bool {
    &&& m.player == subject
    &&& cands.contains(m.opponent)
    &&& acceptable(cfg, subject, m.opponent, now)
    &&& m.score == score(cfg, subject, m.opponent, now)
    &&& forall|j: int|
        0 <= j < cands.len() && acceptable(cfg, subject, #[trigger] cands[j], now) ==> ranks_before(
            cfg,
            subject,
            now,
            m.opponent,
            cands[j],
        )
}

pub open spec fn unique_player_ids(s: Seq<PlayerInfo>) -> bool {
    forall|i: int, j: int| 0 <= i < s.len() && 0 <= j < s.len() && s[i].id == s[j].id ==> i == j
}

/// `x` is at least as full as `y` (load ratio compared by cross products),
/// ties going to the lower id.
pub open spec fn fills_before(x: ServerInfo, y: ServerInfo) -> bool {
    let lx = x.current_players as int * y.max_players as int;
    let ly = y.current_players as int * x.max_players as int;
    lx > ly || (lx == ly && x.id <= y.id)
}

pub open spec fn any_room(servers: Seq<ServerInfo>) -> bool {
    exists|j: int| 0 <= j < servers.len() && (#[trigger] servers[j]).has_room_for_match()
}

/// `s` is the fullest server that still has room for a match.
pub open spec fn is_best_server(servers: Seq<ServerInfo>, s: ServerInfo) -> bool {
    &&& servers.contains(s)
    &&& s.has_room_for_match()
    &&& forall|j: int|
        0 <= j < servers.len() && (#[trigger] servers[j]).has_room_for_match() ==> fills_before(
            s,
            servers[j],
        )
}

pub open spec fn unique_server_ids(s: Seq<ServerInfo>) -> bool {
    forall|i: int, j: int| 0 <= i < s.len() && 0 <= j < s.len() && s[i].id == s[j].id ==> i == j
}

proof fn lemma_mul_fits(a: u64, b: u64)
    ensures
        (a as int) * (b as int) <= u128::MAX,
{
    assert((a as int) * (b as int) <= (u64::MAX as int) * (u64::MAX as int)) by (nonlinear_arith)
        requires
            a <= u64::MAX,
            b <= u64::MAX,
            0 <= a,
            0 <= b,
    ;
}

/// Comparing load ratios by cross products is transitive over servers with
/// a positive capacity.
proof fn lemma_fills_before_trans(x: ServerInfo, y: ServerInfo, z: ServerInfo)
    requires
        x.max_players > 0,
        y.max_players > 0,
        z.max_players > 0,
        fills_before(x, y),
        fills_before(y, z),
    ensures
        fills_before(x, z),
{
    let (xc, xm) = (x.current_players as int, x.max_players as int);
    let (yc, ym) = (y.current_players as int, y.max_players as int);
    let (zc, zm) = (z.current_players as int, z.max_players as int);
    assert(xc * zm >= zc * xm) by (nonlinear_arith)
        requires
            xc * ym >= yc * xm,
            yc * zm >= zc * ym,
            xm > 0,
            ym > 0,
            zm > 0,
            xc >= 0,
            yc >= 0,
            zc >= 0,
    ;
    if xc * ym > yc * xm || yc * zm > zc * ym {
        assert(xc * zm > zc * xm) by (nonlinear_arith)
            requires
                xc * ym >= yc * xm,
                yc * zm >= zc * ym,
                xc * ym > yc * xm || yc * zm > zc * ym,
                xm > 0,
                ym > 0,
                zm > 0,
                xc >= 0,
                yc >= 0,
                zc >= 0,
        ;
    }
}

/// Waiting longer never makes a pairing worse: for a fixed pair, the score
/// does not increase as time passes, so a pairing acceptable at `t1` stays
/// acceptable at every later `t2`; the bonus never exceeds `maxWaitBonus`,
/// and once the accrued bonus reaches it the score is exactly the rating
/// difference minus `maxWaitBonus`.
pub proof fn lemma_wait_widens_band(cfg: MatchConfig, a: PlayerInfo, b: PlayerInfo, t1: int, t2: int)
    requires
        t1 <= t2,
    ensures
        score(cfg, a, b, t2) <= score(cfg, a, b, t1),
        acceptable(cfg, a, b, t1) ==> acceptable(cfg, a, b, t2),
        score(cfg, a, b, t2) >= abs_diff(a.elo as int, b.elo as int) - cfg.max_wait_bonus,
        elapsed(t2, min_int(a.enqueued_at as int, b.enqueued_at as int)) * cfg.wait_bonus_rate
            >= cfg.max_wait_bonus ==> score(cfg, a, b, t2) == abs_diff(a.elo as int, b.elo as int)
            - cfg.max_wait_bonus,
{
    let since = min_int(a.enqueued_at as int, b.enqueued_at as int);
    let e1 = elapsed(t1, since);
    let e2 = elapsed(t2, since);
    let rate = cfg.wait_bonus_rate as int;
    assert(e1 <= e2);
    assert(e1 * rate <= e2 * rate) by (nonlinear_arith)
        requires
            e1 <= e2,
            rate >= 0,
    ;
}

/// The tie-break order is total: over candidates with distinct ids, the best
/// match for a subject is unique, so the selection is reproducible.
pub proof fn lemma_best_match_deterministic(
    cfg: MatchConfig,
    subject: PlayerInfo,
    cands: Seq<PlayerInfo>,
    now: int,
    m1: PotentialMatchup,
    m2: PotentialMatchup,
)
    requires
        unique_player_ids(cands),
        is_best_match(cfg, subject, cands, now, m1),
        is_best_match(cfg, subject, cands, now, m2),
    ensures
        m1 == m2,
{
    let i1 = choose|i: int| 0 <= i < cands.len() && cands[i] == m1.opponent;
    let i2 = choose|i: int| 0 <= i < cands.len() && cands[i] == m2.opponent;
    assert(ranks_before(cfg, subject, now, m1.opponent, cands[i2]));
    assert(ranks_before(cfg, subject, now, m2.opponent, cands[i1]));
    assert(i1 == i2);
}

/// Over servers with distinct ids, the server chosen for a match is unique.
pub proof fn lemma_best_server_deterministic(servers: Seq<ServerInfo>, s1: ServerInfo, s2: ServerInfo)
    requires
        unique_server_ids(servers),
        is_best_server(servers, s1),
        is_best_server(servers, s2),
    ensures
        s1 == s2,
{
    let i1 = choose|i: int| 0 <= i < servers.len() && servers[i] == s1;
    let i2 = choose|i: int| 0 <= i < servers.len() && servers[i] == s2;
    assert(fills_before(s1, servers[i2]));
    assert(fills_before(s2, servers[i1]));
    assert(i1 == i2);
}

/// Ties at the least acceptable score go to the earlier enqueue time, then
/// to the lower id: of two tied candidates, with no third one tying with
/// them, the best match picks the one that comes first in that order.
pub proof fn lemma_match_tie_break(
    cfg: MatchConfig,
    subject: PlayerInfo,
    cands: Seq<PlayerInfo>,
    now: int,
    m: PotentialMatchup,
    c1: PlayerInfo,
    c2: PlayerInfo,
)
    requires
        is_best_match(cfg, subject, cands, now, m),
        cands.contains(c1),
        cands.contains(c2),
        acceptable(cfg, subject, c1, now),
        acceptable(cfg, subject, c2, now),
        score(cfg, subject, c1, now) == score(cfg, subject, c2, now),
        forall|j: int|
            0 <= j < cands.len() && acceptable(cfg, subject, #[trigger] cands[j], now) ==> score(
                cfg,
                subject,
                c1,
                now,
            ) <= score(cfg, subject, cands[j], now),
        forall|j: int|
            0 <= j < cands.len() && acceptable(cfg, subject, #[trigger] cands[j], now) && score(
                cfg,
                subject,
                cands[j],
                now,
            ) == score(cfg, subject, c1, now) ==> cands[j] == c1 || cands[j] == c2,
        c1.enqueued_at < c2.enqueued_at || (c1.enqueued_at == c2.enqueued_at && c1.id < c2.id),
    ensures
        m.opponent == c1,
{
    let i1 = choose|i: int| 0 <= i < cands.len() && cands[i] == c1;
    let k = choose|i: int| 0 <= i < cands.len() && cands[i] == m.opponent;
    assert(ranks_before(cfg, subject, now, m.opponent, cands[i1]));
    assert(score(cfg, subject, c1, now) <= score(cfg, subject, cands[k], now));
    if m.opponent == c2 {
        assert(ranks_before(cfg, subject, now, c2, c1));
    }
}

/// Ties at the highest load ratio go to the lower id: of two tied servers
/// with room, with no third one tying with them, the chosen server is the
/// one with the lower id.
pub proof fn lemma_server_tie_break(
    servers: Seq<ServerInfo>,
    s: ServerInfo,
    s1: ServerInfo,
    s2: ServerInfo,
)
    requires
        is_best_server(servers, s),
        servers.contains(s1),
        servers.contains(s2),
        s1.has_room_for_match(),
        s2.has_room_for_match(),
        s1.current_players as int * s2.max_players as int == s2.current_players as int
            * s1.max_players as int,
        forall|j: int|
            0 <= j < servers.len() && (#[trigger] servers[j]).has_room_for_match() ==> s1.current_players
                as int * servers[j].max_players as int >= servers[j].current_players as int
                * s1.max_players as int,
        forall|j: int|
            0 <= j < servers.len() && (#[trigger] servers[j]).has_room_for_match()
                && s1.current_players as int * servers[j].max_players as int
                == servers[j].current_players as int * s1.max_players as int ==> servers[j] == s1
                || servers[j] == s2,
        s1.id < s2.id,
    ensures
        s == s1,
{
    let i1 = choose|i: int| 0 <= i < servers.len() && servers[i] == s1;
    let k = choose|i: int| 0 <= i < servers.len() && servers[i] == s;
    assert(fills_before(s, servers[i1]));
    assert(servers[k].has_room_for_match());
    if s == s2 {
        assert(fills_before(s2, s1));
    }
}

/// Scores `player` against `opponent` at time `now`.
pub fn score_matchup(cfg: &MatchConfig, player: &PlayerInfo, opponent: &PlayerInfo, now: u64) -> (r:
    i128)
    ensures
        r == score(*cfg, *player, *opponent, now as int),
{
    let delta: u64 = if player.elo >= opponent.elo {
        player.elo - opponent.elo
    } else {
        opponent.elo - player.elo
    };
    let since: u64 = if player.enqueued_at <= opponent.enqueued_at {
        player.enqueued_at
    } else {
        opponent.enqueued_at
    };
    let waited: u64 = if now > since {
        now - since
    } else {
        0
    };
    proof {
        lemma_mul_fits(waited, cfg.wait_bonus_rate);
    }
    let raw: u128 = (waited as u128) * (cfg.wait_bonus_rate as u128);
    let bonus: u64 = if raw < cfg.max_wait_bonus as u128 {
        raw as u64
    } else {
        cfg.max_wait_bonus
    };
    (delta as i128) - (bonus as i128)
}

/// Picks the best acceptable opponent for `subject` among `candidates`.
/// `None` means "keep waiting".
pub fn find_best_match(
    cfg: &MatchConfig,
    subject: &PlayerInfo,
    candidates: &Vec<PlayerInfo>,
    now: u64,
) -> (r: Option<PotentialMatchup>)
    ensures
        r is None <==> !any_acceptable(*cfg, *subject, candidates@, now as int),
        r matches Some(m) ==> is_best_match(*cfg, *subject, candidates@, now as int, m),
{
    let mut best: Option<PotentialMatchup> = None;
    let mut i: usize = 0;
    while i < candidates.len()
        invariant
            i <= candidates.len(),
            best is None ==> forall|j: int|
                0 <= j < i ==> !acceptable(*cfg, *subject, #[trigger] candidates@[j], now as int),
            best matches Some(m) ==> {
                &&& m.player == *subject
                &&& candidates@.subrange(0, i as int).contains(m.opponent)
                &&& acceptable(*cfg, *subject, m.opponent, now as int)
                &&& m.score == score(*cfg, *subject, m.opponent, now as int)
                &&& forall|j: int|
                    0 <= j < i && acceptable(*cfg, *subject, #[trigger] candidates@[j], now as int)
                        ==> ranks_before(*cfg, *subject, now as int, m.opponent, candidates@[j])
            },
        decreases candidates.len() - i,
    {
        let c = candidates[i];
        let s = score_matchup(cfg, subject, &c, now);
        if c.id != subject.id && s <= cfg.acceptance_threshold as i128 {
            let replace = match best {
                None => true,
                Some(m) => s < m.score || (s == m.score && (c.enqueued_at < m.opponent.enqueued_at
                    || (c.enqueued_at == m.opponent.enqueued_at && c.id < m.opponent.id))),
            };
            if replace {
                best = Some(PotentialMatchup { player: *subject, opponent: c, score: s });
            }
        }
        proof {
            let sub = candidates@.subrange(0, i as int + 1);
            assert(sub[i as int] == c);
            if let Some(m) = best {
                if candidates@.subrange(0, i as int).contains(m.opponent) {
                    let k = choose|k: int|
                        0 <= k < i && candidates@.subrange(0, i as int)[k] == m.opponent;
                    assert(sub[k] == m.opponent);
                }
            }
        }
        i += 1;
    }
    proof {
        assert(candidates@.subrange(0, candidates@.len() as int) =~= candidates@);
        if best is None {
            assert(!any_acceptable(*cfg, *subject, candidates@, now as int));
        }
    }
    best
}

/// Picks the fullest server with room for one more match; `None` means the
/// match has to wait for capacity.
pub fn find_best_server(servers: &Vec<ServerInfo>) -> (r: Option<ServerInfo>)
    ensures
        r is None <==> !any_room(servers@),
        r matches Some(s) ==> is_best_server(servers@, s),
{
    let mut best: Option<ServerInfo> = None;
    let mut i: usize = 0;
    while i < servers.len()
        invariant
            i <= servers.len(),
            best is None ==> forall|j: int|
                0 <= j < i ==> !(#[trigger] servers@[j]).has_room_for_match(),
            best matches Some(b) ==> {
                &&& servers@.subrange(0, i as int).contains(b)
                &&& b.has_room_for_match()
                &&& forall|j: int|
                    0 <= j < i && (#[trigger] servers@[j]).has_room_for_match() ==> fills_before(
                        b,
                        servers@[j],
                    )
            },
        decreases servers.len() - i,
    {
        let c = servers[i];
        if matches!(c.state, ServerState::Normal) && c.current_players < c.max_players
            && c.max_players - c.current_players >= PLAYERS_PER_MATCH {
            match best {
                None => {
                    best = Some(c);
                },
                Some(b) => {
                    proof {
                        lemma_mul_fits(c.current_players, b.max_players);
                        lemma_mul_fits(b.current_players, c.max_players);
                    }
                    let lc = (c.current_players as u128) * (b.max_players as u128);
                    let lb = (b.current_players as u128) * (c.max_players as u128);
                    if lc > lb || (lc == lb && c.id < b.id) {
                        proof {
                            assert forall|j: int|
                                0 <= j < i && (#[trigger] servers@[j]).has_room_for_match()
                                    implies fills_before(c, servers@[j]) by {
                                lemma_fills_before_trans(c, b, servers@[j]);
                            }
                        }
                        best = Some(c);
                    }
                },
            }
        }
        proof {
            let sub = servers@.subrange(0, i as int + 1);
            assert(sub[i as int] == c);
            if let Some(b) = best {
                if servers@.subrange(0, i as int).contains(b) {
                    let k = choose|k: int| 0 <= k < i && servers@.subrange(0, i as int)[k] == b;
                    assert(sub[k] == b);
                }
            }
        }
        i += 1;
    }
    proof {
        assert(servers@.subrange(0, servers@.len() as int) =~= servers@);
    }
    best
}

} // verus!
