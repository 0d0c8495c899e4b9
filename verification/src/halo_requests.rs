//! Upstream stats requests and response shapes.
//!
//! The gateway reaches the stats service through four resource kinds:
//! a player's match list, one match's stats, one match's skill recaps,
//! and a profile. This module holds the response shapes the core
//! reads, builds each request's URL and query, normalizes player ids,
//! and assembles a match's team rosters from its stats response. The
//! transport performing the HTTP calls lives outside the library.

use vstd::prelude::*;
use vstd::string::{StrSliceExecFns, StringExecFns};

verus! {

/// Rank recap before and after one match.
pub struct SkillResultRankRecap {
    pub pre_match_csr: SkillResultRankRecapCsr,
    pub post_match_csr: SkillResultRankRecapCsr,
}

/// One competitive skill rank reading.
pub struct SkillResultRankRecapCsr {
    pub value: i32,
    pub measurement_matches_remaining: i32,
    pub tier: String,
    pub tier_start: i32,
    pub sub_tier: i32,
    pub next_tier: String,
    pub next_tier_start: i32,
    pub next_sub_tier: i32,
    pub initial_measurement_matches: i32,
}

/// A player profile.
pub struct Gamer {
    pub xuid: String,
    pub gamertag: String,
    pub gamerpic: GamerPic,
}

/// Profile picture, by size.
pub struct GamerPic {
    pub small: String,
    pub medium: String,
    pub large: String,
    pub xlarge: String,
}

/// One named score line of a core-stats block.
pub struct MatchStatsTeamStatsCoreStatsScore {
    pub name_id: i64,
    pub count: i32,
    pub total_personal_score_awarded: i32,
}

/// Stronghold-mode stats of one team, present only when the mode
/// plays zones.
pub struct MatchStatsTeamStatsZonesStats {
    pub stronghold_captures: i32,
    pub stronghold_defensive_kills: i32,
    pub stronghold_offensive_kills: i32,
    pub stronghold_secures: i32,
    pub stronghold_occupation_time: String,
    pub stronghold_scoring_ticks: i32,
}

/// URL of a player's match list.
pub fn matches_url(xuid: &str) -> (r: String)
    ensures
        r@ == "https://halostats.svc.halowaypoint.com/hi/players/xuid("@ + xuid@ + ")/matches"@,
{
    ("https://halostats.svc.halowaypoint.com/hi/players/xuid(").to_owned().concat(xuid).concat(
        ")/matches",
    )
}

/// URL of one match's stats.
pub fn stats_url(match_id: &str) -> (r: String)
    ensures
        r@ == "https://halostats.svc.halowaypoint.com/hi/matches/"@ + match_id@ + "/stats"@,
{
    ("https://halostats.svc.halowaypoint.com/hi/matches/").to_owned().concat(match_id).concat(
        "/stats",
    )
}

/// URL of a profile lookup by gamertag.
pub fn gamer_url(gamertag: &str) -> (r: String)
    ensures
        r@ == "https://profile.svc.halowaypoint.com/users/gt("@ + gamertag@ + ")"@,
{
    ("https://profile.svc.halowaypoint.com/users/gt(").to_owned().concat(gamertag).concat(")")
}

/// The `players` query value of a skill request: every requested
/// player as `xuid(<id>)`, comma separated, in request order.
pub open spec fn spec_players_query(xs: Seq<Seq<char>>) -> Seq<char>
    decreases xs.len(),
{
    if xs.len() == 0 {
        Seq::empty()
    } else if xs.len() == 1 {
        "xuid("@ + xs[0] + ")"@
    } else {
        spec_players_query(xs.drop_last()) + ","@ + "xuid("@ + xs.last() + ")"@
    }
}

/// Print the players of one skill request, in the order the loader
/// planned them — the upstream answers by position, so this order is
/// the one results are attributed by.
pub fn skill_players_query(xuids: &Vec<String>) -> (r: String)
    ensures
        r@ == spec_players_query(xuids.deep_view()),
{
    let ghost xs = xuids.deep_view();
    let mut r = String::new();
    let mut i: usize = 0;
    while i < xuids.len()
        invariant
            0 <= i <= xuids@.len(),
            xs == xuids.deep_view(),
            r@ == spec_players_query(xs.subrange(0, i as int)),
        decreases xuids@.len() - i,
    {
        proof {
            assert(xs.subrange(0, i as int + 1).drop_last() =~= xs.subrange(0, i as int));
            assert(xs.subrange(0, i as int + 1).last() == xs[i as int]);
            assert(xs[i as int] == xuids@[i as int]@);
        }
        if i > 0 {
            r.append(",");
        }
        r.append("xuid(");
        r.append(xuids[i].as_str());
        r.append(")");
        proof {
            if i == 0 {
                assert(r@ =~= spec_players_query(xs.subrange(0, 1)));
            } else {
                assert(r@ =~= spec_players_query(xs.subrange(0, i as int + 1)));
            }
        }
        i = i + 1;
    }
    proof {
        assert(xs.subrange(0, xuids@.len() as int) =~= xs);
    }
    r
}

/// URL of one match's skill recaps for the given players query.
pub fn skill_url(match_id: &str, players_query: &str) -> (r: String)
    ensures
        r@ == "https://skill.svc.halowaypoint.com/hi/matches/"@ + match_id@ + "/skill?players="@
            + players_query@,
{
    ("https://skill.svc.halowaypoint.com/hi/matches/").to_owned().concat(match_id).concat(
        "/skill?players=",
    ).concat(players_query)
}

/// Does the id carry the `xuid(` wrapper at its front?
pub open spec fn has_xuid_prefix(s: Seq<char>) -> bool {
    s.len() >= 5 && s[0] == 'x' && s[1] == 'u' && s[2] == 'i' && s[3] == 'd' && s[4] == '('
}

/// The id with every leading `xuid(` wrapper removed.
pub open spec fn strip_xuid_prefixes(s: Seq<char>) -> Seq<char>
    decreases s.len(),
{
    if has_xuid_prefix(s) {
        strip_xuid_prefixes(s.subrange(5, s.len() as int))
    } else {
        s
    }
}

/// The id with every trailing `)` removed.
pub open spec fn strip_closing_parens(s: Seq<char>) -> Seq<char>
    decreases s.len(),
{
    if s.len() >= 1 && s.last() == ')' {
        strip_closing_parens(s.drop_last())
    } else {
        s
    }
}

/// Reduce a stats response's player id, shaped `xuid(<digits>)`, to
/// the bare id the skill loader keys by.
pub fn normalize_player_id(id: &str) -> (r: String)
    ensures
        r@ == strip_closing_parens(strip_xuid_prefixes(id@)),
{
    let mut cur: String = id.to_owned();
    while cur.as_str().unicode_len() >= 5 && cur.as_str().get_char(0) == 'x'
        && cur.as_str().get_char(1) == 'u' && cur.as_str().get_char(2) == 'i'
        && cur.as_str().get_char(3) == 'd' && cur.as_str().get_char(4) == '('
        invariant
            strip_xuid_prefixes(cur@) == strip_xuid_prefixes(id@),
        decreases cur@.len(),
    {
        let n = cur.as_str().unicode_len();
        let next = cur.as_str().substring_char(5, n).to_owned();
        proof {
            assert(has_xuid_prefix(cur@));
            assert(next@ == cur@.subrange(5, cur@.len() as int));
        }
        cur = next;
    }
    proof {
        assert(!has_xuid_prefix(cur@));
        assert(strip_xuid_prefixes(cur@) == cur@);
    }
    let ghost mid = strip_xuid_prefixes(id@);
    while cur.as_str().unicode_len() >= 1 && cur.as_str().get_char(
        cur.as_str().unicode_len() - 1,
    ) == ')'
        invariant
            strip_closing_parens(cur@) == strip_closing_parens(mid),
        decreases cur@.len(),
    {
        let n = cur.as_str().unicode_len();
        let next = cur.as_str().substring_char(0, n - 1).to_owned();
        proof {
            assert(cur@.last() == ')');
            assert(next@ =~= cur@.drop_last());
        }
        cur = next;
    }
    proof {
        assert(strip_closing_parens(cur@) == cur@);
    }
    cur
}

/// One player's team-stat blocks, reduced to what roster assembly
/// reads: the team id of each block, in response order.
pub struct PlayerTeamStats {
    pub player_id: String,
    pub team_ids: Vec<i32>,
}

/// A roster entry: which player of the stats response plays on the
/// team, and which of the player's stat blocks belongs to that team.
#[derive(Clone, Copy, PartialEq, Eq, Structural, Debug)]
pub struct TeamRosterEntry {
    pub player_index: usize,
    pub stat_index: usize,
}

/// Find the first of a player's stat blocks that belongs to a team.
pub fn find_team_stat(team_ids: &Vec<i32>, team_id: i32) -> (r: Option<usize>)
    ensures
        match r {
            Some(j) => j < team_ids@.len() && team_ids@[j as int] == team_id && forall|k: int|
                0 <= k < j ==> team_ids@[k] != team_id,
            None => forall|k: int| 0 <= k < team_ids@.len() ==> team_ids@[k] != team_id,
        },
{
    let mut j: usize = 0;
    while j < team_ids.len()
        invariant
            0 <= j <= team_ids@.len(),
            forall|k: int| 0 <= k < j ==> team_ids@[k] != team_id,
        decreases team_ids@.len() - j,
    {
        if team_ids[j] == team_id {
            return Some(j);
        }
        j = j + 1;
    }
    None
}

/// Assemble one team's roster from a match-stats response: exactly the
/// players owning a stat block for the team, in response order, each
/// with its first such block.
pub fn team_roster(team_id: i32, players: &Vec<PlayerTeamStats>) -> (r: Vec<TeamRosterEntry>)
    ensures
        forall|a: int, b: int|
            0 <= a < b < r@.len() ==> r@[a].player_index < r@[b].player_index,
        forall|k: int|
            0 <= k < r@.len() ==> {
                let e = #[trigger] r@[k];
                &&& e.player_index < players@.len()
                &&& e.stat_index < players@[e.player_index as int].team_ids@.len()
                &&& players@[e.player_index as int].team_ids@[e.stat_index as int] == team_id
                &&& forall|j: int|
                    0 <= j < e.stat_index ==> players@[e.player_index as int].team_ids@[j]
                        != team_id
            },
        forall|p: int|
            0 <= p < players@.len() && (exists|j: int|
                0 <= j < (#[trigger] players@[p]).team_ids@.len() && players@[p].team_ids@[j]
                    == team_id) ==> exists|k: int|
                0 <= k < r@.len() && (#[trigger] r@[k]).player_index == p,
{
    let mut r: Vec<TeamRosterEntry> = Vec::new();
    let mut p: usize = 0;
    while p < players.len()
        invariant
            0 <= p <= players@.len(),
            forall|a: int, b: int|
                0 <= a < b < r@.len() ==> r@[a].player_index < r@[b].player_index,
            forall|k: int| 0 <= k < r@.len() ==> (#[trigger] r@[k]).player_index < p,
            forall|k: int|
                0 <= k < r@.len() ==> {
                    let e = #[trigger] r@[k];
                    &&& e.player_index < players@.len()
                    &&& e.stat_index < players@[e.player_index as int].team_ids@.len()
                    &&& players@[e.player_index as int].team_ids@[e.stat_index as int] == team_id
                    &&& forall|j: int|
                        0 <= j < e.stat_index ==> players@[e.player_index as int].team_ids@[j]
                            != team_id
                },
            forall|q: int|
                0 <= q < p && (exists|j: int|
                    0 <= j < (#[trigger] players@[q]).team_ids@.len() && players@[q].team_ids@[j]
                        == team_id) ==> exists|k: int|
                    0 <= k < r@.len() && (#[trigger] r@[k]).player_index == q,
        decreases players@.len() - p,
    {
        match find_team_stat(&players[p].team_ids, team_id) {
            Some(j) => {
                let ghost prev = r@;
                r.push(TeamRosterEntry { player_index: p, stat_index: j });
                proof {
                    assert(r@[r@.len() - 1].player_index == p);
                    assert forall|q: int|
                        0 <= q < p + 1 && (exists|j2: int|
                            0 <= j2 < (#[trigger] players@[q]).team_ids@.len()
                                && players@[q].team_ids@[j2] == team_id) implies exists|k: int|
                        0 <= k < r@.len() && (#[trigger] r@[k]).player_index == q by {
                        if q < p {
                            let k = choose|k: int|
                                0 <= k < prev.len() && (#[trigger] prev[k]).player_index == q;
                            assert(r@[k].player_index == q);
                        } else {
                            assert(r@[r@.len() - 1].player_index == q);
                        }
                    }
                }
            },
            None => {},
        }
        p = p + 1;
    }
    r
}

} // verus!
