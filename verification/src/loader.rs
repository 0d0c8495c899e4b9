//! Batching and coalescing of skill lookups.
//!
//! During one query many sub-resolutions ask for "skill of player X in
//! match Y". The loader buffers those keys, groups them by match with
//! the player set of each match deduplicated, and plans one upstream
//! call per match. The caller performs the calls and hands each group's
//! outcome back; the loader distributes every group's results to its
//! keys, isolating a failed match from the others. A per-query cache
//! memoizes resolved keys so a key is fetched at most once.

use vstd::prelude::*;

verus! {

/// Composite identity of one skill lookup: a player within a match.
pub struct SkillKey {
    pub player_id: String,
    pub match_id: String,
}

impl View for SkillKey {
    type V = (Seq<char>, Seq<char>);

    open spec fn view(&self) -> (Seq<char>, Seq<char>) {
        (self.player_id@, self.match_id@)
    }
}

/// The model of a buffered key list.
pub open spec fn keys_model(keys: Seq<SkillKey>) -> Seq<(Seq<char>, Seq<char>)> {
    keys.map_values(|k: SkillKey| k@)
}

/// The distinct match ids of the buffered keys, in first-occurrence
/// order.
pub open spec fn match_ids_of(keys: Seq<(Seq<char>, Seq<char>)>) -> Seq<Seq<char>>
    decreases keys.len(),
{
    if keys.len() == 0 {
        Seq::empty()
    } else {
        let pre = match_ids_of(keys.drop_last());
        if pre.contains(keys.last().1) {
            pre
        } else {
            pre.push(keys.last().1)
        }
    }
}

/// The distinct players asking about match `m`, in first-occurrence
/// order.
pub open spec fn players_for(keys: Seq<(Seq<char>, Seq<char>)>, m: Seq<char>) -> Seq<Seq<char>>
    decreases keys.len(),
{
    if keys.len() == 0 {
        Seq::empty()
    } else {
        let pre = players_for(keys.drop_last(), m);
        let k = keys.last();
        if k.1 == m && !pre.contains(k.0) {
            pre.push(k.0)
        } else {
            pre
        }
    }
}

/// One planned upstream call: the match and the deduplicated players
/// to ask about, in the order the request will list them.
pub struct MatchGroup {
    pub match_id: String,
    pub player_ids: Vec<String>,
}

proof fn lemma_match_ids_distinct(keys: Seq<(Seq<char>, Seq<char>)>)
    ensures
        forall|i: int, j: int|
            0 <= i < j < match_ids_of(keys).len() ==> match_ids_of(keys)[i] != match_ids_of(
                keys,
            )[j],
        forall|i: int|
            0 <= i < match_ids_of(keys).len() ==> keys.map_values(
                |k: (Seq<char>, Seq<char>)| k.1,
            ).contains(#[trigger] match_ids_of(keys)[i]),
    decreases keys.len(),
{
    if keys.len() > 0 {
        lemma_match_ids_distinct(keys.drop_last());
        let pre = match_ids_of(keys.drop_last());
        let mids = match_ids_of(keys);
        let tags = keys.map_values(|k: (Seq<char>, Seq<char>)| k.1);
        let pretags = keys.drop_last().map_values(|k: (Seq<char>, Seq<char>)| k.1);
        assert forall|i: int| 0 <= i < pretags.len() implies tags.contains(#[trigger] pretags[i])
        by {
            assert(tags[i] == pretags[i]);
        }
        if !pre.contains(keys.last().1) {
            assert(tags[keys.len() - 1] == keys.last().1);
            assert(tags.contains(keys.last().1));
            assert(forall|i: int| 0 <= i < pre.len() ==> mids[i] == pre[i]);
        }
    }
}

proof fn lemma_players_distinct(keys: Seq<(Seq<char>, Seq<char>)>, m: Seq<char>)
    ensures
        forall|i: int, j: int|
            0 <= i < j < players_for(keys, m).len() ==> players_for(keys, m)[i] != players_for(
                keys,
                m,
            )[j],
    decreases keys.len(),
{
    if keys.len() > 0 {
        lemma_players_distinct(keys.drop_last(), m);
        let pre = players_for(keys.drop_last(), m);
        let ps = players_for(keys, m);
        if keys.last().1 == m && !pre.contains(keys.last().0) {
            assert(forall|i: int| 0 <= i < pre.len() ==> ps[i] == pre[i]);
        }
    }
}

proof fn lemma_dispatch_covers(keys: Seq<(Seq<char>, Seq<char>)>, ki: int)
    requires
        0 <= ki < keys.len(),
    ensures
        match_ids_of(keys).contains(keys[ki].1),
        players_for(keys, keys[ki].1).contains(keys[ki].0),
    decreases keys.len(),
{
    if ki == keys.len() - 1 {
        let pre = match_ids_of(keys.drop_last());
        if !pre.contains(keys.last().1) {
            assert(match_ids_of(keys).last() == keys.last().1);
        }
        let ppre = players_for(keys.drop_last(), keys[ki].1);
        if !ppre.contains(keys.last().0) {
            assert(players_for(keys, keys[ki].1).last() == keys.last().0);
        } else {
            lemma_players_grow(keys, keys[ki].1);
        }
    } else {
        lemma_dispatch_covers(keys.drop_last(), ki);
        assert(keys.drop_last()[ki] == keys[ki]);
        lemma_match_ids_grow(keys);
        lemma_players_grow(keys, keys[ki].1);
    }
}

/// Appending a key keeps every match id already planned.
proof fn lemma_match_ids_grow(keys: Seq<(Seq<char>, Seq<char>)>)
    requires
        keys.len() > 0,
    ensures
        forall|m: Seq<char>|
            match_ids_of(keys.drop_last()).contains(m) ==> match_ids_of(keys).contains(m),
{
    let pre = match_ids_of(keys.drop_last());
    let mids = match_ids_of(keys);
    assert forall|m: Seq<char>| pre.contains(m) implies mids.contains(m) by {
        let i = choose|i: int| 0 <= i < pre.len() && pre[i] == m;
        assert(mids[i] == m);
    }
}

/// Appending a key keeps every player already planned for a match.
proof fn lemma_players_grow(keys: Seq<(Seq<char>, Seq<char>)>, m: Seq<char>)
    requires
        keys.len() > 0,
    ensures
        forall|p: Seq<char>|
            players_for(keys.drop_last(), m).contains(p) ==> players_for(keys, m).contains(p),
{
    let pre = players_for(keys.drop_last(), m);
    let ps = players_for(keys, m);
    assert forall|p: Seq<char>| pre.contains(p) implies ps.contains(p) by {
        let i = choose|i: int| 0 <= i < pre.len() && pre[i] == p;
        assert(ps[i] == p);
    }
}

/// The coalescing law. The dispatch plan for a buffer of keys makes at
/// most one upstream call per match: the planned match ids are
/// pairwise distinct, the players within one call are pairwise
/// distinct, and every buffered key is served by the call for its own
/// match. Hence each distinct key is fetched at most once.
pub proof fn lemma_at_most_one_fetch(keys: Seq<(Seq<char>, Seq<char>)>)
    ensures
        forall|i: int, j: int|
            0 <= i < j < match_ids_of(keys).len() ==> match_ids_of(keys)[i] != match_ids_of(
                keys,
            )[j],
        forall|m: Seq<char>, i: int, j: int|
            0 <= i < j < players_for(keys, m).len() ==> players_for(keys, m)[i] != players_for(
                keys,
                m,
            )[j],
        forall|ki: int|
            0 <= ki < keys.len() ==> match_ids_of(keys).contains(#[trigger] keys[ki].1)
                && players_for(keys, keys[ki].1).contains(keys[ki].0),
{
    lemma_match_ids_distinct(keys);
    assert forall|m: Seq<char>, i: int, j: int|
        0 <= i < j < players_for(keys, m).len() implies players_for(keys, m)[i] != players_for(
        keys,
        m,
    )[j] by {
        lemma_players_distinct(keys, m);
    }
    assert forall|ki: int| 0 <= ki < keys.len() implies match_ids_of(keys).contains(
        #[trigger] keys[ki].1,
    ) && players_for(keys, keys[ki].1).contains(keys[ki].0) by {
        lemma_dispatch_covers(keys, ki);
    }
}

fn vec_contains_str(v: &Vec<String>, s: &String) -> (b: bool)
    ensures
        b == v.deep_view().contains(s@),
{
    let mut i: usize = 0;
    while i < v.len()
        invariant
            0 <= i <= v@.len(),
            forall|j: int| 0 <= j < i ==> v.deep_view()[j] != s@,
        decreases v@.len() - i,
    {
        if v[i] == *s {
            assert(v.deep_view()[i as int] == s@);
            return true;
        }
        i = i + 1;
    }
    false
}

/// Group the buffered keys into the dispatch plan: one call per
/// distinct match, each listing that match's distinct players in
/// first-occurrence order.
pub fn plan_dispatch(keys: &Vec<SkillKey>) -> (groups: Vec<MatchGroup>)
    ensures
        groups@.map_values(|g: MatchGroup| g.match_id@) == match_ids_of(keys_model(keys@)),
        forall|g: int|
            0 <= g < groups@.len() ==> (#[trigger] groups@[g]).player_ids.deep_view()
                == players_for(keys_model(keys@), groups@[g].match_id@),
{
    let ghost km = keys_model(keys@);
    let mut mids: Vec<String> = Vec::new();
    let mut ki: usize = 0;
    while ki < keys.len()
        invariant
            0 <= ki <= keys@.len(),
            km == keys_model(keys@),
            mids.deep_view() == match_ids_of(km.subrange(0, ki as int)),
        decreases keys@.len() - ki,
    {
        proof {
            assert(km.subrange(0, ki as int + 1).drop_last() =~= km.subrange(0, ki as int));
            assert(km.subrange(0, ki as int + 1).last() == km[ki as int]);
            assert(km[ki as int] == keys@[ki as int]@);
        }
        if !vec_contains_str(&mids, &keys[ki].match_id) {
            mids.push(keys[ki].match_id.clone());
            proof {
                assert(mids.deep_view() =~= match_ids_of(km.subrange(0, ki as int + 1)));
            }
        }
        ki = ki + 1;
    }
    proof {
        assert(km.subrange(0, keys@.len() as int) =~= km);
    }
    let mut groups: Vec<MatchGroup> = Vec::new();
    let mut gi: usize = 0;
    while gi < mids.len()
        invariant
            0 <= gi <= mids@.len(),
            km == keys_model(keys@),
            mids.deep_view() == match_ids_of(km),
            groups@.len() == gi,
            forall|g: int|
                0 <= g < gi ==> (#[trigger] groups@[g]).match_id@ == mids.deep_view()[g],
            forall|g: int|
                0 <= g < gi ==> (#[trigger] groups@[g]).player_ids.deep_view() == players_for(
                    km,
                    mids.deep_view()[g],
                ),
        decreases mids@.len() - gi,
    {
        let mid = mids[gi].clone();
        let mut players: Vec<String> = Vec::new();
        let mut kj: usize = 0;
        while kj < keys.len()
            invariant
                0 <= kj <= keys@.len(),
                km == keys_model(keys@),
                mid@ == mids.deep_view()[gi as int],
                gi < mids@.len(),
                players.deep_view() == players_for(km.subrange(0, kj as int), mid@),
            decreases keys@.len() - kj,
        {
            proof {
                assert(km.subrange(0, kj as int + 1).drop_last() =~= km.subrange(0, kj as int));
                assert(km.subrange(0, kj as int + 1).last() == km[kj as int]);
                assert(km[kj as int] == keys@[kj as int]@);
            }
            if keys[kj].match_id == mid {
                if !vec_contains_str(&players, &keys[kj].player_id) {
                    players.push(keys[kj].player_id.clone());
                    proof {
                        assert(players.deep_view() =~= players_for(
                            km.subrange(0, kj as int + 1),
                            mid@,
                        ));
                    }
                }
            }
            kj = kj + 1;
        }
        proof {
            assert(km.subrange(0, keys@.len() as int) =~= km);
        }
        groups.push(MatchGroup { match_id: mid, player_ids: players });
        gi = gi + 1;
    }
    proof {
        assert(groups@.map_values(|g: MatchGroup| g.match_id@) =~= mids.deep_view());
    }
    groups
}

/// The model of one group's upstream outcome: the ordered result rows,
/// or nothing when the call failed.
pub open spec fn outcome_model<V>(o: Option<Vec<V>>) -> Option<Seq<V>> {
    match o {
        Some(v) => Some(v@),
        None => None,
    }
}

/// What one group's keys resolve to. Each key of the group gets the
/// result row in its own position when the call succeeded and answered
/// one row per requested player; every key of the group resolves to
/// nothing when the call failed or the row count does not line up with
/// the request.
pub open spec fn spec_resolve_group<V>(
    players: Seq<Seq<char>>,
    mid: Seq<char>,
    outcome: Option<Seq<V>>,
) -> Seq<((Seq<char>, Seq<char>), Option<V>)> {
    Seq::new(
        players.len(),
        |i: int|
            (
                (players[i], mid),
                match outcome {
                    Some(rs) => if rs.len() == players.len() {
                        Some(rs[i])
                    } else {
                        None
                    },
                    None => None,
                },
            ),
    )
}

/// The model of a resolved entry list.
pub open spec fn entries_model<V>(es: Seq<(SkillKey, Option<V>)>) -> Seq<
    ((Seq<char>, Seq<char>), Option<V>),
> {
    es.map_values(|e: (SkillKey, Option<V>)| (e.0@, e.1))
}

/// Distribute one group's outcome to the group's keys.
///
/// The rows of a successful call are attributed to players by position,
/// in the order the request listed them; a row count that does not
/// match the request is treated as a failed call rather than
/// misattributed.
pub fn resolve_group<V>(group: &MatchGroup, outcome: Option<Vec<V>>) -> (out: Vec<
    (SkillKey, Option<V>),
>)
    ensures
        entries_model(out@) == spec_resolve_group(
            group.player_ids.deep_view(),
            group.match_id@,
            outcome_model(outcome),
        ),
{
    let ghost players = group.player_ids.deep_view();
    let ghost omodel = outcome_model(outcome);
    let mut out: Vec<(SkillKey, Option<V>)> = Vec::new();
    match outcome {
        Some(results) => {
            if results.len() == group.player_ids.len() {
                let ghost rows = results@;
                let mut rest = results;
                let mut i: usize = 0;
                while i < group.player_ids.len()
                    invariant
                        0 <= i <= group.player_ids@.len(),
                        players == group.player_ids.deep_view(),
                        rows.len() == players.len(),
                        omodel == Some(rows),
                        rest@ =~= rows.subrange(i as int, rows.len() as int),
                        out@.len() == i,
                        forall|j: int|
                            0 <= j < i ==> entries_model(out@)[j] == spec_resolve_group(
                                players,
                                group.match_id@,
                                omodel,
                            )[j],
                    decreases group.player_ids@.len() - i,
                {
                    let row = rest.remove(0);
                    let key = SkillKey {
                        player_id: group.player_ids[i].clone(),
                        match_id: group.match_id.clone(),
                    };
                    let ghost kview = key@;
                    let ghost prev = out@;
                    out.push((key, Some(row)));
                    proof {
                        assert forall|j: int|
                            0 <= j <= i as int implies entries_model(out@)[j] == spec_resolve_group(
                            players,
                            group.match_id@,
                            omodel,
                        )[j] by {
                            assert(entries_model(out@)[j] == (out@[j].0@, out@[j].1));
                            if j < i as int {
                                assert(out@[j] == prev[j]);
                                assert(entries_model(prev)[j] == (prev[j].0@, prev[j].1));
                            } else {
                                assert(out@[j].0@ == kview);
                                assert(kview == (players[i as int], group.match_id@));
                            }
                        }
                    }
                    i = i + 1;
                }
                proof {
                    assert(entries_model(out@) =~= spec_resolve_group(
                        players,
                        group.match_id@,
                        omodel,
                    ));
                }
                return out;
            }
        },
        None => {},
    }
    let mut i: usize = 0;
    while i < group.player_ids.len()
        invariant
            0 <= i <= group.player_ids@.len(),
            players == group.player_ids.deep_view(),
            omodel matches Some(rs) ==> rs.len() != players.len(),
            out@.len() == i,
            forall|j: int|
                0 <= j < i ==> entries_model(out@)[j] == spec_resolve_group(
                    players,
                    group.match_id@,
                    omodel,
                )[j],
        decreases group.player_ids@.len() - i,
    {
        let key = SkillKey {
            player_id: group.player_ids[i].clone(),
            match_id: group.match_id.clone(),
        };
        let ghost kview = key@;
        let ghost prev = out@;
        out.push((key, None));
        proof {
            assert forall|j: int|
                0 <= j <= i as int implies entries_model(out@)[j] == spec_resolve_group(
                players,
                group.match_id@,
                omodel,
            )[j] by {
                assert(entries_model(out@)[j] == (out@[j].0@, out@[j].1));
                if j < i as int {
                    assert(out@[j] == prev[j]);
                    assert(entries_model(prev)[j] == (prev[j].0@, prev[j].1));
                } else {
                    assert(out@[j].0@ == kview);
                    assert(kview == (players[i as int], group.match_id@));
                }
            }
        }
        i = i + 1;
    }
    proof {
        assert(entries_model(out@) =~= spec_resolve_group(players, group.match_id@, omodel));
    }
    out
}

/// Distribute every group's outcome, group by group.
///
/// Each group's keys are resolved from that group's own outcome alone,
/// so a failed match leaves every other match's keys untouched.
pub fn resolve_batch<V>(groups: &Vec<MatchGroup>, outcomes: Vec<Option<Vec<V>>>) -> (out: Vec<
    Vec<(SkillKey, Option<V>)>,
>)
    requires
        outcomes@.len() == groups@.len(),
    ensures
        out@.len() == groups@.len(),
        forall|g: int|
            0 <= g < out@.len() ==> entries_model(#[trigger] out@[g]@) == spec_resolve_group(
                groups@[g].player_ids.deep_view(),
                groups@[g].match_id@,
                outcome_model(outcomes@[g]),
            ),
{
    let ghost oseq = outcomes@;
    let mut rest = outcomes;
    let mut out: Vec<Vec<(SkillKey, Option<V>)>> = Vec::new();
    let mut g: usize = 0;
    while g < groups.len()
        invariant
            0 <= g <= groups@.len(),
            oseq.len() == groups@.len(),
            rest@ =~= oseq.subrange(g as int, oseq.len() as int),
            out@.len() == g,
            forall|i: int|
                0 <= i < g ==> entries_model(#[trigger] out@[i]@) == spec_resolve_group(
                    groups@[i].player_ids.deep_view(),
                    groups@[i].match_id@,
                    outcome_model(oseq[i]),
                ),
        decreases groups@.len() - g,
    {
        let outcome = rest.remove(0);
        let resolved = resolve_group(&groups[g], outcome);
        out.push(resolved);
        g = g + 1;
    }
    out
}

/// Failure isolation. In one batch, a failed match group resolves all
/// of its own keys to nothing, while a group whose call succeeded with
/// one row per player resolves every one of its keys to its row — the
/// failure of the one never reaches the keys of the other.
pub proof fn lemma_failure_isolation<V>(
    players: Seq<Seq<Seq<char>>>,
    mids: Seq<Seq<char>>,
    outcomes: Seq<Option<Seq<V>>>,
    g: int,
    j: int,
)
    requires
        players.len() == mids.len(),
        outcomes.len() == mids.len(),
        0 <= g < mids.len(),
        0 <= j < mids.len(),
        g != j,
        outcomes[j] is None,
        outcomes[g] matches Some(rs) && rs.len() == players[g].len(),
    ensures
        forall|i: int|
            0 <= i < players[g].len() ==> #[trigger] spec_resolve_group(
                players[g],
                mids[g],
                outcomes[g],
            )[i].1 == Some(outcomes[g].unwrap()[i]),
        forall|i: int|
            0 <= i < players[j].len() ==> #[trigger] spec_resolve_group(
                players[j],
                mids[j],
                outcomes[j],
            )[i].1 is None,
{
}

/// The spec-level map a cache's entry list denotes.
pub open spec fn entries_map<V>(es: Seq<(SkillKey, Option<V>)>) -> Map<
    (Seq<char>, Seq<char>),
    Option<V>,
>
    decreases es.len(),
{
    if es.len() == 0 {
        Map::empty()
    } else {
        entries_map(es.drop_last()).insert(es.last().0@, es.last().1)
    }
}

/// Per-query memoization of resolved skill lookups.
///
/// The cache lives for one query's evaluation and is discarded with
/// it. A key is inserted when its group's outcome is distributed;
/// repeat lookups of the same key are answered from the cache, so the
/// upstream is asked at most once per key.
pub struct SkillCache<V> {
    entries: Vec<(SkillKey, Option<V>)>,
}

impl<V> SkillCache<V> {
    /// The memo table: resolved result by key.
    pub closed spec fn spec_map(self) -> Map<(Seq<char>, Seq<char>), Option<V>> {
        entries_map(self.entries@)
    }

    /// Each key is cached at most once.
    pub closed spec fn wf(self) -> bool {
        forall|i: int, j: int|
            0 <= i < j < self.entries@.len() ==> self.entries@[i].0@ != self.entries@[j].0@
    }

    /// An empty cache for a fresh query.
    pub fn new() -> (c: SkillCache<V>)
        ensures
            c.wf(),
            c.spec_map() == Map::<(Seq<char>, Seq<char>), Option<V>>::empty(),
    {
        SkillCache { entries: Vec::new() }
    }

    /// Look a key up. Gives the memoized resolution exactly when the
    /// key was resolved before in this query.
    pub fn get(&self, key: &SkillKey) -> (r: Option<&Option<V>>)
        requires
            self.wf(),
        ensures
            match r {
                Some(v) => self.spec_map().contains_key(key@) && *v == self.spec_map()[key@],
                None => !self.spec_map().contains_key(key@),
            },
    {
        let mut i: usize = 0;
        while i < self.entries.len()
            invariant
                self.wf(),
                0 <= i <= self.entries@.len(),
                forall|j: int| 0 <= j < i ==> self.entries@[j].0@ != key@,
            decreases self.entries@.len() - i,
        {
            let e = &self.entries[i];
            if e.0.player_id == key.player_id && e.0.match_id == key.match_id {
                proof {
                    lemma_entries_map_index(self.entries@, i as int);
                }
                return Some(&e.1);
            }
            i = i + 1;
        }
        proof {
            if self.spec_map().contains_key(key@) {
                lemma_entries_map_key_exists(self.entries@, key@);
            }
        }
        None
    }

    /// Memoize a key's resolution. The first resolution of a key wins;
    /// a key already cached is left as it is.
    pub fn insert(&mut self, key: SkillKey, value: Option<V>)
        requires
            old(self).wf(),
        ensures
            final(self).wf(),
            final(self).spec_map() == if old(self).spec_map().contains_key(key@) {
                old(self).spec_map()
            } else {
                old(self).spec_map().insert(key@, value)
            },
    {
        let mut i: usize = 0;
        while i < self.entries.len()
            invariant
                self.wf(),
                0 <= i <= self.entries@.len(),
                forall|j: int| 0 <= j < i ==> self.entries@[j].0@ != key@,
            decreases self.entries@.len() - i,
    {
            let e = &self.entries[i];
            if e.0.player_id == key.player_id && e.0.match_id == key.match_id {
                proof {
                    lemma_entries_map_index(self.entries@, i as int);
                }
                return;
            }
            i = i + 1;
        }
        proof {
            if self.spec_map().contains_key(key@) {
                lemma_entries_map_key_exists(self.entries@, key@);
            }
            assert(self.entries@.push((key, value)).drop_last() =~= self.entries@);
        }
        self.entries.push((key, value));
    }
}

proof fn lemma_entries_map_index<V>(es: Seq<(SkillKey, Option<V>)>, i: int)
    requires
        0 <= i < es.len(),
        forall|a: int, b: int| 0 <= a < b < es.len() ==> es[a].0@ != es[b].0@,
    ensures
        entries_map(es).contains_key(es[i].0@),
        entries_map(es)[es[i].0@] == es[i].1,
    decreases es.len(),
{
    if i == es.len() - 1 {
    } else {
        lemma_entries_map_index(es.drop_last(), i);
        assert(es.drop_last()[i] == es[i]);
        assert(es[i].0@ != es.last().0@);
    }
}

proof fn lemma_entries_map_key_exists<V>(es: Seq<(SkillKey, Option<V>)>, k: (Seq<char>, Seq<char>))
    requires
        entries_map(es).contains_key(k),
    ensures
        exists|i: int| 0 <= i < es.len() && es[i].0@ == k,
    decreases es.len(),
{
    if es.len() > 0 {
        if es.last().0@ == k {
            assert(es[es.len() - 1].0@ == k);
        } else {
            lemma_entries_map_key_exists(es.drop_last(), k);
            let i = choose|i: int| 0 <= i < es.drop_last().len() && es.drop_last()[i].0@ == k;
            assert(es[i].0@ == k);
        }
    }
}

} // verus!
