use halo_gateway::auth::{
    grant_form, redirect_url, spartan_token_request, user_ticket_request, xsts_ticket_request,
    AuthChainError, AuthConfig, AuthTokenResponse, ChainState, ChainStep, SpartanTokenExpiresUtc,
    SpartanTokenResponse, XboxTicketResponse,
};
use halo_gateway::cursor::{decode_cursor, encode_cursor, PaginationError};
use halo_gateway::halo_requests::{
    find_team_stat, gamer_url, matches_url, normalize_player_id, skill_players_query, skill_url,
    stats_url, team_roster, PlayerTeamStats,
};
use halo_gateway::loader::{plan_dispatch, resolve_batch, resolve_group, MatchGroup, SkillCache,
    SkillKey};
use halo_gateway::pagination::{
    build_connection, full_connection, plan_page, plan_window, PaginationWindow,
};

fn key(player: &str, m: &str) -> SkillKey {
    SkillKey { player_id: player.to_string(), match_id: m.to_string() }
}

#[test]
fn cursor_round_trip() {
    for n in [0u64, 1, 9, 10, 24, 9999, 123456789, u64::MAX] {
        let c = encode_cursor(n);
        assert_eq!(decode_cursor(c.as_str()), Ok(n));
        assert_eq!(encode_cursor(decode_cursor(c.as_str()).unwrap()), c);
    }
    assert_eq!(encode_cursor(0), "0");
    assert_eq!(encode_cursor(10), "10");
    assert_eq!(encode_cursor(9042), "9042");
}

#[test]
fn cursor_rejects_foreign_strings() {
    assert_eq!(decode_cursor(""), Err(PaginationError::InvalidCursor));
    assert_eq!(decode_cursor("007"), Err(PaginationError::InvalidCursor));
    assert_eq!(decode_cursor("abc"), Err(PaginationError::InvalidCursor));
    assert_eq!(decode_cursor("12x"), Err(PaginationError::InvalidCursor));
    assert_eq!(decode_cursor("-1"), Err(PaginationError::InvalidCursor));
    assert_eq!(decode_cursor("1 2"), Err(PaginationError::InvalidCursor));
    // one past u64::MAX
    assert_eq!(
        decode_cursor("18446744073709551616"),
        Err(PaginationError::InvalidCursor)
    );
    assert_eq!(decode_cursor("18446744073709551615"), Ok(u64::MAX));
}

#[test]
fn forward_window_without_cursor() {
    // Scenario: no cursor, first = 5, upstream holds 3 items.
    let w = plan_window(None, None, Some(5), None);
    assert_eq!(w.start, 0);
    assert_eq!(w.fetch_count, 6);
    let items: Vec<i32> = vec![11, 22, 33];
    let c = build_connection(&w, items);
    assert_eq!(c.edges.len(), 3);
    assert!(!c.has_next_page);
    assert!(!c.has_previous_page);
    assert_eq!(c.edges[0].cursor, "0");
    assert_eq!(c.edges[0].node, 11);
    assert_eq!(c.edges[2].cursor, "2");
    assert_eq!(c.edges[2].node, 33);
}

#[test]
fn forward_window_after_cursor() {
    // Scenario: after = encode(9), first = 10, upstream answers the
    // full lookahead window.
    let after = encode_cursor(9);
    let w = plan_page(Some(after.as_str()), None, Some(10), None).unwrap();
    assert_eq!(w.start, 10);
    assert_eq!(w.fetch_count, 11);
    let items: Vec<u32> = (0..11).collect();
    let c = build_connection(&w, items);
    assert_eq!(c.edges.len(), 10);
    assert!(c.has_next_page);
    assert!(c.has_previous_page);
    assert_eq!(c.edges[0].cursor, "10");
    assert_eq!(c.edges[9].cursor, "19");
}

#[test]
fn backward_window_before_cursor() {
    // last = 3 before index 10: indices 7, 8, 9, plus the lookahead.
    let w = plan_window(None, Some(10), None, Some(3));
    assert_eq!(w.start, 7);
    assert_eq!(w.fetch_count, 4);
    let items: Vec<u32> = vec![7, 8, 9, 10];
    let c = build_connection(&w, items);
    assert_eq!(c.edges.len(), 3);
    assert!(c.has_next_page);
    assert!(c.has_previous_page);
    assert_eq!(c.edges[0].cursor, "7");
    assert_eq!(c.edges[2].cursor, "9");
}

#[test]
fn first_and_last_clamped_to_page_maximum() {
    let w = plan_window(None, None, Some(1000), None);
    assert_eq!(w.start, 0);
    assert_eq!(w.fetch_count, 25);
    let w = plan_window(None, Some(100), None, Some(1000));
    assert_eq!(w.start, 76);
    assert_eq!(w.fetch_count, 25);
}

#[test]
fn zero_page_keeps_flags_honest() {
    let w = plan_window(None, None, Some(0), None);
    assert_eq!(w.fetch_count, 1);
    // The lookahead item alone: no edges, but more items exist.
    let c = build_connection(&w, vec![1u8]);
    assert_eq!(c.edges.len(), 0);
    assert!(c.has_next_page);
    assert!(!c.has_previous_page);
    // An empty sequence: no edges and nothing beyond.
    let w = plan_window(None, None, Some(0), None);
    let c = build_connection(&w, Vec::<u8>::new());
    assert_eq!(c.edges.len(), 0);
    assert!(!c.has_next_page);
}

#[test]
fn malformed_cursor_is_a_client_error() {
    assert_eq!(
        plan_page(Some("not-a-cursor"), None, Some(5), None),
        Err(PaginationError::InvalidCursor)
    );
    assert_eq!(
        plan_page(None, Some("0x10"), None, Some(5)),
        Err(PaginationError::InvalidCursor)
    );
}

#[test]
fn default_window_is_capped() {
    let w = plan_window(None, None, None, None);
    assert_eq!(w.start, 0);
    assert_eq!(w.fetch_count, 25);
}

#[test]
fn before_not_after_start_yields_empty_window() {
    let after = encode_cursor(30);
    let before = encode_cursor(5);
    let w = plan_page(Some(after.as_str()), Some(before.as_str()), Some(4), None).unwrap();
    assert_eq!(w.start, 31);
    assert_eq!(w.fetch_count, 1);
}

#[test]
fn full_list_becomes_uncut_connection() {
    let c = full_connection(vec!["red", "blue"]);
    assert!(!c.has_previous_page);
    assert!(!c.has_next_page);
    assert_eq!(c.edges.len(), 2);
    assert_eq!(c.edges[0].cursor, "0");
    assert_eq!(c.edges[0].node, "red");
    assert_eq!(c.edges[1].cursor, "1");
    assert_eq!(c.edges[1].node, "blue");
    let empty = full_connection(Vec::<u8>::new());
    assert_eq!(empty.edges.len(), 0);
}

#[test]
fn dispatch_groups_by_match_and_dedups() {
    // Scenario: load(p1, m1), load(p2, m1), load(p3, m2) in one query.
    let keys = vec![key("p1", "m1"), key("p2", "m1"), key("p3", "m2")];
    let groups = plan_dispatch(&keys);
    assert_eq!(groups.len(), 2);
    assert_eq!(groups[0].match_id, "m1");
    assert_eq!(groups[0].player_ids, vec!["p1".to_string(), "p2".to_string()]);
    assert_eq!(groups[1].match_id, "m2");
    assert_eq!(groups[1].player_ids, vec!["p3".to_string()]);
}

#[test]
fn dispatch_dedups_repeated_keys() {
    let keys = vec![
        key("p1", "m1"),
        key("p1", "m1"),
        key("p2", "m1"),
        key("p1", "m2"),
        key("p1", "m1"),
    ];
    let groups = plan_dispatch(&keys);
    assert_eq!(groups.len(), 2);
    assert_eq!(groups[0].match_id, "m1");
    assert_eq!(groups[0].player_ids, vec!["p1".to_string(), "p2".to_string()]);
    assert_eq!(groups[1].match_id, "m2");
    assert_eq!(groups[1].player_ids, vec!["p1".to_string()]);
}

#[test]
fn empty_buffer_plans_no_calls() {
    let groups = plan_dispatch(&Vec::new());
    assert_eq!(groups.len(), 0);
}

#[test]
fn group_results_are_attributed_by_position() {
    let group = MatchGroup {
        match_id: "m1".to_string(),
        player_ids: vec!["p1".to_string(), "p2".to_string()],
    };
    let out = resolve_group(&group, Some(vec![1500i32, 1400i32]));
    assert_eq!(out.len(), 2);
    assert_eq!(out[0].0.player_id, "p1");
    assert_eq!(out[0].0.match_id, "m1");
    assert_eq!(out[0].1, Some(1500));
    assert_eq!(out[1].0.player_id, "p2");
    assert_eq!(out[1].1, Some(1400));
}

#[test]
fn mismatched_row_count_resolves_to_absent() {
    let group = MatchGroup {
        match_id: "m1".to_string(),
        player_ids: vec!["p1".to_string(), "p2".to_string()],
    };
    let out = resolve_group(&group, Some(vec![1500i32]));
    assert_eq!(out.len(), 2);
    assert_eq!(out[0].1, None);
    assert_eq!(out[1].1, None);
}

#[test]
fn failed_match_isolated_from_others() {
    // m1's upstream call fails; m2's keys still resolve.
    let keys = vec![key("p1", "m1"), key("p2", "m1"), key("p3", "m2")];
    let groups = plan_dispatch(&keys);
    let outcomes: Vec<Option<Vec<i32>>> = vec![None, Some(vec![1700])];
    let resolved = resolve_batch(&groups, outcomes);
    assert_eq!(resolved.len(), 2);
    assert_eq!(resolved[0].len(), 2);
    assert_eq!(resolved[0][0].1, None);
    assert_eq!(resolved[0][1].1, None);
    assert_eq!(resolved[1].len(), 1);
    assert_eq!(resolved[1][0].0.player_id, "p3");
    assert_eq!(resolved[1][0].1, Some(1700));
}

#[test]
fn cache_memoizes_first_resolution() {
    let mut cache: SkillCache<i32> = SkillCache::new();
    assert!(cache.get(&key("p1", "m1")).is_none());
    cache.insert(key("p1", "m1"), Some(1500));
    assert_eq!(cache.get(&key("p1", "m1")), Some(&Some(1500)));
    // The first resolution wins; a repeat insert changes nothing.
    cache.insert(key("p1", "m1"), Some(9999));
    assert_eq!(cache.get(&key("p1", "m1")), Some(&Some(1500)));
    // A failed resolution is memoized too.
    cache.insert(key("p1", "m2"), None);
    assert_eq!(cache.get(&key("p1", "m2")), Some(&None));
    assert!(cache.get(&key("p2", "m1")).is_none());
}

#[test]
fn grant_form_prefers_refresh_token() {
    let cfg = AuthConfig {
        base_url: "https://login.live.com/oauth20_authorize.srf".to_string(),
        client_id: "client-1".to_string(),
        client_secret: "SECRET-REDACTED".to_string(),
        redirect_uri: "http://localhost:8080/callback".to_string(),
    };
    let form = grant_form(Some("the-code".to_string()), Some("the-refresh".to_string()), &cfg);
    assert_eq!(form[0], ("grant_type".to_string(), "refresh_token".to_string()));
    assert_eq!(form[1], ("code".to_string(), "the-refresh".to_string()));

    let form = grant_form(Some("the-code".to_string()), None, &cfg);
    assert_eq!(form[0], ("grant_type".to_string(), "authorization_code".to_string()));
    assert_eq!(form[1], ("code".to_string(), "the-code".to_string()));
    assert_eq!(form[2], ("client_id".to_string(), "client-1".to_string()));
    assert_eq!(form[3], ("client_secret".to_string(), "SECRET-REDACTED".to_string()));
    assert_eq!(form[4], ("approval_prompt".to_string(), "auto".to_string()));
    assert_eq!(
        form[5],
        ("scope".to_string(), "Xboxlive.signin Xboxlive.offline_access".to_string())
    );
    assert_eq!(
        form[6],
        ("redirect_uri".to_string(), "http://localhost:8080/callback".to_string())
    );

    let form = grant_form(None, None, &cfg);
    assert_eq!(form[1], ("code".to_string(), "".to_string()));
}

#[test]
fn ticket_requests_carry_fixed_parties() {
    let user = user_ticket_request("access-123");
    assert_eq!(user.relying_party, "http://auth.xboxlive.com");
    assert_eq!(user.token_type, "JWT");
    assert_eq!(user.properties.auth_method.as_deref(), Some("RPS"));
    assert_eq!(user.properties.site_name.as_deref(), Some("user.auth.xboxlive.com"));
    assert_eq!(user.properties.rps_ticket.as_deref(), Some("d=access-123"));
    assert!(user.properties.sandbox_id.is_none());
    assert!(user.properties.user_tokens.is_none());

    let xsts = xsts_ticket_request("user-token-1".to_string());
    assert_eq!(xsts.relying_party, "https://prod.xsts.halowaypoint.com/");
    assert_eq!(xsts.properties.sandbox_id.as_deref(), Some("RETAIL"));
    assert_eq!(
        xsts.properties.user_tokens,
        Some(vec!["user-token-1".to_string()])
    );
    assert!(xsts.properties.rps_ticket.is_none());

    let sp = spartan_token_request("xsts-token-1".to_string());
    assert_eq!(sp.audience, "urn:343:s3:services");
    assert_eq!(sp.min_version, "4");
    assert_eq!(sp.proofs.len(), 1);
    assert_eq!(sp.proofs[0].token, "xsts-token-1");
    assert_eq!(sp.proofs[0].token_type, "Xbox_XSTSv3");
}

fn auth_response() -> AuthTokenResponse {
    AuthTokenResponse {
        access_token: "at".to_string(),
        expires_in: 3600,
        refresh_token: "rt".to_string(),
        scope: "scope".to_string(),
        token_type: "bearer".to_string(),
        user_id: "u".to_string(),
    }
}

fn ticket_response(token: &str) -> XboxTicketResponse {
    XboxTicketResponse {
        issue_instant: "2024-01-01T00:00:00Z".to_string(),
        not_after: "2024-01-02T00:00:00Z".to_string(),
        token: token.to_string(),
    }
}

#[test]
fn chain_completes_in_order() {
    let s = ChainState::NeedGrant;
    assert_eq!(s.current_step(), Some(ChainStep::Grant));
    let s = s.on_grant_response(Some(auth_response()));
    assert_eq!(s.current_step(), Some(ChainStep::UserToken));
    let s = s.on_user_response(Some(ticket_response("user-tok")));
    assert_eq!(s.current_step(), Some(ChainStep::SecurityToken));
    let s = s.on_security_response(Some(ticket_response("xsts-tok")));
    assert_eq!(s.current_step(), Some(ChainStep::ServiceToken));
    let s = s.on_service_response(Some(SpartanTokenResponse {
        expires_utc: SpartanTokenExpiresUtc { iso8601_date: "2024-06-01T00:00:00Z".to_string() },
        spartan_token: "spartan-tok".to_string(),
        token_duration: "PT4H".to_string(),
    }));
    assert_eq!(s.current_step(), None);
    match s {
        ChainState::Complete { token } => {
            assert_eq!(token.token, "spartan-tok");
            assert_eq!(token.expires_at, "2024-06-01T00:00:00Z");
            assert_eq!(token.refresh_token, "rt");
        }
        _ => panic!("chain did not complete"),
    }
}

#[test]
fn expired_refresh_token_halts_chain_at_grant() {
    // Scenario: the grant exchange fails; no later step is planned.
    let s = ChainState::NeedGrant;
    let s = s.on_grant_response(None);
    match &s {
        ChainState::Failed { error } => {
            assert_eq!(*error, AuthChainError { step: ChainStep::Grant });
        }
        _ => panic!("chain did not fail"),
    }
    assert_eq!(s.current_step(), None);
}

#[test]
fn later_step_failures_are_tagged() {
    let s = ChainState::NeedGrant.on_grant_response(Some(auth_response()));
    let s = s.on_user_response(None);
    match s {
        ChainState::Failed { error } => {
            assert_eq!(error.step, ChainStep::UserToken);
        }
        _ => panic!("chain did not fail"),
    }
    let s = ChainState::NeedGrant
        .on_grant_response(Some(auth_response()))
        .on_user_response(Some(ticket_response("u")))
        .on_security_response(None);
    match s {
        ChainState::Failed { error } => {
            assert_eq!(error.step, ChainStep::SecurityToken);
        }
        _ => panic!("chain did not fail"),
    }
    let s = ChainState::NeedGrant
        .on_grant_response(Some(auth_response()))
        .on_user_response(Some(ticket_response("u")))
        .on_security_response(Some(ticket_response("x")))
        .on_service_response(None);
    match s {
        ChainState::Failed { error } => {
            assert_eq!(error.step, ChainStep::ServiceToken);
        }
        _ => panic!("chain did not fail"),
    }
}

#[test]
fn redirect_url_prints_query_in_order() {
    let cfg = AuthConfig {
        base_url: "https://login.live.com/oauth20_authorize.srf".to_string(),
        client_id: "client-1".to_string(),
        client_secret: "SECRET-REDACTED".to_string(),
        redirect_uri: "http://localhost:8080/callback".to_string(),
    };
    assert_eq!(
        redirect_url(&cfg),
        "https://login.live.com/oauth20_authorize.srf?client_id=client-1&response_type=code&\
         approval_prompt=auto&scope=Xboxlive.signin Xboxlive.offline_access&\
         redirect_uri=http://localhost:8080/callback&"
    );
}

#[test]
fn upstream_urls() {
    assert_eq!(
        matches_url("2533274792116602"),
        "https://halostats.svc.halowaypoint.com/hi/players/xuid(2533274792116602)/matches"
    );
    assert_eq!(
        stats_url("abc-def"),
        "https://halostats.svc.halowaypoint.com/hi/matches/abc-def/stats"
    );
    assert_eq!(
        gamer_url("SomeGamer"),
        "https://profile.svc.halowaypoint.com/users/gt(SomeGamer)"
    );
    assert_eq!(
        skill_url("abc-def", "xuid(1),xuid(2)"),
        "https://skill.svc.halowaypoint.com/hi/matches/abc-def/skill?players=xuid(1),xuid(2)"
    );
}

#[test]
fn players_query_joins_in_request_order() {
    assert_eq!(skill_players_query(&Vec::new()), "");
    assert_eq!(skill_players_query(&vec!["1".to_string()]), "xuid(1)");
    assert_eq!(
        skill_players_query(&vec!["1".to_string(), "22".to_string(), "333".to_string()]),
        "xuid(1),xuid(22),xuid(333)"
    );
}

#[test]
fn player_id_normalization() {
    assert_eq!(normalize_player_id("xuid(123)"), "123");
    assert_eq!(normalize_player_id("123"), "123");
    assert_eq!(normalize_player_id("xuid(xuid(9))"), "9");
    assert_eq!(normalize_player_id(""), "");
    assert_eq!(normalize_player_id("xuid()"), "");
}

#[test]
fn roster_matches_players_to_teams() {
    let players = vec![
        PlayerTeamStats { player_id: "xuid(1)".to_string(), team_ids: vec![0] },
        PlayerTeamStats { player_id: "xuid(2)".to_string(), team_ids: vec![1] },
        PlayerTeamStats { player_id: "xuid(3)".to_string(), team_ids: vec![1, 0] },
        PlayerTeamStats { player_id: "xuid(4)".to_string(), team_ids: vec![] },
    ];
    let roster = team_roster(0, &players);
    assert_eq!(roster.len(), 2);
    assert_eq!(roster[0].player_index, 0);
    assert_eq!(roster[0].stat_index, 0);
    assert_eq!(roster[1].player_index, 2);
    assert_eq!(roster[1].stat_index, 1);
    let roster = team_roster(1, &players);
    assert_eq!(roster.len(), 2);
    assert_eq!(roster[0].player_index, 1);
    assert_eq!(roster[1].player_index, 2);
    assert_eq!(roster[1].stat_index, 0);
    let roster = team_roster(7, &players);
    assert_eq!(roster.len(), 0);
}

#[test]
fn find_first_matching_stat_block() {
    assert_eq!(find_team_stat(&vec![2, 1, 1], 1), Some(1));
    assert_eq!(find_team_stat(&vec![2, 3], 1), None);
    assert_eq!(find_team_stat(&Vec::new(), 1), None);
}

#[test]
fn window_stays_well_formed_on_extremes() {
    let w: PaginationWindow = plan_window(Some(u64::MAX), None, Some(24), None);
    assert!(w.fetch_count >= 1);
    assert_eq!(w.start, u64::MAX);
    assert_eq!(w.fetch_count, 1);
    let w = plan_window(Some(9999), None, Some(24), None);
    assert_eq!(w.start, 10000);
    assert_eq!(w.fetch_count, 1);
}
