//! The credential exchange chain.
//!
//! Before any stats call, an authorization code or refresh token is
//! turned into a short-lived service token through four sequential
//! exchanges: grant, user token, security token, service token. This
//! module shapes each exchange's request, and drives the chain as a
//! state machine: the caller performs one outbound call per state and
//! hands the outcome back. Any failed exchange aborts the chain with an
//! error tagged by the step that failed; no later exchange is planned.

use vstd::prelude::*;
use vstd::string::StringExecFns;

verus! {

/// Response of the grant exchange.
pub struct AuthTokenResponse {
    pub access_token: String,
    pub expires_in: i32,
    pub refresh_token: String,
    pub scope: String,
    pub token_type: String,
    pub user_id: String,
}

/// Properties of a user- or security-token exchange request; fields
/// not used by the step at hand stay empty.
pub struct XboxTicketProperties {
    pub auth_method: Option<String>,
    pub site_name: Option<String>,
    pub rps_ticket: Option<String>,
    pub sandbox_id: Option<String>,
    pub user_tokens: Option<Vec<String>>,
}

/// A user- or security-token exchange request.
pub struct XboxTicketRequest {
    pub relying_party: String,
    pub token_type: String,
    pub properties: XboxTicketProperties,
}

/// Response of the user- and of the security-token exchange.
pub struct XboxTicketResponse {
    pub issue_instant: String,
    pub not_after: String,
    pub token: String,
}

/// Proof-of-possession entry of a service-token request.
pub struct SpartanTokenProof {
    pub token: String,
    pub token_type: String,
}

/// The service-token exchange request.
pub struct SpartanTokenRequest {
    pub audience: String,
    pub min_version: String,
    pub proofs: Vec<SpartanTokenProof>,
}

/// Response of the service-token exchange.
pub struct SpartanTokenResponse {
    pub expires_utc: SpartanTokenExpiresUtc,
    pub spartan_token: String,
    pub token_duration: String,
}

/// Expiry timestamp carried by a service-token response.
pub struct SpartanTokenExpiresUtc {
    pub iso8601_date: String,
}

/// What the chain delivers to its caller: the service token, its
/// expiry, and the refresh token to restart the flow with later.
pub struct SpartanToken {
    pub token: String,
    pub expires_at: String,
    pub refresh_token: String,
}

/// Static configuration of the identity provider, supplied by the
/// process environment at startup.
pub struct AuthConfig {
    pub base_url: String,
    pub client_id: String,
    pub client_secret: String,
    pub redirect_uri: String,
}

/// The four exchanges, in the order the chain performs them.
#[derive(Clone, Copy, PartialEq, Eq, Structural, Debug)]
pub enum ChainStep {
    Grant,
    UserToken,
    SecurityToken,
    ServiceToken,
}

/// A failed chain, tagged with the exchange that failed.
#[derive(Clone, Copy, PartialEq, Eq, Structural, Debug)]
pub struct AuthChainError {
    pub step: ChainStep,
}

/// Form fields of the grant exchange.
///
/// A refresh token takes precedence over an authorization code; with
/// neither, the code field is submitted empty.
pub fn grant_form(code: Option<String>, refresh_token: Option<String>, cfg: &AuthConfig) -> (r:
    Vec<(String, String)>)
    ensures
        r@.len() == 7,
        r@[0].0@ == "grant_type"@,
        r@[0].1@ == if refresh_token is Some {
            "refresh_token"@
        } else {
            "authorization_code"@
        },
        r@[1].0@ == "code"@,
        r@[1].1@ == match (refresh_token, code) {
            (Some(rt), _) => rt@,
            (None, Some(c)) => c@,
            (None, None) => Seq::<char>::empty(),
        },
        r@[2].0@ == "client_id"@ && r@[2].1@ == cfg.client_id@,
        r@[3].0@ == "client_secret"@ && r@[3].1@ == cfg.client_secret@,
        r@[4].0@ == "approval_prompt"@ && r@[4].1@ == "auto"@,
        r@[5].0@ == "scope"@ && r@[5].1@ == "Xboxlive.signin Xboxlive.offline_access"@,
        r@[6].0@ == "redirect_uri"@ && r@[6].1@ == cfg.redirect_uri@,
{
    let grant_type: &str = if refresh_token.is_some() {
        "refresh_token"
    } else {
        "authorization_code"
    };
    let code_value: String = match refresh_token {
        Some(rt) => rt,
        None => match code {
            Some(c) => c,
            None => String::new(),
        },
    };
    let mut r: Vec<(String, String)> = Vec::new();
    r.push((("grant_type").to_owned(), grant_type.to_owned()));
    r.push((("code").to_owned(), code_value));
    r.push((("client_id").to_owned(), cfg.client_id.clone()));
    r.push((("client_secret").to_owned(), cfg.client_secret.clone()));
    r.push((("approval_prompt").to_owned(), ("auto").to_owned()));
    r.push((("scope").to_owned(), ("Xboxlive.signin Xboxlive.offline_access").to_owned()));
    r.push((("redirect_uri").to_owned(), cfg.redirect_uri.clone()));
    r
}

/// Request of the user-token exchange: the grant's access token,
/// prefixed as the provider expects, submitted as an RPS ticket.
pub fn user_ticket_request(access_token: &str) -> (r: XboxTicketRequest)
    ensures
        r.relying_party@ == "http://auth.xboxlive.com"@,
        r.token_type@ == "JWT"@,
        r.properties.auth_method matches Some(m) && m@ == "RPS"@,
        r.properties.site_name matches Some(s) && s@ == "user.auth.xboxlive.com"@,
        r.properties.rps_ticket matches Some(t) && t@ == "d="@ + access_token@,
        r.properties.sandbox_id is None,
        r.properties.user_tokens is None,
{
    XboxTicketRequest {
        relying_party: ("http://auth.xboxlive.com").to_owned(),
        token_type: ("JWT").to_owned(),
        properties: XboxTicketProperties {
            auth_method: Some(("RPS").to_owned()),
            site_name: Some(("user.auth.xboxlive.com").to_owned()),
            rps_ticket: Some(("d=").to_owned().concat(access_token)),
            sandbox_id: None,
            user_tokens: None,
        },
    }
}

/// Request of the security-token exchange: the user token against the
/// stats service's relying party in the retail sandbox.
pub fn xsts_ticket_request(user_token: String) -> (r: XboxTicketRequest)
    ensures
        r.relying_party@ == "https://prod.xsts.halowaypoint.com/"@,
        r.token_type@ == "JWT"@,
        r.properties.auth_method is None,
        r.properties.site_name is None,
        r.properties.rps_ticket is None,
        r.properties.sandbox_id matches Some(s) && s@ == "RETAIL"@,
        r.properties.user_tokens matches Some(ts) && ts@.len() == 1 && ts@[0]@ == user_token@,
{
    let mut tokens: Vec<String> = Vec::new();
    tokens.push(user_token);
    XboxTicketRequest {
        relying_party: ("https://prod.xsts.halowaypoint.com/").to_owned(),
        token_type: ("JWT").to_owned(),
        properties: XboxTicketProperties {
            auth_method: None,
            site_name: None,
            rps_ticket: None,
            sandbox_id: Some(("RETAIL").to_owned()),
            user_tokens: Some(tokens),
        },
    }
}

/// Request of the service-token exchange: the security token as the
/// single proof of possession, for the fixed audience at the minimum
/// protocol version.
pub fn spartan_token_request(xsts_token: String) -> (r: SpartanTokenRequest)
    ensures
        r.audience@ == "urn:343:s3:services"@,
        r.min_version@ == "4"@,
        r.proofs@.len() == 1,
        r.proofs@[0].token@ == xsts_token@,
        r.proofs@[0].token_type@ == "Xbox_XSTSv3"@,
{
    let mut proofs: Vec<SpartanTokenProof> = Vec::new();
    proofs.push(
        SpartanTokenProof { token: xsts_token, token_type: ("Xbox_XSTSv3").to_owned() },
    );
    SpartanTokenRequest {
        audience: ("urn:343:s3:services").to_owned(),
        min_version: ("4").to_owned(),
        proofs,
    }
}

/// Where the chain stands: which exchange it waits on, or how it
/// ended. Each state past the grant carries the artifacts later steps
/// and the final answer still need.
pub enum ChainState {
    NeedGrant,
    NeedUserToken { auth: AuthTokenResponse },
    NeedSecurityToken { auth: AuthTokenResponse, user: XboxTicketResponse },
    NeedServiceToken { auth: AuthTokenResponse, xsts: XboxTicketResponse },
    Complete { token: SpartanToken },
    Failed { error: AuthChainError },
}

/// Grant transition: a response advances to the user-token exchange,
/// a failure ends the chain tagged with the grant step.
pub open spec fn spec_on_grant(s: ChainState, response: Option<AuthTokenResponse>) -> ChainState {
    match s {
        ChainState::NeedGrant => match response {
            Some(auth) => ChainState::NeedUserToken { auth },
            None => ChainState::Failed { error: AuthChainError { step: ChainStep::Grant } },
        },
        _ => s,
    }
}

/// User-token transition.
pub open spec fn spec_on_user(s: ChainState, response: Option<XboxTicketResponse>) -> ChainState {
    match s {
        ChainState::NeedUserToken { auth } => match response {
            Some(user) => ChainState::NeedSecurityToken { auth, user },
            None => ChainState::Failed { error: AuthChainError { step: ChainStep::UserToken } },
        },
        _ => s,
    }
}

/// Security-token transition.
pub open spec fn spec_on_security(s: ChainState, response: Option<XboxTicketResponse>) -> ChainState {
    match s {
        ChainState::NeedSecurityToken { auth, user: _ } => match response {
            Some(xsts) => ChainState::NeedServiceToken { auth, xsts },
            None => ChainState::Failed {
                error: AuthChainError { step: ChainStep::SecurityToken },
            },
        },
        _ => s,
    }
}

/// Service-token transition: success completes the chain with the
/// service token, its expiry, and the grant's refresh token.
pub open spec fn spec_on_service(s: ChainState, response: Option<SpartanTokenResponse>) -> ChainState {
    match s {
        ChainState::NeedServiceToken { auth, xsts: _ } => match response {
            Some(sp) => ChainState::Complete {
                token: SpartanToken {
                    token: sp.spartan_token,
                    expires_at: sp.expires_utc.iso8601_date,
                    refresh_token: auth.refresh_token,
                },
            },
            None => ChainState::Failed {
                error: AuthChainError { step: ChainStep::ServiceToken },
            },
        },
        _ => s,
    }
}

impl ChainState {
    /// The exchange the chain waits on next; nothing once it completed
    /// or failed.
    pub open spec fn spec_step(self) -> Option<ChainStep> {
        match self {
            ChainState::NeedGrant => Some(ChainStep::Grant),
            ChainState::NeedUserToken { .. } => Some(ChainStep::UserToken),
            ChainState::NeedSecurityToken { .. } => Some(ChainStep::SecurityToken),
            ChainState::NeedServiceToken { .. } => Some(ChainStep::ServiceToken),
            ChainState::Complete { .. } => None,
            ChainState::Failed { .. } => None,
        }
    }

    /// The exchange to perform next, if any.
    pub fn current_step(&self) -> (r: Option<ChainStep>)
        ensures
            r == self.spec_step(),
    {
        match self {
            ChainState::NeedGrant => Some(ChainStep::Grant),
            ChainState::NeedUserToken { .. } => Some(ChainStep::UserToken),
            ChainState::NeedSecurityToken { .. } => Some(ChainStep::SecurityToken),
            ChainState::NeedServiceToken { .. } => Some(ChainStep::ServiceToken),
            ChainState::Complete { .. } => None,
            ChainState::Failed { .. } => None,
        }
    }

    /// Feed the grant exchange's outcome in.
    pub fn on_grant_response(self, response: Option<AuthTokenResponse>) -> (next: ChainState)
        requires
            self is NeedGrant,
        ensures
            next == spec_on_grant(self, response),
    {
        match self {
            ChainState::NeedGrant => match response {
                Some(auth) => ChainState::NeedUserToken { auth },
                None => ChainState::Failed {
                    error: AuthChainError { step: ChainStep::Grant },
                },
            },
            other => other,
        }
    }

    /// Feed the user-token exchange's outcome in.
    pub fn on_user_response(self, response: Option<XboxTicketResponse>) -> (next: ChainState)
        requires
            self is NeedUserToken,
        ensures
            next == spec_on_user(self, response),
    {
        match self {
            ChainState::NeedUserToken { auth } => match response {
                Some(user) => ChainState::NeedSecurityToken { auth, user },
                None => ChainState::Failed {
                    error: AuthChainError { step: ChainStep::UserToken },
                },
            },
            other => other,
        }
    }

    /// Feed the security-token exchange's outcome in.
    pub fn on_security_response(self, response: Option<XboxTicketResponse>) -> (next: ChainState)
        requires
            self is NeedSecurityToken,
        ensures
            next == spec_on_security(self, response),
    {
        match self {
            ChainState::NeedSecurityToken { auth, user: _ } => match response {
                Some(xsts) => ChainState::NeedServiceToken { auth, xsts },
                None => ChainState::Failed {
                    error: AuthChainError { step: ChainStep::SecurityToken },
                },
            },
            other => other,
        }
    }

    /// Feed the service-token exchange's outcome in.
    pub fn on_service_response(self, response: Option<SpartanTokenResponse>) -> (next: ChainState)
        requires
            self is NeedServiceToken,
        ensures
            next == spec_on_service(self, response),
    {
        match self {
            ChainState::NeedServiceToken { auth, xsts: _ } => match response {
                Some(sp) => ChainState::Complete {
                    token: SpartanToken {
                        token: sp.spartan_token,
                        expires_at: sp.expires_utc.iso8601_date,
                        refresh_token: auth.refresh_token,
                    },
                },
                None => ChainState::Failed {
                    error: AuthChainError { step: ChainStep::ServiceToken },
                },
            },
            other => other,
        }
    }
}

/// A chain whose every exchange is answered walks the four steps in
/// order and completes with the service token of the last response,
/// its expiry, and the refresh token of the grant — no step is skipped
/// and no other artifact leaks into the result.
pub proof fn lemma_chain_completes(
    auth: AuthTokenResponse,
    user: XboxTicketResponse,
    xsts: XboxTicketResponse,
    sp: SpartanTokenResponse,
)
    ensures
        ({
            let s0 = ChainState::NeedGrant;
            let s1 = spec_on_grant(s0, Some(auth));
            let s2 = spec_on_user(s1, Some(user));
            let s3 = spec_on_security(s2, Some(xsts));
            let s4 = spec_on_service(s3, Some(sp));
            &&& s1.spec_step() == Some(ChainStep::UserToken)
            &&& s2.spec_step() == Some(ChainStep::SecurityToken)
            &&& s3.spec_step() == Some(ChainStep::ServiceToken)
            &&& s4 == (ChainState::Complete {
                token: SpartanToken {
                    token: sp.spartan_token,
                    expires_at: sp.expires_utc.iso8601_date,
                    refresh_token: auth.refresh_token,
                },
            })
        }),
{
}

/// The chain aborts at the first failure: a failed grant ends it with
/// the error tagged by the grant step, and the ended chain plans no
/// further exchange, so the three later steps are never asked for.
pub proof fn lemma_chain_aborts_on_grant_failure()
    ensures
        spec_on_grant(ChainState::NeedGrant, None) == (ChainState::Failed {
            error: AuthChainError { step: ChainStep::Grant },
        }),
        spec_on_grant(ChainState::NeedGrant, None).spec_step() is None,
{
}

/// A chain that ended — completed or failed — is never advanced by a
/// later outcome: every transition leaves it exactly as it is.
pub proof fn lemma_ended_chain_is_final(
    s: ChainState,
    a: Option<AuthTokenResponse>,
    u: Option<XboxTicketResponse>,
    x: Option<XboxTicketResponse>,
    p: Option<SpartanTokenResponse>,
)
    requires
        s.spec_step() is None,
    ensures
        spec_on_grant(s, a) == s,
        spec_on_user(s, u) == s,
        spec_on_security(s, x) == s,
        spec_on_service(s, p) == s,
{
}

/// The pairs of the authorization redirect's query string, in order.
pub open spec fn redirect_query_pairs(cfg: AuthConfig) -> Seq<(Seq<char>, Seq<char>)> {
    seq![
        ("client_id"@, cfg.client_id@),
        ("response_type"@, "code"@),
        ("approval_prompt"@, "auto"@),
        ("scope"@, "Xboxlive.signin Xboxlive.offline_access"@),
        ("redirect_uri"@, cfg.redirect_uri@),
    ]
}

/// A query string as the fold of its pairs: `key=value&` for each pair
/// in order, with a trailing separator.
pub open spec fn query_string_of(pairs: Seq<(Seq<char>, Seq<char>)>) -> Seq<char>
    decreases pairs.len(),
{
    if pairs.len() == 0 {
        Seq::empty()
    } else {
        query_string_of(pairs.drop_last()) + pairs.last().0 + "="@ + pairs.last().1 + "&"@
    }
}

/// Relies on querystring::stringify: it folds the pairs, in order,
/// into `key=value&` segments with no escaping or reordering.
#[verifier::external_body]
fn stringify_pairs(pairs: Vec<(&str, &str)>) -> (r: String)
    ensures
        r@ == query_string_of(pairs@.map_values(|p: (&str, &str)| (p.0@, p.1@))),
{
    querystring::stringify(pairs)
}

/// The authorization redirect URL: the provider's base URL with the
/// client's identity, the requested scopes and the redirect target in
/// its query string.
pub fn redirect_url(cfg: &AuthConfig) -> (r: String)
    ensures
        r@ == cfg.base_url@ + "?"@ + query_string_of(redirect_query_pairs(*cfg)),
{
    let mut pairs: Vec<(&str, &str)> = Vec::new();
    pairs.push(("client_id", cfg.client_id.as_str()));
    pairs.push(("response_type", "code"));
    pairs.push(("approval_prompt", "auto"));
    pairs.push(("scope", "Xboxlive.signin Xboxlive.offline_access"));
    pairs.push(("redirect_uri", cfg.redirect_uri.as_str()));
    proof {
        assert(pairs@.map_values(|p: (&str, &str)| (p.0@, p.1@)) =~= redirect_query_pairs(*cfg));
    }
    let query = stringify_pairs(pairs);
    cfg.base_url.clone().concat("?").concat(query.as_str())
}

} // verus!
