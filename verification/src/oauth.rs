//! The Spotify login: the two OAuth clients, the scopes asked for, and how
//! tokens that Spotify grants become the saved credentials.

use std::sync::Arc;
use vstd::prelude::*;
use crate::callback::{url_parse, OAuthError};
use crate::text::{chars_of, separator_fn, split_by, split_pieces, string_from_chars, Separator};

verus! {

/// The client id of the Web API client.
pub const WEB_CLIENT_ID: &'static str = "782ae96ea60f4cdf986a766049607005";

/// The client id of the streaming (player) client.
pub const PLAYER_CLIENT_ID: &'static str = "65b708073fc0480ea92a077233ca87bd";

/// Where the browser returns after a login.
pub const REDIRECT_URI: &'static str = "http://127.0.0.1:8898/login";

/// The authorization endpoint.
pub const AUTH_URL: &'static str = "https://accounts.spotify.com/authorize";

/// The token endpoint.
pub const TOKEN_URL: &'static str = "https://accounts.spotify.com/api/token";

/// The scopes that the Web API login asks for, separated by commas.
pub const SCOPES: &'static str = "user-read-private,playlist-read-private,playlist-read-collaborative,user-library-read,user-library-modify,user-top-read,user-read-recently-played,user-read-playback-state,playlist-modify-public,playlist-modify-private,user-modify-playback-state";

/// The scope that the player login asks for.
pub const PLAYER_SCOPE: &'static str = "streaming";

/// A public OAuth client (no secret) with its endpoints.
#[derive(Debug, Clone)]
pub struct OAuthClientConfig {
    pub client_id: String,
    pub auth_url: String,
    pub token_url: String,
    pub redirect_url: String,
}

/// A public client with the given id, Spotify's endpoints and the local
/// redirect URI.
pub open spec fn spotify_client(config: OAuthClientConfig, client_id: Seq<char>) -> bool {
    &&& config.client_id@ == client_id
    &&& config.auth_url@ == AUTH_URL@
    &&& config.token_url@ == TOKEN_URL@
    &&& config.redirect_url@ == REDIRECT_URI@
}

fn client_config(client_id: &str) -> (r: OAuthClientConfig)
    ensures
        spotify_client(r, client_id@),
{
    OAuthClientConfig {
        client_id: client_id.to_owned(),
        auth_url: AUTH_URL.to_owned(),
        token_url: TOKEN_URL.to_owned(),
        redirect_url: REDIRECT_URI.to_owned(),
    }
}

/// The login clients of the application and the store where tokens are kept.
pub struct SpotOauthClient<S> {
    web_client: OAuthClientConfig,
    player_client: OAuthClientConfig,
    token_store: Arc<S>,
}

impl<S> SpotOauthClient<S> {
    /// Both clients are Spotify's public clients of this application.
    #[verifier::type_invariant]
    closed spec fn well_formed(self) -> bool {
        spotify_client(self.web_client, WEB_CLIENT_ID@) && spotify_client(
            self.player_client,
            PLAYER_CLIENT_ID@,
        )
    }

    pub closed spec fn web(&self) -> OAuthClientConfig {
        self.web_client
    }

    pub closed spec fn player(&self) -> OAuthClientConfig {
        self.player_client
    }

    pub closed spec fn store(&self) -> Arc<S> {
        self.token_store
    }

    /// The Web API client and the player client, both public clients of
    /// Spotify's endpoints redirecting to `REDIRECT_URI`, over `token_store`.
    pub fn new(token_store: Arc<S>) -> (r: Self)
        ensures
            spotify_client(r.web(), WEB_CLIENT_ID@),
            spotify_client(r.player(), PLAYER_CLIENT_ID@),
            r.store() == token_store,
    {
        let web_client = client_config(WEB_CLIENT_ID);
        let player_client = client_config(PLAYER_CLIENT_ID);
        SpotOauthClient { web_client, player_client, token_store }
    }

    /// The Web API client.
    pub fn web_client(&self) -> (r: &OAuthClientConfig)
        ensures
            *r == self.web(),
            spotify_client(*r, WEB_CLIENT_ID@),
    {
        proof {
            use_type_invariant(self);
        }
        &self.web_client
    }

    /// The player client.
    pub fn player_client(&self) -> (r: &OAuthClientConfig)
        ensures
            *r == self.player(),
            spotify_client(*r, PLAYER_CLIENT_ID@),
    {
        proof {
            use_type_invariant(self);
        }
        &self.player_client
    }

    /// The token store.
    pub fn token_store(&self) -> (r: &Arc<S>)
        ensures
            *r == self.store(),
    {
        &self.token_store
    }
}

/// The scopes of the Web API login: `SCOPES` split at its commas.
pub fn request_scopes() -> (r: Vec<String>)
    ensures
        r@.map_values(|s: String| s@) == split_by(SCOPES@, separator_fn(Separator::Char(','))),
{
    let chars = chars_of(SCOPES);
    let pieces = split_pieces(&chars, Separator::Char(','));
    let mut out: Vec<String> = Vec::new();
    let mut i: usize = 0;
    while i < pieces.len()
        invariant
            i <= pieces@.len(),
            pieces@.map_values(|p: Vec<char>| p@) == split_by(SCOPES@, separator_fn(Separator::Char(','))),
            out@.map_values(|s: String| s@) == pieces@.take(i as int).map_values(|p: Vec<char>| p@),
        decreases pieces@.len() - i,
    {
        let s = string_from_chars(&pieces[i]);
        let ghost old_out = out@;
        out.push(s);
        assert(pieces@.take(i + 1) =~= pieces@.take(i as int).push(pieces@[i as int]));
        assert(out@ =~= old_out.push(s));
        assert(out@.map_values(|s: String| s@) =~= old_out.map_values(|s: String| s@).push(s@));
        assert(pieces@.take(i + 1).map_values(|p: Vec<char>| p@) =~= pieces@.take(
            i as int,
        ).map_values(|p: Vec<char>| p@).push(pieces@[i as int]@));
        i = i + 1;
    }
    assert(pieces@.take(pieces@.len() as int) =~= pieces@);
    out
}

/// What `oauth2`'s authorization request builds as the URL to open in the
/// browser, for a client (its authorization endpoint, id and redirect URI),
/// the scopes asked for, a CSRF state and a PKCE verifier (whose SHA-256
/// challenge it carries).
pub uninterp spec fn authorization_url(
    auth_url: Seq<char>,
    client_id: Seq<char>,
    redirect_url: Seq<char>,
    scopes: Seq<Seq<char>>,
    state: Seq<char>,
    pkce_verifier: Seq<char>,
) -> Seq<char>;

/// Text in the URL-safe base64 alphabet (`A`-`Z`, `a`-`z`, `0`-`9`, `-`, `_`).
pub open spec fn is_url_safe_base64(s: Seq<char>) -> bool {
    forall|i: int|
        0 <= i < s.len() ==> {
            let c = #[trigger] s[i];
            ('A' <= c && c <= 'Z') || ('a' <= c && c <= 'z') || ('0' <= c && c <= '9') || c == '-'
                || c == '_'
        }
}

/// A CSRF state as `CsrfToken::new_random` draws it: 16 random bytes in
/// unpadded URL-safe base64, 22 characters.
pub open spec fn is_random_state(s: Seq<char>) -> bool {
    s.len() == 22 && is_url_safe_base64(s)
}

/// A PKCE verifier as `PkceCodeChallenge::new_random_sha256` draws it: 32
/// random bytes in unpadded URL-safe base64, 43 characters.
pub open spec fn is_random_verifier(s: Seq<char>) -> bool {
    s.len() == 43 && is_url_safe_base64(s)
}

/// One browser login to start: the URL to open, the CSRF state that the
/// callback must carry back, and the PKCE verifier for exchanging the code.
#[derive(Debug, Clone)]
pub struct AuthorizationRequest {
    pub url: String,
    pub state: String,
    pub pkce_verifier: String,
}

/// Builds an `oauth2::basic::BasicClient` from the client's id, authorization
/// endpoint (`AuthUrl::new`) and redirect URI (`RedirectUrl::new`), both of
/// which parse with `Url::parse`; draws a random state
/// (`CsrfToken::new_random`) and PKCE verifier
/// (`PkceCodeChallenge::new_random_sha256`); and returns the URL that
/// `authorize_url(..).add_scopes(..).set_pkce_challenge(..).url()` builds.
/// The contract names that URL, and says of the random state and verifier
/// only their length and alphabet (unpadded URL-safe base64 of 16 and 32
/// random bytes).
#[verifier::external_body]
fn new_authorization_request(client: &OAuthClientConfig, scopes: &Vec<String>) -> (r: Option<
    AuthorizationRequest,
>)
    ensures
        r is Some <==> (url_parse(client.auth_url@) is Some && url_parse(client.redirect_url@) is Some),
        r matches Some(a) ==> a.url@ == authorization_url(
            client.auth_url@,
            client.client_id@,
            client.redirect_url@,
            scopes@.map_values(|s: String| s@),
            a.state@,
            a.pkce_verifier@,
        ),
        r matches Some(a) ==> is_random_state(a.state@) && is_random_verifier(a.pkce_verifier@),
{
    let auth_url = ::oauth2::AuthUrl::new(client.auth_url.clone()).ok()?;
    let redirect_url = ::oauth2::RedirectUrl::new(client.redirect_url.clone()).ok()?;
    let id = ::oauth2::ClientId::new(client.client_id.clone());
    let c = ::oauth2::basic::BasicClient::new(id, None, auth_url, None).set_redirect_uri(redirect_url);
    let (challenge, verifier) = ::oauth2::PkceCodeChallenge::new_random_sha256();
    let (url, state) = c.authorize_url(::oauth2::CsrfToken::new_random).add_scopes(
        scopes.iter().cloned().map(::oauth2::Scope::new),
    ).set_pkce_challenge(challenge).url();
    Some(AuthorizationRequest {
        url: url.to_string(),
        state: state.secret().clone(),
        pkce_verifier: verifier.secret().clone(),
    })
}

/// The scopes of the player login: `PLAYER_SCOPE` alone.
pub open spec fn player_scopes() -> Seq<Seq<char>> {
    seq![PLAYER_SCOPE@]
}

/// The scopes of the Web API login: `SCOPES` split at its commas.
pub open spec fn web_scopes() -> Seq<Seq<char>> {
    split_by(SCOPES@, separator_fn(Separator::Char(',')))
}

/// The two browser logins to start: the Web API client's with the scopes of
/// `SCOPES`, then the player client's with `PLAYER_SCOPE`; each URL carries
/// its own client, scopes, state and PKCE verifier; each state is a non-empty
/// random token of 22 characters, each verifier one of 43. `Some` exactly when the
/// authorization endpoint and the redirect URI parse as URLs.
pub fn login_requests<S>(c: &SpotOauthClient<S>) -> (r: Option<
    (AuthorizationRequest, AuthorizationRequest),
>)
    ensures
        r is Some <==> (url_parse(AUTH_URL@) is Some && url_parse(REDIRECT_URI@) is Some),
        r matches Some((web, player)) ==> web.url@ == authorization_url(
            AUTH_URL@,
            WEB_CLIENT_ID@,
            REDIRECT_URI@,
            web_scopes(),
            web.state@,
            web.pkce_verifier@,
        ) && player.url@ == authorization_url(
            AUTH_URL@,
            PLAYER_CLIENT_ID@,
            REDIRECT_URI@,
            player_scopes(),
            player.state@,
            player.pkce_verifier@,
        ),
        r matches Some((web, player)) ==> is_random_state(web.state@) && is_random_verifier(
            web.pkce_verifier@,
        ) && is_random_state(player.state@) && is_random_verifier(player.pkce_verifier@),
{
    let web_list = request_scopes();
    let web = new_authorization_request(c.web_client(), &web_list)?;
    let mut player_list: Vec<String> = Vec::new();
    player_list.push(PLAYER_SCOPE.to_owned());
    assert(player_list@.map_values(|s: String| s@) =~= player_scopes());
    let player = new_authorization_request(c.player_client(), &player_list)?;
    Some((web, player))
}

/// The saved login: the Web API tokens and the player tokens. Times are
/// nanoseconds since the Unix epoch.
#[derive(Debug, Clone)]
pub struct Credentials {
    pub access_token: String,
    pub refresh_token: String,
    pub token_expiry_time: Option<u128>,
    pub player_access_token: Option<String>,
    pub player_refresh_token: Option<String>,
    pub player_token_expiry_time: Option<u128>,
}

/// What a token endpoint granted: an access token, maybe a refresh token,
/// maybe a lifetime in nanoseconds.
#[derive(Debug, Clone)]
pub struct TokenGrant {
    pub access_token: String,
    pub refresh_token: Option<String>,
    pub expires_in: Option<u128>,
}

/// The lifetime assumed for a token granted without one: an hour.
pub const DEFAULT_TOKEN_LIFETIME: u128 = 3_600_000_000_000;

/// The lifetime of a grant, an hour when it gives none.
pub open spec fn lifetime(grant: TokenGrant) -> int {
    match grant.expires_in {
        Some(d) => d as int,
        None => DEFAULT_TOKEN_LIFETIME as int,
    }
}

/// The grant's expiry time counted from `now` fits the clock.
pub open spec fn expiry_fits(grant: TokenGrant, now: u128) -> bool {
    now + lifetime(grant) <= u128::MAX
}

fn expiry_of(grant: &TokenGrant, now: u128) -> (r: u128)
    requires
        expiry_fits(*grant, now),
    ensures
        r == now + lifetime(*grant),
{
    match grant.expires_in {
        Some(d) => now + d,
        None => now + DEFAULT_TOKEN_LIFETIME,
    }
}

fn clone_opt(s: &Option<String>) -> (r: Option<String>)
    ensures
        r == *s,
{
    match s {
        Some(t) => Some(t.clone()),
        None => None,
    }
}

/// The credentials of a first login from the grants for the Web API code
/// (received at `web_now`) and the player code (received at `player_now`):
/// `NoRefreshToken` when the Web API grant carries no refresh token.
pub fn credentials_from_grants(
    web: &TokenGrant,
    player: &TokenGrant,
    web_now: u128,
    player_now: u128,
) -> (r: Result<Credentials, OAuthError>)
    requires
        web.refresh_token is Some ==> expiry_fits(*web, web_now) && expiry_fits(*player, player_now),
    ensures
        web.refresh_token is None ==> r matches Err(OAuthError::NoRefreshToken),
        web.refresh_token matches Some(refresh) ==> (r matches Ok(c) && c.access_token@
            == web.access_token@ && c.refresh_token@ == refresh@ && c.token_expiry_time == Some(
            (web_now + lifetime(*web)) as u128,
        ) && c.player_access_token == Some(player.access_token) && c.player_refresh_token
            == player.refresh_token && c.player_token_expiry_time == Some(
            (player_now + lifetime(*player)) as u128,
        )),
{
    let refresh_token = match &web.refresh_token {
        Some(t) => t.clone(),
        None => return Err(OAuthError::NoRefreshToken),
    };
    Ok(
        Credentials {
            access_token: web.access_token.clone(),
            refresh_token,
            token_expiry_time: Some(expiry_of(web, web_now)),
            player_access_token: Some(player.access_token.clone()),
            player_refresh_token: clone_opt(&player.refresh_token),
            player_token_expiry_time: Some(expiry_of(player, player_now)),
        },
    )
}

/// `c` is `old` with the Web API token refreshed at `now` by `grant`: a new
/// access token and expiry, the granted refresh token or else the old one,
/// and the player tokens as they were.
pub open spec fn web_refreshed(old: Credentials, g: TokenGrant, now: u128, c: Credentials) -> bool {
    &&& c.access_token@ == g.access_token@
    &&& c.refresh_token@ == match g.refresh_token {
        Some(t) => t@,
        None => old.refresh_token@,
    }
    &&& c.token_expiry_time == Some((now + lifetime(g)) as u128)
    &&& c.player_access_token == old.player_access_token
    &&& c.player_refresh_token == old.player_refresh_token
    &&& c.player_token_expiry_time == old.player_token_expiry_time
}

/// The credentials after refreshing the Web API token at `now`: `grant` is
/// what the token endpoint answered, `None` when the refresh failed, which
/// gives `NoRefreshToken`. A grant without a refresh token keeps the old one;
/// the player tokens are kept.
pub fn refreshed_credentials(old: Credentials, grant: Option<&TokenGrant>, now: u128) -> (r: Result<
    Credentials,
    OAuthError,
>)
    requires
        grant matches Some(g) ==> expiry_fits(*g, now),
    ensures
        grant is None ==> r matches Err(OAuthError::NoRefreshToken),
        grant matches Some(g) ==> (r matches Ok(c) && web_refreshed(old, *g, now, c)),
        r matches Ok(c) ==> c.player_access_token == old.player_access_token
            && c.player_refresh_token == old.player_refresh_token && c.player_token_expiry_time
            == old.player_token_expiry_time,
        grant matches Some(g) ==> (g.refresh_token is None ==> (r matches Ok(c) && c.refresh_token@
            == old.refresh_token@)),
{
    let g = match grant {
        Some(g) => g,
        None => return Err(OAuthError::NoRefreshToken),
    };
    let mut c = old;
    let refresh_token = match &g.refresh_token {
        Some(t) => t.clone(),
        None => c.refresh_token.clone(),
    };
    c.access_token = g.access_token.clone();
    c.refresh_token = refresh_token;
    c.token_expiry_time = Some(expiry_of(g, now));
    Ok(c)
}

/// The credentials after refreshing the player token at `now` with the
/// granted `grant`: a grant without a refresh token keeps the old one; the
/// Web API tokens are kept.
pub fn with_player_grant(old: Credentials, grant: &TokenGrant, now: u128) -> (r: Credentials)
    requires
        expiry_fits(*grant, now),
    ensures
        r == with_player_grant_spec(old, *grant, now),
        r.access_token@ == old.access_token@,
        r.refresh_token@ == old.refresh_token@,
        r.token_expiry_time == old.token_expiry_time,
        r.player_access_token matches Some(t) && t@ == grant.access_token@,
        r.player_refresh_token == match grant.refresh_token {
            Some(t) => Some(t),
            None => old.player_refresh_token,
        },
        r.player_token_expiry_time == Some((now + lifetime(*grant)) as u128),
{
    proof {
        law_player_refresh_keeps_web_tokens(old, *grant, now);
    }
    let mut c = old;
    c.player_access_token = Some(grant.access_token.clone());
    if let Some(t) = &grant.refresh_token {
        c.player_refresh_token = Some(t.clone());
    }
    c.player_token_expiry_time = Some(expiry_of(grant, now));
    c
}

/// A player refresh leaves the Web API tokens as they were and replaces the
/// player's: its access token and expiry always, its refresh token when one
/// was granted.
pub proof fn law_player_refresh_keeps_web_tokens(old: Credentials, grant: TokenGrant, now: u128)
    ensures
        ({
            let r = with_player_grant_spec(old, grant, now);
            &&& r.access_token@ == old.access_token@
            &&& r.refresh_token@ == old.refresh_token@
            &&& r.token_expiry_time == old.token_expiry_time
            &&& r.player_access_token matches Some(t) && t@ == grant.access_token@
            &&& r.player_refresh_token == match grant.refresh_token {
                Some(t) => Some(t),
                None => old.player_refresh_token,
            }
            &&& r.player_token_expiry_time == Some((now + lifetime(grant)) as u128)
        }),
{
}

/// A Web API refresh leaves the player tokens as they were, takes the
/// granted access token, and keeps the old refresh token unless a new one was
/// granted.
pub proof fn law_web_refresh_keeps_player_tokens(
    old: Credentials,
    grant: TokenGrant,
    now: u128,
    c: Credentials,
)
    requires
        web_refreshed(old, grant, now, c),
    ensures
        c.player_access_token == old.player_access_token,
        c.player_refresh_token == old.player_refresh_token,
        c.player_token_expiry_time == old.player_token_expiry_time,
        c.access_token@ == grant.access_token@,
        grant.refresh_token is None ==> c.refresh_token@ == old.refresh_token@,
        grant.refresh_token matches Some(t) ==> c.refresh_token@ == t@,
        c.token_expiry_time == Some((now + lifetime(grant)) as u128),
{
}

/// `old` with the player token refreshed at `now` by `grant`.
pub open spec fn with_player_grant_spec(old: Credentials, grant: TokenGrant, now: u128) -> Credentials {
    Credentials {
        player_access_token: Some(grant.access_token),
        player_refresh_token: match grant.refresh_token {
            Some(t) => Some(t),
            None => old.player_refresh_token,
        },
        player_token_expiry_time: Some((now + lifetime(grant)) as u128),
        ..old
    }
}

/// A token has expired when its expiry time is past `now`, or unknown.
pub fn token_expired(c: &Credentials, now: u128) -> (r: bool)
    ensures
        r == match c.token_expiry_time {
            Some(t) => now > t,
            None => true,
        },
{
    match c.token_expiry_time {
        Some(t) => now > t,
        None => true,
    }
}

/// What to do once the Web API token endpoint has answered a refresh.
#[derive(Debug, Clone)]
pub enum RefreshStep {
    /// The refresh failed: clear the saved credentials and fail with the error.
    Clear(OAuthError),
    /// Refresh the player token with `player_refresh_token`, then save
    /// `credentials` (see `after_player_refresh`).
    RefreshPlayer { credentials: Credentials, player_refresh_token: String },
    /// Save `credentials` and answer them.
    Save(Credentials),
}

/// The step after the Web API refresh answered `grant` (`None` when it
/// failed): clear the store with `NoRefreshToken` on failure; otherwise the
/// refreshed credentials, to be completed by a player refresh exactly when a
/// player refresh token is saved.
pub fn after_web_refresh(old: Credentials, grant: Option<&TokenGrant>, now: u128) -> (r: RefreshStep)
    requires
        grant matches Some(g) ==> expiry_fits(*g, now),
    ensures
        grant is None ==> r matches RefreshStep::Clear(OAuthError::NoRefreshToken),
        r matches RefreshStep::Save(c) ==> c.player_access_token == old.player_access_token
            && c.player_refresh_token == old.player_refresh_token && c.player_token_expiry_time
            == old.player_token_expiry_time,
        r matches RefreshStep::RefreshPlayer { credentials: c, player_refresh_token: t } ==> (
        c.player_access_token == old.player_access_token && c.player_refresh_token
            == old.player_refresh_token && c.player_token_expiry_time
            == old.player_token_expiry_time && (old.player_refresh_token matches Some(p) && t@
            == p@)),
        grant matches Some(g) ==> match old.player_refresh_token {
            Some(t) => r matches RefreshStep::RefreshPlayer { credentials, player_refresh_token }
                && web_refreshed(old, *g, now, credentials) && player_refresh_token@ == t@,
            None => r matches RefreshStep::Save(c) && web_refreshed(old, *g, now, c),
        },
{
    let player_refresh = clone_opt(&old.player_refresh_token);
    match refreshed_credentials(old, grant, now) {
        Err(e) => RefreshStep::Clear(e),
        Ok(credentials) => match player_refresh {
            Some(player_refresh_token) => RefreshStep::RefreshPlayer {
                credentials,
                player_refresh_token,
            },
            None => RefreshStep::Save(credentials),
        },
    }
}

/// The credentials to save after the player token endpoint answered `grant`
/// (`None` when that refresh failed, which keeps them as they are).
pub fn after_player_refresh(credentials: Credentials, grant: Option<&TokenGrant>, now: u128) -> (r:
    Credentials)
    requires
        grant matches Some(g) ==> expiry_fits(*g, now),
    ensures
        grant is None ==> r == credentials,
        grant matches Some(g) ==> r == with_player_grant_spec(credentials, *g, now),
        r.access_token@ == credentials.access_token@,
        r.refresh_token@ == credentials.refresh_token@,
        r.token_expiry_time == credentials.token_expiry_time,
        grant matches Some(g) ==> (r.player_access_token matches Some(t) && t@ == g.access_token@),
{
    proof {
        if let Some(g) = grant {
            law_player_refresh_keeps_web_tokens(credentials, *g, now);
        }
    }
    match grant {
        Some(g) => with_player_grant(credentials, g, now),
        None => credentials,
    }
}

/// The wait before a token is refreshed ahead of its expiry.
pub const REFRESH_MARGIN: u128 = 10_000_000_000;

/// The wait assumed when the expiry is unknown or already past.
pub const UNKNOWN_EXPIRY_WAIT: u128 = 120_000_000_000;

/// How long to wait, from `now`, before refreshing a token that expires at
/// `expiry`: the time left (two minutes when the expiry is unknown or past)
/// less ten seconds, and no less than nothing.
pub fn refresh_delay(expiry: Option<u128>, now: u128) -> (r: u128)
    ensures
        r == ({
            let left: int = match expiry {
                Some(t) => if t >= now {
                    t - now
                } else {
                    UNKNOWN_EXPIRY_WAIT as int
                },
                None => UNKNOWN_EXPIRY_WAIT as int,
            };
            if left >= REFRESH_MARGIN {
                left - REFRESH_MARGIN
            } else {
                0
            }
        }),
{
    let left = match expiry {
        Some(t) => if t >= now {
            t - now
        } else {
            UNKNOWN_EXPIRY_WAIT
        },
        None => UNKNOWN_EXPIRY_WAIT,
    };
    if left >= REFRESH_MARGIN {
        left - REFRESH_MARGIN
    } else {
        0
    }
}

} // verus!
