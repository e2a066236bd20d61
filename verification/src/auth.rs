//! The panel's password and its sessions.

use vstd::prelude::*;
use crate::api::ErrorCode;
use crate::api::new_uuid;
use crate::app::AuthSession;
use crate::config::AppConfig;
use crate::config::ConfigModel;
use crate::config::ScheduledTaskConfig;
use crate::config::TaskModel;
use crate::config::copy_task;
use crate::config::opt_task;
use crate::config::opt_text;
use crate::text::chars_of;
use crate::text::chars_start_with;
use crate::text::has_prefix;
use crate::text::is_blank;
use crate::text::parts_view;
use crate::text::slice_chars;
use crate::text::split;
use crate::text::split_chars;
use crate::text::string_of;
use crate::text::trim_text;
use crate::text::trimmed;

verus! {

/// For how many seconds a session lasts: eight hours.
pub const SESSION_TTL_SECS: u64 = 28800;

/// The settings as the panel shows them.
#[derive(Debug)]
pub struct SettingsDto {
    pub password_set: bool,
    pub subscription_auto_update: Option<ScheduledTaskConfig>,
    pub geoip_auto_update: Option<ScheduledTaskConfig>,
}

/// What the panel sends to change the settings.
#[derive(Debug)]
pub struct UpdateSettingsRequest {
    pub password: Option<String>,
    pub subscription_auto_update: Option<ScheduledTaskConfig>,
    pub geoip_auto_update: Option<ScheduledTaskConfig>,
}

/// What the panel sends to log in.
#[derive(Debug)]
pub struct AuthLoginRequest {
    pub password: String,
}

/// What the panel gets for a login.
#[derive(Debug)]
pub struct AuthLoginResponse {
    pub token: String,
    /// In seconds since the Unix epoch.
    pub expires_at: u64,
}

/// The model of a session: its token and the moment at which it expires.
pub open spec fn session_models(sessions: Seq<AuthSession>) -> Seq<(Seq<char>, u64)> {
    Seq::new(sessions.len(), |i: int| (sessions[i].token@, sessions[i].expires_at))
}

/// The sessions that have not expired at a moment, in their order.
pub open spec fn live_sessions(sessions: Seq<(Seq<char>, u64)>, now: u64) -> Seq<(Seq<char>, u64)>
    decreases sessions.len(),
{
    if sessions.len() == 0 {
        Seq::empty()
    } else {
        let before = live_sessions(sessions.drop_last(), now);
        if sessions.last().1 > now {
            before.push(sessions.last())
        } else {
            before
        }
    }
}

/// Whether a session has the token.
pub open spec fn has_token(sessions: Seq<(Seq<char>, u64)>, token: Seq<char>) -> bool {
    exists|i: int| 0 <= i < sessions.len() && (#[trigger] sessions[i]).0 == token
}

/// Drops the sessions that have expired.
pub fn prune_sessions(sessions: &mut Vec<AuthSession>, now: u64)
    ensures
        session_models(final(sessions)@) == live_sessions(session_models(old(sessions)@), now),
{
    let ghost all = session_models(sessions@);
    let mut kept: Vec<AuthSession> = Vec::new();
    let mut i: usize = 0;
    assert(all.subrange(0, 0) =~= Seq::empty());
    assert(session_models(kept@) =~= Seq::empty());
    while i < sessions.len()
        invariant
            i <= sessions.len(),
            all == session_models(sessions@),
            session_models(kept@) == live_sessions(all.subrange(0, i as int), now),
        decreases sessions.len() - i,
    {
        let ghost done = session_models(kept@);
        let ghost next = all.subrange(0, i + 1);
        assert(next.drop_last() =~= all.subrange(0, i as int));
        assert(next.last() == (sessions[i as int].token@, sessions[i as int].expires_at));
        if sessions[i].expires_at > now {
            kept.push(
                AuthSession { token: sessions[i].token.clone(), expires_at: sessions[i].expires_at },
            );
            assert(session_models(kept@) =~= done.push(next.last()));
        }
        i += 1;
    }
    assert(all.subrange(0, sessions.len() as int) =~= all);
    *sessions = kept;
}

/// Whether a token belongs to a session that has not expired. The sessions
/// that have expired are dropped on the way.
pub fn validate_token(sessions: &mut Vec<AuthSession>, token: &str, now: u64) -> (r: bool)
    ensures
        session_models(final(sessions)@) == live_sessions(session_models(old(sessions)@), now),
        r == has_token(live_sessions(session_models(old(sessions)@), now), token@),
{
    prune_sessions(sessions, now);
    let ghost live = session_models(sessions@);
    let mut i: usize = 0;
    while i < sessions.len()
        invariant
            i <= sessions.len(),
            live == session_models(sessions@),
            live == live_sessions(session_models(old(sessions)@), now),
            forall|j: int| 0 <= j < i ==> (#[trigger] live[j]).0 != token@,
        decreases sessions.len() - i,
    {
        assert(live[i as int].0 == sessions[i as int].token@);
        if *sessions[i].token.as_str() == *token {
            return true;
        }
        i += 1;
    }
    false
}

/// Whether `i` is the position of the first part that begins with `token=`.
pub open spec fn is_token_part(parts: Seq<Seq<char>>, i: int) -> bool {
    &&& 0 <= i < parts.len()
    &&& has_prefix(parts[i], "token="@)
    &&& forall|j: int| 0 <= j < i ==> !has_prefix(#[trigger] parts[j], "token="@)
}

/// The token in a query: what follows `token=` in the first of the query's
/// parts, between `&`, that begins so.
pub open spec fn query_token(query: Seq<char>) -> Option<Seq<char>> {
    let parts = split(query, '&');
    if exists|i: int| is_token_part(parts, i) {
        let i = choose|i: int| is_token_part(parts, i);
        Some(parts[i].subrange("token="@.len() as int, parts[i].len() as int))
    } else {
        None
    }
}

/// The token in a query.
pub fn token_from_query(query: &str) -> (r: Option<String>)
    ensures
        opt_text(r) == query_token(query@),
{
    let parts = split_chars(&chars_of(query), '&');
    let ghost all = parts_view(parts@);
    let prefix = chars_of("token=");
    let mut i: usize = 0;
    while i < parts.len()
        invariant
            i <= parts.len(),
            all == parts_view(parts@),
            all == split(query@, '&'),
            prefix@ == "token="@,
            forall|j: int| 0 <= j < i ==> !has_prefix(#[trigger] all[j], "token="@),
        decreases parts.len() - i,
    {
        assert(all[i as int] == parts[i as int]@);
        if chars_start_with(&parts[i], &prefix) {
            assert(is_token_part(all, i as int));
            let ghost k = choose|k: int| is_token_part(all, k);
            assert(k == i) by {
                if k < i {
                    assert(!has_prefix(all[k], "token="@));
                }
                if i < k {
                    assert(!has_prefix(all[i as int], "token="@));
                }
            }
            return Some(string_of(&slice_chars(&parts[i], prefix.len(), parts[i].len())));
        }
        i += 1;
    }
    assert forall|k: int| !is_token_part(all, k) by {
        if is_token_part(all, k) {
            assert(!has_prefix(all[k], "token="@));
        }
    }
    None
}

/// Whether a path is open to everyone: the health check and the login.
pub open spec fn is_public_path(path: Seq<char>) -> bool {
    path == "/health"@ || path == "/auth/login"@
}

/// The token that a request carries: that of its header, or else that of its
/// query.
pub open spec fn request_token(header: Option<Seq<char>>, query: Option<Seq<char>>) -> Option<
    Seq<char>,
> {
    match header {
        Some(t) => Some(t),
        None => match query {
            Some(q) => query_token(q),
            None => None,
        },
    }
}

/// Whether a request is let through. Without a password, every request is.
/// With one, the public paths are, and any other request that carries the
/// token of a session that has not expired.
pub open spec fn lets_through(
    password_set: bool,
    path: Seq<char>,
    header: Option<Seq<char>>,
    query: Option<Seq<char>>,
    sessions: Seq<(Seq<char>, u64)>,
    now: u64,
) -> bool {
    ||| !password_set
    ||| is_public_path(path)
    ||| (request_token(header, query) matches Some(token) && has_token(
        live_sessions(sessions, now),
        token,
    ))
}

/// Decides whether a request to the interface is let through. The sessions
/// that have expired are dropped where a token is checked.
pub fn api_auth_middleware(
    config: &AppConfig,
    path: &str,
    header: Option<&str>,
    query: Option<&str>,
    sessions: &mut Vec<AuthSession>,
    now: u64,
) -> (r: Result<(), ErrorCode>)
    ensures
        ({
            let h = match header {
                Some(t) => Some(t@),
                None => None,
            };
            let q = match query {
                Some(t) => Some(t@),
                None => None,
            };
            let open = lets_through(
                config@.panel_password_hash is Some,
                path@,
                h,
                q,
                session_models(old(sessions)@),
                now,
            );
            &&& r == (if open {
                Ok::<(), ErrorCode>(())
            } else {
                Err(ErrorCode::Unauthorized)
            })
            &&& session_models(final(sessions)@) == (if config@.panel_password_hash is Some
                && !is_public_path(path@) && request_token(h, q) is Some {
                live_sessions(session_models(old(sessions)@), now)
            } else {
                session_models(old(sessions)@)
            })
        }),
{
    if config.panel_password_hash.is_none() {
        return Ok(());
    }
    if *path == *"/health" || *path == *"/auth/login" {
        return Ok(());
    }
    let token = match header {
        Some(t) => Some(t.to_owned()),
        None => match query {
            Some(q) => token_from_query(q),
            None => None,
        },
    };
    match token {
        Some(t) => {
            if validate_token(sessions, t.as_str(), now) {
                Ok(())
            } else {
                Err(ErrorCode::Unauthorized)
            }
        },
        None => Err(ErrorCode::Unauthorized),
    }
}

/// The settings as the panel shows them.
pub fn get_settings(config: &AppConfig) -> (r: SettingsDto)
    ensures
        r.password_set == config@.panel_password_hash is Some,
        opt_task(r.subscription_auto_update) == config@.subscription_auto_update,
        opt_task(r.geoip_auto_update) == config@.geoip_auto_update,
{
    SettingsDto {
        password_set: config.panel_password_hash.is_some(),
        subscription_auto_update: copy_task(&config.subscription_auto_update),
        geoip_auto_update: copy_task(&config.geoip_auto_update),
    }
}

/// The configuration after a change of settings: each setting that the change
/// names takes the new value.
pub open spec fn with_settings(
    config: ConfigModel,
    hash: Option<Seq<char>>,
    subscriptions: Option<TaskModel>,
    geoip: Option<TaskModel>,
) -> ConfigModel {
    ConfigModel {
        panel_password_hash: if hash is Some {
            hash
        } else {
            config.panel_password_hash
        },
        subscription_auto_update: if subscriptions is Some {
            subscriptions
        } else {
            config.subscription_auto_update
        },
        geoip_auto_update: if geoip is Some {
            geoip
        } else {
            config.geoip_auto_update
        },
        ..config
    }
}

/// Changes the settings that are named: the password's verifier and the two
/// tasks.
pub fn apply_settings(
    config: &mut AppConfig,
    hash: Option<String>,
    subscriptions: Option<ScheduledTaskConfig>,
    geoip: Option<ScheduledTaskConfig>,
) -> (r: SettingsDto)
    ensures
        final(config)@ == with_settings(
            old(config)@,
            opt_text(hash),
            opt_task(subscriptions),
            opt_task(geoip),
        ),
        r.password_set == final(config)@.panel_password_hash is Some,
        opt_task(r.subscription_auto_update) == final(config)@.subscription_auto_update,
        opt_task(r.geoip_auto_update) == final(config)@.geoip_auto_update,
{
    if hash.is_some() {
        config.panel_password_hash = hash;
    }
    if subscriptions.is_some() {
        config.subscription_auto_update = subscriptions;
    }
    if geoip.is_some() {
        config.geoip_auto_update = geoip;
    }
    get_settings(config)
}

/// How a password fares against a stored verifier.
#[derive(Clone, Copy, PartialEq, Eq, Structural, Debug)]
pub enum PasswordCheck {
    /// The password is the one that the verifier was made from.
    Valid,
    /// The password is another.
    Mismatch,
    /// The stored text is no verifier.
    Corrupt,
}

/// How `argon2` judges a password against a stored verifier.
pub uninterp spec fn password_check(password: Seq<char>, hash: Seq<char>) -> PasswordCheck;

/// `argon2::Argon2::hash_password` with a salt from
/// `SaltString::generate`: a salted verifier for the password, in the PHC
/// string format. The salt is random, so nothing is said of the verifier's
/// text but that the verifier accepts the password that it was made from.
/// An error holds the hasher's message. Where the system's source of random
/// numbers fails, the call panics: no password decides that.
#[verifier::external_body]
fn hash_password(password: &str) -> (r: Result<String, String>)
    ensures
        r matches Ok(hash) ==> password_check(password@, hash@) == PasswordCheck::Valid,
{
    let salt = argon2::password_hash::SaltString::generate(&mut rand_core::OsRng);
    let hasher = argon2::Argon2::default();
    match argon2::PasswordHasher::hash_password(&hasher, password.as_bytes(), &salt) {
        Ok(hash) => Ok(hash.to_string()),
        Err(e) => Err(e.to_string()),
    }
}

/// `argon2::PasswordHash::new` and `argon2::Argon2::verify_password`: reads
/// the stored verifier and holds the password against it.
#[verifier::external_body]
fn verify_password(password: &str, hash: &str) -> (r: PasswordCheck)
    ensures
        r == password_check(password@, hash@),
{
    match argon2::PasswordHash::new(hash) {
        Err(_) => PasswordCheck::Corrupt,
        Ok(parsed) => {
            let hasher = argon2::Argon2::default();
            match argon2::PasswordVerifier::verify_password(&hasher, password.as_bytes(), &parsed) {
                Ok(()) => PasswordCheck::Valid,
                Err(_) => PasswordCheck::Mismatch,
            }
        },
    }
}

/// Changes the settings. A new password is trimmed; a blank one is refused.
/// Its verifier is made from the trimmed password with a fresh salt, and
/// accepts the trimmed password. A refused request leaves the configuration
/// as it is.
pub fn update_settings(config: &mut AppConfig, body: UpdateSettingsRequest) -> (r: Result<
    SettingsDto,
    ErrorCode,
>)
    ensures
        match opt_text(body.password) {
            Some(password) if is_blank(password) => r matches Err(e) && e
                == ErrorCode::SettingsInvalidPassword && final(config)@ == old(config)@,
            Some(password) => match r {
                Ok(dto) => {
                    &&& dto.password_set
                    &&& final(config)@.panel_password_hash matches Some(hash)
                    &&& password_check(trimmed(password), hash) == PasswordCheck::Valid
                    &&& final(config)@ == with_settings(
                        old(config)@,
                        final(config)@.panel_password_hash,
                        opt_task(body.subscription_auto_update),
                        opt_task(body.geoip_auto_update),
                    )
                },
                Err(e) => e == ErrorCode::SettingsHashFailed && final(config)@ == old(config)@,
            },
            None => r matches Ok(dto) && final(config)@ == with_settings(
                old(config)@,
                None,
                opt_task(body.subscription_auto_update),
                opt_task(body.geoip_auto_update),
            ) && dto.password_set == old(config)@.panel_password_hash is Some,
        },
{
    let hash = match &body.password {
        Some(password) => {
            let inner = trim_text(password.as_str());
            if inner.as_str().is_empty() {
                return Err(ErrorCode::SettingsInvalidPassword);
            }
            match hash_password(inner.as_str()) {
                Ok(hash) => Some(hash),
                Err(_) => {
                    return Err(ErrorCode::SettingsHashFailed);
                },
            }
        },
        None => None,
    };
    Ok(apply_settings(config, hash, body.subscription_auto_update, body.geoip_auto_update))
}

/// What a login makes of the configuration and of the sessions, given how
/// the password fares. Without a stored verifier there is nothing to log in
/// to. A stored text that is no verifier is cleared, which opens the panel.
/// A password that is accepted starts a session that lasts eight hours, after
/// the sessions that have expired were dropped.
pub fn login(
    config: &mut AppConfig,
    sessions: &mut Vec<AuthSession>,
    check: PasswordCheck,
    token: String,
    now: u64,
) -> (r: Result<AuthLoginResponse, ErrorCode>)
    requires
        now + SESSION_TTL_SECS <= u64::MAX,
    ensures
        match old(config)@.panel_password_hash {
            None => r matches Err(e) && e == ErrorCode::AuthPasswordNotSet && final(config)@
                == old(config)@ && session_models(final(sessions)@) == session_models(
                old(sessions)@,
            ),
            Some(_) => match check {
                PasswordCheck::Corrupt => r matches Err(e) && e
                    == ErrorCode::AuthInvalidPasswordStore && final(config)@ == (ConfigModel {
                    panel_password_hash: None,
                    ..old(config)@
                }) && session_models(final(sessions)@) == session_models(old(sessions)@),
                PasswordCheck::Mismatch => r matches Err(e) && e == ErrorCode::AuthInvalidPassword
                    && final(config)@ == old(config)@ && session_models(final(sessions)@)
                    == session_models(old(sessions)@),
                PasswordCheck::Valid => r matches Ok(response) && response.token@ == token@
                    && response.expires_at == now + SESSION_TTL_SECS && final(config)@ == old(
                    config,
                )@ && session_models(final(sessions)@) == live_sessions(
                    session_models(old(sessions)@),
                    now,
                ).push((token@, (now + SESSION_TTL_SECS) as u64)),
            },
        },
{
    if config.panel_password_hash.is_none() {
        return Err(ErrorCode::AuthPasswordNotSet);
    }
    match check {
        PasswordCheck::Corrupt => {
            config.panel_password_hash = None;
            Err(ErrorCode::AuthInvalidPasswordStore)
        },
        PasswordCheck::Mismatch => Err(ErrorCode::AuthInvalidPassword),
        PasswordCheck::Valid => {
            let expires_at = now + SESSION_TTL_SECS;
            prune_sessions(sessions, now);
            let ghost live = session_models(sessions@);
            sessions.push(AuthSession { token: token.clone(), expires_at });
            assert(session_models(sessions@) =~= live.push((token@, expires_at)));
            Ok(AuthLoginResponse { token, expires_at })
        },
    }
}

/// Logs in with a password. The password is held against the stored
/// verifier as it was given, without trimming.
pub fn auth_login(
    config: &mut AppConfig,
    sessions: &mut Vec<AuthSession>,
    body: &AuthLoginRequest,
    now: u64,
) -> (r: Result<AuthLoginResponse, ErrorCode>)
    requires
        now + SESSION_TTL_SECS <= u64::MAX,
    ensures
        match old(config)@.panel_password_hash {
            None => r matches Err(e) && e == ErrorCode::AuthPasswordNotSet && final(config)@
                == old(config)@ && session_models(final(sessions)@) == session_models(
                old(sessions)@,
            ),
            Some(hash) => match password_check(body.password@, hash) {
                PasswordCheck::Corrupt => r matches Err(e) && e
                    == ErrorCode::AuthInvalidPasswordStore && final(config)@ == (ConfigModel {
                    panel_password_hash: None,
                    ..old(config)@
                }) && session_models(final(sessions)@) == session_models(old(sessions)@),
                PasswordCheck::Mismatch => r matches Err(e) && e == ErrorCode::AuthInvalidPassword
                    && final(config)@ == old(config)@ && session_models(final(sessions)@)
                    == session_models(old(sessions)@),
                PasswordCheck::Valid => r matches Ok(response) && response.token@.len() == 36
                    && response.expires_at == now + SESSION_TTL_SECS && final(config)@ == old(
                    config,
                )@ && session_models(final(sessions)@) == live_sessions(
                    session_models(old(sessions)@),
                    now,
                ).push((response.token@, (now + SESSION_TTL_SECS) as u64)),
            },
        },
{
    let check = match &config.panel_password_hash {
        None => {
            return Err(ErrorCode::AuthPasswordNotSet);
        },
        Some(hash) => verify_password(body.password.as_str(), hash.as_str()),
    };
    let token = match check {
        PasswordCheck::Valid => new_uuid(),
        _ => String::new(),
    };
    login(config, sessions, check, token, now)
}

/// A session that has just begun is accepted until it expires: the token of
/// a login is found among the sessions at every moment before the eight
/// hours are over, whatever other sessions there are.
pub proof fn law_fresh_session_is_valid(
    sessions: Seq<(Seq<char>, u64)>,
    token: Seq<char>,
    began: u64,
    now: u64,
)
    requires
        began + SESSION_TTL_SECS <= u64::MAX,
        began <= now < began + SESSION_TTL_SECS,
    ensures
        has_token(
            live_sessions(
                live_sessions(sessions, began).push((token, (began + SESSION_TTL_SECS) as u64)),
                now,
            ),
            token,
        ),
{
    let after = live_sessions(sessions, began).push((token, (began + SESSION_TTL_SECS) as u64));
    assert(after.drop_last() =~= live_sessions(sessions, began));
    let live = live_sessions(after, now);
    assert(live == live_sessions(after.drop_last(), now).push(after.last()));
    assert(live[live.len() - 1].0 == token);
}

/// A session that has expired is accepted no longer: no token is found among
/// sessions that have all expired.
pub proof fn law_expired_sessions_are_dropped(sessions: Seq<(Seq<char>, u64)>, now: u64)
    ensures
        forall|i: int|
            0 <= i < live_sessions(sessions, now).len() ==> (#[trigger] live_sessions(
                sessions,
                now,
            )[i]).1 > now,
    decreases sessions.len(),
{
    if sessions.len() > 0 {
        law_expired_sessions_are_dropped(sessions.drop_last(), now);
        let before = live_sessions(sessions.drop_last(), now);
        let live = live_sessions(sessions, now);
        assert forall|i: int| 0 <= i < live.len() implies (#[trigger] live[i]).1 > now by {
            if i < before.len() {
                assert(live[i] == before[i]);
            }
        }
    }
}

} // verus!
