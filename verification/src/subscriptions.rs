//! Remote profiles: subscriptions that are fetched from a URL.

use vstd::prelude::*;
use crate::api::ErrorCode;
use crate::api::new_uuid;
use crate::config::AppConfig;
use crate::config::ConfigModel;
use crate::config::ProfileMeta;
use crate::config::ProfileModel;
use crate::config::ProfileType;
use crate::config::copy_opt;
use crate::config::find_kind;
use crate::config::find_profile;
use crate::config::kind_index;
use crate::config::opt_is;
use crate::config::opt_text;
use crate::config::profile_index;
use crate::config::remove_profiles;
use crate::config::without;

verus! {

/// A subscription as the panel shows it.
#[derive(Debug)]
pub struct SubscriptionDto {
    pub id: String,
    pub name: String,
    pub url: String,
    pub is_active: bool,
    pub last_fetch_time: Option<String>,
    pub last_fetch_status: Option<String>,
}

/// The model of a subscription as the panel shows it.
pub struct SubscriptionModel {
    pub id: Seq<char>,
    pub name: Seq<char>,
    pub url: Seq<char>,
    pub is_active: bool,
    pub last_fetch_time: Option<Seq<char>>,
    pub last_fetch_status: Option<Seq<char>>,
}

impl View for SubscriptionDto {
    type V = SubscriptionModel;

    open spec fn view(&self) -> SubscriptionModel {
        SubscriptionModel {
            id: self.id@,
            name: self.name@,
            url: self.url@,
            is_active: self.is_active,
            last_fetch_time: opt_text(self.last_fetch_time),
            last_fetch_status: opt_text(self.last_fetch_status),
        }
    }
}

/// The subscriptions that the panel lists.
#[derive(Debug)]
pub struct SubscriptionListResponse {
    pub subscriptions: Vec<SubscriptionDto>,
}

/// What the panel sends to add a subscription.
#[derive(Debug)]
pub struct CreateSubscriptionRequest {
    pub name: String,
    pub url: String,
}

/// What the panel sends to change a subscription.
#[derive(Debug)]
pub struct UpdateSubscriptionRequest {
    pub name: String,
    pub url: String,
}

/// How a fetch of a subscription ended.
#[derive(Clone, Copy, PartialEq, Eq, Structural, Debug)]
pub enum FetchOutcome {
    /// The request could not be sent, or the server answered with an error.
    RequestFailed,
    /// The answer's body could not be read.
    BodyReadFailed,
    /// The content could not be written to the profile's file.
    WriteFailed,
    /// The content lies in the profile's file.
    Fetched,
}

impl FetchOutcome {
    /// The status that is recorded in the profile.
    pub open spec fn status(self) -> Seq<char> {
        match self {
            FetchOutcome::RequestFailed => "request_failed"@,
            FetchOutcome::BodyReadFailed => "body_read_failed"@,
            FetchOutcome::WriteFailed => "write_failed"@,
            FetchOutcome::Fetched => "ok"@,
        }
    }

    /// The code under which a failed fetch is reported.
    pub open spec fn error(self) -> Option<ErrorCode> {
        match self {
            FetchOutcome::RequestFailed => Some(ErrorCode::SubscriptionFetchFailed),
            FetchOutcome::BodyReadFailed => Some(ErrorCode::SubscriptionFetchFailed),
            FetchOutcome::WriteFailed => Some(ErrorCode::SubscriptionSaveFailed),
            FetchOutcome::Fetched => None,
        }
    }

    /// The status that is recorded in the profile.
    pub fn status_text(self) -> (r: &'static str)
        ensures
            r@ == self.status(),
    {
        match self {
            FetchOutcome::RequestFailed => "request_failed",
            FetchOutcome::BodyReadFailed => "body_read_failed",
            FetchOutcome::WriteFailed => "write_failed",
            FetchOutcome::Fetched => "ok",
        }
    }
}

/// The subscription that a profile shows as, where the profile is remote.
pub open spec fn subscription_of(config: ConfigModel, profile: ProfileModel) -> Option<
    SubscriptionModel,
> {
    if profile.profile_type == ProfileType::Remote {
        Some(
            SubscriptionModel {
                id: profile.id,
                name: profile.name,
                url: match profile.url {
                    Some(u) => u,
                    None => Seq::empty(),
                },
                is_active: config.active_subscription_id == Some(profile.id),
                last_fetch_time: profile.last_fetch_time,
                last_fetch_status: profile.last_fetch_status,
            },
        )
    } else {
        None
    }
}

/// The subscriptions among the first profiles, in their order.
pub open spec fn subscriptions_of(config: ConfigModel, profiles: Seq<ProfileModel>) -> Seq<
    SubscriptionModel,
>
    decreases profiles.len(),
{
    if profiles.len() == 0 {
        Seq::empty()
    } else {
        let rest = subscriptions_of(config, profiles.drop_last());
        match subscription_of(config, profiles.last()) {
            Some(s) => rest.push(s),
            None => rest,
        }
    }
}

/// The models of a list of subscriptions.
pub open spec fn subscription_models(rows: Seq<SubscriptionDto>) -> Seq<SubscriptionModel> {
    Seq::new(rows.len(), |i: int| rows[i]@)
}

/// The relative path of a subscription's YAML file.
pub open spec fn subscription_path(id: Seq<char>) -> Seq<char> {
    "subscriptions/"@ + id + "/subscription.yaml"@
}

/// The configuration with a new subscription at the end of its profiles. The
/// new subscription becomes the active one where none was.
pub open spec fn with_subscription(
    config: ConfigModel,
    id: Seq<char>,
    name: Seq<char>,
    url: Seq<char>,
) -> ConfigModel {
    ConfigModel {
        profiles: config.profiles.push(
            ProfileModel {
                id: id,
                name: name,
                profile_type: ProfileType::Remote,
                path: subscription_path(id),
                url: Some(url),
                last_fetch_time: None,
                last_fetch_status: None,
                last_modified_time: None,
            },
        ),
        active_subscription_id: match config.active_subscription_id {
            Some(active) => Some(active),
            None => Some(id),
        },
        ..config
    }
}

/// The configuration without the subscriptions of an id. Where the active
/// subscription goes, the first remote profile that is left takes its place.
pub open spec fn without_subscription(config: ConfigModel, id: Seq<char>) -> ConfigModel {
    let left = without(config.profiles, ProfileType::Remote, id);
    if left.len() == config.profiles.len() {
        config
    } else {
        ConfigModel {
            profiles: left,
            active_subscription_id: if config.active_subscription_id == Some(id) {
                match kind_index(left, ProfileType::Remote) {
                    Some(i) => Some(left[i].id),
                    None => None,
                }
            } else {
                config.active_subscription_id
            },
            ..config
        }
    }
}

/// The subscription that a profile shows as, where the profile is remote.
pub fn to_subscription_dto(config: &AppConfig, profile: &ProfileMeta) -> (r: Option<SubscriptionDto>)
    ensures
        match subscription_of(config@, profile@) {
            Some(model) => r matches Some(dto) && dto@ == model,
            None => r is None,
        },
{
    if profile.profile_type != ProfileType::Remote {
        return None;
    }
    let url = match &profile.url {
        Some(u) => u.clone(),
        None => String::new(),
    };
    Some(
        SubscriptionDto {
            id: profile.id.clone(),
            name: profile.name.clone(),
            url,
            is_active: opt_is(&config.active_subscription_id, profile.id.as_str()),
            last_fetch_time: copy_opt(&profile.last_fetch_time),
            last_fetch_status: copy_opt(&profile.last_fetch_status),
        },
    )
}

/// The subscriptions, in the order of the profiles.
pub fn list_subscriptions(config: &AppConfig) -> (r: SubscriptionListResponse)
    ensures
        subscription_models(r.subscriptions@) == subscriptions_of(config@, config@.profiles),
{
    let ghost models = config@.profiles;
    let mut rows: Vec<SubscriptionDto> = Vec::new();
    let mut i: usize = 0;
    assert(models.subrange(0, 0) =~= Seq::empty());
    assert(subscription_models(rows@) =~= Seq::empty());
    while i < config.profiles.len()
        invariant
            i <= config.profiles.len(),
            models == config@.profiles,
            subscription_models(rows@) == subscriptions_of(config@, models.subrange(0, i as int)),
        decreases config.profiles.len() - i,
    {
        let ghost done = subscriptions_of(config@, models.subrange(0, i as int));
        let ghost next = models.subrange(0, i + 1);
        assert(next.drop_last() =~= models.subrange(0, i as int));
        assert(next.last() == config.profiles[i as int]@);
        match to_subscription_dto(config, &config.profiles[i]) {
            Some(dto) => {
                rows.push(dto);
                assert(subscription_models(rows@) =~= done.push(dto@));
            },
            None => {},
        }
        i += 1;
    }
    assert(models.subrange(0, config.profiles.len() as int) =~= models);
    SubscriptionListResponse { subscriptions: rows }
}

/// The relative path of a subscription's YAML file.
pub fn subscription_file(id: &str) -> (r: String)
    ensures
        r@ == subscription_path(id@),
{
    let mut path = "subscriptions/".to_owned();
    path.append(id);
    path.append("/subscription.yaml");
    assert(path@ =~= subscription_path(id@));
    path
}

/// Adds a subscription under the given id.
pub fn add_subscription(config: &mut AppConfig, id: &str, body: &CreateSubscriptionRequest) -> (r:
    SubscriptionDto)
    ensures
        final(config)@ == with_subscription(old(config)@, id@, body.name@, body.url@),
        subscription_of(final(config)@, final(config)@.profiles.last()) == Some(r@),
{
    let ghost before = config@;
    let profile = ProfileMeta {
        id: id.to_owned(),
        name: body.name.clone(),
        profile_type: ProfileType::Remote,
        path: subscription_file(id),
        url: Some(body.url.clone()),
        last_fetch_time: None,
        last_fetch_status: None,
        last_modified_time: None,
    };
    if config.active_subscription_id.is_none() {
        config.active_subscription_id = Some(id.to_owned());
    }
    let copy = profile.copy();
    config.profiles.push(profile);
    assert(config@.profiles =~= before.profiles.push(copy@));
    match to_subscription_dto(config, &copy) {
        Some(dto) => dto,
        None => SubscriptionDto {
            id: String::new(),
            name: String::new(),
            url: String::new(),
            is_active: false,
            last_fetch_time: None,
            last_fetch_status: None,
        },
    }
}

/// Adds a subscription under a fresh identifier. The new subscription becomes
/// the active one where none was.
pub fn create_subscription(config: &mut AppConfig, body: &CreateSubscriptionRequest) -> (r:
    SubscriptionDto)
    ensures
        r@.id.len() == 36,
        final(config)@ == with_subscription(old(config)@, r@.id, body.name@, body.url@),
        subscription_of(final(config)@, final(config)@.profiles.last()) == Some(r@),
{
    let id = new_uuid();
    add_subscription(config, id.as_str(), body)
}

/// Changes the name and the URL of the first subscription with the id.
pub fn update_subscription(config: &mut AppConfig, id: &str, body: &UpdateSubscriptionRequest) -> (r:
    Result<SubscriptionDto, ErrorCode>)
    ensures
        match profile_index(old(config)@.profiles, ProfileType::Remote, id@) {
            None => r == Err::<SubscriptionDto, ErrorCode>(ErrorCode::SubscriptionNotFound)
                && final(config)@ == old(config)@,
            Some(i) => {
                let changed = ProfileModel {
                    name: body.name@,
                    url: Some(body.url@),
                    ..old(config)@.profiles[i]
                };
                &&& final(config)@ == ConfigModel {
                    profiles: old(config)@.profiles.update(i, changed),
                    ..old(config)@
                }
                &&& r matches Ok(dto)
                &&& subscription_of(final(config)@, changed) == Some(dto@)
            },
        },
{
    let ghost before = config@;
    match find_profile(&config.profiles, ProfileType::Remote, id) {
        None => Err(ErrorCode::SubscriptionNotFound),
        Some(i) => {
            let mut profile = config.profiles[i].copy();
            profile.name = body.name.clone();
            profile.url = Some(body.url.clone());
            let copy = profile.copy();
            config.profiles.set(i, profile);
            assert(config@.profiles =~= before.profiles.update(i as int, copy@));
            match to_subscription_dto(config, &copy) {
                Some(dto) => Ok(dto),
                None => Err(ErrorCode::SubscriptionNotFound),
            }
        },
    }
}

/// Takes out the subscriptions with the id. Where the active subscription
/// goes, the first remote profile that is left becomes the active one.
pub fn delete_subscription(config: &mut AppConfig, id: &str) -> (r: Result<(), ErrorCode>)
    ensures
        final(config)@ == without_subscription(old(config)@, id@),
        r is Ok <==> (exists|j: int|
            0 <= j < old(config)@.profiles.len() && (#[trigger] old(config)@.profiles[j]).is(
                ProfileType::Remote,
                id@,
            )),
        r matches Err(e) ==> e == ErrorCode::SubscriptionNotFound,
{
    proof {
        crate::config::lemma_without_len(config@.profiles, ProfileType::Remote, id@);
    }
    let removed = remove_profiles(&mut config.profiles, ProfileType::Remote, id);
    if !removed {
        return Err(ErrorCode::SubscriptionNotFound);
    }
    if opt_is(&config.active_subscription_id, id) {
        config.active_subscription_id = match find_kind(&config.profiles, ProfileType::Remote) {
            Some(i) => Some(config.profiles[i].id.clone()),
            None => None,
        };
    }
    Ok(())
}

/// Makes the subscription with the id the active one.
pub fn activate_subscription(config: &mut AppConfig, id: &str) -> (r: Result<(), ErrorCode>)
    ensures
        match profile_index(old(config)@.profiles, ProfileType::Remote, id@) {
            None => r == Err::<(), ErrorCode>(ErrorCode::SubscriptionNotFound) && final(config)@
                == old(config)@,
            Some(_) => r is Ok && final(config)@ == ConfigModel {
                active_subscription_id: Some(id@),
                ..old(config)@
            },
        },
{
    match find_profile(&config.profiles, ProfileType::Remote, id) {
        None => Err(ErrorCode::SubscriptionNotFound),
        Some(_) => {
            config.active_subscription_id = Some(id.to_owned());
            Ok(())
        },
    }
}

/// The URL from which the subscription with the id is fetched.
pub fn fetch_subscription_url(config: &AppConfig, id: &str) -> (r: Result<String, ErrorCode>)
    ensures
        match profile_index(config@.profiles, ProfileType::Remote, id@) {
            None => r == Err::<String, ErrorCode>(ErrorCode::SubscriptionNotFound),
            Some(i) => match config@.profiles[i].url {
                None => r == Err::<String, ErrorCode>(ErrorCode::SubscriptionUrlMissing),
                Some(url) => r matches Ok(u) && u@ == url,
            },
        },
{
    match find_profile(&config.profiles, ProfileType::Remote, id) {
        None => Err(ErrorCode::SubscriptionNotFound),
        Some(i) => {
            assert(config@.profiles[i as int] == config.profiles[i as int]@);
            match &config.profiles[i].url {
                None => Err(ErrorCode::SubscriptionUrlMissing),
                Some(url) => Ok(url.clone()),
            }
        },
    }
}

/// The configuration after a fetch of the subscription with the id: the
/// first such profile records the outcome, and the time where the fetch went
/// through. A configuration without such a profile stays as it is.
pub open spec fn with_fetch_outcome(
    config: ConfigModel,
    id: Seq<char>,
    outcome: FetchOutcome,
    now: Seq<char>,
) -> ConfigModel {
    match profile_index(config.profiles, ProfileType::Remote, id) {
        None => config,
        Some(i) => ConfigModel {
            profiles: config.profiles.update(
                i,
                ProfileModel {
                    last_fetch_status: Some(outcome.status()),
                    last_fetch_time: if outcome == FetchOutcome::Fetched {
                        Some(now)
                    } else {
                        config.profiles[i].last_fetch_time
                    },
                    ..config.profiles[i]
                },
            ),
            ..config
        },
    }
}

/// Records how a fetch of the subscription with the id ended, and says under
/// which code a failed fetch is reported.
pub fn fetch_subscription(config: &mut AppConfig, id: &str, outcome: FetchOutcome, now: &str) -> (r:
    Result<(), ErrorCode>)
    ensures
        final(config)@ == with_fetch_outcome(old(config)@, id@, outcome, now@),
        match outcome.error() {
            Some(e) => r == Err::<(), ErrorCode>(e),
            None => r is Ok,
        },
{
    let ghost before = config@;
    match find_profile(&config.profiles, ProfileType::Remote, id) {
        None => {},
        Some(i) => {
            assert(before.profiles[i as int] == config.profiles[i as int]@);
            let mut profile = config.profiles[i].copy();
            profile.last_fetch_status = Some(outcome.status_text().to_owned());
            if outcome == FetchOutcome::Fetched {
                profile.last_fetch_time = Some(now.to_owned());
            }
            let ghost changed = profile@;
            config.profiles.set(i, profile);
            assert(config@.profiles =~= before.profiles.update(i as int, changed));
        },
    }
    match outcome {
        FetchOutcome::RequestFailed => Err(ErrorCode::SubscriptionFetchFailed),
        FetchOutcome::BodyReadFailed => Err(ErrorCode::SubscriptionFetchFailed),
        FetchOutcome::WriteFailed => Err(ErrorCode::SubscriptionSaveFailed),
        FetchOutcome::Fetched => Ok(()),
    }
}

/// The subscription that the periodic update fetches: the active one. Nothing
/// where none is active, and the update is then skipped.
pub fn auto_update_subscriptions(config: &AppConfig) -> (r: Option<String>)
    ensures
        opt_text(r) == config@.active_subscription_id,
{
    copy_opt(&config.active_subscription_id)
}

/// Adding, removing and activating subscriptions keep the active ids valid:
/// the active subscription stays a remote profile and the active user
/// profile a user profile.
pub proof fn law_subscriptions_keep_active_ids_valid(
    config: ConfigModel,
    id: Seq<char>,
    name: Seq<char>,
    url: Seq<char>,
)
    requires
        config.active_ids_valid(),
    ensures
        with_subscription(config, id, name, url).active_ids_valid(),
        without_subscription(config, id).active_ids_valid(),
        config.has_profile(ProfileType::Remote, id) ==> (ConfigModel {
            active_subscription_id: Some(id),
            ..config
        }).active_ids_valid(),
{
    let added = with_subscription(config, id, name, url);
    let last = added.profiles.len() - 1;
    assert(added.profiles[last].is(ProfileType::Remote, id));
    assert(added.has_profile(ProfileType::Remote, id));
    if config.active_subscription_id is Some {
        let active = config.active_subscription_id->0;
        let i = choose|i: int|
            0 <= i < config.profiles.len() && (#[trigger] config.profiles[i]).is(
                ProfileType::Remote,
                active,
            );
        assert(added.profiles[i].is(ProfileType::Remote, active));
        assert(added.has_profile(ProfileType::Remote, active));
    }
    if config.active_user_profile_id is Some {
        let active = config.active_user_profile_id->0;
        let i = choose|i: int|
            0 <= i < config.profiles.len() && (#[trigger] config.profiles[i]).is(
                ProfileType::User,
                active,
            );
        assert(added.profiles[i].is(ProfileType::User, active));
        assert(added.has_profile(ProfileType::User, active));
    }
    let removed = without_subscription(config, id);
    let left = without(config.profiles, ProfileType::Remote, id);
    if left.len() != config.profiles.len() {
        assert(removed.profiles == left);
        if removed.active_subscription_id is Some {
            let active = removed.active_subscription_id->0;
            if config.active_subscription_id == Some(id) {
                let k = kind_index(left, ProfileType::Remote)->0;
                assert(crate::config::is_kind_at(left, ProfileType::Remote, k));
                assert(removed.profiles[k].is(ProfileType::Remote, active));
                assert(removed.has_profile(ProfileType::Remote, active));
            } else {
                let i = choose|i: int|
                    0 <= i < config.profiles.len() && (#[trigger] config.profiles[i]).is(
                        ProfileType::Remote,
                        active,
                    );
                crate::config::lemma_without_keeps(config.profiles, ProfileType::Remote, id, i);
                let k = choose|k: int| 0 <= k < left.len() && #[trigger] left[k] == config.profiles[i];
                assert(removed.profiles[k].is(ProfileType::Remote, active));
                assert(removed.has_profile(ProfileType::Remote, active));
            }
        }
        if removed.active_user_profile_id is Some {
            let active = removed.active_user_profile_id->0;
            let i = choose|i: int|
                0 <= i < config.profiles.len() && (#[trigger] config.profiles[i]).is(
                    ProfileType::User,
                    active,
                );
            crate::config::lemma_without_keeps(config.profiles, ProfileType::Remote, id, i);
            let k = choose|k: int| 0 <= k < left.len() && #[trigger] left[k] == config.profiles[i];
            assert(removed.profiles[k].is(ProfileType::User, active));
            assert(removed.has_profile(ProfileType::User, active));
        }
    }
    if config.has_profile(ProfileType::Remote, id) {
        let activated = ConfigModel { active_subscription_id: Some(id), ..config };
        let i = choose|i: int|
            0 <= i < config.profiles.len() && (#[trigger] config.profiles[i]).is(
                ProfileType::Remote,
                id,
            );
        assert(activated.profiles[i].is(ProfileType::Remote, id));
        assert(activated.has_profile(ProfileType::Remote, id));
        if config.active_user_profile_id is Some {
            let active = config.active_user_profile_id->0;
            let j = choose|j: int|
                0 <= j < config.profiles.len() && (#[trigger] config.profiles[j]).is(
                    ProfileType::User,
                    active,
                );
            assert(activated.profiles[j].is(ProfileType::User, active));
            assert(activated.has_profile(ProfileType::User, active));
        }
    }
}

} // verus!
