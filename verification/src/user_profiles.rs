//! User profiles: overlays that the user writes in the panel.

use vstd::prelude::*;
use crate::api::ErrorCode;
use crate::compose::ComposeError;
use crate::compose::composes_to;
use crate::compose::generate_merged_config;
use crate::api::new_uuid;
use crate::config::AppConfig;
use crate::config::ConfigModel;
use crate::config::ProfileMeta;
use crate::config::ProfileModel;
use crate::config::ProfileType;
use crate::config::copy_opt;
use crate::config::find_profile;
use crate::config::opt_is;
use crate::config::opt_text;
use crate::config::profile_index;
use crate::config::remove_profiles;
use crate::config::without;
use crate::text::blank_text;
use crate::text::is_blank;
use crate::text::trim_text;
use crate::text::trimmed;
use crate::yaml_text::parse_yaml;
use crate::yaml_text::parsed_tree;

verus! {

/// A user profile as the panel lists it.
#[derive(Debug)]
pub struct UserProfileSummary {
    pub id: String,
    pub name: String,
    pub is_active: bool,
    pub last_modified_time: Option<String>,
}

/// The model of a user profile as the panel lists it.
pub struct SummaryModel {
    pub id: Seq<char>,
    pub name: Seq<char>,
    pub is_active: bool,
    pub last_modified_time: Option<Seq<char>>,
}

impl View for UserProfileSummary {
    type V = SummaryModel;

    open spec fn view(&self) -> SummaryModel {
        SummaryModel {
            id: self.id@,
            name: self.name@,
            is_active: self.is_active,
            last_modified_time: opt_text(self.last_modified_time),
        }
    }
}

/// The user profiles that the panel lists.
#[derive(Debug)]
pub struct UserProfileListResponse {
    pub user_profiles: Vec<UserProfileSummary>,
}

/// A user profile with its content.
#[derive(Debug)]
pub struct UserProfileDetail {
    pub id: String,
    pub name: String,
    pub is_active: bool,
    pub last_modified_time: Option<String>,
    pub content: String,
}

/// What the panel sends to add a user profile.
#[derive(Debug)]
pub struct CreateUserProfileRequest {
    pub name: String,
    pub content: String,
}

/// What the panel sends to change a user profile.
#[derive(Debug)]
pub struct UpdateUserProfileRequest {
    pub name: String,
    pub content: String,
}

/// What a user profile's file holds where the user gave no content.
pub const EMPTY_PROFILE: &'static str = "# empty user profile\n";

/// The relative path of a user profile's YAML file.
pub open spec fn user_profile_file(id: Seq<char>) -> Seq<char> {
    "user-profiles/"@ + id + ".yaml"@
}

/// The relative path of a user profile's YAML file.
pub fn user_profile_path(id: &str) -> (r: String)
    ensures
        r@ == user_profile_file(id@),
{
    let mut path = "user-profiles/".to_owned();
    path.append(id);
    path.append(".yaml");
    assert(path@ =~= user_profile_file(id@));
    path
}

/// What is written to a user profile's file for a given content: the
/// placeholder for a blank content, the content itself where it is YAML, and
/// nothing where it is not.
pub open spec fn stored_content(content: Seq<char>) -> Option<Seq<char>> {
    if is_blank(content) {
        Some(EMPTY_PROFILE@)
    } else if parsed_tree(trimmed(content)) is Some {
        Some(content)
    } else {
        None
    }
}

/// Checks the content that the user gave for a profile and says what is to
/// be written to the profile's file. An error holds the parser's message.
pub fn check_profile_content(content: &str) -> (r: Result<String, String>)
    ensures
        match stored_content(content@) {
            Some(text) => r matches Ok(t) && t@ == text,
            None => r is Err,
        },
{
    if blank_text(content) {
        return Ok(EMPTY_PROFILE.to_owned());
    }
    let inner = trim_text(content);
    match parse_yaml(inner.as_str()) {
        Ok(_) => Ok(content.to_owned()),
        Err(message) => Err(message),
    }
}

/// The summary that a profile shows as, where it is a user profile.
pub open spec fn summary_of(config: ConfigModel, profile: ProfileModel) -> Option<SummaryModel> {
    if profile.profile_type == ProfileType::User {
        Some(
            SummaryModel {
                id: profile.id,
                name: profile.name,
                is_active: config.active_user_profile_id == Some(profile.id),
                last_modified_time: profile.last_modified_time,
            },
        )
    } else {
        None
    }
}

/// The summaries of the user profiles among the given profiles, in their
/// order.
pub open spec fn summaries_of(config: ConfigModel, profiles: Seq<ProfileModel>) -> Seq<SummaryModel>
    decreases profiles.len(),
{
    if profiles.len() == 0 {
        Seq::empty()
    } else {
        let rest = summaries_of(config, profiles.drop_last());
        match summary_of(config, profiles.last()) {
            Some(s) => rest.push(s),
            None => rest,
        }
    }
}

/// The models of a list of summaries.
pub open spec fn summary_models(rows: Seq<UserProfileSummary>) -> Seq<SummaryModel> {
    Seq::new(rows.len(), |i: int| rows[i]@)
}

/// The summary that a profile shows as, where it is a user profile.
pub fn to_user_profile_summary(config: &AppConfig, profile: &ProfileMeta) -> (r: Option<
    UserProfileSummary,
>)
    ensures
        match summary_of(config@, profile@) {
            Some(model) => r matches Some(s) && s@ == model,
            None => r is None,
        },
{
    if profile.profile_type != ProfileType::User {
        return None;
    }
    Some(
        UserProfileSummary {
            id: profile.id.clone(),
            name: profile.name.clone(),
            is_active: opt_is(&config.active_user_profile_id, profile.id.as_str()),
            last_modified_time: copy_opt(&profile.last_modified_time),
        },
    )
}

/// The user profiles, in the order of the profiles.
pub fn list_user_profiles(config: &AppConfig) -> (r: UserProfileListResponse)
    ensures
        summary_models(r.user_profiles@) == summaries_of(config@, config@.profiles),
{
    let ghost models = config@.profiles;
    let mut rows: Vec<UserProfileSummary> = Vec::new();
    let mut i: usize = 0;
    assert(models.subrange(0, 0) =~= Seq::empty());
    assert(summary_models(rows@) =~= Seq::empty());
    while i < config.profiles.len()
        invariant
            i <= config.profiles.len(),
            models == config@.profiles,
            summary_models(rows@) == summaries_of(config@, models.subrange(0, i as int)),
        decreases config.profiles.len() - i,
    {
        let ghost done = summaries_of(config@, models.subrange(0, i as int));
        let ghost next = models.subrange(0, i + 1);
        assert(next.drop_last() =~= models.subrange(0, i as int));
        assert(next.last() == config.profiles[i as int]@);
        match to_user_profile_summary(config, &config.profiles[i]) {
            Some(row) => {
                rows.push(row);
                assert(summary_models(rows@) =~= done.push(row@));
            },
            None => {},
        }
        i += 1;
    }
    assert(models.subrange(0, config.profiles.len() as int) =~= models);
    UserProfileListResponse { user_profiles: rows }
}

/// The first user profile with the id, with the content of its file.
pub fn get_user_profile(config: &AppConfig, id: &str, content: String) -> (r: Result<
    UserProfileDetail,
    ErrorCode,
>)
    ensures
        match profile_index(config@.profiles, ProfileType::User, id@) {
            None => r == Err::<UserProfileDetail, ErrorCode>(ErrorCode::UserProfileNotFound),
            Some(i) => r matches Ok(detail) && {
                &&& detail.id@ == id@
                &&& detail.name@ == config@.profiles[i].name
                &&& detail.is_active == (config@.active_user_profile_id == Some(id@))
                &&& opt_text(detail.last_modified_time) == config@.profiles[i].last_modified_time
                &&& detail.content@ == content@
            },
        },
{
    match find_profile(&config.profiles, ProfileType::User, id) {
        None => Err(ErrorCode::UserProfileNotFound),
        Some(i) => {
            assert(config@.profiles[i as int] == config.profiles[i as int]@);
            let profile = &config.profiles[i];
            Ok(
                UserProfileDetail {
                    id: profile.id.clone(),
                    name: profile.name.clone(),
                    is_active: opt_is(&config.active_user_profile_id, profile.id.as_str()),
                    last_modified_time: copy_opt(&profile.last_modified_time),
                    content,
                },
            )
        },
    }
}

/// The configuration with a new user profile at the end of its profiles. The
/// new profile becomes the active one where none was.
pub open spec fn with_user_profile(
    config: ConfigModel,
    id: Seq<char>,
    name: Seq<char>,
    now: Seq<char>,
) -> ConfigModel {
    ConfigModel {
        profiles: config.profiles.push(
            ProfileModel {
                id: id,
                name: name,
                profile_type: ProfileType::User,
                path: user_profile_file(id),
                url: None,
                last_fetch_time: None,
                last_fetch_status: None,
                last_modified_time: Some(now),
            },
        ),
        active_user_profile_id: match config.active_user_profile_id {
            Some(active) => Some(active),
            None => Some(id),
        },
        ..config
    }
}

/// Adds a user profile under the given id.
pub fn add_user_profile(config: &mut AppConfig, id: &str, name: &str, now: &str) -> (r:
    UserProfileSummary)
    ensures
        final(config)@ == with_user_profile(old(config)@, id@, name@, now@),
        summary_of(final(config)@, final(config)@.profiles.last()) == Some(r@),
{
    let ghost before = config@;
    let profile = ProfileMeta {
        id: id.to_owned(),
        name: name.to_owned(),
        profile_type: ProfileType::User,
        path: user_profile_path(id),
        url: None,
        last_fetch_time: None,
        last_fetch_status: None,
        last_modified_time: Some(now.to_owned()),
    };
    if config.active_user_profile_id.is_none() {
        config.active_user_profile_id = Some(id.to_owned());
    }
    let copy = profile.copy();
    config.profiles.push(profile);
    assert(config@.profiles =~= before.profiles.push(copy@));
    match to_user_profile_summary(config, &copy) {
        Some(row) => row,
        None => UserProfileSummary {
            id: String::new(),
            name: String::new(),
            is_active: false,
            last_modified_time: None,
        },
    }
}

/// What adding a user profile gives: how the panel lists the profile, and
/// what is to be written to the profile's file.
#[derive(Debug)]
pub struct CreatedUserProfile {
    pub summary: UserProfileSummary,
    pub content: String,
}

/// Adds a user profile under a fresh identifier, after checking its content.
/// A content that is not YAML is refused and leaves the configuration as it
/// is. The new profile becomes the active one where none was.
pub fn create_user_profile(config: &mut AppConfig, body: &CreateUserProfileRequest, now: &str) -> (r:
    Result<CreatedUserProfile, ErrorCode>)
    ensures
        match stored_content(body.content@) {
            None => r == Err::<CreatedUserProfile, ErrorCode>(ErrorCode::UserProfileInvalidYaml)
                && final(config)@ == old(config)@,
            Some(text) => r matches Ok(created) && {
                &&& created.content@ == text
                &&& created.summary@.id.len() == 36
                &&& final(config)@ == with_user_profile(
                    old(config)@,
                    created.summary@.id,
                    body.name@,
                    now@,
                )
                &&& summary_of(final(config)@, final(config)@.profiles.last()) == Some(
                    created.summary@,
                )
            },
        },
{
    match check_profile_content(body.content.as_str()) {
        Err(_) => Err(ErrorCode::UserProfileInvalidYaml),
        Ok(content) => {
            let id = new_uuid();
            let summary = add_user_profile(config, id.as_str(), body.name.as_str(), now);
            Ok(CreatedUserProfile { summary, content })
        },
    }
}

/// Changes the name of the first user profile with the id, after checking
/// the new content. The detail that comes back holds what is to be written
/// to the profile's file.
pub fn update_user_profile(
    config: &mut AppConfig,
    id: &str,
    body: &UpdateUserProfileRequest,
    now: &str,
) -> (r: Result<UserProfileDetail, ErrorCode>)
    ensures
        match stored_content(body.content@) {
            None => r == Err::<UserProfileDetail, ErrorCode>(ErrorCode::UserProfileInvalidYaml)
                && final(config)@ == old(config)@,
            Some(text) => match profile_index(old(config)@.profiles, ProfileType::User, id@) {
                None => r == Err::<UserProfileDetail, ErrorCode>(ErrorCode::UserProfileNotFound)
                    && final(config)@ == old(config)@,
                Some(i) => {
                    &&& final(config)@ == ConfigModel {
                        profiles: old(config)@.profiles.update(
                            i,
                            ProfileModel {
                                name: body.name@,
                                last_modified_time: Some(now@),
                                ..old(config)@.profiles[i]
                            },
                        ),
                        ..old(config)@
                    }
                    &&& r matches Ok(detail)
                    &&& detail.id@ == id@
                    &&& detail.name@ == body.name@
                    &&& detail.is_active == (old(config)@.active_user_profile_id == Some(id@))
                    &&& opt_text(detail.last_modified_time) == Some(now@)
                    &&& detail.content@ == text
                },
            },
        },
{
    let ghost before = config@;
    let content = match check_profile_content(body.content.as_str()) {
        Err(_) => {
            return Err(ErrorCode::UserProfileInvalidYaml);
        },
        Ok(content) => content,
    };
    match find_profile(&config.profiles, ProfileType::User, id) {
        None => Err(ErrorCode::UserProfileNotFound),
        Some(i) => {
            assert(before.profiles[i as int] == config.profiles[i as int]@);
            let mut profile = config.profiles[i].copy();
            profile.name = body.name.clone();
            profile.last_modified_time = Some(now.to_owned());
            let detail = UserProfileDetail {
                id: profile.id.clone(),
                name: profile.name.clone(),
                is_active: opt_is(&config.active_user_profile_id, profile.id.as_str()),
                last_modified_time: copy_opt(&profile.last_modified_time),
                content,
            };
            let ghost changed = profile@;
            config.profiles.set(i, profile);
            assert(config@.profiles =~= before.profiles.update(i as int, changed));
            Ok(detail)
        },
    }
}

/// The configuration without the user profiles of an id. Where the active
/// user profile goes, none is active.
pub open spec fn without_user_profile(config: ConfigModel, id: Seq<char>) -> ConfigModel {
    let left = without(config.profiles, ProfileType::User, id);
    if left.len() == config.profiles.len() {
        config
    } else {
        ConfigModel {
            profiles: left,
            active_user_profile_id: if config.active_user_profile_id == Some(id) {
                None
            } else {
                config.active_user_profile_id
            },
            ..config
        }
    }
}

/// Takes out the user profiles with the id. Where the active user profile
/// goes, none is active.
pub fn delete_user_profile(config: &mut AppConfig, id: &str) -> (r: Result<(), ErrorCode>)
    ensures
        final(config)@ == without_user_profile(old(config)@, id@),
        r is Ok <==> (exists|j: int|
            0 <= j < old(config)@.profiles.len() && (#[trigger] old(config)@.profiles[j]).is(
                ProfileType::User,
                id@,
            )),
        r matches Err(e) ==> e == ErrorCode::UserProfileNotFound,
{
    proof {
        crate::config::lemma_without_len(config@.profiles, ProfileType::User, id@);
    }
    let removed = remove_profiles(&mut config.profiles, ProfileType::User, id);
    if !removed {
        return Err(ErrorCode::UserProfileNotFound);
    }
    if opt_is(&config.active_user_profile_id, id) {
        config.active_user_profile_id = None;
    }
    Ok(())
}

/// Makes the user profile with the id the active one.
pub fn activate_user_profile(config: &mut AppConfig, id: &str) -> (r: Result<(), ErrorCode>)
    ensures
        match profile_index(old(config)@.profiles, ProfileType::User, id@) {
            None => r == Err::<(), ErrorCode>(ErrorCode::UserProfileNotFound) && final(config)@
                == old(config)@,
            Some(_) => r is Ok && final(config)@ == ConfigModel {
                active_user_profile_id: Some(id@),
                ..old(config)@
            },
        },
{
    match find_profile(&config.profiles, ProfileType::User, id) {
        None => Err(ErrorCode::UserProfileNotFound),
        Some(_) => {
            config.active_user_profile_id = Some(id.to_owned());
            Ok(())
        },
    }
}

/// Why the documents to compose could not be named.
#[derive(Clone, Copy, PartialEq, Eq, Structural, Debug)]
pub enum SourceError {
    /// The active subscription is not among the remote profiles.
    ActiveSubscriptionNotFound,
    /// The active user profile is not among the user profiles.
    ActiveUserProfileNotFound,
}

/// The relative path of the active profile of a kind: nothing where none is
/// active, and no answer where the active id is not among the profiles of
/// that kind.
pub open spec fn active_path(config: ConfigModel, kind: ProfileType) -> Option<Option<Seq<char>>> {
    let active = if kind == ProfileType::Remote {
        config.active_subscription_id
    } else {
        config.active_user_profile_id
    };
    match active {
        None => Some(None),
        Some(id) => match profile_index(config.profiles, kind, id) {
            Some(i) => Some(Some(config.profiles[i].path)),
            None => None,
        },
    }
}

/// The relative paths of the two documents that are composed: that of the
/// active subscription and that of the active user profile.
pub fn merged_config_sources(config: &AppConfig) -> (r: Result<
    (Option<String>, Option<String>),
    SourceError,
>)
    ensures
        match active_path(config@, ProfileType::Remote) {
            None => r == Err::<(Option<String>, Option<String>), SourceError>(
                SourceError::ActiveSubscriptionNotFound,
            ),
            Some(remote) => match active_path(config@, ProfileType::User) {
                None => r == Err::<(Option<String>, Option<String>), SourceError>(
                    SourceError::ActiveUserProfileNotFound,
                ),
                Some(user) => r matches Ok(paths) && opt_text(paths.0) == remote && opt_text(
                    paths.1,
                ) == user,
            },
        },
{
    let remote = match &config.active_subscription_id {
        None => None,
        Some(id) => match find_profile(&config.profiles, ProfileType::Remote, id.as_str()) {
            None => {
                return Err(SourceError::ActiveSubscriptionNotFound);
            },
            Some(i) => {
                assert(config@.profiles[i as int] == config.profiles[i as int]@);
                Some(config.profiles[i].path.clone())
            },
        },
    };
    let user = match &config.active_user_profile_id {
        None => None,
        Some(id) => match find_profile(&config.profiles, ProfileType::User, id.as_str()) {
            None => {
                return Err(SourceError::ActiveUserProfileNotFound);
            },
            Some(i) => {
                assert(config@.profiles[i as int] == config.profiles[i as int]@);
                Some(config.profiles[i].path.clone())
            },
        },
    };
    Ok((remote, user))
}

/// Why the engine's configuration could not be composed from the active
/// profiles.
#[derive(Debug)]
pub enum GenerateError {
    /// An active id points at no profile of its kind.
    Source(SourceError),
    /// The documents could not be composed.
    Compose(ComposeError),
}

/// The text of a profile's file as it counts for the composition: it counts
/// only where a profile of the kind is active.
pub open spec fn counted<'a>(config: ConfigModel, kind: ProfileType, text: Option<&'a str>) -> Option<
    &'a str,
> {
    match active_path(config, kind) {
        Some(Some(_)) => text,
        _ => None::<&'a str>,
    }
}

/// Composes the engine's configuration from the active profiles: the text of
/// the active subscription's file as the base, the text of the active user
/// profile's file as the overlay, and the defaults over the two. An active id
/// that points at no profile of its kind is reported before any text is
/// read; a text counts only where a profile of its kind is active.
pub fn compose_active_profiles(
    config: &AppConfig,
    base: Option<&str>,
    over: Option<&str>,
    defaults: Option<&str>,
) -> (r: Result<String, GenerateError>)
    ensures
        match active_path(config@, ProfileType::Remote) {
            None => r matches Err(GenerateError::Source(e)) && e
                == SourceError::ActiveSubscriptionNotFound,
            Some(_) => match active_path(config@, ProfileType::User) {
                None => r matches Err(GenerateError::Source(e)) && e
                    == SourceError::ActiveUserProfileNotFound,
                Some(_) => match r {
                    Ok(text) => composes_to(
                        counted(config@, ProfileType::Remote, base),
                        counted(config@, ProfileType::User, over),
                        defaults,
                        Ok(text),
                    ),
                    Err(GenerateError::Compose(e)) => composes_to(
                        counted(config@, ProfileType::Remote, base),
                        counted(config@, ProfileType::User, over),
                        defaults,
                        Err(e),
                    ),
                    Err(GenerateError::Source(_)) => false,
                },
            },
        },
{
    let sources = match merged_config_sources(config) {
        Ok(paths) => paths,
        Err(e) => {
            return Err(GenerateError::Source(e));
        },
    };
    let base_text = match sources.0 {
        Some(_) => base,
        None => None,
    };
    let over_text = match sources.1 {
        Some(_) => over,
        None => None,
    };
    match generate_merged_config(base_text, over_text, defaults) {
        Ok(text) => Ok(text),
        Err(e) => Err(GenerateError::Compose(e)),
    }
}

/// Adding, removing and activating user profiles keep the active ids valid:
/// the active subscription stays a remote profile and the active user
/// profile a user profile.
pub proof fn law_user_profiles_keep_active_ids_valid(
    config: ConfigModel,
    id: Seq<char>,
    name: Seq<char>,
    now: Seq<char>,
)
    requires
        config.active_ids_valid(),
    ensures
        with_user_profile(config, id, name, now).active_ids_valid(),
        without_user_profile(config, id).active_ids_valid(),
        config.has_profile(ProfileType::User, id) ==> (ConfigModel {
            active_user_profile_id: Some(id),
            ..config
        }).active_ids_valid(),
{
    let added = with_user_profile(config, id, name, now);
    let last = added.profiles.len() - 1;
    assert(added.profiles[last].is(ProfileType::User, id));
    assert(added.has_profile(ProfileType::User, id));
    if config.active_user_profile_id is Some {
        let active = config.active_user_profile_id->0;
        let i = choose|i: int|
            0 <= i < config.profiles.len() && (#[trigger] config.profiles[i]).is(
                ProfileType::User,
                active,
            );
        assert(added.profiles[i].is(ProfileType::User, active));
        assert(added.has_profile(ProfileType::User, active));
    }
    if config.active_subscription_id is Some {
        let active = config.active_subscription_id->0;
        let i = choose|i: int|
            0 <= i < config.profiles.len() && (#[trigger] config.profiles[i]).is(
                ProfileType::Remote,
                active,
            );
        assert(added.profiles[i].is(ProfileType::Remote, active));
        assert(added.has_profile(ProfileType::Remote, active));
    }
    let removed = without_user_profile(config, id);
    let left = without(config.profiles, ProfileType::User, id);
    if left.len() != config.profiles.len() {
        assert(removed.profiles == left);
        if removed.active_user_profile_id is Some {
            let active = removed.active_user_profile_id->0;
            if config.active_user_profile_id == Some(id) {
                assert(removed.active_user_profile_id is None);
            } else {
                let i = choose|i: int|
                    0 <= i < config.profiles.len() && (#[trigger] config.profiles[i]).is(
                        ProfileType::User,
                        active,
                    );
                crate::config::lemma_without_keeps(config.profiles, ProfileType::User, id, i);
                let k = choose|k: int| 0 <= k < left.len() && #[trigger] left[k] == config.profiles[i];
                assert(removed.profiles[k].is(ProfileType::User, active));
                assert(removed.has_profile(ProfileType::User, active));
            }
        }
        if removed.active_subscription_id is Some {
            let active = removed.active_subscription_id->0;
            let i = choose|i: int|
                0 <= i < config.profiles.len() && (#[trigger] config.profiles[i]).is(
                    ProfileType::Remote,
                    active,
                );
            crate::config::lemma_without_keeps(config.profiles, ProfileType::User, id, i);
            let k = choose|k: int| 0 <= k < left.len() && #[trigger] left[k] == config.profiles[i];
            assert(removed.profiles[k].is(ProfileType::Remote, active));
            assert(removed.has_profile(ProfileType::Remote, active));
        }
    }
    if config.has_profile(ProfileType::User, id) {
        let activated = ConfigModel { active_user_profile_id: Some(id), ..config };
        let i = choose|i: int|
            0 <= i < config.profiles.len() && (#[trigger] config.profiles[i]).is(
                ProfileType::User,
                id,
            );
        assert(activated.profiles[i].is(ProfileType::User, id));
        assert(activated.has_profile(ProfileType::User, id));
        if config.active_subscription_id is Some {
            let active = config.active_subscription_id->0;
            let j = choose|j: int|
                0 <= j < config.profiles.len() && (#[trigger] config.profiles[j]).is(
                    ProfileType::Remote,
                    active,
                );
            assert(activated.profiles[j].is(ProfileType::Remote, active));
            assert(activated.has_profile(ProfileType::Remote, active));
        }
    }
}

} // verus!