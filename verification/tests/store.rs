use camofy::api::ErrorCode;
use camofy::app::current_timestamp;
use camofy::app::server_port;
use camofy::config::apply_app_config_defaults;
use camofy::config::get_app_config_snapshot;
use camofy::config::AppConfig;
use camofy::config::ProfileMeta;
use camofy::config::ProfileType;
use camofy::config::ProxySelectionRecord;
use camofy::config::ProxySelectionSet;
use camofy::config::ScheduledTaskConfig;
use camofy::selection::get_proxy_selections_for_active_profile;
use camofy::selection::update_proxy_selection_for_current_profile;
use camofy::subscriptions::activate_subscription;
use camofy::subscriptions::add_subscription;
use camofy::subscriptions::auto_update_subscriptions;
use camofy::subscriptions::create_subscription;
use camofy::subscriptions::delete_subscription;
use camofy::subscriptions::fetch_subscription;
use camofy::subscriptions::fetch_subscription_url;
use camofy::subscriptions::list_subscriptions;
use camofy::subscriptions::to_subscription_dto;
use camofy::subscriptions::update_subscription;
use camofy::subscriptions::CreateSubscriptionRequest;
use camofy::subscriptions::FetchOutcome;
use camofy::subscriptions::UpdateSubscriptionRequest;
use camofy::user_profiles::activate_user_profile;
use camofy::user_profiles::add_user_profile;
use camofy::user_profiles::check_profile_content;
use camofy::user_profiles::create_user_profile;
use camofy::user_profiles::delete_user_profile;
use camofy::user_profiles::get_user_profile;
use camofy::user_profiles::list_user_profiles;
use camofy::user_profiles::merged_config_sources;
use camofy::user_profiles::to_user_profile_summary;
use camofy::user_profiles::update_user_profile;
use camofy::user_profiles::user_profile_path;
use camofy::user_profiles::CreateUserProfileRequest;
use camofy::user_profiles::SourceError;
use camofy::user_profiles::UpdateUserProfileRequest;

fn pairs(records: &[ProxySelectionRecord]) -> Vec<(String, String)> {
    records.iter().map(|r| (r.group.clone(), r.node.clone())).collect()
}

fn pair(g: &str, n: &str) -> (String, String) {
    (g.to_string(), n.to_string())
}

fn sub(name: &str, url: &str) -> CreateSubscriptionRequest {
    CreateSubscriptionRequest { name: name.to_string(), url: url.to_string() }
}

#[test]
fn defaults_give_both_tasks_a_daily_schedule() {
    let mut config = AppConfig::default();
    assert!(config.subscription_auto_update.is_none());
    apply_app_config_defaults(&mut config);
    let task = config.subscription_auto_update.as_ref().expect("task");
    assert_eq!(task.cron, "0 3 * * *");
    assert!(task.enabled);
    assert!(task.last_run_time.is_none());
    let geoip = config.geoip_auto_update.as_ref().expect("task");
    assert_eq!(geoip.cron, "0 3 * * *");
    assert!(geoip.enabled);
}

#[test]
fn defaults_keep_what_is_set() {
    let mut config = AppConfig::default();
    config.geoip_auto_update = Some(ScheduledTaskConfig {
        cron: "5 4 * * *".to_string(),
        enabled: false,
        last_run_time: Some("1".to_string()),
        last_run_status: None,
        last_run_message: None,
    });
    apply_app_config_defaults(&mut config);
    apply_app_config_defaults(&mut config);
    let geoip = config.geoip_auto_update.as_ref().expect("task");
    assert_eq!(geoip.cron, "5 4 * * *");
    assert!(!geoip.enabled);
    assert_eq!(geoip.last_run_time.as_deref(), Some("1"));
    assert_eq!(config.subscription_auto_update.as_ref().expect("task").cron, "0 3 * * *");
}

#[test]
fn snapshot_copies_everything() {
    let mut config = AppConfig::default();
    add_subscription(&mut config, "s1", &sub("one", "http://x"));
    update_proxy_selection_for_current_profile(&mut config, "G", "A");
    config.panel_password_hash = Some("h".to_string());
    config.core_auto_start = true;
    let copy = get_app_config_snapshot(&config);
    assert_eq!(copy.profiles.len(), 1);
    assert_eq!(copy.profiles[0].id, "s1");
    assert_eq!(copy.profiles[0].url.as_deref(), Some("http://x"));
    assert_eq!(copy.active_subscription_id.as_deref(), Some("s1"));
    assert_eq!(copy.panel_password_hash.as_deref(), Some("h"));
    assert!(copy.core_auto_start);
    assert_eq!(pairs(&copy.proxy_selections[0].selections), vec![pair("G", "A")]);
}

#[test]
fn timestamps_are_decimal_seconds() {
    assert_eq!(current_timestamp(0), "0");
    assert_eq!(current_timestamp(9), "9");
    assert_eq!(current_timestamp(10), "10");
    assert_eq!(current_timestamp(1717376400), "1717376400");
    assert_eq!(current_timestamp(u64::MAX), "18446744073709551615");
}

#[test]
fn port_from_the_environment() {
    assert_eq!(server_port(None), 3000);
    assert_eq!(server_port(Some("8080")), 8080);
    assert_eq!(server_port(Some("65535")), 65535);
    assert_eq!(server_port(Some("65536")), 3000);
    assert_eq!(server_port(Some("x")), 3000);
    assert_eq!(server_port(Some("")), 3000);
}

#[test]
fn record_creates_a_set_for_the_active_pair() {
    let mut config = AppConfig::default();
    config.active_subscription_id = Some("S1".to_string());
    config.active_user_profile_id = Some("U1".to_string());
    assert!(get_proxy_selections_for_active_profile(&config).is_none());
    update_proxy_selection_for_current_profile(&mut config, "G", "B");
    assert_eq!(config.proxy_selections.len(), 1);
    assert_eq!(config.proxy_selections[0].subscription_id.as_deref(), Some("S1"));
    assert_eq!(config.proxy_selections[0].user_profile_id.as_deref(), Some("U1"));
    let loaded = get_proxy_selections_for_active_profile(&config).expect("set");
    assert_eq!(pairs(&loaded), vec![pair("G", "B")]);
}

#[test]
fn record_updates_or_appends() {
    let mut config = AppConfig::default();
    update_proxy_selection_for_current_profile(&mut config, "G", "A");
    update_proxy_selection_for_current_profile(&mut config, "H", "X");
    update_proxy_selection_for_current_profile(&mut config, "G", "B");
    let loaded = get_proxy_selections_for_active_profile(&config).expect("set");
    assert_eq!(pairs(&loaded), vec![pair("G", "B"), pair("H", "X")]);
    assert_eq!(config.proxy_selections.len(), 1);
    assert!(config.proxy_selections[0].subscription_id.is_none());
}

#[test]
fn sets_are_kept_apart_by_the_active_pair() {
    let mut config = AppConfig::default();
    update_proxy_selection_for_current_profile(&mut config, "G", "A");
    config.active_subscription_id = Some("S1".to_string());
    update_proxy_selection_for_current_profile(&mut config, "G", "B");
    config.active_user_profile_id = Some("U1".to_string());
    update_proxy_selection_for_current_profile(&mut config, "G", "C");
    assert_eq!(config.proxy_selections.len(), 3);
    assert_eq!(
        pairs(&get_proxy_selections_for_active_profile(&config).expect("set")),
        vec![pair("G", "C")]
    );
    config.active_user_profile_id = None;
    assert_eq!(
        pairs(&get_proxy_selections_for_active_profile(&config).expect("set")),
        vec![pair("G", "B")]
    );
    config.active_subscription_id = None;
    assert_eq!(
        pairs(&get_proxy_selections_for_active_profile(&config).expect("set")),
        vec![pair("G", "A")]
    );
}

#[test]
fn first_set_of_a_pair_is_the_current_one() {
    let mut config = AppConfig::default();
    config.proxy_selections.push(ProxySelectionSet {
        subscription_id: None,
        user_profile_id: None,
        selections: vec![ProxySelectionRecord { group: "G".to_string(), node: "A".to_string() }],
    });
    config.proxy_selections.push(ProxySelectionSet {
        subscription_id: None,
        user_profile_id: None,
        selections: vec![ProxySelectionRecord { group: "G".to_string(), node: "Z".to_string() }],
    });
    update_proxy_selection_for_current_profile(&mut config, "G", "B");
    assert_eq!(pairs(&config.proxy_selections[0].selections), vec![pair("G", "B")]);
    assert_eq!(pairs(&config.proxy_selections[1].selections), vec![pair("G", "Z")]);
}

#[test]
fn first_subscription_becomes_active() {
    let mut config = AppConfig::default();
    let first = add_subscription(&mut config, "a", &sub("A", "http://a"));
    assert!(first.is_active);
    assert_eq!(first.id, "a");
    assert_eq!(first.url, "http://a");
    let second = add_subscription(&mut config, "b", &sub("B", "http://b"));
    assert!(!second.is_active);
    assert_eq!(config.active_subscription_id.as_deref(), Some("a"));
    assert_eq!(config.profiles[1].path, "subscriptions/b/subscription.yaml");
    assert_eq!(config.profiles[1].profile_type, ProfileType::Remote);
    assert!(config.profiles[1].last_fetch_status.is_none());
}

#[test]
fn created_subscriptions_get_fresh_ids() {
    let mut config = AppConfig::default();
    let one = create_subscription(&mut config, &sub("A", "http://a"));
    let two = create_subscription(&mut config, &sub("B", "http://b"));
    assert_eq!(one.id.len(), 36);
    assert_eq!(two.id.len(), 36);
    assert_ne!(one.id, two.id);
    assert_eq!(config.active_subscription_id.as_deref(), Some(one.id.as_str()));
    assert_eq!(config.profiles[0].path, format!("subscriptions/{}/subscription.yaml", one.id));
}

#[test]
fn listing_shows_remote_profiles_only() {
    let mut config = AppConfig::default();
    add_subscription(&mut config, "a", &sub("A", "http://a"));
    add_user_profile(&mut config, "u", "U", "5");
    add_subscription(&mut config, "b", &sub("B", "http://b"));
    let subs = list_subscriptions(&config).subscriptions;
    assert_eq!(subs.iter().map(|s| s.id.as_str()).collect::<Vec<&str>>(), vec!["a", "b"]);
    assert!(subs[0].is_active && !subs[1].is_active);
    let users = list_user_profiles(&config).user_profiles;
    assert_eq!(users.iter().map(|s| s.id.as_str()).collect::<Vec<&str>>(), vec!["u"]);
    assert!(users[0].is_active);
    assert_eq!(users[0].last_modified_time.as_deref(), Some("5"));
    assert!(to_subscription_dto(&config, &config.profiles[1]).is_none());
    assert!(to_user_profile_summary(&config, &config.profiles[0]).is_none());
    let no_url = ProfileMeta {
        id: "x".to_string(),
        name: "X".to_string(),
        profile_type: ProfileType::Remote,
        path: String::new(),
        url: None,
        last_fetch_time: None,
        last_fetch_status: None,
        last_modified_time: None,
    };
    assert_eq!(to_subscription_dto(&config, &no_url).expect("dto").url, "");
}

#[test]
fn update_subscription_changes_name_and_url() {
    let mut config = AppConfig::default();
    add_subscription(&mut config, "a", &sub("A", "http://a"));
    let body = UpdateSubscriptionRequest { name: "N".to_string(), url: "http://n".to_string() };
    let dto = update_subscription(&mut config, "a", &body).expect("dto");
    assert_eq!(dto.name, "N");
    assert_eq!(dto.url, "http://n");
    assert!(dto.is_active);
    assert_eq!(config.profiles[0].name, "N");
    assert_eq!(config.profiles[0].path, "subscriptions/a/subscription.yaml");
    assert_eq!(update_subscription(&mut config, "zz", &body).err(), Some(ErrorCode::SubscriptionNotFound));
}

#[test]
fn deleting_the_active_subscription_activates_the_next() {
    let mut config = AppConfig::default();
    add_subscription(&mut config, "a", &sub("A", "http://a"));
    add_user_profile(&mut config, "u", "U", "5");
    add_subscription(&mut config, "b", &sub("B", "http://b"));
    assert_eq!(delete_subscription(&mut config, "zz").err(), Some(ErrorCode::SubscriptionNotFound));
    assert_eq!(config.profiles.len(), 3);
    assert!(delete_subscription(&mut config, "a").is_ok());
    assert_eq!(config.active_subscription_id.as_deref(), Some("b"));
    assert_eq!(config.profiles.len(), 2);
    assert!(delete_subscription(&mut config, "b").is_ok());
    assert!(config.active_subscription_id.is_none());
    assert_eq!(config.profiles.len(), 1);
    assert_eq!(config.active_user_profile_id.as_deref(), Some("u"));
}

#[test]
fn deleting_another_subscription_keeps_the_active_one() {
    let mut config = AppConfig::default();
    add_subscription(&mut config, "a", &sub("A", "http://a"));
    add_subscription(&mut config, "b", &sub("B", "http://b"));
    assert!(delete_subscription(&mut config, "b").is_ok());
    assert_eq!(config.active_subscription_id.as_deref(), Some("a"));
    assert_eq!(delete_subscription(&mut config, "u").err(), Some(ErrorCode::SubscriptionNotFound));
}

#[test]
fn activation_needs_a_profile_of_the_kind() {
    let mut config = AppConfig::default();
    add_subscription(&mut config, "a", &sub("A", "http://a"));
    add_subscription(&mut config, "b", &sub("B", "http://b"));
    add_user_profile(&mut config, "u", "U", "5");
    add_user_profile(&mut config, "v", "V", "6");
    assert!(activate_subscription(&mut config, "b").is_ok());
    assert_eq!(config.active_subscription_id.as_deref(), Some("b"));
    assert_eq!(activate_subscription(&mut config, "u").err(), Some(ErrorCode::SubscriptionNotFound));
    assert_eq!(config.active_subscription_id.as_deref(), Some("b"));
    assert!(activate_user_profile(&mut config, "v").is_ok());
    assert_eq!(config.active_user_profile_id.as_deref(), Some("v"));
    assert_eq!(activate_user_profile(&mut config, "a").err(), Some(ErrorCode::UserProfileNotFound));
}

#[test]
fn fetch_outcomes_are_recorded() {
    let mut config = AppConfig::default();
    add_subscription(&mut config, "a", &sub("A", "http://a"));
    assert_eq!(fetch_subscription_url(&config, "a").ok().as_deref(), Some("http://a"));
    assert_eq!(fetch_subscription_url(&config, "b").err(), Some(ErrorCode::SubscriptionNotFound));
    config.profiles[0].url = None;
    assert_eq!(fetch_subscription_url(&config, "a").err(), Some(ErrorCode::SubscriptionUrlMissing));

    assert_eq!(
        fetch_subscription(&mut config, "a", FetchOutcome::RequestFailed, "10").err(),
        Some(ErrorCode::SubscriptionFetchFailed)
    );
    assert_eq!(config.profiles[0].last_fetch_status.as_deref(), Some("request_failed"));
    assert!(config.profiles[0].last_fetch_time.is_none());
    assert_eq!(
        fetch_subscription(&mut config, "a", FetchOutcome::BodyReadFailed, "11").err(),
        Some(ErrorCode::SubscriptionFetchFailed)
    );
    assert_eq!(config.profiles[0].last_fetch_status.as_deref(), Some("body_read_failed"));
    assert_eq!(
        fetch_subscription(&mut config, "a", FetchOutcome::WriteFailed, "12").err(),
        Some(ErrorCode::SubscriptionSaveFailed)
    );
    assert_eq!(config.profiles[0].last_fetch_status.as_deref(), Some("write_failed"));
    assert!(fetch_subscription(&mut config, "a", FetchOutcome::Fetched, "13").is_ok());
    assert_eq!(config.profiles[0].last_fetch_status.as_deref(), Some("ok"));
    assert_eq!(config.profiles[0].last_fetch_time.as_deref(), Some("13"));
    assert_eq!(
        fetch_subscription(&mut config, "a", FetchOutcome::RequestFailed, "14").err(),
        Some(ErrorCode::SubscriptionFetchFailed)
    );
    assert_eq!(config.profiles[0].last_fetch_time.as_deref(), Some("13"));
    assert!(fetch_subscription(&mut config, "gone", FetchOutcome::Fetched, "15").is_ok());
}

#[test]
fn periodic_update_targets_the_active_subscription() {
    let mut config = AppConfig::default();
    assert!(auto_update_subscriptions(&config).is_none());
    add_subscription(&mut config, "a", &sub("A", "http://a"));
    assert_eq!(auto_update_subscriptions(&config).as_deref(), Some("a"));
}

#[test]
fn profile_content_is_checked() {
    assert_eq!(check_profile_content("").ok().as_deref(), Some("# empty user profile\n"));
    assert_eq!(check_profile_content(" \n ").ok().as_deref(), Some("# empty user profile\n"));
    assert_eq!(check_profile_content(" a: 1 \n").ok().as_deref(), Some(" a: 1 \n"));
    assert!(!check_profile_content("a: [").err().expect("message").is_empty());
}

#[test]
fn user_profiles_are_created_with_checked_content() {
    let mut config = AppConfig::default();
    let body = CreateUserProfileRequest { name: "U".to_string(), content: "mode: global".to_string() };
    let created = create_user_profile(&mut config, &body, "77").expect("created");
    assert_eq!(created.content, "mode: global");
    assert_eq!(created.summary.name, "U");
    assert!(created.summary.is_active);
    assert_eq!(created.summary.id.len(), 36);
    assert_eq!(created.summary.last_modified_time.as_deref(), Some("77"));
    assert_eq!(config.profiles[0].path, user_profile_path(&created.summary.id));
    assert_eq!(config.profiles[0].path, format!("user-profiles/{}.yaml", created.summary.id));
    assert_eq!(config.profiles[0].profile_type, ProfileType::User);

    let blank = CreateUserProfileRequest { name: "V".to_string(), content: String::new() };
    let second = create_user_profile(&mut config, &blank, "78").expect("created");
    assert_eq!(second.content, "# empty user profile\n");
    assert!(!second.summary.is_active);

    let bad = CreateUserProfileRequest { name: "W".to_string(), content: "a: [".to_string() };
    assert_eq!(create_user_profile(&mut config, &bad, "79").err(), Some(ErrorCode::UserProfileInvalidYaml));
    assert_eq!(config.profiles.len(), 2);
}

#[test]
fn user_profiles_are_updated_and_read() {
    let mut config = AppConfig::default();
    add_user_profile(&mut config, "u", "U", "5");
    add_user_profile(&mut config, "v", "V", "6");
    let body = UpdateUserProfileRequest { name: "N".to_string(), content: "x: 1".to_string() };
    let detail = update_user_profile(&mut config, "v", &body, "9").expect("detail");
    assert_eq!(detail.id, "v");
    assert_eq!(detail.name, "N");
    assert!(!detail.is_active);
    assert_eq!(detail.last_modified_time.as_deref(), Some("9"));
    assert_eq!(detail.content, "x: 1");
    assert_eq!(config.profiles[1].name, "N");
    assert_eq!(config.profiles[1].last_modified_time.as_deref(), Some("9"));
    assert_eq!(config.profiles[0].name, "U");

    let bad = UpdateUserProfileRequest { name: "B".to_string(), content: "x: [".to_string() };
    assert_eq!(update_user_profile(&mut config, "v", &bad, "10").err(), Some(ErrorCode::UserProfileInvalidYaml));
    assert_eq!(update_user_profile(&mut config, "zz", &bad, "10").err(), Some(ErrorCode::UserProfileInvalidYaml));
    assert_eq!(update_user_profile(&mut config, "zz", &body, "10").err(), Some(ErrorCode::UserProfileNotFound));
    assert_eq!(config.profiles[1].name, "N");

    let read = get_user_profile(&config, "u", "text".to_string()).expect("detail");
    assert_eq!(read.name, "U");
    assert!(read.is_active);
    assert_eq!(read.content, "text");
    assert_eq!(get_user_profile(&config, "zz", String::new()).err(), Some(ErrorCode::UserProfileNotFound));
}

#[test]
fn deleting_the_active_user_profile_clears_it() {
    let mut config = AppConfig::default();
    add_user_profile(&mut config, "u", "U", "5");
    add_user_profile(&mut config, "v", "V", "6");
    assert!(delete_user_profile(&mut config, "v").is_ok());
    assert_eq!(config.active_user_profile_id.as_deref(), Some("u"));
    assert!(delete_user_profile(&mut config, "u").is_ok());
    assert!(config.active_user_profile_id.is_none());
    assert_eq!(delete_user_profile(&mut config, "u").err(), Some(ErrorCode::UserProfileNotFound));
    assert!(config.profiles.is_empty());
}

#[test]
fn sources_of_the_composition() {
    let mut config = AppConfig::default();
    assert_eq!(merged_config_sources(&config), Ok((None, None)));
    add_subscription(&mut config, "a", &sub("A", "http://a"));
    add_user_profile(&mut config, "u", "U", "5");
    assert_eq!(
        merged_config_sources(&config),
        Ok((
            Some("subscriptions/a/subscription.yaml".to_string()),
            Some("user-profiles/u.yaml".to_string())
        ))
    );
    config.active_user_profile_id = Some("a".to_string());
    assert_eq!(merged_config_sources(&config), Err(SourceError::ActiveUserProfileNotFound));
    config.active_subscription_id = Some("u".to_string());
    assert_eq!(merged_config_sources(&config), Err(SourceError::ActiveSubscriptionNotFound));
}

#[test]
fn configuration_at_startup() {
    let fresh = camofy::config::load_app_config(camofy::config::ConfigRead::Missing).expect("fresh");
    assert!(fresh.profiles.is_empty());
    assert_eq!(fresh.subscription_auto_update.as_ref().expect("task").cron, "0 3 * * *");
    assert_eq!(fresh.geoip_auto_update.as_ref().expect("task").cron, "0 3 * * *");
    let mut stored = AppConfig::default();
    stored.core_auto_start = true;
    stored.geoip_auto_update = Some(ScheduledTaskConfig {
        cron: "1 1 * * *".to_string(),
        enabled: false,
        last_run_time: None,
        last_run_status: None,
        last_run_message: None,
    });
    let loaded = camofy::config::load_app_config(camofy::config::ConfigRead::Parsed(stored)).expect("stored");
    assert!(loaded.core_auto_start);
    assert_eq!(loaded.geoip_auto_update.as_ref().expect("task").cron, "1 1 * * *");
    assert!(loaded.subscription_auto_update.as_ref().expect("task").enabled);
    assert_eq!(
        camofy::config::load_app_config(camofy::config::ConfigRead::Unparseable("bad json".to_string())).err(),
        Some("bad json".to_string())
    );
    assert_eq!(
        camofy::config::load_app_config(camofy::config::ConfigRead::Unreadable("denied".to_string())).err(),
        Some("denied".to_string())
    );
}

#[test]
fn composition_from_the_active_profiles() {
    let mut config = AppConfig::default();
    let plain = camofy::user_profiles::compose_active_profiles(&config, Some("a: 1"), Some("b: 2"), Some("c: 3"));
    assert_eq!(plain.ok().as_deref(), Some("c: 3\n"));
    add_subscription(&mut config, "s", &sub("S", "http://s"));
    let based = camofy::user_profiles::compose_active_profiles(&config, Some("a: 1"), Some("b: 2"), None);
    assert_eq!(based.ok().as_deref(), Some("a: 1\n"));
    add_user_profile(&mut config, "u", "U", "5");
    let both = camofy::user_profiles::compose_active_profiles(&config, Some("a: 1"), Some("b: 2"), Some("c: 3"));
    assert_eq!(both.ok().as_deref(), Some("a: 1\nb: 2\nc: 3\n"));
    let broken = camofy::user_profiles::compose_active_profiles(&config, Some("a: ["), None, None);
    assert!(matches!(
        broken,
        Err(camofy::user_profiles::GenerateError::Compose(camofy::compose::ComposeError::BaseUnreadable(_)))
    ));
    config.active_user_profile_id = Some("x".to_string());
    let lost = camofy::user_profiles::compose_active_profiles(&config, Some("a: ["), Some("b: ["), None);
    assert!(matches!(
        lost,
        Err(camofy::user_profiles::GenerateError::Source(SourceError::ActiveUserProfileNotFound))
    ));
    config.active_subscription_id = Some("x".to_string());
    let lost = camofy::user_profiles::compose_active_profiles(&config, None, None, None);
    assert!(matches!(
        lost,
        Err(camofy::user_profiles::GenerateError::Source(SourceError::ActiveSubscriptionNotFound))
    ));
}
