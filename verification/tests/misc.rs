use camofy::api::ErrorCode;
use camofy::app::AuthSession;
use camofy::auth::api_auth_middleware;
use camofy::auth::apply_settings;
use camofy::auth::auth_login;
use camofy::auth::get_settings;
use camofy::auth::login;
use camofy::auth::prune_sessions;
use camofy::auth::token_from_query;
use camofy::auth::update_settings;
use camofy::auth::validate_token;
use camofy::auth::AuthLoginRequest;
use camofy::auth::PasswordCheck;
use camofy::auth::UpdateSettingsRequest;
use camofy::config::AppConfig;
use camofy::config::ScheduledTaskConfig;
use camofy::events::reload_core_if_running;
use camofy::events::AppEvent;
use camofy::events::ConfigChangeReason;
use camofy::events::CoreOperationKind;
use camofy::events::CoreOperationState;
use camofy::events::CoreOperationStatus;
use camofy::events::CoreReloadResult;
use camofy::paths::app_config_path;
use camofy::paths::core_binary_path;
use camofy::paths::core_defaults_path;
use camofy::paths::core_dir;
use camofy::paths::core_meta_path;
use camofy::paths::core_pid_path;
use camofy::paths::data_root;
use camofy::paths::geoip_target_path;
use camofy::paths::geoip_tmp_path;
use camofy::paths::join;
use camofy::paths::merged_config_path;
use camofy::paths::mihomo_log_path;
use camofy::paths::profile_file_path;
use camofy::paths::server_addr_from_env;
use camofy::paths::subscription_dir;
use camofy::scheduler::execute_task;
use camofy::scheduler::record_run_state;
use camofy::scheduler::run_task_loop;
use camofy::scheduler::task_config;
use camofy::scheduler::task_config_mut;
use camofy::scheduler::task_flag;
use camofy::scheduler::task_name;
use camofy::scheduler::TaskFlags;
use camofy::scheduler::TaskKind;
use camofy::scheduler::TaskLockGuard;
use camofy::scheduler::TaskPlan;
use camofy::scheduler::TaskRunState;
use camofy::text::blank_text;
use camofy::text::chars_of;
use camofy::text::contains;
use camofy::text::decimal_text;
use camofy::text::ends_with;
use camofy::text::eq_ignore_ascii_case;
use camofy::text::parse_number;
use camofy::text::parse_u32;
use camofy::text::same_text;
use camofy::text::split_chars;
use camofy::text::split_words;
use camofy::text::starts_with;
use camofy::text::string_of;
use camofy::text::trim_text;
use camofy::ws::events_ws;
use camofy::ws::handle_socket;
use camofy::ws::RelayAction;
use camofy::ws::SocketInput;

fn chars(s: &str) -> Vec<char> {
    s.chars().collect()
}

fn strings(parts: Vec<Vec<char>>) -> Vec<String> {
    parts.into_iter().map(|p| p.into_iter().collect()).collect()
}

fn task(cron: &str, enabled: bool) -> ScheduledTaskConfig {
    ScheduledTaskConfig {
        cron: cron.to_string(),
        enabled,
        last_run_time: None,
        last_run_status: None,
        last_run_message: None,
    }
}

fn session(token: &str, expires_at: u64) -> AuthSession {
    AuthSession { token: token.to_string(), expires_at }
}

fn tokens(sessions: &[AuthSession]) -> Vec<String> {
    sessions.iter().map(|s| s.token.clone()).collect()
}

#[test]
fn text_round_trips_through_characters() {
    assert_eq!(chars_of("héllo"), chars("héllo"));
    assert_eq!(string_of(&chars("héllo")), "héllo");
    assert!(chars_of("").is_empty());
    assert!(same_text("a", "a"));
    assert!(!same_text("a", "b"));
}

#[test]
fn trimming_follows_unicode_white_space() {
    assert_eq!(trim_text("  a b \t\r\n"), "a b");
    assert_eq!(trim_text("\u{a0}\u{3000}x\u{2028}\u{85}"), "x");
    assert_eq!(trim_text("\u{200b}x"), "\u{200b}x");
    assert_eq!(trim_text(""), "");
    assert!(blank_text(" \n\u{2003}"));
    assert!(!blank_text(" . "));
    for c in ['\u{9}', '\u{d}', ' ', '\u{85}', '\u{a0}', '\u{1680}', '\u{2000}', '\u{200a}', '\u{2029}', '\u{202f}', '\u{205f}', '\u{3000}', '\u{8}', '\u{e}', '\u{200b}', '\u{180e}', '\u{feff}'] {
        assert_eq!(camofy::text::is_space_char(c), c.is_whitespace());
    }
}

#[test]
fn splitting_and_words() {
    assert_eq!(strings(split_chars(&chars("a,b,,c"), ',')), vec!["a", "b", "", "c"]);
    assert_eq!(strings(split_chars(&chars(""), ',')), vec![""]);
    assert_eq!(strings(split_chars(&chars(","), ',')), vec!["", ""]);
    assert_eq!(strings(split_words(&chars("  a  bc\td \n"))), vec!["a", "bc", "d"]);
    assert!(split_words(&chars(" \t")).is_empty());
}

#[test]
fn numbers_are_read_as_rust_reads_them() {
    for text in ["0", "7", "007", "+7", "4294967295", "4294967296", "", "+", "-1", "1 ", " 1", "1a", "99999999999999999999", "٣"] {
        assert_eq!(parse_u32(&chars(text)), text.parse::<u32>().ok(), "{text}");
    }
    for text in ["0", "ff", "FF", "+1f", "g", "", "ffffffffffffffff", "10000000000000000"] {
        assert_eq!(parse_number(&chars(text), 16, u64::MAX), u64::from_str_radix(text, 16).ok(), "{text}");
    }
    assert_eq!(parse_number(&chars("256"), 10, 255), None);
    assert_eq!(parse_number(&chars("255"), 10, 255), Some(255));
    assert_eq!(parse_number(&chars("19"), 8, 255), None);
}

#[test]
fn decimal_texts() {
    assert_eq!(decimal_text(0), "0");
    assert_eq!(decimal_text(1234567890), "1234567890");
}

#[test]
fn prefixes_suffixes_and_parts() {
    assert!(starts_with("armv7l", "armv7"));
    assert!(!starts_with("arm", "armv7"));
    assert!(starts_with("x", ""));
    assert!(ends_with("a.tar.gz", ".gz"));
    assert!(!ends_with("gz", ".gz"));
    assert!(contains("x-mihomo-y", "mihomo"));
    assert!(contains("mihomo", "mihomo"));
    assert!(!contains("mihom", "mihomo"));
    assert!(contains("abc", ""));
    assert!(eq_ignore_ascii_case("URLTest", "urltest"));
    assert!(!eq_ignore_ascii_case("URLTest", "urltests"));
    assert!(!eq_ignore_ascii_case("é", "É"));
}

#[test]
fn paths_under_the_data_root() {
    assert_eq!(join("/a", "b"), "/a/b");
    assert_eq!(join("/a/", "b"), "/a/b");
    assert_eq!(join("", "b"), "/b");
    assert_eq!(core_dir("/r"), "/r/core");
    assert_eq!(core_binary_path("/r"), "/r/core/mihomo");
    assert_eq!(core_meta_path("/r"), "/r/core/core.meta.json");
    assert_eq!(core_pid_path("/r"), "/r/core/mihomo.pid");
    assert_eq!(mihomo_log_path("/r"), "/r/log/mihomo.log");
    assert_eq!(geoip_target_path("/r"), "/r/config/geoip.metadb");
    assert_eq!(geoip_tmp_path("/r"), "/r/tmp/geoip.metadb.tmp");
    assert_eq!(app_config_path("/r"), "/r/config/app.json");
    assert_eq!(merged_config_path("/r"), "/r/config/merged.yaml");
    assert_eq!(core_defaults_path("/r"), "/r/config/core-defaults.yaml");
    assert_eq!(subscription_dir("/r", "id"), "/r/config/subscriptions/id");
    assert_eq!(profile_file_path("/r", "user-profiles/u.yaml"), "/r/config/user-profiles/u.yaml");
}

#[test]
fn data_root_and_address() {
    assert_eq!(data_root(true, Some("/home/u")), "/jffs/camofy");
    assert_eq!(data_root(false, Some("/home/u")), "/home/u/.local/share/camofy");
    assert_eq!(data_root(false, None), "/jffs/camofy");
    assert_eq!(server_addr_from_env(None, None), "0.0.0.0:3000");
    assert_eq!(server_addr_from_env(Some("127.0.0.1"), Some("8080")), "127.0.0.1:8080");
    assert_eq!(server_addr_from_env(Some("h"), Some("bad")), "h:3000");
}

#[test]
fn directories_of_a_fresh_installation() {
    assert_eq!(camofy::app::init_data_dirs("/r"), vec!["/r", "/r/config", "/r/core", "/r/log", "/r/tmp"]);
    assert_eq!(
        camofy::engine::get_core_status(&camofy::engine::PidFile::Content("8".to_string()), true),
        camofy::engine::CoreStatusDto { running: true, pid: Some(8) }
    );
}

#[test]
fn task_names_and_configurations() {
    assert_eq!(task_name(TaskKind::UpdateSubscriptions), "subscription_auto_update");
    assert_eq!(task_name(TaskKind::UpdateGeoip), "geoip_auto_update");
    let mut config = AppConfig::default();
    assert!(task_config(&config, TaskKind::UpdateGeoip).is_none());
    config.geoip_auto_update = Some(task("1 2 * * *", true));
    assert_eq!(task_config(&config, TaskKind::UpdateGeoip).expect("task").cron, "1 2 * * *");
    assert!(task_config(&config, TaskKind::UpdateSubscriptions).is_none());
    let blank = task_config_mut(&mut config, TaskKind::UpdateSubscriptions);
    assert_eq!(blank.cron, "");
    assert!(!blank.enabled);
    assert!(config.subscription_auto_update.is_some());
    assert_eq!(task_config_mut(&mut config, TaskKind::UpdateGeoip).cron, "1 2 * * *");
}

#[test]
fn one_run_of_a_task_at_a_time() {
    let mut flags = TaskFlags { subscriptions_running: false, geoip_running: false };
    let first = TaskLockGuard::lock(&mut flags, TaskKind::UpdateGeoip);
    assert!(first.is_acquired());
    assert!(task_flag(&flags, TaskKind::UpdateGeoip));
    assert!(!task_flag(&flags, TaskKind::UpdateSubscriptions));
    let second = TaskLockGuard::lock(&mut flags, TaskKind::UpdateGeoip);
    assert!(!second.is_acquired());
    let other = TaskLockGuard::lock(&mut flags, TaskKind::UpdateSubscriptions);
    assert!(other.is_acquired());
    second.release(&mut flags);
    assert!(task_flag(&flags, TaskKind::UpdateGeoip));
    first.release(&mut flags);
    assert!(!task_flag(&flags, TaskKind::UpdateGeoip));
    assert!(task_flag(&flags, TaskKind::UpdateSubscriptions));
    other.release(&mut flags);
    assert_eq!(flags, TaskFlags { subscriptions_running: false, geoip_running: false });
}

#[test]
fn run_outcomes() {
    assert!(matches!(execute_task(true, Ok(())), TaskRunState::Success));
    assert!(matches!(execute_task(false, Ok(())), TaskRunState::Skipped(m) if m == "already running"));
    assert!(matches!(
        execute_task(true, Err("skipped:  no_active_subscription ".to_string())),
        TaskRunState::Skipped(m) if m == "no_active_subscription"
    ));
    assert!(matches!(
        execute_task(true, Err("Skipped: x".to_string())),
        TaskRunState::Failed(m) if m == "Skipped: x"
    ));
    assert!(matches!(execute_task(true, Err("boom".to_string())), TaskRunState::Failed(m) if m == "boom"));
}

#[test]
fn runs_are_recorded() {
    let mut config = AppConfig::default();
    config.subscription_auto_update = Some(task("0 3 * * *", true));
    record_run_state(&mut config, TaskKind::UpdateSubscriptions, &TaskRunState::Failed("why".to_string()), "10");
    let t = config.subscription_auto_update.as_ref().expect("task");
    assert_eq!(t.cron, "0 3 * * *");
    assert!(t.enabled);
    assert_eq!(t.last_run_time.as_deref(), Some("10"));
    assert_eq!(t.last_run_status.as_deref(), Some("error"));
    assert_eq!(t.last_run_message.as_deref(), Some("why"));
    record_run_state(&mut config, TaskKind::UpdateSubscriptions, &TaskRunState::Success, "11");
    let t = config.subscription_auto_update.as_ref().expect("task");
    assert_eq!(t.last_run_status.as_deref(), Some("ok"));
    assert!(t.last_run_message.is_none());
    record_run_state(&mut config, TaskKind::UpdateGeoip, &TaskRunState::Skipped("s".to_string()), "12");
    let g = config.geoip_auto_update.as_ref().expect("task");
    assert_eq!(g.cron, "");
    assert!(!g.enabled);
    assert_eq!(g.last_run_status.as_deref(), Some("skipped"));
    assert_eq!(g.last_run_message.as_deref(), Some("s"));
    assert_eq!(g.last_run_time.as_deref(), Some("12"));
}

#[test]
fn task_loop_plans() {
    let mut config = AppConfig::default();
    assert!(matches!(run_task_loop(&config, TaskKind::UpdateGeoip, 0), TaskPlan::Idle));
    config.geoip_auto_update = Some(task("* * * * *", false));
    assert!(matches!(run_task_loop(&config, TaskKind::UpdateGeoip, 0), TaskPlan::Idle));
    config.geoip_auto_update = Some(task("   ", true));
    assert!(matches!(run_task_loop(&config, TaskKind::UpdateGeoip, 0), TaskPlan::Idle));
    config.geoip_auto_update = Some(task(" * * * * * ", true));
    assert!(matches!(run_task_loop(&config, TaskKind::UpdateGeoip, 1_700_000_000), TaskPlan::RunAfter { secs: 60 }));
    config.geoip_auto_update = Some(task("*/5 * * *", true));
    assert!(matches!(
        run_task_loop(&config, TaskKind::UpdateGeoip, 0),
        TaskPlan::Misconfigured(TaskRunState::Failed(m)) if m == "invalid cron expression: cron expression must have 5 fields"
    ));
    config.geoip_auto_update = Some(task("61-x * * * *", true));
    assert!(matches!(
        run_task_loop(&config, TaskKind::UpdateGeoip, 0),
        TaskPlan::Misconfigured(TaskRunState::Failed(m)) if m == "invalid cron expression: invalid range end in cron field"
    ));
    config.geoip_auto_update = Some(task("0 0 30 2 *", true));
    assert!(matches!(
        run_task_loop(&config, TaskKind::UpdateGeoip, 1_700_000_000),
        TaskPlan::Misconfigured(TaskRunState::Failed(m)) if m == "failed to compute next run time from cron expression"
    ));
    assert!(matches!(run_task_loop(&config, TaskKind::UpdateSubscriptions, 0), TaskPlan::Idle));
}

#[test]
fn run_plans_from_the_search() {
    let fields = camofy::cron::TimeFields { minute: 0, hour: 0, day: 1, month: 1, weekday: 0 };
    let found = camofy::cron::Firing { unix_seconds: 1000, fields };
    assert!(matches!(camofy::scheduler::plan_run(400, Some(found)), TaskPlan::RunAfter { secs: 600 }));
    assert!(matches!(camofy::scheduler::plan_run(999, Some(found)), TaskPlan::RunAfter { secs: 1 }));
    assert!(matches!(camofy::scheduler::plan_run(1000, Some(found)), TaskPlan::RunAfter { secs: 60 }));
    assert!(matches!(camofy::scheduler::plan_run(2000, Some(found)), TaskPlan::RunAfter { secs: 60 }));
    assert!(matches!(
        camofy::scheduler::plan_run(i64::MIN, Some(found)),
        TaskPlan::RunAfter { secs: 9223372036854776808 }
    ));
    assert!(matches!(
        camofy::scheduler::plan_run(0, None),
        TaskPlan::Misconfigured(TaskRunState::Failed(m)) if m == "failed to compute next run time from cron expression"
    ));
}

#[test]
fn misconfigured_cron_is_recorded_as_an_error() {
    let mut config = AppConfig::default();
    config.subscription_auto_update = Some(task("bad", true));
    match run_task_loop(&config, TaskKind::UpdateSubscriptions, 0) {
        TaskPlan::Misconfigured(state) => record_run_state(&mut config, TaskKind::UpdateSubscriptions, &state, "5"),
        _ => panic!("expected a misconfigured task"),
    }
    let t = config.subscription_auto_update.as_ref().expect("task");
    assert_eq!(t.last_run_status.as_deref(), Some("error"));
    assert_eq!(t.cron, "bad");
}

#[test]
fn sessions_expire() {
    let mut sessions = vec![session("a", 10), session("b", 20), session("c", 11)];
    prune_sessions(&mut sessions, 10);
    assert_eq!(tokens(&sessions), vec!["b", "c"]);
    assert!(validate_token(&mut sessions, "c", 10));
    assert!(!validate_token(&mut sessions, "a", 10));
    assert!(!validate_token(&mut sessions, "c", 11));
    assert_eq!(tokens(&sessions), vec!["b"]);
    assert!(validate_token(&mut sessions, "b", 19));
    assert!(!validate_token(&mut sessions, "b", 20));
    assert!(sessions.is_empty());
}

#[test]
fn token_in_the_query() {
    assert_eq!(token_from_query("token=abc"), Some("abc".to_string()));
    assert_eq!(token_from_query("a=1&token=x=y&token=z"), Some("x=y".to_string()));
    assert_eq!(token_from_query("token="), Some(String::new()));
    assert_eq!(token_from_query("a=1&xtoken=2"), None);
    assert_eq!(token_from_query(""), None);
}

#[test]
fn auth_bootstrap() {
    let mut config = AppConfig::default();
    let mut sessions: Vec<AuthSession> = Vec::new();
    assert_eq!(api_auth_middleware(&config, "/subscriptions", None, None, &mut sessions, 100), Ok(()));

    let body = UpdateSettingsRequest {
        password: Some("hunter2".to_string()),
        subscription_auto_update: None,
        geoip_auto_update: None,
    };
    let dto = update_settings(&mut config, body).expect("settings");
    assert!(dto.password_set);
    let stored = config.panel_password_hash.clone().expect("hash");
    assert_ne!(stored, "hunter2");
    assert!(stored.starts_with("$argon2"));

    assert_eq!(
        api_auth_middleware(&config, "/subscriptions", None, None, &mut sessions, 100),
        Err(ErrorCode::Unauthorized)
    );
    assert_eq!(api_auth_middleware(&config, "/health", None, None, &mut sessions, 100), Ok(()));
    assert_eq!(api_auth_middleware(&config, "/auth/login", None, None, &mut sessions, 100), Ok(()));

    let wrong = AuthLoginRequest { password: "hunter3".to_string() };
    assert_eq!(auth_login(&mut config, &mut sessions, &wrong, 100).err(), Some(ErrorCode::AuthInvalidPassword));
    assert!(sessions.is_empty());
    let right = AuthLoginRequest { password: "hunter2".to_string() };
    let response = auth_login(&mut config, &mut sessions, &right, 100).expect("login");
    assert_eq!(response.expires_at, 100 + 8 * 60 * 60);
    assert_eq!(response.token.len(), 36);
    assert_eq!(sessions.len(), 1);

    assert_eq!(
        api_auth_middleware(&config, "/subscriptions", Some(&response.token), None, &mut sessions, 200),
        Ok(())
    );
    let query = format!("a=b&token={}", response.token);
    assert_eq!(
        api_auth_middleware(&config, "/events/ws", None, Some(&query), &mut sessions, 200),
        Ok(())
    );
    assert_eq!(
        api_auth_middleware(&config, "/subscriptions", Some("other"), Some(&query), &mut sessions, 200),
        Err(ErrorCode::Unauthorized)
    );
    assert_eq!(
        api_auth_middleware(&config, "/subscriptions", Some(&response.token), None, &mut sessions, 100 + 28800),
        Err(ErrorCode::Unauthorized)
    );
    assert!(sessions.is_empty());
}

#[test]
fn passwords_are_trimmed_and_salted() {
    let mut config = AppConfig::default();
    let blank = UpdateSettingsRequest {
        password: Some("  ".to_string()),
        subscription_auto_update: Some(task("1 1 * * *", true)),
        geoip_auto_update: None,
    };
    assert_eq!(update_settings(&mut config, blank).err(), Some(ErrorCode::SettingsInvalidPassword));
    assert!(config.subscription_auto_update.is_none());
    let padded = UpdateSettingsRequest {
        password: Some(" pw ".to_string()),
        subscription_auto_update: Some(task("1 1 * * *", true)),
        geoip_auto_update: None,
    };
    update_settings(&mut config, padded).expect("settings");
    assert_eq!(config.subscription_auto_update.as_ref().expect("task").cron, "1 1 * * *");
    let first = config.panel_password_hash.clone().expect("hash");
    let mut sessions = Vec::new();
    assert!(auth_login(&mut config, &mut sessions, &AuthLoginRequest { password: "pw".to_string() }, 0).is_ok());
    assert_eq!(
        auth_login(&mut config, &mut sessions, &AuthLoginRequest { password: " pw ".to_string() }, 0).err(),
        Some(ErrorCode::AuthInvalidPassword)
    );
    let again = UpdateSettingsRequest {
        password: Some("pw".to_string()),
        subscription_auto_update: None,
        geoip_auto_update: None,
    };
    update_settings(&mut config, again).expect("settings");
    assert_ne!(config.panel_password_hash.clone().expect("hash"), first);
    assert_eq!(config.subscription_auto_update.as_ref().expect("task").cron, "1 1 * * *");
}

#[test]
fn login_without_or_with_a_broken_password() {
    let mut config = AppConfig::default();
    let mut sessions = vec![session("old", 5)];
    let body = AuthLoginRequest { password: "x".to_string() };
    assert_eq!(auth_login(&mut config, &mut sessions, &body, 10).err(), Some(ErrorCode::AuthPasswordNotSet));
    config.panel_password_hash = Some("not a hash".to_string());
    assert_eq!(
        auth_login(&mut config, &mut sessions, &body, 10).err(),
        Some(ErrorCode::AuthInvalidPasswordStore)
    );
    assert!(config.panel_password_hash.is_none());
    assert_eq!(tokens(&sessions), vec!["old"]);
    assert_eq!(api_auth_middleware(&config, "/x", None, None, &mut sessions, 10), Ok(()));
}

#[test]
fn login_decisions() {
    let mut config = AppConfig::default();
    config.panel_password_hash = Some("h".to_string());
    let mut sessions = vec![session("old", 5), session("kept", 50)];
    assert_eq!(
        login(&mut config, &mut sessions, PasswordCheck::Mismatch, "t".to_string(), 10).err(),
        Some(ErrorCode::AuthInvalidPassword)
    );
    assert_eq!(tokens(&sessions), vec!["old", "kept"]);
    let ok = login(&mut config, &mut sessions, PasswordCheck::Valid, "t".to_string(), 10).expect("login");
    assert_eq!(ok.token, "t");
    assert_eq!(ok.expires_at, 28810);
    assert_eq!(tokens(&sessions), vec!["kept", "t"]);
    assert_eq!(sessions[1].expires_at, 28810);
}

#[test]
fn settings_are_shown_and_applied() {
    let mut config = AppConfig::default();
    let shown = get_settings(&config);
    assert!(!shown.password_set);
    assert!(shown.subscription_auto_update.is_none());
    let dto = apply_settings(&mut config, Some("h".to_string()), None, Some(task("2 2 * * *", false)));
    assert!(dto.password_set);
    assert_eq!(dto.geoip_auto_update.expect("task").cron, "2 2 * * *");
    assert!(dto.subscription_auto_update.is_none());
    let dto = apply_settings(&mut config, None, Some(task("3 3 * * *", true)), None);
    assert!(dto.password_set);
    assert_eq!(config.panel_password_hash.as_deref(), Some("h"));
    assert_eq!(config.geoip_auto_update.as_ref().expect("task").cron, "2 2 * * *");
    assert_eq!(dto.subscription_auto_update.expect("task").cron, "3 3 * * *");
}

#[test]
fn reload_is_reported_in_two_events() {
    let (result, applied, status) =
        reload_core_if_running(ConfigChangeReason::UserProfileUpdated, true, Some(7), Err("no".to_string()), "9");
    assert!(matches!(result, CoreReloadResult::ReloadFailed { message } if message == "no"));
    assert!(matches!(
        applied,
        AppEvent::ConfigApplied { reason: ConfigChangeReason::UserProfileUpdated, core_reload: CoreReloadResult::ReloadFailed { .. }, timestamp } if timestamp == "9"
    ));
    assert!(matches!(status, AppEvent::CoreStatusChanged { running: true, pid: Some(7), timestamp } if timestamp == "9"));
    let (result, _, status) =
        reload_core_if_running(ConfigChangeReason::Other, false, None, Err("unused".to_string()), "9");
    assert!(matches!(result, CoreReloadResult::NotRunning));
    assert!(matches!(status, AppEvent::CoreStatusChanged { running: false, pid: None, .. }));
    let (result, _, _) = reload_core_if_running(ConfigChangeReason::Other, true, Some(1), Ok(()), "9");
    assert!(matches!(result, CoreReloadResult::Reloaded));
}

#[test]
fn new_connection_gets_a_snapshot() {
    let events = events_ws(false, None, &None, "3");
    assert_eq!(events.len(), 1);
    assert!(matches!(&events[0], AppEvent::CoreStatusChanged { running: false, pid: None, timestamp } if timestamp == "3"));
    let state = CoreOperationState {
        kind: CoreOperationKind::Start,
        status: CoreOperationStatus::Running,
        message: None,
        progress: None,
        started_at: "1".to_string(),
        finished_at: None,
    };
    let events = events_ws(true, Some(4), &Some(state), "3");
    assert_eq!(events.len(), 2);
    assert!(matches!(&events[0], AppEvent::CoreStatusChanged { running: true, pid: Some(4), .. }));
    assert!(matches!(&events[1], AppEvent::CoreOperationUpdated { state } if state.started_at == "1"));
}

#[test]
fn relay_decisions() {
    assert_eq!(handle_socket(SocketInput::Closed), RelayAction::End);
    assert_eq!(handle_socket(SocketInput::Frame), RelayAction::Continue);
    assert_eq!(handle_socket(SocketInput::ReceiveFailed), RelayAction::End);
    assert_eq!(handle_socket(SocketInput::Event), RelayAction::Send);
    assert_eq!(handle_socket(SocketInput::EventUnwritable), RelayAction::Continue);
    assert_eq!(handle_socket(SocketInput::Lagged), RelayAction::Continue);
    assert_eq!(handle_socket(SocketInput::BusClosed), RelayAction::End);
    assert_eq!(handle_socket(SocketInput::SendFailed), RelayAction::End);
}

#[test]
fn error_codes_have_stable_tags() {
    assert_eq!(ErrorCode::Unauthorized.code(), "unauthorized");
    assert_eq!(ErrorCode::CoreOperationInProgress.code(), "core_operation_in_progress");
    assert_eq!(ErrorCode::CoreAlreadyRunning.code(), "core_already_running");
    assert_eq!(ErrorCode::SubscriptionUrlMissing.code(), "subscription_url_missing");
    assert_eq!(ErrorCode::UserProfileInvalidYaml.code(), "user_profile_invalid_yaml");
    assert_eq!(ErrorCode::MihomoDelayProxyFailed.code(), "mihomo_delay_proxy_failed");
    assert_eq!(ErrorCode::CoreResolveDownloadUrlFailed.code(), "core_resolve_download_url_failed");
}
